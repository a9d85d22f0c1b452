//! Byte-level text helpers: leading whitespace, runs of decimal digits and
//! the integer notations that the element-set fields are written in.

use vstd::prelude::*;
use vstd::slice::slice_subrange;

verus! {

/// The five bytes that count as ASCII whitespace: space, horizontal tab,
/// line feed, form feed and carriage return.
pub open spec fn is_whitespace(b: u8) -> bool {
    b == 0x20 || b == 0x09 || b == 0x0a || b == 0x0c || b == 0x0d
}

/// Number of whitespace bytes at the front of `s`.
pub open spec fn leading_whitespace(s: Seq<u8>) -> nat
    decreases s.len(),
{
    if s.len() > 0 && is_whitespace(s[0]) {
        1 + leading_whitespace(s.drop_first())
    } else {
        0
    }
}

/// `s` without its leading whitespace.
pub open spec fn trim_start(s: Seq<u8>) -> Seq<u8> {
    s.skip(leading_whitespace(s) as int)
}

/// Whether `b` is ASCII whitespace.
pub fn is_ascii_whitespace(b: u8) -> (r: bool)
    ensures
        r == is_whitespace(b),
{
    b == 0x20 || b == 0x09 || b == 0x0a || b == 0x0c || b == 0x0d
}

/// Drops the leading ASCII whitespace of `bytes`.
pub fn trim_ascii_start(bytes: &[u8]) -> (r: &[u8])
    ensures
        r@ == trim_start(bytes@),
        r@.len() <= bytes@.len(),
{
    let mut i: usize = 0;
    assert(bytes@.skip(0) =~= bytes@);
    while i < bytes.len() && is_ascii_whitespace(bytes[i])
        invariant
            i <= bytes.len(),
            leading_whitespace(bytes@) == i + leading_whitespace(bytes@.skip(i as int)),
        decreases bytes.len() - i,
    {
        proof {
            let rest = bytes@.skip(i as int);
            assert(rest[0] == bytes@[i as int]);
            assert(rest.drop_first() =~= bytes@.skip(i + 1));
        }
        i += 1;
    }
    proof {
        let rest = bytes@.skip(i as int);
        if i < bytes.len() {
            assert(rest[0] == bytes@[i as int]);
        }
        assert(leading_whitespace(rest) == 0);
        assert(bytes@.subrange(i as int, bytes@.len() as int) =~= bytes@.skip(i as int));
    }
    slice_subrange(bytes, i, bytes.len())
}

/// Whether `b` is one of the digits `0` to `9`.
pub open spec fn is_digit(b: u8) -> bool {
    0x30 <= b <= 0x39
}

/// Whether `s` holds digits only.
pub open spec fn all_digits(s: Seq<u8>) -> bool {
    forall|i: int| 0 <= i < s.len() ==> is_digit(#[trigger] s[i])
}

/// The number written by the digits of `acc` followed by the decimal digits
/// `s`, most significant first.
pub open spec fn append_digits(acc: nat, s: Seq<u8>) -> nat
    decreases s.len(),
{
    if s.len() == 0 {
        acc
    } else {
        append_digits(acc, s.drop_last()) * 10 + (s.last() - 0x30) as nat
    }
}

/// The number that the decimal digits `s` write, most significant first.
pub open spec fn digits_value(s: Seq<u8>) -> nat {
    append_digits(0, s)
}

/// Number of consecutive digits of `s` that start at index `from`.
pub open spec fn digit_run(s: Seq<u8>, from: int) -> nat
    decreases s.len() - from,
{
    if 0 <= from < s.len() && is_digit(s[from]) {
        1 + digit_run(s, from + 1)
    } else {
        0
    }
}

/// A run of digits lies inside the text, holds digits only, and ends
/// before a byte that is no digit.
pub proof fn lemma_digit_run(s: Seq<u8>, from: int)
    requires
        0 <= from <= s.len(),
    ensures
        from + digit_run(s, from) <= s.len(),
        all_digits(s.subrange(from, from + digit_run(s, from))),
        from + digit_run(s, from) < s.len() ==> !is_digit(s[from + digit_run(s, from)]),
    decreases s.len() - from,
{
    if from < s.len() && is_digit(s[from]) {
        lemma_digit_run(s, from + 1);
        let n = digit_run(s, from);
        let sub = s.subrange(from, from + n);
        let tail = s.subrange(from + 1, from + n);
        assert forall|i: int| 0 <= i < sub.len() implies is_digit(#[trigger] sub[i]) by {
            if i > 0 {
                assert(sub[i] == tail[i - 1]);
            }
        }
    }
}

proof fn lemma_all_digits_drop_last(s: Seq<u8>)
    requires
        all_digits(s),
        s.len() > 0,
    ensures
        all_digits(s.drop_last()),
        is_digit(s.last()),
{
    let t = s.drop_last();
    assert forall|i: int| 0 <= i < t.len() implies is_digit(#[trigger] t[i]) by {
        assert(t[i] == s[i]);
    }
    assert(is_digit(s[s.len() - 1]));
}

/// A longer digit string writes a number that is at least as large as any
/// of its prefixes.
pub proof fn lemma_append_digits_prefix(acc: nat, s: Seq<u8>, k: int)
    requires
        all_digits(s),
        0 <= k <= s.len(),
    ensures
        acc <= append_digits(acc, s.take(k)) <= append_digits(acc, s),
    decreases s.len(),
{
    if k == s.len() {
        assert(s.take(k) =~= s);
        if k > 0 {
            lemma_all_digits_drop_last(s);
            lemma_append_digits_prefix(acc, s.drop_last(), k - 1);
        }
    } else {
        lemma_all_digits_drop_last(s);
        lemma_append_digits_prefix(acc, s.drop_last(), k);
        assert(s.drop_last().take(k) =~= s.take(k));
    }
}

/// Reading `a` and then `b` is reading their concatenation.
pub proof fn lemma_append_digits_concat(acc: nat, a: Seq<u8>, b: Seq<u8>)
    ensures
        append_digits(append_digits(acc, a), b) == append_digits(acc, a + b),
    decreases b.len(),
{
    if b.len() == 0 {
        assert(a + b =~= a);
    } else {
        lemma_append_digits_concat(acc, a, b.drop_last());
        assert((a + b).drop_last() =~= a + b.drop_last());
        assert((a + b).last() == b.last());
    }
}

/// The `n`-th power of ten.
pub open spec fn pow10(n: nat) -> nat
    decreases n,
{
    if n == 0 {
        1
    } else {
        10 * pow10((n - 1) as nat)
    }
}

/// `n` digits write a number below the `n`-th power of ten.
pub proof fn lemma_digits_value_bound(s: Seq<u8>)
    requires
        all_digits(s),
    ensures
        digits_value(s) < pow10(s.len()),
    decreases s.len(),
{
    if s.len() > 0 {
        lemma_all_digits_drop_last(s);
        lemma_digits_value_bound(s.drop_last());
    }
}

/// Powers of ten are positive and grow with the exponent.
pub proof fn lemma_pow10_increases(a: nat, b: nat)
    requires
        a <= b,
    ensures
        0 < pow10(a) <= pow10(b),
    decreases b,
{
    if a < b {
        lemma_pow10_increases(a, (b - 1) as nat);
    } else if a > 0 {
        lemma_pow10_increases((a - 1) as nat, (a - 1) as nat);
    }
}

/// The two powers of ten that bound the digits of a short text.
pub proof fn lemma_pow10_values()
    ensures
        pow10(17) == 100000000000000000,
        pow10(19) == 10000000000000000000,
{
    reveal_with_fuel(pow10, 20);
}

/// Reads the run of digits that starts at `from`, continuing the number
/// `acc`. Gives the index behind the run, and the number read unless it is
/// above `limit`.
pub fn scan_digits(bytes: &[u8], from: usize, acc: u128, limit: u128) -> (r: (
    usize,
    Option<u128>,
))
    requires
        from <= bytes.len(),
        acc <= limit,
        limit < 0x1_0000_0000_0000_0000_0000_0000_0000,
    ensures
        r.0 == from + digit_run(bytes@, from as int),
        r.0 <= bytes.len(),
        r.1 == if append_digits(acc as nat, bytes@.subrange(from as int, r.0 as int)) <= limit {
            Some(append_digits(acc as nat, bytes@.subrange(from as int, r.0 as int)) as u128)
        } else {
            None
        },
{
    let mut i: usize = from;
    let mut value: u128 = acc;
    let mut over: bool = false;
    assert(bytes@.subrange(from as int, from as int) =~= Seq::<u8>::empty());
    while i < bytes.len() && 0x30 <= bytes[i] && bytes[i] <= 0x39
        invariant
            from <= i <= bytes.len(),
            acc <= limit,
            limit < 0x1_0000_0000_0000_0000_0000_0000_0000,
            digit_run(bytes@, from as int) == (i - from) + digit_run(bytes@, i as int),
            !over ==> value == append_digits(acc as nat, bytes@.subrange(from as int, i as int))
                && value <= limit,
            over ==> append_digits(acc as nat, bytes@.subrange(from as int, i as int)) > limit,
        decreases bytes.len() - i,
    {
        let d: u128 = (bytes[i] - 0x30) as u128;
        proof {
            let next = bytes@.subrange(from as int, i + 1);
            assert(next.drop_last() =~= bytes@.subrange(from as int, i as int));
            assert(next.last() == bytes@[i as int]);
        }
        if !over {
            let wide: u128 = value * 10 + d;
            if wide > limit {
                over = true;
            } else {
                value = wide;
            }
        }
        i += 1;
    }
    if over {
        (i, None)
    } else {
        (i, Some(value))
    }
}

/// The digits of an unsigned number: the text without an optional leading
/// plus sign.
pub open spec fn unsigned_digits(s: Seq<u8>) -> Seq<u8> {
    if s.len() > 0 && s[0] == 0x2b {
        s.skip(1)
    } else {
        s
    }
}

/// Whether `s` writes an unsigned integer: an optional plus sign and then
/// one or more digits, nothing else.
pub open spec fn is_unsigned_text(s: Seq<u8>) -> bool {
    unsigned_digits(s).len() > 0 && all_digits(unsigned_digits(s))
}

/// The unsigned integer that `s` writes, where `is_unsigned_text(s)`.
pub open spec fn unsigned_value(s: Seq<u8>) -> nat {
    digits_value(unsigned_digits(s))
}

/// Reads an unsigned integer that must fill the whole of `bytes` and be at
/// most `max`.
pub fn parse_unsigned(bytes: &[u8], max: u64) -> (r: Option<u64>)
    ensures
        r == if is_unsigned_text(bytes@) && unsigned_value(bytes@) <= max {
            Some(unsigned_value(bytes@) as u64)
        } else {
            None::<u64>
        },
{
    let start: usize = if bytes.len() > 0 && bytes[0] == 0x2b {
        1
    } else {
        0
    };
    let (end, value) = scan_digits(bytes, start, 0, max as u128);
    proof {
        lemma_digit_run(bytes@, start as int);
        let digits = unsigned_digits(bytes@);
        assert(digits =~= bytes@.skip(start as int));
        if end == bytes.len() {
            assert(bytes@.subrange(start as int, end as int) =~= digits);
        } else {
            assert(digits[end - start] == bytes@[end as int]);
        }
    }
    if end == start || end != bytes.len() {
        return None;
    }
    match value {
        Some(number) => Some(number as u64),
        None => None,
    }
}

/// Reads an unsigned integer of at most 64 bits that must fill the whole
/// of `bytes`.
pub fn parse_u64(bytes: &[u8]) -> (r: Option<u64>)
    ensures
        r == if is_unsigned_text(bytes@) && unsigned_value(bytes@) <= u64::MAX {
            Some(unsigned_value(bytes@) as u64)
        } else {
            None::<u64>
        },
{
    parse_unsigned(bytes, u64::MAX)
}

/// Reads an unsigned integer of at most 8 bits that must fill the whole of
/// `bytes`.
pub fn parse_u8(bytes: &[u8]) -> (r: Option<u8>)
    ensures
        r == if is_unsigned_text(bytes@) && unsigned_value(bytes@) <= u8::MAX {
            Some(unsigned_value(bytes@) as u8)
        } else {
            None::<u8>
        },
{
    match parse_unsigned(bytes, 255) {
        Some(value) => Some(value as u8),
        None => None,
    }
}

/// The digits of a signed number: the text without an optional leading
/// plus or minus sign.
pub open spec fn signed_digits(s: Seq<u8>) -> Seq<u8> {
    if s.len() > 0 && (s[0] == 0x2b || s[0] == 0x2d) {
        s.skip(1)
    } else {
        s
    }
}

/// Whether `s` writes a signed integer: an optional sign and then one or
/// more digits, nothing else.
pub open spec fn is_signed_text(s: Seq<u8>) -> bool {
    signed_digits(s).len() > 0 && all_digits(signed_digits(s))
}

/// The integer that `s` writes, where `is_signed_text(s)`.
pub open spec fn signed_value(s: Seq<u8>) -> int {
    if s.len() > 0 && s[0] == 0x2d {
        -(digits_value(signed_digits(s)) as int)
    } else {
        digits_value(signed_digits(s)) as int
    }
}

/// Reads a signed integer that must fill the whole of `bytes` and fit in
/// eight bits.
pub fn parse_i8(bytes: &[u8]) -> (r: Option<i8>)
    ensures
        r == if is_signed_text(bytes@) && i8::MIN <= signed_value(bytes@) <= i8::MAX {
            Some(signed_value(bytes@) as i8)
        } else {
            None::<i8>
        },
{
    let negative = bytes.len() > 0 && bytes[0] == 0x2d;
    let start: usize = if bytes.len() > 0 && (bytes[0] == 0x2b || bytes[0] == 0x2d) {
        1
    } else {
        0
    };
    let limit: u128 = if negative {
        128
    } else {
        127
    };
    let (end, value) = scan_digits(bytes, start, 0, limit);
    proof {
        lemma_digit_run(bytes@, start as int);
        let digits = signed_digits(bytes@);
        assert(digits =~= bytes@.skip(start as int));
        if end == bytes.len() {
            assert(bytes@.subrange(start as int, end as int) =~= digits);
        } else {
            assert(digits[end - start] == bytes@[end as int]);
        }
    }
    if end == start || end != bytes.len() {
        return None;
    }
    match value {
        None => None,
        Some(magnitude) => {
            if negative {
                Some((0 - magnitude as i16) as i8)
            } else {
                Some(magnitude as i8)
            }
        },
    }
}

} // verus!
