//! Exact decimal numbers, and the notation in which a text writes one.
//!
//! The fields of an element set are decimal numerals. They are kept here
//! as they are written: a sign, the digits as one integer, and a power of
//! ten. Nothing is rounded.

use crate::ascii::{
    all_digits, append_digits, digit_run, digits_value, is_digit, lemma_append_digits_concat,
    lemma_append_digits_prefix, lemma_digit_run, lemma_digits_value_bound, lemma_pow10_increases,
    lemma_pow10_values, pow10, scan_digits,
};
use vstd::arithmetic::div_mod::{lemma_basic_div, lemma_div_denominator};
use vstd::prelude::*;

verus! {

/// What a numeral denotes: `mantissa * 10^exponent` with a sign, or one of
/// the two non-numbers that the notation also admits.
pub enum Number {
    Finite { negative: bool, mantissa: nat, exponent: int },
    Infinite { negative: bool },
    NotANumber { negative: bool },
}

impl Number {
    /// Whether the parts fit the machine integers of [`Decimal`].
    pub open spec fn is_representable(self) -> bool {
        match self {
            Number::Finite { negative, mantissa, exponent } => mantissa <= u64::MAX && i64::MIN
                <= exponent <= i64::MAX,
            _ => true,
        }
    }

    /// The whole part of the number, cut to the range of an unsigned
    /// 32-bit integer: what lies below 0 gives 0, what lies above the
    /// largest such integer gives that integer, and a not-a-number gives 0.
    pub open spec fn whole_part(self) -> nat {
        match self {
            Number::Finite { negative, mantissa, exponent } => {
                let whole = if exponent >= 0 {
                    mantissa * pow10(exponent as nat)
                } else {
                    mantissa / pow10((-exponent) as nat)
                };
                if negative {
                    0
                } else if whole > u32::MAX {
                    u32::MAX as nat
                } else {
                    whole
                }
            },
            Number::Infinite { negative } => if negative {
                0
            } else {
                u32::MAX as nat
            },
            Number::NotANumber { negative } => 0,
        }
    }
}

/// An exact decimal number: `mantissa * 10^exponent`, negated if `negative`.
#[derive(Clone, Copy, Debug, PartialEq, Eq, Structural)]
pub enum Decimal {
    Finite { negative: bool, mantissa: u64, exponent: i64 },
    Infinite { negative: bool },
    NotANumber { negative: bool },
}

impl View for Decimal {
    type V = Number;

    open spec fn view(&self) -> Number {
        match *self {
            Decimal::Finite { negative, mantissa, exponent } => Number::Finite {
                negative,
                mantissa: mantissa as nat,
                exponent: exponent as int,
            },
            Decimal::Infinite { negative } => Number::Infinite { negative },
            Decimal::NotANumber { negative } => Number::NotANumber { negative },
        }
    }
}

/// 1 if a plus or minus sign stands at index `at` of `s`, else 0.
pub open spec fn sign_len(s: Seq<u8>, at: int) -> int {
    if 0 <= at < s.len() && (s[at] == 0x2b || s[at] == 0x2d) {
        1
    } else {
        0
    }
}

/// Whether a minus sign stands at index `at` of `s`.
pub open spec fn minus_at(s: Seq<u8>, at: int) -> bool {
    0 <= at < s.len() && s[at] == 0x2d
}

/// Index of the first byte behind the sign of `s`.
pub open spec fn int_start(s: Seq<u8>) -> int {
    sign_len(s, 0)
}

/// Number of digits of `s` before its point.
pub open spec fn int_len(s: Seq<u8>) -> nat {
    digit_run(s, int_start(s))
}

/// Index of the byte behind the digits before the point, where the point
/// stands if there is one.
pub open spec fn point_at(s: Seq<u8>) -> int {
    int_start(s) + int_len(s)
}

/// Whether a point stands behind the first digits of `s`.
pub open spec fn has_point(s: Seq<u8>) -> bool {
    point_at(s) < s.len() && s[point_at(s)] == 0x2e
}

/// Index of the byte behind the point.
pub open spec fn frac_start(s: Seq<u8>) -> int {
    point_at(s) + 1
}

/// Number of digits of `s` behind its point.
pub open spec fn frac_len(s: Seq<u8>) -> nat {
    if has_point(s) {
        digit_run(s, frac_start(s))
    } else {
        0
    }
}

/// Index of the byte behind the digits and the point among them.
pub open spec fn mantissa_end(s: Seq<u8>) -> int {
    if has_point(s) {
        frac_start(s) + frac_len(s)
    } else {
        point_at(s)
    }
}

/// Whether `e` or `E` stands behind the digits of `s`.
pub open spec fn has_exponent(s: Seq<u8>) -> bool {
    mantissa_end(s) < s.len() && (s[mantissa_end(s)] == 0x65 || s[mantissa_end(s)] == 0x45)
}

/// Index of the first digit of the exponent, behind its sign.
pub open spec fn exponent_start(s: Seq<u8>) -> int {
    mantissa_end(s) + 1 + sign_len(s, mantissa_end(s) + 1)
}

/// Number of digits of the exponent.
pub open spec fn exponent_len(s: Seq<u8>) -> nat {
    digit_run(s, exponent_start(s))
}

/// Whether `s` is a decimal numeral: an optional sign; digits with at most
/// one point among them, before them or behind them, and at least one
/// digit; then optionally `e` or `E`, an optional sign and one or more
/// digits. Nothing may stand before or behind.
pub open spec fn is_numeral(s: Seq<u8>) -> bool {
    &&& int_len(s) + frac_len(s) >= 1
    &&& if has_exponent(s) {
        exponent_len(s) >= 1 && exponent_start(s) + exponent_len(s) == s.len()
    } else {
        mantissa_end(s) == s.len()
    }
}

/// `b` as a lower-case letter, if it is an upper-case letter.
pub open spec fn lower(b: u8) -> u8 {
    if 0x41 <= b <= 0x5a {
        (b + 0x20) as u8
    } else {
        b
    }
}

/// Whether `s` spells `word`, whatever the case of its letters.
pub open spec fn spells(s: Seq<u8>, word: Seq<u8>) -> bool {
    s.len() == word.len() && forall|i: int| 0 <= i < s.len() ==> lower(#[trigger] s[i]) == word[i]
}

/// The letters `inf`.
pub open spec fn word_inf() -> Seq<u8> {
    seq![0x69u8, 0x6eu8, 0x66u8]
}

/// The letters `infinity`.
pub open spec fn word_infinity() -> Seq<u8> {
    seq![0x69u8, 0x6eu8, 0x66u8, 0x69u8, 0x6eu8, 0x69u8, 0x74u8, 0x79u8]
}

/// The letters `nan`.
pub open spec fn word_nan() -> Seq<u8> {
    seq![0x6eu8, 0x61u8, 0x6eu8]
}

/// An optional sign and then `inf` or `infinity`, in any case.
pub open spec fn is_infinity_text(s: Seq<u8>) -> bool {
    spells(s.skip(int_start(s)), word_inf()) || spells(s.skip(int_start(s)), word_infinity())
}

/// An optional sign and then `nan`, in any case.
pub open spec fn is_nan_text(s: Seq<u8>) -> bool {
    spells(s.skip(int_start(s)), word_nan())
}

/// The notation of a number: a decimal numeral, an infinity or a
/// not-a-number.
pub open spec fn is_number_text(s: Seq<u8>) -> bool {
    is_numeral(s) || is_infinity_text(s) || is_nan_text(s)
}

/// The digits of the numeral `s` that stand before its point.
pub open spec fn int_digits(s: Seq<u8>) -> Seq<u8> {
    s.subrange(int_start(s), point_at(s))
}

/// The digits of the numeral `s` that stand behind its point.
pub open spec fn frac_digits(s: Seq<u8>) -> Seq<u8> {
    if has_point(s) {
        s.subrange(frac_start(s), frac_start(s) + frac_len(s))
    } else {
        Seq::empty()
    }
}

/// The digits of the numeral `s`, those before the point and then those
/// behind it.
pub open spec fn mantissa_digits(s: Seq<u8>) -> Seq<u8> {
    int_digits(s) + frac_digits(s)
}

/// The digits of the exponent of the numeral `s`.
pub open spec fn exponent_digits(s: Seq<u8>) -> Seq<u8> {
    s.subrange(exponent_start(s), exponent_start(s) + exponent_len(s))
}

/// The exponent that the numeral `s` writes behind its `e`, or 0.
pub open spec fn written_exponent(s: Seq<u8>) -> int {
    if has_exponent(s) {
        let magnitude = digits_value(exponent_digits(s)) as int;
        if minus_at(s, mantissa_end(s) + 1) {
            -magnitude
        } else {
            magnitude
        }
    } else {
        0
    }
}

/// What the text `s` denotes, where `is_number_text(s)`.
pub open spec fn number_of(s: Seq<u8>) -> Number {
    if is_numeral(s) {
        Number::Finite {
            negative: minus_at(s, 0),
            mantissa: digits_value(mantissa_digits(s)),
            exponent: written_exponent(s) - frac_len(s),
        }
    } else if is_infinity_text(s) {
        Number::Infinite { negative: minus_at(s, 0) }
    } else {
        Number::NotANumber { negative: minus_at(s, 0) }
    }
}

proof fn lemma_sign_len(s: Seq<u8>, at: int)
    ensures
        0 <= sign_len(s, at) <= 1,
        0 <= at <= s.len() ==> at + sign_len(s, at) <= s.len(),
{
}

/// The parts of a numeral lie one behind the other inside the text, and
/// hold digits only.
pub proof fn lemma_numeral_layout(s: Seq<u8>)
    ensures
        0 <= int_start(s) <= point_at(s) <= mantissa_end(s) <= s.len(),
        all_digits(int_digits(s)),
        all_digits(frac_digits(s)),
        all_digits(mantissa_digits(s)),
        int_digits(s).len() == int_len(s),
        frac_digits(s).len() == frac_len(s),
        mantissa_digits(s).len() == int_len(s) + frac_len(s),
        has_point(s) ==> mantissa_end(s) == point_at(s) + 1 + frac_len(s),
        has_exponent(s) ==> mantissa_end(s) < exponent_start(s) <= exponent_start(s)
            + exponent_len(s) <= s.len() && all_digits(exponent_digits(s))
            && exponent_digits(s).len() == exponent_len(s),
{
    lemma_sign_len(s, 0);
    lemma_digit_run(s, int_start(s));
    if has_point(s) {
        lemma_digit_run(s, frac_start(s));
    }
    let a = int_digits(s);
    let b = frac_digits(s);
    let digits = mantissa_digits(s);
    assert forall|i: int| 0 <= i < digits.len() implies is_digit(#[trigger] digits[i]) by {
        if i < a.len() {
            assert(digits[i] == a[i]);
        } else {
            assert(digits[i] == b[i - a.len()]);
        }
    }
    if has_exponent(s) {
        lemma_sign_len(s, mantissa_end(s) + 1);
        lemma_digit_run(s, exponent_start(s));
    }
}

/// A text of at most 19 bytes never writes a number whose parts are too
/// large for [`Decimal`].
pub proof fn lemma_short_text_is_representable(s: Seq<u8>)
    requires
        s.len() <= 19,
        is_number_text(s),
    ensures
        number_of(s).is_representable(),
{
    if is_numeral(s) {
        lemma_numeral_layout(s);
        let digits = mantissa_digits(s);
        lemma_digits_value_bound(digits);
        lemma_pow10_increases(digits.len(), 19);
        lemma_pow10_values();
        if has_exponent(s) {
            let e = exponent_digits(s);
            lemma_digits_value_bound(e);
            lemma_pow10_increases(e.len(), 17);
        }
    }
}

fn to_lower(b: u8) -> (r: u8)
    ensures
        r == lower(b),
{
    if 0x41 <= b && b <= 0x5a {
        b + 0x20
    } else {
        b
    }
}

/// Whether the bytes from `from` on spell `word`, whatever their case.
fn spells_from(bytes: &[u8], from: usize, word: &[u8]) -> (r: bool)
    requires
        from <= bytes.len(),
    ensures
        r == spells(bytes@.skip(from as int), word@),
{
    if bytes.len() - from != word.len() {
        return false;
    }
    let mut i: usize = 0;
    while i < word.len()
        invariant
            from <= bytes.len(),
            bytes.len() - from == word.len(),
            i <= word.len(),
            forall|j: int| 0 <= j < i ==> lower(#[trigger] bytes@.skip(from as int)[j]) == word@[j],
        decreases word.len() - i,
    {
        if to_lower(bytes[from + i]) != word[i] {
            assert(bytes@.skip(from as int)[i as int] == bytes@[from + i]);
            return false;
        }
        assert(bytes@.skip(from as int)[i as int] == bytes@[from + i]);
        i += 1;
    }
    true
}

/// Reads the digits of a numeral and the point among them, from the index
/// `start` behind the sign. Gives the index behind them, their number if it
/// fits in 64 bits, how many there are, and how many stand behind the point.
fn read_mantissa(bytes: &[u8], start: usize) -> (r: (usize, Option<u64>, usize, usize))
    requires
        start == int_start(bytes@),
    ensures
        r.0 == mantissa_end(bytes@),
        r.0 <= bytes.len(),
        r.1 == if digits_value(mantissa_digits(bytes@)) <= u64::MAX {
            Some(digits_value(mantissa_digits(bytes@)) as u64)
        } else {
            None::<u64>
        },
        r.2 == int_len(bytes@) + frac_len(bytes@),
        r.3 == frac_len(bytes@),
{
    proof {
        lemma_numeral_layout(bytes@);
    }
    let (int_end, int_value) = scan_digits(bytes, start, 0, u64::MAX as u128);
    let point = int_end < bytes.len() && bytes[int_end] == 0x2e;
    if !point {
        proof {
            assert(mantissa_digits(bytes@) =~= bytes@.subrange(start as int, int_end as int));
        }
        return match int_value {
            Some(v) => (int_end, Some(v as u64), int_end - start, 0),
            None => (int_end, None, int_end - start, 0),
        };
    }
    let seed: u128 = match int_value {
        Some(v) => v,
        None => 0,
    };
    let (frac_end, frac_value) = scan_digits(bytes, int_end + 1, seed, u64::MAX as u128);
    proof {
        let a = bytes@.subrange(start as int, int_end as int);
        let b = bytes@.subrange(int_end as int + 1, frac_end as int);
        assert(a == int_digits(bytes@));
        assert(b == frac_digits(bytes@));
        lemma_append_digits_concat(0, a, b);
        lemma_append_digits_prefix(append_digits(0, a), b, 0);
    }
    let count = (int_end - start) + (frac_end - (int_end + 1));
    match (int_value, frac_value) {
        (Some(_), Some(v)) => (frac_end, Some(v as u64), count, frac_end - (int_end + 1)),
        _ => (frac_end, None, count, frac_end - (int_end + 1)),
    }
}

/// Reads what stands behind the digits of a numeral: nothing, or an
/// exponent. Gives the power of ten of the whole numeral, that is what the
/// exponent writes less the `fraction` digits behind the point, if the text
/// ends as a numeral does and that power fits in 64 bits.
fn read_exponent(bytes: &[u8], mant_end: usize, fraction: usize) -> (r: Option<i64>)
    requires
        mant_end == mantissa_end(bytes@),
        mant_end <= bytes.len(),
        fraction == frac_len(bytes@),
        int_len(bytes@) + frac_len(bytes@) >= 1,
    ensures
        r is Some <==> is_numeral(bytes@) && i64::MIN <= written_exponent(bytes@) - frac_len(
            bytes@,
        ) <= i64::MAX,
        r matches Some(e) ==> e == written_exponent(bytes@) - frac_len(bytes@),
{
    let len = bytes.len();
    proof {
        lemma_numeral_layout(bytes@);
    }
    let mut exponent: i128 = 0 - fraction as i128;
    if mant_end < len && (bytes[mant_end] == 0x65 || bytes[mant_end] == 0x45) {
        let exp_negative = mant_end + 1 < len && bytes[mant_end + 1] == 0x2d;
        let exp_start: usize = if mant_end + 1 < len && (bytes[mant_end + 1] == 0x2b
            || bytes[mant_end + 1] == 0x2d) {
            mant_end + 2
        } else {
            mant_end + 1
        };
        let limit: u128 = 0x8000_0000_0000_0000u128 + fraction as u128;
        let (exp_end, exp_value) = scan_digits(bytes, exp_start, 0, limit);
        if exp_end == exp_start || exp_end != len {
            return None;
        }
        match exp_value {
            None => {
                return None;
            },
            Some(magnitude) => {
                exponent = if exp_negative {
                    0 - magnitude as i128 - fraction as i128
                } else {
                    magnitude as i128 - fraction as i128
                };
            },
        }
    } else if mant_end != len {
        return None;
    }
    if exponent < i64::MIN as i128 || exponent > i64::MAX as i128 {
        return None;
    }
    Some(exponent as i64)
}

/// Tells an infinity from a not-a-number and from other text, for a text
/// that has no digit where a numeral has its digits.
fn read_special(bytes: &[u8], start: usize, negative: bool) -> (r: Option<Decimal>)
    requires
        start == int_start(bytes@),
        negative == minus_at(bytes@, 0),
    ensures
        r is Some <==> is_infinity_text(bytes@) || is_nan_text(bytes@),
        is_infinity_text(bytes@) ==> r == Some(Decimal::Infinite { negative }),
        !is_infinity_text(bytes@) && is_nan_text(bytes@) ==> r == Some(
            Decimal::NotANumber { negative },
        ),
{
    proof {
        lemma_sign_len(bytes@, 0);
    }
    let inf: [u8; 3] = [0x69, 0x6e, 0x66];
    let infinity: [u8; 8] = [0x69, 0x6e, 0x66, 0x69, 0x6e, 0x69, 0x74, 0x79];
    let nan: [u8; 3] = [0x6e, 0x61, 0x6e];
    assert(inf@ =~= word_inf());
    assert(infinity@ =~= word_infinity());
    assert(nan@ =~= word_nan());
    if spells_from(bytes, start, inf.as_slice()) || spells_from(
        bytes,
        start,
        infinity.as_slice(),
    ) {
        Some(Decimal::Infinite { negative })
    } else if spells_from(bytes, start, nan.as_slice()) {
        Some(Decimal::NotANumber { negative })
    } else {
        None
    }
}

/// A text with a digit where a numeral has its digits is neither an
/// infinity nor a not-a-number.
proof fn lemma_digits_exclude_words(s: Seq<u8>)
    requires
        int_len(s) + frac_len(s) >= 1,
    ensures
        !is_infinity_text(s),
        !is_nan_text(s),
{
    lemma_numeral_layout(s);
    let body = s.skip(int_start(s));
    assert(body.len() > 0);
    assert(body[0] == s[int_start(s)]);
    if int_len(s) > 0 {
        assert(int_digits(s)[0] == body[0]);
        assert(is_digit(body[0]));
    } else {
        assert(body[0] == 0x2e);
    }
    assert(lower(body[0]) != 0x69 && lower(body[0]) != 0x6e);
    assert(word_inf()[0] == 0x69 && word_infinity()[0] == 0x69 && word_nan()[0] == 0x6e);
}

proof fn lemma_mul_pow10_increases(m: nat, a: nat, b: nat)
    requires
        a <= b,
    ensures
        m * pow10(a) <= m * pow10(b),
{
    lemma_pow10_increases(a, b);
    assert(m * pow10(a) <= m * pow10(b)) by (nonlinear_arith)
        requires
            pow10(a) <= pow10(b),
    ;
}

/// The whole part of `mantissa * 10^exponent` for an exponent that is not
/// negative, cut to 32 bits.
fn scale_up(mantissa: u64, exponent: i64) -> (r: u32)
    requires
        exponent >= 0,
    ensures
        r == (Number::Finite {
            negative: false,
            mantissa: mantissa as nat,
            exponent: exponent as int,
        }).whole_part(),
{
    let mut value: u64 = mantissa;
    let mut k: i64 = 0;
    proof {
        assert(pow10(0) == 1);
        assert(mantissa * pow10(0) == mantissa);
    }
    while k < exponent && 0 < value && value <= 0xffff_ffff
        invariant
            0 <= k <= exponent,
            value == mantissa * pow10(k as nat),
        decreases exponent - k,
    {
        assert(pow10((k + 1) as nat) == 10 * pow10(k as nat));
        assert(mantissa * (10 * pow10(k as nat)) == (mantissa * pow10(k as nat)) * 10)
            by (nonlinear_arith);
        value = value * 10;
        k = k + 1;
    }
    proof {
        lemma_mul_pow10_increases(mantissa as nat, k as nat, exponent as nat);
        if value == 0 {
            lemma_pow10_increases(0, k as nat);
            assert(mantissa == 0) by (nonlinear_arith)
                requires
                    mantissa * pow10(k as nat) == 0,
                    pow10(k as nat) > 0,
            ;
            assert(mantissa * pow10(exponent as nat) == 0) by (nonlinear_arith)
                requires
                    mantissa == 0,
            ;
        }
    }
    if value > 0xffff_ffff {
        0xffff_ffff
    } else {
        value as u32
    }
}

/// The whole part of `mantissa * 10^exponent` for a negative exponent, cut
/// to 32 bits.
fn scale_down(mantissa: u64, exponent: i64) -> (r: u32)
    requires
        exponent < 0,
    ensures
        r == (Number::Finite {
            negative: false,
            mantissa: mantissa as nat,
            exponent: exponent as int,
        }).whole_part(),
{
    let mut value: u64 = mantissa;
    let mut left: i64 = exponent;
    proof {
        assert(pow10(0) == 1);
        assert(mantissa as nat / pow10(0) == mantissa);
    }
    while left < 0 && value > 0
        invariant
            exponent <= left <= 0,
            value == mantissa as nat / pow10((left - exponent) as nat),
        decreases -left,
    {
        proof {
            let k = (left - exponent) as nat;
            lemma_pow10_increases(0, k);
            assert(pow10(k + 1) == 10 * pow10(k));
            lemma_div_denominator(mantissa as int, pow10(k) as int, 10);
            assert(pow10(k) * 10 == 10 * pow10(k));
        }
        value = value / 10;
        left = left + 1;
    }
    proof {
        let k = (left - exponent) as nat;
        let n = (-exponent) as nat;
        lemma_pow10_increases(k, n);
        if value == 0 && k < n {
            vstd::arithmetic::div_mod::lemma_small_div_converse(mantissa as int, pow10(k) as int);
            lemma_basic_div(mantissa as int, pow10(n) as int);
        }
    }
    if value > 0xffff_ffff {
        0xffff_ffff
    } else {
        value as u32
    }
}

impl Decimal {
    /// Reads the number that `bytes` writes, which must fill the whole of
    /// `bytes`. Gives `None` where `bytes` is not the notation of a number,
    /// and where the digits or the exponent are too large to be kept.
    pub fn parse(bytes: &[u8]) -> (r: Option<Decimal>)
        ensures
            r is Some <==> is_number_text(bytes@) && number_of(bytes@).is_representable(),
            r matches Some(d) ==> d@ == number_of(bytes@),
    {
        let len = bytes.len();
        let negative = len > 0 && bytes[0] == 0x2d;
        let start: usize = if len > 0 && (bytes[0] == 0x2b || bytes[0] == 0x2d) {
            1
        } else {
            0
        };
        let (mant_end, mantissa, count, fraction) = read_mantissa(bytes, start);
        if count == 0 {
            return read_special(bytes, start, negative);
        }
        proof {
            lemma_digits_exclude_words(bytes@);
        }
        match (read_exponent(bytes, mant_end, fraction), mantissa) {
            (Some(exponent), Some(mantissa)) => Some(
                Decimal::Finite { negative, mantissa, exponent },
            ),
            _ => None,
        }
    }

    /// The whole part of the number, cut to 32 bits.
    pub fn whole_part(&self) -> (r: u32)
        ensures
            r == self@.whole_part(),
    {
        match *self {
            Decimal::Finite { negative, mantissa, exponent } => {
                if negative {
                    0
                } else if exponent >= 0 {
                    scale_up(mantissa, exponent)
                } else {
                    scale_down(mantissa, exponent)
                }
            },
            Decimal::Infinite { negative } => {
                if negative {
                    0
                } else {
                    0xffff_ffff
                }
            },
            Decimal::NotANumber { negative } => 0,
        }
    }
}

} // verus!
