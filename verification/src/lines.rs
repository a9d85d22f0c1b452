//! The lines of a text.

use vstd::prelude::*;
use vstd::slice::slice_subrange;
use vstd::utf8::{
    is_char_boundary, is_char_boundary_iff_not_is_continuation_byte, pop_first_scalar,
    valid_utf8, valid_utf8_split,
};

verus! {

/// Index of the first line feed of `s`, or the length of `s` if it has
/// none.
pub open spec fn first_line_feed(s: Seq<u8>) -> nat
    decreases s.len(),
{
    if s.len() == 0 || s[0] == 0x0a {
        0
    } else {
        1 + first_line_feed(s.drop_first())
    }
}

/// `line` without the carriage return at its end, if it has one.
pub open spec fn without_carriage_return(line: Seq<u8>) -> Seq<u8> {
    if line.len() > 0 && line.last() == 0x0d {
        line.drop_last()
    } else {
        line
    }
}

/// The lines of `s`. A line ends with a line feed, or with a carriage
/// return and a line feed, which are not part of it; the last line may end
/// with the text. A carriage return that no line feed follows belongs to
/// its line.
pub open spec fn lines_of(s: Seq<u8>) -> Seq<Seq<u8>>
    decreases s.len(),
{
    if s.len() == 0 {
        Seq::empty()
    } else if first_line_feed(s) >= s.len() {
        seq![s]
    } else {
        seq![without_carriage_return(s.take(first_line_feed(s) as int))] + lines_of(
            s.skip(first_line_feed(s) as int + 1),
        )
    }
}

pub proof fn lemma_first_line_feed(s: Seq<u8>)
    ensures
        0 <= first_line_feed(s) <= s.len(),
        first_line_feed(s) < s.len() ==> s[first_line_feed(s) as int] == 0x0a,
        forall|i: int| 0 <= i < first_line_feed(s) ==> #[trigger] s[i] != 0x0a,
    decreases s.len(),
{
    if !(s.len() == 0 || s[0] == 0x0a) {
        let t = s.drop_first();
        lemma_first_line_feed(t);
        assert forall|i: int| 0 <= i < first_line_feed(s) implies #[trigger] s[i] != 0x0a by {
            if i > 0 {
                assert(s[i] == t[i - 1]);
            }
        }
        if first_line_feed(s) < s.len() {
            assert(s[first_line_feed(s) as int] == t[first_line_feed(t) as int]);
        }
    }
}

/// Every line of well-formed UTF-8 is well-formed UTF-8.
pub proof fn lemma_lines_are_utf8(s: Seq<u8>)
    requires
        valid_utf8(s),
    ensures
        forall|i: int| 0 <= i < lines_of(s).len() ==> valid_utf8(#[trigger] lines_of(s)[i]),
    decreases s.len(),
{
    lemma_first_line_feed(s);
    let k = first_line_feed(s) as int;
    if s.len() == 0 {
    } else if k >= s.len() {
    } else {
        is_char_boundary_iff_not_is_continuation_byte(s, k);
        valid_utf8_split(s, k);
        let head = s.subrange(0, k);
        let tail = s.subrange(k, s.len() as int);
        assert(head =~= s.take(k));
        assert(tail[0] == 0x0a);
        assert(pop_first_scalar(tail) =~= s.skip(k + 1));
        let line = without_carriage_return(head);
        if head.len() > 0 && head.last() == 0x0d {
            is_char_boundary_iff_not_is_continuation_byte(head, k - 1);
            valid_utf8_split(head, k - 1);
            assert(head.subrange(0, k - 1) =~= head.drop_last());
        }
        assert(valid_utf8(line));
        let rest = s.skip(k + 1);
        lemma_lines_are_utf8(rest);
        assert forall|i: int| 0 <= i < lines_of(s).len() implies valid_utf8(
            #[trigger] lines_of(s)[i],
        ) by {
            if i > 0 {
                assert(lines_of(s)[i] == lines_of(rest)[i - 1]);
            }
        }
    }
}

/// What each of the slices holds.
pub open spec fn contents(slices: Seq<&[u8]>) -> Seq<Seq<u8>> {
    slices.map_values(|slice: &[u8]| slice@)
}

/// Splits `bytes` into its lines.
pub fn split_lines(bytes: &[u8]) -> (r: Vec<&[u8]>)
    ensures
        contents(r@) == lines_of(bytes@),
{
    let mut out: Vec<&[u8]> = Vec::new();
    let ghost mut done: Seq<Seq<u8>> = Seq::empty();
    let len = bytes.len();
    let mut pos: usize = 0;
    assert(bytes@.skip(0) =~= bytes@);
    assert(contents(out@) =~= done);
    while pos < len
        invariant
            pos <= len,
            len == bytes@.len(),
            done == contents(out@),
            lines_of(bytes@) == done + lines_of(bytes@.skip(pos as int)),
        decreases len - pos,
    {
        let ghost rest = bytes@.skip(pos as int);
        let mut end: usize = pos;
        assert(bytes@.skip(pos as int).skip(0) =~= rest);
        while end < len && bytes[end] != 0x0a
            invariant
                pos <= end <= len,
                len == bytes@.len(),
                rest == bytes@.skip(pos as int),
                first_line_feed(rest) == (end - pos) + first_line_feed(rest.skip(end - pos)),
            decreases len - end,
        {
            proof {
                let here = rest.skip(end - pos);
                assert(here[0] == bytes@[end as int]);
                assert(here.drop_first() =~= rest.skip(end - pos + 1));
            }
            end += 1;
        }
        proof {
            let here = rest.skip(end - pos);
            if end < len {
                assert(here[0] == bytes@[end as int]);
            }
            assert(first_line_feed(rest) == end - pos);
        }
        if end == len {
            let line = slice_subrange(bytes, pos, len);
            proof {
                assert(line@ =~= rest);
                assert(lines_of(rest) =~= seq![rest]);
                assert(lines_of(bytes@.skip(len as int)) =~= Seq::<Seq<u8>>::empty());
                done = done.push(rest);
            }
            out.push(line);
            assert(contents(out@) =~= done);
            pos = len;
        } else {
            let stop: usize = if end > pos && bytes[end - 1] == 0x0d {
                end - 1
            } else {
                end
            };
            let line = slice_subrange(bytes, pos, stop);
            proof {
                let whole = rest.take(end - pos);
                assert(whole =~= bytes@.subrange(pos as int, end as int));
                assert(line@ =~= without_carriage_return(whole));
                assert(rest.skip(end - pos + 1) =~= bytes@.skip(end + 1));
                done = done.push(line@);
            }
            out.push(line);
            assert(contents(out@) =~= done);
            pos = end + 1;
        }
    }
    proof {
        assert(lines_of(bytes@.skip(pos as int)) =~= Seq::<Seq<u8>>::empty());
        assert(done + Seq::<Seq<u8>>::empty() =~= done);
    }
    out
}

} // verus!
