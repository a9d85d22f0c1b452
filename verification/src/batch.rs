//! Texts that hold many element sets, one behind the other.

use crate::lines::{contents, lemma_lines_are_utf8, lines_of, split_lines};
use crate::text::utf8_text;
use crate::tle::{tle_error, Elements, Error};
use vstd::pervasive::unreached;
use vstd::prelude::*;
use vstd::utf8::{decode_utf8, encode_utf8, encode_utf8_valid_utf8, valid_utf8};

verus! {

/// The error of the first pair of lines, from the line `from` on, that is
/// no element set. A last line without a partner is passed over.
pub open spec fn first_error_in_pairs(lines: Seq<Seq<u8>>, from: int) -> Option<Error>
    decreases lines.len() - from,
{
    if from < 0 || from + 1 >= lines.len() {
        None
    } else if tle_error(lines[from], lines[from + 1]) is Some {
        tle_error(lines[from], lines[from + 1])
    } else {
        first_error_in_pairs(lines, from + 2)
    }
}

/// The error of the first group of three lines, from the line `from` on,
/// whose second and third line are no element set. Lines behind the last
/// whole group are passed over.
pub open spec fn first_error_in_triples(lines: Seq<Seq<u8>>, from: int) -> Option<Error>
    decreases lines.len() - from,
{
    if from < 0 || from + 2 >= lines.len() {
        None
    } else if tle_error(lines[from + 1], lines[from + 2]) is Some {
        tle_error(lines[from + 1], lines[from + 2])
    } else {
        first_error_in_triples(lines, from + 3)
    }
}

/// Whether `list` holds the elements of the pairs of `lines`, in their
/// order, without names.
pub open spec fn are_pairs_of(list: Seq<Elements>, lines: Seq<Seq<u8>>) -> bool {
    &&& list.len() == lines.len() / 2
    &&& forall|i: int|
        0 <= i < list.len() ==> (#[trigger] list[i]).describes(
            None,
            lines[2 * i],
            lines[2 * i + 1],
        )
}

/// Whether `list` holds the elements of the groups of three of `lines`, in
/// their order, each under the name that the first line of its group
/// holds.
pub open spec fn are_triples_of(list: Seq<Elements>, lines: Seq<Seq<u8>>) -> bool {
    &&& list.len() == lines.len() / 3
    &&& forall|i: int|
        0 <= i < list.len() ==> (#[trigger] list[i]).describes(
            Some(decode_utf8(lines[3 * i])),
            lines[3 * i + 1],
            lines[3 * i + 2],
        )
}

fn parse_pairs(lines: &Vec<&[u8]>) -> (r: Result<Vec<Elements>, Error>)
    ensures
        match first_error_in_pairs(contents(lines@), 0) {
            Some(error) => r == Err::<Vec<Elements>, Error>(error),
            None => r matches Ok(list) && are_pairs_of(list@, contents(lines@)),
        },
{
    let ghost all = contents(lines@);
    let mut list: Vec<Elements> = Vec::new();
    let mut i: usize = 0;
    while i < lines.len() && lines.len() - i >= 2
        invariant
            i <= lines@.len(),
            i == 2 * list@.len(),
            all == contents(lines@),
            first_error_in_pairs(all, 0) == first_error_in_pairs(all, i as int),
            forall|j: int|
                0 <= j < list@.len() ==> (#[trigger] list@[j]).describes(
                    None,
                    all[2 * j],
                    all[2 * j + 1],
                ),
        decreases lines@.len() - i,
    {
        let first: &[u8] = lines[i];
        let second: &[u8] = lines[i + 1];
        assert(first@ == all[i as int]);
        assert(second@ == all[i + 1]);
        let ghost before = list@;
        match Elements::from_tle(None, first, second) {
            Err(error) => {
                return Err(error);
            },
            Ok(elements) => {
                list.push(elements);
                assert forall|j: int| 0 <= j < list@.len() implies (#[trigger] list@[j]).describes(
                    None,
                    all[2 * j],
                    all[2 * j + 1],
                ) by {
                    if j < before.len() {
                        assert(list@[j] == before[j]);
                    }
                }
            },
        }
        i += 2;
    }
    Ok(list)
}

fn parse_triples(lines: &Vec<&[u8]>) -> (r: Result<Vec<Elements>, Error>)
    requires
        forall|j: int| 0 <= j < lines@.len() ==> valid_utf8(#[trigger] contents(lines@)[j]),
    ensures
        match first_error_in_triples(contents(lines@), 0) {
            Some(error) => r == Err::<Vec<Elements>, Error>(error),
            None => r matches Ok(list) && are_triples_of(list@, contents(lines@)),
        },
{
    let ghost all = contents(lines@);
    let mut list: Vec<Elements> = Vec::new();
    let mut i: usize = 0;
    while i < lines.len() && lines.len() - i >= 3
        invariant
            i <= lines@.len(),
            i == 3 * list@.len(),
            all == contents(lines@),
            forall|j: int| 0 <= j < all.len() ==> valid_utf8(#[trigger] all[j]),
            first_error_in_triples(all, 0) == first_error_in_triples(all, i as int),
            forall|j: int|
                0 <= j < list@.len() ==> (#[trigger] list@[j]).describes(
                    Some(decode_utf8(all[3 * j])),
                    all[3 * j + 1],
                    all[3 * j + 2],
                ),
        decreases lines@.len() - i,
    {
        let title: &[u8] = lines[i];
        let first: &[u8] = lines[i + 1];
        let second: &[u8] = lines[i + 2];
        assert(title@ == all[i as int]);
        assert(first@ == all[i + 1]);
        assert(second@ == all[i + 2]);
        let name: String = match utf8_text(title) {
            Some(name) => name.to_owned(),
            None => unreached(),
        };
        let ghost before = list@;
        match Elements::from_tle(Some(name), first, second) {
            Err(error) => {
                return Err(error);
            },
            Ok(elements) => {
                list.push(elements);
                assert forall|j: int| 0 <= j < list@.len() implies (#[trigger] list@[j]).describes(
                    Some(decode_utf8(all[3 * j])),
                    all[3 * j + 1],
                    all[3 * j + 2],
                ) by {
                    if j < before.len() {
                        assert(list@[j] == before[j]);
                    }
                }
            },
        }
        i += 3;
    }
    Ok(list)
}

/// Reads a text that holds element sets of two lines each, one behind the
/// other. Gives the elements of all of them, or the error of the first
/// that is wrong.
pub fn parse_2les(tles: &str) -> (r: Result<Vec<Elements>, Error>)
    ensures
        match first_error_in_pairs(lines_of(encode_utf8(tles@)), 0) {
            Some(error) => r == Err::<Vec<Elements>, Error>(error),
            None => r matches Ok(list) && are_pairs_of(list@, lines_of(encode_utf8(tles@))),
        },
{
    let lines = split_lines(tles.as_bytes());
    parse_pairs(&lines)
}

/// Reads a text that holds element sets of three lines each, one behind
/// the other: the name of the satellite, and the two lines of its
/// elements. Gives the elements of all of them, or the error of the first
/// that is wrong.
pub fn parse_3les(tles: &str) -> (r: Result<Vec<Elements>, Error>)
    ensures
        match first_error_in_triples(lines_of(encode_utf8(tles@)), 0) {
            Some(error) => r == Err::<Vec<Elements>, Error>(error),
            None => r matches Ok(list) && are_triples_of(list@, lines_of(encode_utf8(tles@))),
        },
{
    let lines = split_lines(tles.as_bytes());
    proof {
        encode_utf8_valid_utf8(tles@);
        lemma_lines_are_utf8(encode_utf8(tles@));
    }
    parse_triples(&lines)
}

} // verus!
