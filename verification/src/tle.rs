//! Two-line element sets: the layout of the two lines, the checks that a
//! pair of lines has to pass, and the elements that it holds.

use crate::ascii::{
    is_ascii_whitespace, is_digit, is_signed_text, is_unsigned_text, is_whitespace, parse_i8,
    parse_unsigned, signed_value, trim_ascii_start, trim_start, unsigned_value,
};
use crate::calendar::{
    compute_day_number, compute_days_since_j2000, day_number, day_of_ordinal, days_since_j2000,
    from_yo_opt, is_day_of_year, month_and_day, month_of_ordinal,
};
use crate::binary64::Binary64;
use crate::gp::number;
use crate::decimal::{is_number_text, lemma_short_text_is_representable, number_of, Decimal, Number};
use crate::text::{decimal_chars, join_with_hyphen, trim, trimmed, utf8_text};
use vstd::prelude::*;
use vstd::slice::slice_subrange;
use vstd::utf8::{decode_utf8, valid_utf8};

verus! {

/// What was wrong with a line.
#[derive(Debug, Clone, Copy, PartialEq, Eq, Structural)]
pub enum ErrorWhat {
    BadChecksum,
    BadLength,
    BadFirstCharacter,
    ExpectedFloat,
    ExpectedFloatWithAssumedDecimalPoint,
    ExpectedInteger,
    ExpectedSpace,
    ExpectedString,
    FloatWithAssumedDecimalPointTooLong,
    NoradIdMismatch,
    UnknownClassification,
    FromYoOptFailed,
    FromNumSecondsFromMidnightFailed,
}

/// The line in which an error was found.
#[derive(Debug, Clone, Copy, PartialEq, Eq, Structural)]
pub enum ErrorLine {
    Line1,
    Line2,
    Both,
}

/// An error of an element set: what is wrong, in which line, and between
/// which two character positions.
#[derive(Debug, Clone, Copy, PartialEq, Eq, Structural)]
pub struct Error {
    pub what: ErrorWhat,
    pub line: ErrorLine,
    pub start: usize,
    pub end: usize,
}

/// How the elements of a satellite are classified.
#[derive(Debug, Clone, Copy, PartialEq, Eq, Structural)]
pub enum Classification {
    /// `U`: declassified, or without a classification.
    Unclassified,
    /// `C`: classified.
    Classified,
    /// `S`: secret.
    Secret,
}

impl ErrorWhat {
    /// What went wrong, in words.
    pub fn description(&self) -> (r: &'static str)
        ensures
            r@ == match *self {
                ErrorWhat::BadChecksum => "Bad line checksum"@,
                ErrorWhat::BadLength => "Bad line length"@,
                ErrorWhat::BadFirstCharacter => "Bad first character"@,
                ErrorWhat::ExpectedFloat => "Parsing a float field failed"@,
                ErrorWhat::ExpectedFloatWithAssumedDecimalPoint =>
                    "Parsing a float field failed (special TLE float representation with assumed decimal point)"@,
                ErrorWhat::ExpectedInteger => "Parsing an integer field failed"@,
                ErrorWhat::ExpectedSpace => "Found a non-space character between fields"@,
                ErrorWhat::ExpectedString => "Parsing a string field failed"@,
                ErrorWhat::FloatWithAssumedDecimalPointTooLong =>
                    "Tried to parse a float (special TLE float representation with assumed decimal point) with more than 16 ASCII characters"@,
                ErrorWhat::NoradIdMismatch => "NORAD mismatch between TLE lines"@,
                ErrorWhat::UnknownClassification => "Unknown classification code"@,
                ErrorWhat::FromYoOptFailed => "Date generation failed due to an error in the year"@,
                ErrorWhat::FromNumSecondsFromMidnightFailed =>
                    "Date generation failed due to an error in the seconds from midnight"@,
            },
    {
        match self {
            ErrorWhat::BadChecksum => "Bad line checksum",
            ErrorWhat::BadLength => "Bad line length",
            ErrorWhat::BadFirstCharacter => "Bad first character",
            ErrorWhat::ExpectedFloat => "Parsing a float field failed",
            ErrorWhat::ExpectedFloatWithAssumedDecimalPoint => {
                "Parsing a float field failed (special TLE float representation with assumed decimal point)"
            },
            ErrorWhat::ExpectedInteger => "Parsing an integer field failed",
            ErrorWhat::ExpectedSpace => "Found a non-space character between fields",
            ErrorWhat::ExpectedString => "Parsing a string field failed",
            ErrorWhat::FloatWithAssumedDecimalPointTooLong => {
                "Tried to parse a float (special TLE float representation with assumed decimal point) with more than 16 ASCII characters"
            },
            ErrorWhat::NoradIdMismatch => "NORAD mismatch between TLE lines",
            ErrorWhat::UnknownClassification => "Unknown classification code",
            ErrorWhat::FromYoOptFailed => "Date generation failed due to an error in the year",
            ErrorWhat::FromNumSecondsFromMidnightFailed => {
                "Date generation failed due to an error in the seconds from midnight"
            },
        }
    }
}

impl ErrorLine {
    /// Where it went wrong, in words.
    pub fn description(&self) -> (r: &'static str)
        ensures
            r@ == match *self {
                ErrorLine::Line1 => "on TLE line 1"@,
                ErrorLine::Line2 => "on TLE line 2"@,
                ErrorLine::Both => "(TLE lines mismatch)"@,
            },
    {
        match self {
            ErrorLine::Line1 => "on TLE line 1",
            ErrorLine::Line2 => "on TLE line 2",
            ErrorLine::Both => "(TLE lines mismatch)",
        }
    }
}

pub open spec fn error_at(what: ErrorWhat, line: ErrorLine, start: int, end: int) -> Error {
    Error { what, line, start: start as usize, end: end as usize }
}

/// The first of `columns` at which `line` holds no space.
pub open spec fn first_non_space(line: Seq<u8>, columns: Seq<int>) -> Option<int>
    decreases columns.len(),
{
    if columns.len() == 0 {
        None
    } else if line[columns[0]] != 0x20 {
        Some(columns[0])
    } else {
        first_non_space(line, columns.drop_first())
    }
}

/// The columns of the first line that part its fields.
pub open spec fn line1_separators() -> Seq<int> {
    seq![1, 8, 17, 32, 43, 52, 61, 63]
}

/// The columns of the second line that part its fields.
pub open spec fn line2_separators() -> Seq<int> {
    seq![1, 7, 16, 25, 33, 42, 51]
}

/// What one byte adds to the checksum of its line: a digit its value, a
/// minus sign 1, any other byte nothing.
pub open spec fn checksum_weight(b: u8) -> nat {
    if b == 0x2d {
        1
    } else if is_digit(b) {
        (b - 0x30) as nat
    } else {
        0
    }
}

pub open spec fn checksum_sum(s: Seq<u8>) -> nat
    decreases s.len(),
{
    if s.len() == 0 {
        0
    } else {
        checksum_sum(s.drop_last()) + checksum_weight(s.last())
    }
}

/// Whether the last column of a line is the digit that its first 68
/// columns add up to, modulo 10.
pub open spec fn checksum_holds(line: Seq<u8>) -> bool {
    is_digit(line[68]) && checksum_sum(line.take(68)) % 10 == line[68] - 0x30
}

/// The bytes of a line from column `start` up to, not including, `end`.
pub open spec fn field(line: Seq<u8>, start: int, end: int) -> Seq<u8> {
    line.subrange(start, end)
}

/// The unsigned integer of a field, at most `max`. The field may begin with
/// whitespace where `trim` is set.
pub open spec fn unsigned_field(line: Seq<u8>, start: int, end: int, trim: bool, max: u64) -> Option<
    u64,
> {
    let text = if trim {
        trim_start(field(line, start, end))
    } else {
        field(line, start, end)
    };
    if is_unsigned_text(text) && unsigned_value(text) <= max {
        Some(unsigned_value(text) as u64)
    } else {
        None
    }
}

/// The signed integer of a field, which has to fit in eight bits.
pub open spec fn power_field(line: Seq<u8>, start: int, end: int) -> Option<i8> {
    let text = field(line, start, end);
    if is_signed_text(text) && i8::MIN <= signed_value(text) <= i8::MAX {
        Some(signed_value(text) as i8)
    } else {
        None
    }
}

/// The number of a field that writes its decimal point. The field may
/// begin with whitespace.
pub open spec fn decimal_field(line: Seq<u8>, start: int, end: int) -> Option<Number> {
    let text = trim_start(field(line, start, end));
    if is_number_text(text) {
        Some(number_of(text))
    } else {
        None
    }
}

/// The text of a field that leaves its decimal point out, with the point
/// put where it is meant: before the first digit, behind the sign. `text`
/// is the field without its leading whitespace.
pub open spec fn with_point(text: Seq<u8>) -> Seq<u8> {
    if text[0] == 0x2d {
        seq![0x2du8, 0x2eu8] + text.skip(1)
    } else if text[0] == 0x2b {
        seq![0x2eu8] + text.skip(1)
    } else {
        seq![0x2eu8] + text
    }
}

/// Whether a field that leaves its decimal point out is a sign alone, or
/// longer with its point than 16 bytes.
pub open spec fn is_too_long(text: Seq<u8>) -> bool {
    if text[0] == 0x2d {
        text.len() < 2 || text.len() + 1 > 16
    } else if text[0] == 0x2b {
        text.len() < 2 || text.len() > 16
    } else {
        text.len() + 1 > 16
    }
}

/// The number of a field that leaves its decimal point out, or what is
/// wrong with the field.
pub open spec fn assumed_point_field(line: Seq<u8>, start: int, end: int) -> Result<
    Number,
    ErrorWhat,
> {
    let text = trim_start(field(line, start, end));
    if text.len() == 0 {
        Err(ErrorWhat::ExpectedFloatWithAssumedDecimalPoint)
    } else if is_too_long(text) {
        Err(ErrorWhat::FloatWithAssumedDecimalPointTooLong)
    } else if !is_number_text(with_point(text)) {
        Err(ErrorWhat::ExpectedFloatWithAssumedDecimalPoint)
    } else {
        Ok(number_of(with_point(text)))
    }
}

fn first_non_space_of(line: &[u8], columns: &[usize]) -> (r: Option<usize>)
    requires
        forall|i: int| 0 <= i < columns@.len() ==> columns@[i] < line@.len(),
    ensures
        match r {
            Some(column) => first_non_space(line@, columns@.map_values(|c: usize| c as int))
                == Some(column as int),
            None => first_non_space(line@, columns@.map_values(|c: usize| c as int)) is None,
        },
        r matches Some(column) ==> column < line@.len(),
{
    let ghost all = columns@.map_values(|c: usize| c as int);
    let mut i: usize = 0;
    assert(all.skip(0) =~= all);
    while i < columns.len()
        invariant
            i <= columns.len(),
            all == columns@.map_values(|c: usize| c as int),
            forall|i: int| 0 <= i < columns@.len() ==> columns@[i] < line@.len(),
            first_non_space(line@, all) == first_non_space(line@, all.skip(i as int)),
        decreases columns.len() - i,
    {
        proof {
            let rest = all.skip(i as int);
            assert(rest[0] == columns@[i as int] as int);
            assert(rest.drop_first() =~= all.skip(i + 1));
        }
        if line[columns[i]] != 0x20 {
            return Some(columns[i]);
        }
        i += 1;
    }
    None
}

fn checksum_of(line: &[u8]) -> (r: u32)
    requires
        line@.len() == 69,
    ensures
        r == checksum_sum(line@.take(68)) % 10,
{
    let mut sum: u32 = 0;
    let mut i: usize = 0;
    assert(line@.take(0) =~= Seq::<u8>::empty());
    while i < 68
        invariant
            i <= 68,
            line@.len() == 69,
            sum == checksum_sum(line@.take(i as int)),
            sum <= 9 * i,
        decreases 68 - i,
    {
        proof {
            let next = line@.take(i + 1);
            assert(next.drop_last() =~= line@.take(i as int));
            assert(next.last() == line@[i as int]);
        }
        let b = line[i];
        if b == 0x2d {
            sum = sum + 1;
        } else if 0x30 <= b && b <= 0x39 {
            sum = sum + (b - 0x30) as u32;
        }
        i += 1;
    }
    sum % 10
}

fn checksum_is_right(line: &[u8]) -> (r: bool)
    requires
        line@.len() == 69,
    ensures
        r == checksum_holds(line@),
{
    let last = line[68];
    0x30 <= last && last <= 0x39 && checksum_of(line) == (last - 0x30) as u32
}

/// Reads the unsigned integer of a field.
fn read_unsigned(
    line: &[u8],
    start: usize,
    end: usize,
    trim: bool,
    max: u64,
    what: ErrorWhat,
    which: ErrorLine,
) -> (r: Result<u64, Error>)
    requires
        start <= end <= line@.len(),
    ensures
        match unsigned_field(line@, start as int, end as int, trim, max) {
            Some(value) => r == Ok::<u64, Error>(value),
            None => r == Err::<u64, Error>(error_at(what, which, start as int, end as int)),
        },
{
    let whole = slice_subrange(line, start, end);
    let text = if trim {
        trim_ascii_start(whole)
    } else {
        whole
    };
    match parse_unsigned(text, max) {
        Some(value) => Ok(value),
        None => Err(Error { what, line: which, start, end }),
    }
}

/// Reads the power of ten that stands behind a field without a point.
fn read_power(line: &[u8], start: usize, end: usize, which: ErrorLine) -> (r: Result<i8, Error>)
    requires
        start <= end <= line@.len(),
    ensures
        match power_field(line@, start as int, end as int) {
            Some(value) => r == Ok::<i8, Error>(value),
            None => r == Err::<i8, Error>(
                error_at(ErrorWhat::ExpectedFloat, which, start as int, end as int),
            ),
        },
{
    match parse_i8(slice_subrange(line, start, end)) {
        Some(value) => Ok(value),
        None => Err(Error { what: ErrorWhat::ExpectedFloat, line: which, start, end }),
    }
}

/// Reads the number of a field that writes its decimal point.
fn read_decimal(line: &[u8], start: usize, end: usize, which: ErrorLine) -> (r: Result<
    Decimal,
    Error,
>)
    requires
        start <= end <= line@.len(),
        end - start <= 19,
    ensures
        match decimal_field(line@, start as int, end as int) {
            Some(value) => r matches Ok(d) && d@ == value,
            None => r == Err::<Decimal, Error>(
                error_at(ErrorWhat::ExpectedFloat, which, start as int, end as int),
            ),
        },
{
    let text = trim_ascii_start(slice_subrange(line, start, end));
    proof {
        if is_number_text(text@) {
            lemma_short_text_is_representable(text@);
        }
    }
    match Decimal::parse(text) {
        Some(value) => Ok(value),
        None => Err(Error { what: ErrorWhat::ExpectedFloat, line: which, start, end }),
    }
}

/// Reads the number of a field that leaves its decimal point out.
pub fn parse_decimal_point_assumed(
    line: &[u8],
    start: usize,
    end: usize,
    which: ErrorLine,
) -> (r: Result<Decimal, Error>)
    requires
        start <= end <= line@.len(),
    ensures
        match assumed_point_field(line@, start as int, end as int) {
            Ok(value) => r matches Ok(d) && d@ == value,
            Err(what) => r == Err::<Decimal, Error>(
                error_at(what, which, start as int, end as int),
            ),
        },
{
    let text = trim_ascii_start(slice_subrange(line, start, end));
    let n = text.len();
    if n == 0 {
        return Err(
            Error { what: ErrorWhat::ExpectedFloatWithAssumedDecimalPoint, line: which, start, end },
        );
    }
    let mut buffer: Vec<u8> = Vec::new();
    let mut from: usize = 0;
    if text[0] == 0x2d {
        if n < 2 || n > 15 {
            return Err(
                Error {
                    what: ErrorWhat::FloatWithAssumedDecimalPointTooLong,
                    line: which,
                    start,
                    end,
                },
            );
        }
        buffer.push(0x2d);
        buffer.push(0x2e);
        from = 1;
    } else if text[0] == 0x2b {
        if n < 2 || n > 16 {
            return Err(
                Error {
                    what: ErrorWhat::FloatWithAssumedDecimalPointTooLong,
                    line: which,
                    start,
                    end,
                },
            );
        }
        buffer.push(0x2e);
        from = 1;
    } else {
        if n > 15 {
            return Err(
                Error {
                    what: ErrorWhat::FloatWithAssumedDecimalPointTooLong,
                    line: which,
                    start,
                    end,
                },
            );
        }
        buffer.push(0x2e);
    }
    let ghost head = buffer@;
    let mut i: usize = from;
    while i < n
        invariant
            from <= i <= n,
            n == text@.len(),
            buffer@ == head + text@.subrange(from as int, i as int),
        decreases n - i,
    {
        buffer.push(text[i]);
        assert(buffer@ =~= head + text@.subrange(from as int, i + 1));
        i += 1;
    }
    proof {
        assert(text@.subrange(from as int, n as int) =~= text@.skip(from as int));
        assert(text@.skip(0) =~= text@);
        assert(buffer@ =~= with_point(text@));
        if is_number_text(buffer@) {
            lemma_short_text_is_representable(buffer@);
        }
    }
    match Decimal::parse(buffer.as_slice()) {
        Some(value) => Ok(value),
        None => Err(
            Error { what: ErrorWhat::ExpectedFloatWithAssumedDecimalPoint, line: which, start, end },
        ),
    }
}

/// A number with a power of ten beside it: `significand * 10^exponent`.
#[derive(Debug, Clone, Copy, PartialEq, Eq, Structural)]
pub struct Scaled {
    pub significand: Decimal,
    pub exponent: i8,
}

/// The moment of an element set: a date, and the day of the year with its
/// fraction as the first line writes it. The whole part of `day_of_year` is
/// the day of `year` on which `month` and `day` fall.
#[derive(Debug, Clone, Copy, PartialEq, Eq, Structural)]
pub struct Epoch {
    pub year: i32,
    pub month: u32,
    pub day: u32,
    pub day_of_year: Decimal,
}

/// The elements of a satellite, as an element set writes them.
#[derive(Debug, Clone)]
pub struct Elements {
    /// The name of the satellite.
    pub object_name: Option<String>,
    /// The year of the launch, a hyphen, and the number and piece of the
    /// launch.
    pub international_designator: Option<String>,
    /// The catalogue number of the satellite.
    pub norad_id: u64,
    pub classification: Classification,
    /// The moment for which the elements hold, in UTC.
    pub epoch: Epoch,
    /// First derivative of the mean motion.
    pub mean_motion_dot: Decimal,
    /// Second derivative of the mean motion.
    pub mean_motion_ddot: Scaled,
    /// The drag term, in inverse earth radii.
    pub drag_term: Scaled,
    /// Count of the element sets made for the satellite.
    pub element_set_number: u64,
    /// Inclination in degrees.
    pub inclination: Decimal,
    /// Right ascension of the ascending node in degrees.
    pub right_ascension: Decimal,
    pub eccentricity: Decimal,
    /// Argument of perigee in degrees.
    pub argument_of_perigee: Decimal,
    /// Mean anomaly in degrees.
    pub mean_anomaly: Decimal,
    /// Mean motion in revolutions a day, in Kozai's convention.
    pub mean_motion: Decimal,
    /// Number of the revolution at the epoch.
    pub revolution_number: u64,
    pub ephemeris_type: u8,
}

/// The error of the two lines that does not depend on what their fields
/// hold: a wrong length, a wrong first character, a separator that is no
/// space, a catalogue number that cannot be read or differs between the
/// lines, a wrong checksum. The first that applies, in this order.
pub open spec fn structure_error(line1: Seq<u8>, line2: Seq<u8>) -> Option<Error> {
    if line1.len() != 69 {
        Some(error_at(ErrorWhat::BadLength, ErrorLine::Line1, 0, line1.len() as int))
    } else if line2.len() != 69 {
        Some(error_at(ErrorWhat::BadLength, ErrorLine::Line2, 0, line2.len() as int))
    } else if line1[0] != 0x31 {
        Some(error_at(ErrorWhat::BadFirstCharacter, ErrorLine::Line1, 0, 1))
    } else if line2[0] != 0x32 {
        Some(error_at(ErrorWhat::BadFirstCharacter, ErrorLine::Line2, 0, 1))
    } else if first_non_space(line1, line1_separators()) is Some {
        let column = first_non_space(line1, line1_separators()).unwrap();
        Some(error_at(ErrorWhat::ExpectedSpace, ErrorLine::Line1, column, column + 1))
    } else if first_non_space(line2, line2_separators()) is Some {
        let column = first_non_space(line2, line2_separators()).unwrap();
        Some(error_at(ErrorWhat::ExpectedSpace, ErrorLine::Line2, column, column + 1))
    } else if unsigned_field(line1, 2, 7, true, u64::MAX) is None {
        Some(error_at(ErrorWhat::ExpectedInteger, ErrorLine::Line1, 2, 7))
    } else if unsigned_field(line2, 2, 7, true, u64::MAX) is None {
        Some(error_at(ErrorWhat::ExpectedInteger, ErrorLine::Line2, 2, 7))
    } else if unsigned_field(line1, 2, 7, true, u64::MAX) != unsigned_field(
        line2,
        2,
        7,
        true,
        u64::MAX,
    ) {
        Some(error_at(ErrorWhat::NoradIdMismatch, ErrorLine::Both, 2, 7))
    } else if !checksum_holds(line1) {
        Some(error_at(ErrorWhat::BadChecksum, ErrorLine::Line1, 68, 69))
    } else if !checksum_holds(line2) {
        Some(error_at(ErrorWhat::BadChecksum, ErrorLine::Line2, 68, 69))
    } else {
        None
    }
}

pub open spec fn classification_of(b: u8) -> Option<Classification> {
    if b == 0x55 {
        Some(Classification::Unclassified)
    } else if b == 0x43 {
        Some(Classification::Classified)
    } else if b == 0x53 {
        Some(Classification::Secret)
    } else {
        None
    }
}

/// The year that two digits stand for: below 57 a year from 2000 on, else
/// a year from 1957 on.
pub open spec fn full_year(two_digits: int) -> int {
    if two_digits < 57 {
        2000 + two_digits
    } else {
        1900 + two_digits
    }
}

/// Whether the columns of the designator hold whitespace only.
pub open spec fn designator_is_blank(line1: Seq<u8>) -> bool {
    forall|i: int| 9 <= i < 17 ==> is_whitespace(#[trigger] line1[i])
}

/// The designator of the first line: nothing where its columns are blank,
/// else the full year of the launch, a hyphen, and the rest of the field
/// without the whitespace around it.
pub open spec fn designator_of(line1: Seq<u8>) -> Option<Seq<char>> {
    if designator_is_blank(line1) {
        None
    } else {
        Some(
            decimal_chars(full_year(unsigned_field(line1, 9, 11, false, 255).unwrap() as int) as nat)
                + seq!['-'] + trimmed(decode_utf8(field(line1, 11, 17))),
        )
    }
}

pub open spec fn designator_error(line1: Seq<u8>) -> Option<Error> {
    if designator_is_blank(line1) {
        None
    } else if unsigned_field(line1, 9, 11, false, 255) is None {
        Some(error_at(ErrorWhat::ExpectedInteger, ErrorLine::Line1, 9, 11))
    } else if !valid_utf8(field(line1, 11, 17)) {
        Some(error_at(ErrorWhat::ExpectedString, ErrorLine::Line1, 11, 17))
    } else {
        None
    }
}

/// The year of the epoch.
pub open spec fn epoch_year(line1: Seq<u8>) -> int {
    full_year(unsigned_field(line1, 18, 20, false, 255).unwrap() as int)
}

/// The day of the year of the epoch, without its fraction.
pub open spec fn epoch_ordinal(line1: Seq<u8>) -> int {
    decimal_field(line1, 20, 32).unwrap().whole_part() as int
}

pub open spec fn epoch_error(line1: Seq<u8>) -> Option<Error> {
    if decimal_field(line1, 20, 32) is None {
        Some(error_at(ErrorWhat::ExpectedFloat, ErrorLine::Line1, 20, 32))
    } else if unsigned_field(line1, 18, 20, false, 255) is None {
        Some(error_at(ErrorWhat::ExpectedFloat, ErrorLine::Line1, 18, 20))
    } else if !is_day_of_year(epoch_year(line1), epoch_ordinal(line1)) {
        Some(error_at(ErrorWhat::FromYoOptFailed, ErrorLine::Line1, 18, 20))
    } else {
        None
    }
}

pub open spec fn assumed_point_error(line: Seq<u8>, start: int, end: int, which: ErrorLine) -> Option<
    Error,
> {
    match assumed_point_field(line, start, end) {
        Ok(_) => None,
        Err(what) => Some(error_at(what, which, start, end)),
    }
}

/// The first error among the fields of the first line, in the order of the
/// fields.
pub open spec fn line1_error(line1: Seq<u8>) -> Option<Error> {
    if classification_of(line1[7]) is None {
        Some(error_at(ErrorWhat::UnknownClassification, ErrorLine::Line1, 7, 8))
    } else if designator_error(line1) is Some {
        designator_error(line1)
    } else if epoch_error(line1) is Some {
        epoch_error(line1)
    } else if decimal_field(line1, 33, 43) is None {
        Some(error_at(ErrorWhat::ExpectedFloat, ErrorLine::Line1, 33, 43))
    } else if assumed_point_error(line1, 44, 50, ErrorLine::Line1) is Some {
        assumed_point_error(line1, 44, 50, ErrorLine::Line1)
    } else if power_field(line1, 50, 52) is None {
        Some(error_at(ErrorWhat::ExpectedFloat, ErrorLine::Line1, 50, 52))
    } else if assumed_point_error(line1, 53, 59, ErrorLine::Line1) is Some {
        assumed_point_error(line1, 53, 59, ErrorLine::Line1)
    } else if power_field(line1, 59, 61) is None {
        Some(error_at(ErrorWhat::ExpectedFloat, ErrorLine::Line1, 59, 61))
    } else if unsigned_field(line1, 62, 63, true, 255) is None {
        Some(error_at(ErrorWhat::ExpectedInteger, ErrorLine::Line1, 62, 63))
    } else if unsigned_field(line1, 64, 68, true, u64::MAX) is None {
        Some(error_at(ErrorWhat::ExpectedInteger, ErrorLine::Line1, 64, 68))
    } else {
        None
    }
}

/// The first error among the fields of the second line, in the order of
/// the fields.
pub open spec fn line2_error(line2: Seq<u8>) -> Option<Error> {
    if decimal_field(line2, 8, 16) is None {
        Some(error_at(ErrorWhat::ExpectedFloat, ErrorLine::Line2, 8, 16))
    } else if decimal_field(line2, 17, 25) is None {
        Some(error_at(ErrorWhat::ExpectedFloat, ErrorLine::Line2, 17, 25))
    } else if assumed_point_error(line2, 26, 33, ErrorLine::Line2) is Some {
        assumed_point_error(line2, 26, 33, ErrorLine::Line2)
    } else if decimal_field(line2, 34, 42) is None {
        Some(error_at(ErrorWhat::ExpectedFloat, ErrorLine::Line2, 34, 42))
    } else if decimal_field(line2, 43, 51) is None {
        Some(error_at(ErrorWhat::ExpectedFloat, ErrorLine::Line2, 43, 51))
    } else if decimal_field(line2, 52, 63) is None {
        Some(error_at(ErrorWhat::ExpectedFloat, ErrorLine::Line2, 52, 63))
    } else if unsigned_field(line2, 63, 68, true, u64::MAX) is None {
        Some(error_at(ErrorWhat::ExpectedInteger, ErrorLine::Line2, 63, 68))
    } else {
        None
    }
}

/// The error of a pair of lines: that of their structure, else the first
/// among the fields of the first line, else the first among those of the
/// second; nothing for a pair that is an element set.
pub open spec fn tle_error(line1: Seq<u8>, line2: Seq<u8>) -> Option<Error> {
    if structure_error(line1, line2) is Some {
        structure_error(line1, line2)
    } else if line1_error(line1) is Some {
        line1_error(line1)
    } else {
        line2_error(line2)
    }
}

/// The characters of a string that may be absent.
pub open spec fn text_of(s: Option<String>) -> Option<Seq<char>> {
    match s {
        Some(s) => Some(s@),
        None => None,
    }
}

impl Scaled {
    /// Whether this is the number of the field from `start` to `mid` with
    /// the power of ten from `mid` to `end`.
    pub open spec fn is_field(self, line: Seq<u8>, start: int, mid: int, end: int) -> bool {
        assumed_point_field(line, start, mid) == Ok::<Number, ErrorWhat>(self.significand@)
            && power_field(line, mid, end) == Some(self.exponent)
    }
}

impl Epoch {
    /// The day number of the date.
    pub fn day_number(&self) -> (r: i64)
        ensures
            r == day_number(self.year as int, self.month as int, self.day as int),
    {
        compute_day_number(self.year, self.month, self.day)
    }

    /// Whole days from 1 January 2000 to the date.
    pub fn days_since_j2000(&self) -> (r: i64)
        ensures
            r == days_since_j2000(self.year as int, self.month as int, self.day as int),
    {
        compute_days_since_j2000(self.year, self.month, self.day)
    }

    /// Whether this is the epoch that the first line writes.
    pub open spec fn is_epoch_of(self, line1: Seq<u8>) -> bool {
        &&& self.year == epoch_year(line1)
        &&& Some(self.day_of_year@) == decimal_field(line1, 20, 32)
        &&& self.month == month_of_ordinal(epoch_year(line1), epoch_ordinal(line1))
        &&& self.day == day_of_ordinal(epoch_year(line1), epoch_ordinal(line1))
    }
}

impl Elements {
    /// Whether these are the elements that the two lines of an element set
    /// write, under the name `name`.
    #[verifier::opaque]
    pub open spec fn describes(self, name: Option<Seq<char>>, line1: Seq<u8>, line2: Seq<u8>) -> bool {
        &&& text_of(self.object_name) == name
        &&& text_of(self.international_designator) == designator_of(line1)
        &&& Some(self.norad_id) == unsigned_field(line1, 2, 7, true, u64::MAX)
        &&& Some(self.classification) == classification_of(line1[7])
        &&& self.epoch.is_epoch_of(line1)
        &&& Some(self.mean_motion_dot@) == decimal_field(line1, 33, 43)
        &&& self.mean_motion_ddot.is_field(line1, 44, 50, 52)
        &&& self.drag_term.is_field(line1, 53, 59, 61)
        &&& Some(self.ephemeris_type as u64) == unsigned_field(line1, 62, 63, true, 255)
        &&& Some(self.element_set_number) == unsigned_field(line1, 64, 68, true, u64::MAX)
        &&& Some(self.inclination@) == decimal_field(line2, 8, 16)
        &&& Some(self.right_ascension@) == decimal_field(line2, 17, 25)
        &&& assumed_point_field(line2, 26, 33) == Ok::<Number, ErrorWhat>(self.eccentricity@)
        &&& Some(self.argument_of_perigee@) == decimal_field(line2, 34, 42)
        &&& Some(self.mean_anomaly@) == decimal_field(line2, 43, 51)
        &&& Some(self.mean_motion@) == decimal_field(line2, 52, 63)
        &&& Some(self.revolution_number) == unsigned_field(line2, 63, 68, true, u64::MAX)
    }
}

/// Checks the structure of the two lines and reads the catalogue number.
fn check_structure(line1: &[u8], line2: &[u8]) -> (r: Result<u64, Error>)
    ensures
        match structure_error(line1@, line2@) {
            Some(error) => r == Err::<u64, Error>(error),
            None => r matches Ok(id) && Some(id) == unsigned_field(line1@, 2, 7, true, u64::MAX)
                && line1@.len() == 69 && line2@.len() == 69,
        },
{
    if line1.len() != 69 {
        return Err(
            Error { what: ErrorWhat::BadLength, line: ErrorLine::Line1, start: 0, end: line1.len() },
        );
    }
    if line2.len() != 69 {
        return Err(
            Error { what: ErrorWhat::BadLength, line: ErrorLine::Line2, start: 0, end: line2.len() },
        );
    }
    if line1[0] != 0x31 {
        return Err(
            Error { what: ErrorWhat::BadFirstCharacter, line: ErrorLine::Line1, start: 0, end: 1 },
        );
    }
    if line2[0] != 0x32 {
        return Err(
            Error { what: ErrorWhat::BadFirstCharacter, line: ErrorLine::Line2, start: 0, end: 1 },
        );
    }
    let columns1: [usize; 8] = [1, 8, 17, 32, 43, 52, 61, 63];
    let columns2: [usize; 7] = [1, 7, 16, 25, 33, 42, 51];
    assert(columns1@.map_values(|c: usize| c as int) =~= line1_separators());
    assert(columns2@.map_values(|c: usize| c as int) =~= line2_separators());
    match first_non_space_of(line1, columns1.as_slice()) {
        Some(column) => {
            return Err(
                Error {
                    what: ErrorWhat::ExpectedSpace,
                    line: ErrorLine::Line1,
                    start: column,
                    end: column + 1,
                },
            );
        },
        None => {},
    }
    match first_non_space_of(line2, columns2.as_slice()) {
        Some(column) => {
            return Err(
                Error {
                    what: ErrorWhat::ExpectedSpace,
                    line: ErrorLine::Line2,
                    start: column,
                    end: column + 1,
                },
            );
        },
        None => {},
    }
    let id1 = read_unsigned(
        line1,
        2,
        7,
        true,
        u64::MAX,
        ErrorWhat::ExpectedInteger,
        ErrorLine::Line1,
    )?;
    let id2 = read_unsigned(
        line2,
        2,
        7,
        true,
        u64::MAX,
        ErrorWhat::ExpectedInteger,
        ErrorLine::Line2,
    )?;
    if id1 != id2 {
        return Err(
            Error { what: ErrorWhat::NoradIdMismatch, line: ErrorLine::Both, start: 2, end: 7 },
        );
    }
    if !checksum_is_right(line1) {
        return Err(
            Error { what: ErrorWhat::BadChecksum, line: ErrorLine::Line1, start: 68, end: 69 },
        );
    }
    if !checksum_is_right(line2) {
        return Err(
            Error { what: ErrorWhat::BadChecksum, line: ErrorLine::Line2, start: 68, end: 69 },
        );
    }
    Ok(id1)
}

fn classify(b: u8) -> (r: Result<Classification, Error>)
    ensures
        match classification_of(b) {
            Some(c) => r == Ok::<Classification, Error>(c),
            None => r == Err::<Classification, Error>(
                error_at(ErrorWhat::UnknownClassification, ErrorLine::Line1, 7, 8),
            ),
        },
{
    if b == 0x55 {
        Ok(Classification::Unclassified)
    } else if b == 0x43 {
        Ok(Classification::Classified)
    } else if b == 0x53 {
        Ok(Classification::Secret)
    } else {
        Err(
            Error {
                what: ErrorWhat::UnknownClassification,
                line: ErrorLine::Line1,
                start: 7,
                end: 8,
            },
        )
    }
}

/// The full year that two digits stand for.
fn full_year_of(two_digits: u64) -> (r: u16)
    requires
        two_digits <= 255,
    ensures
        r == full_year(two_digits as int),
{
    if two_digits < 57 {
        2000 + two_digits as u16
    } else {
        1900 + two_digits as u16
    }
}

fn read_designator(line1: &[u8]) -> (r: Result<Option<String>, Error>)
    requires
        line1@.len() == 69,
    ensures
        match designator_error(line1@) {
            Some(error) => r == Err::<Option<String>, Error>(error),
            None => r matches Ok(d) && text_of(d) == designator_of(line1@),
        },
{
    let mut i: usize = 9;
    while i < 17 && is_ascii_whitespace(line1[i])
        invariant
            9 <= i <= 17,
            line1@.len() == 69,
            forall|j: int| 9 <= j < i ==> is_whitespace(#[trigger] line1@[j]),
        decreases 17 - i,
    {
        i += 1;
    }
    if i == 17 {
        return Ok(None);
    }
    assert(!designator_is_blank(line1@)) by {
        assert(!is_whitespace(line1@[i as int]));
    }
    let year = read_unsigned(
        line1,
        9,
        11,
        false,
        255,
        ErrorWhat::ExpectedInteger,
        ErrorLine::Line1,
    )?;
    match utf8_text(slice_subrange(line1, 11, 17)) {
        Some(piece) => Ok(Some(join_with_hyphen(full_year_of(year), trim(piece)))),
        None => Err(
            Error { what: ErrorWhat::ExpectedString, line: ErrorLine::Line1, start: 11, end: 17 },
        ),
    }
}

fn read_epoch(line1: &[u8]) -> (r: Result<Epoch, Error>)
    requires
        line1@.len() == 69,
    ensures
        match epoch_error(line1@) {
            Some(error) => r == Err::<Epoch, Error>(error),
            None => r matches Ok(epoch) && epoch.is_epoch_of(line1@),
        },
{
    let day_of_year = read_decimal(line1, 20, 32, ErrorLine::Line1)?;
    let two_digits = read_unsigned(
        line1,
        18,
        20,
        false,
        255,
        ErrorWhat::ExpectedFloat,
        ErrorLine::Line1,
    )?;
    let year: i32 = full_year_of(two_digits) as i32;
    let ordinal = day_of_year.whole_part();
    if from_yo_opt(year, ordinal) {
        let (month, day) = month_and_day(year, ordinal);
        Ok(Epoch { year, month, day, day_of_year })
    } else {
        Err(Error { what: ErrorWhat::FromYoOptFailed, line: ErrorLine::Line1, start: 18, end: 20 })
    }
}

/// Reads a field without a point and the power of ten behind it.
fn read_scaled(line: &[u8], start: usize, mid: usize, end: usize, which: ErrorLine) -> (r: Result<
    Scaled,
    Error,
>)
    requires
        start <= mid <= end <= line@.len(),
    ensures
        match assumed_point_error(line@, start as int, mid as int, which) {
            Some(error) => r == Err::<Scaled, Error>(error),
            None => match power_field(line@, mid as int, end as int) {
                None => r == Err::<Scaled, Error>(
                    error_at(ErrorWhat::ExpectedFloat, which, mid as int, end as int),
                ),
                Some(_) => r matches Ok(scaled) && scaled.is_field(
                    line@,
                    start as int,
                    mid as int,
                    end as int,
                ),
            },
        },
{
    let significand = parse_decimal_point_assumed(line, start, mid, which)?;
    let exponent = read_power(line, mid, end, which)?;
    Ok(Scaled { significand, exponent })
}

impl Elements {
    /// Reads the two lines of an element set.
    fn from_lines(line1: &[u8], line2: &[u8]) -> (r: Result<Elements, Error>)
        ensures
            match tle_error(line1@, line2@) {
                Some(error) => r == Err::<Elements, Error>(error),
                None => r matches Ok(elements) && elements.describes(None, line1@, line2@),
            },
    {
        reveal(tle_error);
        reveal(Elements::describes);
        let norad_id = check_structure(line1, line2)?;
        let classification = classify(line1[7])?;
        let international_designator = read_designator(line1)?;
        let epoch = read_epoch(line1)?;
        let mean_motion_dot = read_decimal(line1, 33, 43, ErrorLine::Line1)?;
        let mean_motion_ddot = read_scaled(line1, 44, 50, 52, ErrorLine::Line1)?;
        let drag_term = read_scaled(line1, 53, 59, 61, ErrorLine::Line1)?;
        let ephemeris_type = read_unsigned(
            line1,
            62,
            63,
            true,
            255,
            ErrorWhat::ExpectedInteger,
            ErrorLine::Line1,
        )?;
        let element_set_number = read_unsigned(
            line1,
            64,
            68,
            true,
            u64::MAX,
            ErrorWhat::ExpectedInteger,
            ErrorLine::Line1,
        )?;
        let inclination = read_decimal(line2, 8, 16, ErrorLine::Line2)?;
        let right_ascension = read_decimal(line2, 17, 25, ErrorLine::Line2)?;
        let eccentricity = parse_decimal_point_assumed(line2, 26, 33, ErrorLine::Line2)?;
        let argument_of_perigee = read_decimal(line2, 34, 42, ErrorLine::Line2)?;
        let mean_anomaly = read_decimal(line2, 43, 51, ErrorLine::Line2)?;
        let mean_motion = read_decimal(line2, 52, 63, ErrorLine::Line2)?;
        let revolution_number = read_unsigned(
            line2,
            63,
            68,
            true,
            u64::MAX,
            ErrorWhat::ExpectedInteger,
            ErrorLine::Line2,
        )?;
        Ok(
            Elements {
                object_name: None,
                international_designator,
                norad_id,
                classification,
                epoch,
                mean_motion_dot,
                mean_motion_ddot,
                drag_term,
                element_set_number,
                inclination,
                right_ascension,
                eccentricity,
                argument_of_perigee,
                mean_anomaly,
                mean_motion,
                revolution_number,
                ephemeris_type: ephemeris_type as u8,
            },
        )
    }

    /// Reads an element set: two lines of 69 bytes each, and the name of
    /// the satellite, if there is one.
    pub fn from_tle(object_name: Option<String>, line1: &[u8], line2: &[u8]) -> (r: Result<
        Elements,
        Error,
    >)
        ensures
            match tle_error(line1@, line2@) {
                Some(error) => r == Err::<Elements, Error>(error),
                None => r matches Ok(elements) && elements.describes(
                    text_of(object_name),
                    line1@,
                    line2@,
                ),
            },
    {
        reveal(Elements::describes);
        let mut result = Elements::from_lines(line1, line2)?;
        result.object_name = object_name;
        Ok(result)
    }
}

/// The bits of 2^63, the first number above every count of nanoseconds
/// that 64 bits with a sign hold.
pub const NANOSECONDS_LIMIT: u64 = 0x43e0_0000_0000_0000;

/// The bits of -2^63.
pub const NANOSECONDS_LOWER_LIMIT: u64 = 0xc3e0_0000_0000_0000;

/// Whether a time in nanoseconds is turned into a count of nanoseconds:
/// it is not above 2^63 and not below -2^63.
pub fn is_nanoseconds_in_range(nanoseconds: Binary64) -> (r: bool)
    ensures
        r == !(number(NANOSECONDS_LIMIT).less(nanoseconds) || nanoseconds.less(
            number(NANOSECONDS_LOWER_LIMIT),
        )),
{
    !(nanoseconds.gt(Binary64::from_bits(NANOSECONDS_LIMIT)) || nanoseconds.lt(
        Binary64::from_bits(NANOSECONDS_LOWER_LIMIT),
    ))
}

} // verus!
