//! Dates of the proleptic Gregorian calendar: the day of the year, and the
//! day number on which the epoch of an element set is counted.

use vstd::prelude::*;

verus! {

/// The first and the last year that a date can have here.
pub const MIN_YEAR: i32 = -262143;

pub const MAX_YEAR: i32 = 262142;

pub open spec fn is_leap_year(year: int) -> bool {
    year % 4 == 0 && (year % 100 != 0 || year % 400 == 0)
}

pub open spec fn days_in_year(year: int) -> int {
    if is_leap_year(year) {
        366
    } else {
        365
    }
}

/// Number of days of `year` that lie before the first of `month`, for the
/// months 1 to 12; for 13, the length of the year.
pub open spec fn days_before_month(year: int, month: int) -> int {
    let leap: int = if is_leap_year(year) {
        1
    } else {
        0
    };
    if month <= 1 {
        0
    } else if month == 2 {
        31
    } else if month == 3 {
        59 + leap
    } else if month == 4 {
        90 + leap
    } else if month == 5 {
        120 + leap
    } else if month == 6 {
        151 + leap
    } else if month == 7 {
        181 + leap
    } else if month == 8 {
        212 + leap
    } else if month == 9 {
        243 + leap
    } else if month == 10 {
        273 + leap
    } else if month == 11 {
        304 + leap
    } else if month == 12 {
        334 + leap
    } else {
        365 + leap
    }
}

/// Whether `year` has a day with the number `ordinal`, counted from 1.
pub open spec fn is_day_of_year(year: int, ordinal: int) -> bool {
    MIN_YEAR <= year <= MAX_YEAR && 1 <= ordinal <= days_in_year(year)
}

/// The month in which the day `ordinal` of `year` lies.
pub open spec fn month_of_ordinal(year: int, ordinal: int) -> int {
    if ordinal <= days_before_month(year, 2) {
        1
    } else if ordinal <= days_before_month(year, 3) {
        2
    } else if ordinal <= days_before_month(year, 4) {
        3
    } else if ordinal <= days_before_month(year, 5) {
        4
    } else if ordinal <= days_before_month(year, 6) {
        5
    } else if ordinal <= days_before_month(year, 7) {
        6
    } else if ordinal <= days_before_month(year, 8) {
        7
    } else if ordinal <= days_before_month(year, 9) {
        8
    } else if ordinal <= days_before_month(year, 10) {
        9
    } else if ordinal <= days_before_month(year, 11) {
        10
    } else if ordinal <= days_before_month(year, 12) {
        11
    } else {
        12
    }
}

/// The day of its month that the day `ordinal` of `year` is.
pub open spec fn day_of_ordinal(year: int, ordinal: int) -> int {
    ordinal - days_before_month(year, month_of_ordinal(year, ordinal))
}

/// `chrono::NaiveDate::from_yo_opt`: whether chrono has a date for the
/// day `ordinal` of `year`. It has one for the years that it can hold and
/// the days that the year has, 365 or 366 by the Gregorian rule.
#[verifier::external_body]
pub(crate) fn from_yo_opt(year: i32, ordinal: u32) -> (r: bool)
    ensures
        r == is_day_of_year(year as int, ordinal as int),
{
    chrono::NaiveDate::from_yo_opt(year, ordinal).is_some()
}

/// Whether `year` is a leap year.
pub fn is_leap(year: i32) -> (r: bool)
    ensures
        r == is_leap_year(year as int),
{
    // A multiple of 400 that takes every year above zero.
    let shifted: i64 = year as i64 + 2147484000;
    shifted % 4 == 0 && (shifted % 100 != 0 || shifted % 400 == 0)
}

/// Finds the month and the day of the month on which the day `ordinal` of
/// `year` falls.
pub fn month_and_day(year: i32, ordinal: u32) -> (r: (u32, u32))
    requires
        1 <= ordinal <= days_in_year(year as int),
    ensures
        r.0 == month_of_ordinal(year as int, ordinal as int),
        r.1 == day_of_ordinal(year as int, ordinal as int),
{
    let leap: u32 = if is_leap(year) {
        1
    } else {
        0
    };
    if ordinal <= 31 {
        (1, ordinal)
    } else if ordinal <= 59 + leap {
        (2, ordinal - 31)
    } else if ordinal <= 90 + leap {
        (3, ordinal - 59 - leap)
    } else if ordinal <= 120 + leap {
        (4, ordinal - 90 - leap)
    } else if ordinal <= 151 + leap {
        (5, ordinal - 120 - leap)
    } else if ordinal <= 181 + leap {
        (6, ordinal - 151 - leap)
    } else if ordinal <= 212 + leap {
        (7, ordinal - 181 - leap)
    } else if ordinal <= 243 + leap {
        (8, ordinal - 212 - leap)
    } else if ordinal <= 273 + leap {
        (9, ordinal - 243 - leap)
    } else if ordinal <= 304 + leap {
        (10, ordinal - 273 - leap)
    } else if ordinal <= 334 + leap {
        (11, ordinal - 304 - leap)
    } else {
        (12, ordinal - 334 - leap)
    }
}

/// The day number of a date: `367 Y - floor(7 (Y + floor((M + 9) / 12)) / 4)
/// + floor(275 M / 9) + D`. From March 1900 to February 2100 it grows by
/// one from each day to the next.
pub open spec fn day_number(year: int, month: int, day: int) -> int {
    367 * year - (7 * (year + (month + 9) / 12)) / 4 + (275 * month) / 9 + day
}

/// Number of days of the month `month` of `year`.
pub open spec fn days_in_month(year: int, month: int) -> int {
    days_before_month(year, month + 1) - days_before_month(year, month)
}

/// Whether `year`, `month` and `day` are a date of the calendar.
pub open spec fn is_date(year: int, month: int, day: int) -> bool {
    1 <= month <= 12 && 1 <= day <= days_in_month(year, month)
}

/// The day of the year that a date is, counted from 1.
pub open spec fn ordinal_of(year: int, month: int, day: int) -> int {
    days_before_month(year, month) + day
}

/// The month and the day of a day of the year are a date, and the date of
/// that day of the year.
pub proof fn lemma_ordinal_round_trip(year: int, ordinal: int)
    requires
        1 <= ordinal <= days_in_year(year),
    ensures
        is_date(year, month_of_ordinal(year, ordinal), day_of_ordinal(year, ordinal)),
        ordinal_of(year, month_of_ordinal(year, ordinal), day_of_ordinal(year, ordinal))
            == ordinal,
{
}

/// From 1901 to 2099 the day number counts the days: within a year it
/// grows with the day of the year.
pub proof fn lemma_day_number_within_year(year: int, month: int, day: int)
    requires
        1901 <= year <= 2099,
        is_date(year, month, day),
    ensures
        day_number(year, month, day) == day_number(year, 1, 1) + ordinal_of(year, month, day) - 1,
{
}

/// From 1901 to 2099 the day number counts the days: from the first day of
/// a year to the first of the next it grows by the length of the year.
pub proof fn lemma_day_number_across_years(year: int)
    requires
        1901 <= year < 2099,
    ensures
        day_number(year + 1, 1, 1) == day_number(year, 1, 1) + days_in_year(year),
{
}

/// The day number of 1 January 2000.
pub const J2000_DAY_NUMBER: i64 = 730531;

/// Whole days from 1 January 2000 to the date.
pub open spec fn days_since_j2000(year: int, month: int, day: int) -> int {
    day_number(year, month, day) - J2000_DAY_NUMBER
}

/// Computes the day number of a date.
pub fn compute_day_number(year: i32, month: u32, day: u32) -> (r: i64)
    ensures
        r == day_number(year as int, month as int, day as int),
{
    let carry: i64 = (month as i64 + 9) / 12;
    let sevens: i64 = 7 * (year as i64 + carry);
    // The quotient by 4 rounds down, also below zero.
    let shift: i64 = 0x1_0000_0000;
    let quarter: i64 = (sevens + 4 * shift) / 4 - shift;
    assert(quarter == sevens as int / 4) by {
        vstd::arithmetic::div_mod::lemma_fundamental_div_mod(sevens as int, 4);
        vstd::arithmetic::div_mod::lemma_fundamental_div_mod_converse_div(
            sevens + 4 * shift,
            4,
            sevens as int / 4 + shift,
            sevens as int % 4,
        );
    }
    367 * (year as i64) - quarter + (275 * (month as i64)) / 9 + day as i64
}

/// Computes the whole days from 1 January 2000 to a date.
pub fn compute_days_since_j2000(year: i32, month: u32, day: u32) -> (r: i64)
    ensures
        r == days_since_j2000(year as int, month as int, day as int),
{
    compute_day_number(year, month, day) - J2000_DAY_NUMBER
}

} // verus!
