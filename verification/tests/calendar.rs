use sgp4::calendar::{compute_day_number, compute_days_since_j2000, J2000_DAY_NUMBER};
use sgp4::tle::Elements;

fn epoch_of(year_and_day: &str) -> (i32, u32, u32) {
    let mut line1 =
        "1 25544U 98067A   08264.51782528 -.00002182  00000-0 -11606-4 0  2927".as_bytes().to_vec();
    line1[18..32].copy_from_slice(year_and_day.as_bytes());
    let mut sum: u32 = 0;
    for byte in line1[..68].iter() {
        if *byte == b'-' {
            sum += 1;
        } else if byte.is_ascii_digit() {
            sum += (*byte - b'0') as u32;
        }
    }
    line1[68] = b'0' + (sum % 10) as u8;
    let elements = Elements::from_tle(
        None,
        &line1,
        "2 25544  51.6416 247.4627 0006703 130.5360 325.0288 15.72125391563537".as_bytes(),
    )
    .unwrap();
    (elements.epoch.year, elements.epoch.month, elements.epoch.day)
}

#[test]
fn day_number_formula() {
    assert_eq!(compute_day_number(2000, 1, 1), 730531);
    assert_eq!(J2000_DAY_NUMBER, 730531);
    assert_eq!(compute_days_since_j2000(2000, 1, 1), 0);
    assert_eq!(compute_days_since_j2000(2008, 9, 20), 3185);
    assert_eq!(compute_days_since_j2000(1980, 8, 17), -7076);
    assert_eq!(compute_days_since_j2000(2020, 7, 12), 7498);
    assert_eq!(compute_day_number(1980, 8, 17), 367 * 1980 - (7 * 1981) / 4 + (275 * 8) / 9 + 17);
}

#[test]
fn day_number_rounds_down_below_zero() {
    assert_eq!(compute_day_number(-1, 1, 1), -367 - (-2) + 30 + 1);
    assert_eq!(compute_day_number(-3, 12, 31), -3 * 367 - (-4) + 366 + 31);
    assert_eq!(compute_day_number(i32::MIN, 0, 0), 367 * (i32::MIN as i64) + 3758096384);
    assert_eq!(
        compute_day_number(i32::MAX, u32::MAX, u32::MAX),
        367 * (i32::MAX as i64) - 4384445780 + 131235111791 + 4294967295
    );
}

#[test]
fn day_number_grows_by_one_from_day_to_day() {
    let start = chrono::NaiveDate::from_ymd_opt(1957, 1, 1).unwrap();
    let mut previous = compute_day_number(1957, 1, 1);
    let mut date = start;
    for _ in 0..(100 * 366) {
        date = date.succ_opt().unwrap();
        let number = compute_day_number(
            chrono::Datelike::year(&date),
            chrono::Datelike::month(&date),
            chrono::Datelike::day(&date),
        );
        assert_eq!(number, previous + 1, "{}", date);
        previous = number;
    }
}

#[test]
fn day_of_the_year_gives_month_and_day() {
    assert_eq!(epoch_of("08264.51782528"), (2008, 9, 20));
    assert_eq!(epoch_of("80230.29629788"), (1980, 8, 17));
    assert_eq!(epoch_of("00001.00000000"), (2000, 1, 1));
    assert_eq!(epoch_of("00060.00000000"), (2000, 2, 29));
    assert_eq!(epoch_of("01060.00000000"), (2001, 3, 1));
    assert_eq!(epoch_of("00366.99999999"), (2000, 12, 31));
    assert_eq!(epoch_of("99365.50000000"), (1999, 12, 31));
    assert_eq!(epoch_of("56032.00000000"), (2056, 2, 1));
    assert_eq!(epoch_of("57031.00000000"), (1957, 1, 31));
    for year in [0_u32, 1, 4, 23, 56, 57, 72, 99] {
        let full = if year < 57 { 2000 + year as i32 } else { 1900 + year as i32 };
        for ordinal in 1..=365_u32 {
            let date = chrono::NaiveDate::from_yo_opt(full, ordinal).unwrap();
            assert_eq!(
                epoch_of(&format!("{:02}{:03}.00000000", year, ordinal)),
                (full, chrono::Datelike::month(&date), chrono::Datelike::day(&date))
            );
        }
    }
}

#[test]
fn leap_years_follow_the_gregorian_rule() {
    use_leap(2000, true);
    use_leap(1900, false);
    use_leap(2100, false);
    use_leap(2008, true);
    use_leap(2023, false);
    use_leap(0, true);
    use_leap(-4, true);
    use_leap(-100, false);
    use_leap(-400, true);
    use_leap(i32::MIN, true);
    use_leap(i32::MAX, false);
}

fn use_leap(year: i32, expected: bool) {
    assert_eq!(sgp4::calendar::is_leap(year), expected, "{}", year);
    if let Some(date) = chrono::NaiveDate::from_ymd_opt(year, 1, 1) {
        assert_eq!(date.leap_year(), expected, "{}", year);
    }
}

#[test]
fn month_and_day_are_those_of_the_calendar() {
    for year in [1900, 1957, 2000, 2008, 2023, 2056, 2100, -4, -1] {
        let mut ordinal = 1;
        while let Some(date) = chrono::NaiveDate::from_yo_opt(year, ordinal) {
            assert_eq!(
                sgp4::calendar::month_and_day(year, ordinal),
                (chrono::Datelike::month(&date), chrono::Datelike::day(&date)),
                "{}",
                date
            );
            ordinal += 1;
        }
        assert_eq!(ordinal - 1, if sgp4::calendar::is_leap(year) { 366 } else { 365 });
    }
}
