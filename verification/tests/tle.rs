use chrono::Timelike;
use sgp4::calendar::compute_days_since_j2000;
use sgp4::decimal::Decimal;
use sgp4::tle::{Classification, Elements, Error, ErrorLine, ErrorWhat, Scaled};

const ISS_LINE1: &str = "1 25544U 98067A   08264.51782528 -.00002182  00000-0 -11606-4 0  2927";
const ISS_LINE2: &str = "2 25544  51.6416 247.4627 0006703 130.5360 325.0288 15.72125391563537";

fn to_f64(decimal: &Decimal) -> f64 {
    match *decimal {
        Decimal::Finite { negative, mantissa, exponent } => {
            let sign = if negative { "-" } else { "" };
            format!("{}{}e{}", sign, mantissa, exponent).parse().unwrap()
        }
        Decimal::Infinite { negative } => {
            if negative {
                f64::NEG_INFINITY
            } else {
                f64::INFINITY
            }
        }
        Decimal::NotANumber { negative } => {
            if negative {
                -f64::NAN
            } else {
                f64::NAN
            }
        }
    }
}

fn scaled_to_f64(scaled: &Scaled) -> f64 {
    to_f64(&scaled.significand) * 10.0_f64.powi(scaled.exponent as i32)
}

fn datetime(elements: &Elements) -> chrono::NaiveDateTime {
    let day = to_f64(&elements.epoch.day_of_year);
    let seconds = day.fract() * (24.0 * 60.0 * 60.0);
    chrono::NaiveDate::from_ymd_opt(elements.epoch.year, elements.epoch.month, elements.epoch.day)
        .unwrap()
        .and_time(
            chrono::NaiveTime::from_num_seconds_from_midnight_opt(
                seconds as u32,
                (seconds.fract() * 1e9).round() as u32,
            )
            .unwrap(),
        )
}

fn epoch(elements: &Elements) -> f64 {
    let datetime = datetime(elements);
    compute_days_since_j2000(elements.epoch.year, elements.epoch.month, elements.epoch.day) as f64
        / 365.25
        + (datetime.num_seconds_from_midnight() as i32 - 43200) as f64
            / (24.0 * 60.0 * 60.0 * 365.25)
        + (datetime.nanosecond() as f64) / (24.0 * 60.0 * 60.0 * 1e9 * 365.25)
}

fn epoch_afspc_compatibility_mode(elements: &Elements) -> f64 {
    let datetime = datetime(elements);
    let day_number = sgp4::calendar::compute_day_number(
        elements.epoch.year,
        elements.epoch.month,
        elements.epoch.day,
    );
    (day_number as f64
        + 1721013.5
        + (((datetime.nanosecond() as f64 / 1e9 + datetime.second() as f64) / 60.0
            + datetime.minute() as f64)
            / 60.0
            + datetime.hour() as f64)
            / 24.0
        - 2451545.0)
        / 365.25
}

fn assert_eq_f64(first: f64, second: f64) {
    if second == 0.0 {
        assert_eq!(first, 0.0);
    } else {
        assert!((first - second).abs() / second < f64::EPSILON);
    }
}

#[test]
fn test_from_tle() {
    let elements = Elements::from_tle(
        Some("ISS (ZARYA)".into()),
        ISS_LINE1.as_bytes(),
        ISS_LINE2.as_bytes(),
    )
    .unwrap();

    match elements.object_name.as_ref() {
        Some(object_name) => assert_eq!(object_name, "ISS (ZARYA)"),
        None => panic!(),
    }
    assert_eq!(elements.norad_id, 25544);
    assert!(matches!(elements.classification, Classification::Unclassified));
    assert_eq!(elements.international_designator.as_ref().unwrap(), "1998-067A");
    assert_eq!(
        datetime(&elements),
        chrono::NaiveDate::from_yo_opt(2008, 264).unwrap().and_time(
            chrono::NaiveTime::from_num_seconds_from_midnight_opt(44740, 104192001).unwrap()
        )
    );
    assert_eq_f64(epoch(&elements), 8.720103559972621);
    assert_eq_f64(epoch_afspc_compatibility_mode(&elements), 8.720_103_559_972_213);
    assert_eq_f64(to_f64(&elements.mean_motion_dot), -0.00002182);
    assert_eq_f64(scaled_to_f64(&elements.mean_motion_ddot), 0.0);
    assert_eq_f64(scaled_to_f64(&elements.drag_term), -0.11606e-4);
    assert_eq!(elements.ephemeris_type, 0);
    assert_eq!(elements.element_set_number, 292);
    assert_eq_f64(to_f64(&elements.inclination), 51.6416);
    assert_eq_f64(to_f64(&elements.right_ascension), 247.4627);
    assert_eq_f64(to_f64(&elements.eccentricity), 0.0006703);
    assert_eq_f64(to_f64(&elements.argument_of_perigee), 130.5360);
    assert_eq_f64(to_f64(&elements.mean_anomaly), 325.0288);
    assert_eq_f64(to_f64(&elements.mean_motion), 15.72125391);
    assert_eq!(elements.revolution_number, 56353);
    let elements = Elements::from_tle(
        None,
        "1 11801U          80230.29629788  .01431103  00000-0  14311-1 0    13".as_bytes(),
        "2 11801  46.7916 230.4354 7318036  47.4722  10.4117  2.28537848    13".as_bytes(),
    )
    .unwrap();
    assert!(elements.object_name.is_none());
    assert_eq!(elements.norad_id, 11801);
    assert!(matches!(elements.classification, Classification::Unclassified));
    assert!(elements.international_designator.is_none());
    assert_eq!(
        datetime(&elements),
        chrono::NaiveDate::from_yo_opt(1980, 230).unwrap().and_time(
            chrono::NaiveTime::from_num_seconds_from_midnight_opt(25600, 136832000).unwrap()
        )
    );
    assert_eq_f64(epoch(&elements), -19.373_589_875_756_33);
    assert_eq_f64(epoch_afspc_compatibility_mode(&elements), -19.373589875756632);
    assert_eq_f64(to_f64(&elements.mean_motion_dot), 0.01431103);
    assert_eq_f64(scaled_to_f64(&elements.mean_motion_ddot), 0.0);
    assert_eq_f64(scaled_to_f64(&elements.drag_term), 0.014311);
    assert_eq!(elements.ephemeris_type, 0);
    assert_eq!(elements.element_set_number, 1);
    assert_eq_f64(to_f64(&elements.inclination), 46.7916);
    assert_eq_f64(to_f64(&elements.right_ascension), 230.4354);
    assert_eq_f64(to_f64(&elements.eccentricity), 0.7318036);
    assert_eq_f64(to_f64(&elements.argument_of_perigee), 47.4722);
    assert_eq_f64(to_f64(&elements.mean_anomaly), 10.4117);
    assert_eq_f64(to_f64(&elements.mean_motion), 2.28537848);
    assert_eq!(elements.revolution_number, 1);
}

#[test]
fn iss_fields_are_exact_decimals() {
    let elements = Elements::from_tle(None, ISS_LINE1.as_bytes(), ISS_LINE2.as_bytes()).unwrap();
    assert_eq!(
        elements.inclination,
        Decimal::Finite { negative: false, mantissa: 516416, exponent: -4 }
    );
    assert_eq!(
        elements.eccentricity,
        Decimal::Finite { negative: false, mantissa: 6703, exponent: -7 }
    );
    assert_eq!(
        elements.mean_motion_dot,
        Decimal::Finite { negative: true, mantissa: 2182, exponent: -8 }
    );
    assert_eq!(
        elements.drag_term,
        Scaled {
            significand: Decimal::Finite { negative: true, mantissa: 11606, exponent: -5 },
            exponent: -4
        }
    );
    assert_eq!(
        elements.mean_motion_ddot,
        Scaled {
            significand: Decimal::Finite { negative: false, mantissa: 0, exponent: -5 },
            exponent: 0
        }
    );
    assert_eq!(
        elements.epoch.day_of_year,
        Decimal::Finite { negative: false, mantissa: 26451782528, exponent: -8 }
    );
    assert_eq!(elements.epoch.year, 2008);
    assert_eq!(elements.epoch.month, 9);
    assert_eq!(elements.epoch.day, 20);
}

fn error_of(line1: &str, line2: &str) -> Error {
    match Elements::from_tle(None, line1.as_bytes(), line2.as_bytes()) {
        Ok(_) => panic!("the lines were accepted"),
        Err(error) => error,
    }
}

fn checksum(bytes: &[u8]) -> u8 {
    let mut sum: u32 = 0;
    for byte in bytes[..68].iter() {
        if *byte == b'-' {
            sum += 1;
        } else if byte.is_ascii_digit() {
            sum += (*byte - b'0') as u32;
        }
    }
    b'0' + (sum % 10) as u8
}

fn with_checksum(line: &str) -> String {
    format!("{}{}", &line[..68], checksum(line.as_bytes()) as char)
}

fn replaced(line: &str, start: usize, text: &str) -> String {
    let mut bytes = line.as_bytes().to_vec();
    bytes[start..start + text.len()].copy_from_slice(text.as_bytes());
    with_checksum(&String::from_utf8(bytes).unwrap())
}

fn error(what: ErrorWhat, line: ErrorLine, start: usize, end: usize) -> Error {
    Error { what, line, start, end }
}

#[test]
fn bad_length() {
    assert_eq!(
        error_of(&ISS_LINE1[..68], ISS_LINE2),
        error(ErrorWhat::BadLength, ErrorLine::Line1, 0, 68)
    );
    assert_eq!(
        error_of(ISS_LINE1, &format!("{} ", ISS_LINE2)),
        error(ErrorWhat::BadLength, ErrorLine::Line2, 0, 70)
    );
    assert_eq!(error_of("", ""), error(ErrorWhat::BadLength, ErrorLine::Line1, 0, 0));
}

#[test]
fn bad_first_character() {
    assert_eq!(
        error_of(ISS_LINE2, ISS_LINE2),
        error(ErrorWhat::BadFirstCharacter, ErrorLine::Line1, 0, 1)
    );
    assert_eq!(
        error_of(ISS_LINE1, ISS_LINE1),
        error(ErrorWhat::BadFirstCharacter, ErrorLine::Line2, 0, 1)
    );
}

#[test]
fn expected_space() {
    assert_eq!(
        error_of(&replaced(ISS_LINE1, 17, "x"), ISS_LINE2),
        error(ErrorWhat::ExpectedSpace, ErrorLine::Line1, 17, 18)
    );
    assert_eq!(
        error_of(&replaced(ISS_LINE1, 8, "x"), &replaced(ISS_LINE2, 1, "x")),
        error(ErrorWhat::ExpectedSpace, ErrorLine::Line1, 8, 9)
    );
    assert_eq!(
        error_of(ISS_LINE1, &replaced(ISS_LINE2, 51, "0")),
        error(ErrorWhat::ExpectedSpace, ErrorLine::Line2, 51, 52)
    );
}

#[test]
fn expected_integer() {
    assert_eq!(
        error_of(&replaced(ISS_LINE1, 2, "2554x"), ISS_LINE2),
        error(ErrorWhat::ExpectedInteger, ErrorLine::Line1, 2, 7)
    );
    assert_eq!(
        error_of(ISS_LINE1, &replaced(ISS_LINE2, 2, "     ")),
        error(ErrorWhat::ExpectedInteger, ErrorLine::Line2, 2, 7)
    );
    assert_eq!(
        error_of(&replaced(ISS_LINE1, 9, " 8"), ISS_LINE2),
        error(ErrorWhat::ExpectedInteger, ErrorLine::Line1, 9, 11)
    );
    assert_eq!(
        error_of(&replaced(ISS_LINE1, 62, " "), ISS_LINE2),
        error(ErrorWhat::ExpectedInteger, ErrorLine::Line1, 62, 63)
    );
    assert_eq!(
        error_of(&replaced(ISS_LINE1, 64, "29 2"), ISS_LINE2),
        error(ErrorWhat::ExpectedInteger, ErrorLine::Line1, 64, 68)
    );
    assert_eq!(
        error_of(ISS_LINE1, &replaced(ISS_LINE2, 63, "5635-")),
        error(ErrorWhat::ExpectedInteger, ErrorLine::Line2, 63, 68)
    );
}

#[test]
fn norad_id_mismatch() {
    assert_eq!(
        error_of(ISS_LINE1, &replaced(ISS_LINE2, 2, "25545")),
        error(ErrorWhat::NoradIdMismatch, ErrorLine::Both, 2, 7)
    );
}

#[test]
fn norad_id_may_be_written_with_a_plus_sign_or_leading_spaces() {
    let elements = Elements::from_tle(
        None,
        replaced(ISS_LINE1, 2, "  +44").as_bytes(),
        replaced(ISS_LINE2, 2, "00044").as_bytes(),
    )
    .unwrap();
    assert_eq!(elements.norad_id, 44);
}

#[test]
fn bad_checksum() {
    let mut line1 = ISS_LINE1.to_owned();
    line1.replace_range(68..69, "8");
    assert_eq!(error_of(&line1, ISS_LINE2), error(ErrorWhat::BadChecksum, ErrorLine::Line1, 68, 69));
    let mut line2 = ISS_LINE2.to_owned();
    line2.replace_range(68..69, " ");
    assert_eq!(error_of(ISS_LINE1, &line2), error(ErrorWhat::BadChecksum, ErrorLine::Line2, 68, 69));
    line2.replace_range(68..69, "A");
    assert_eq!(error_of(ISS_LINE1, &line2), error(ErrorWhat::BadChecksum, ErrorLine::Line2, 68, 69));
}

#[test]
fn unknown_classification() {
    assert_eq!(
        error_of(&replaced(ISS_LINE1, 7, "X"), ISS_LINE2),
        error(ErrorWhat::UnknownClassification, ErrorLine::Line1, 7, 8)
    );
    for (letter, expected) in [
        ("U", Classification::Unclassified),
        ("C", Classification::Classified),
        ("S", Classification::Secret),
    ] {
        let elements = Elements::from_tle(
            None,
            replaced(ISS_LINE1, 7, letter).as_bytes(),
            ISS_LINE2.as_bytes(),
        )
        .unwrap();
        assert_eq!(elements.classification, expected);
    }
}

#[test]
fn expected_string() {
    let mut bytes = ISS_LINE1.as_bytes().to_vec();
    bytes[12] = 0xff;
    bytes[68] = checksum(&bytes);
    let elements = Elements::from_tle(None, &bytes, ISS_LINE2.as_bytes());
    assert_eq!(
        elements.err(),
        Some(error(ErrorWhat::ExpectedString, ErrorLine::Line1, 11, 17))
    );
}

#[test]
fn designator_years_turn_at_57() {
    let elements = Elements::from_tle(
        None,
        replaced(ISS_LINE1, 9, "56001AB ").as_bytes(),
        ISS_LINE2.as_bytes(),
    )
    .unwrap();
    assert_eq!(elements.international_designator.as_ref().unwrap(), "2056-001AB");
    let elements = Elements::from_tle(
        None,
        replaced(ISS_LINE1, 9, "57 01 A ").as_bytes(),
        ISS_LINE2.as_bytes(),
    )
    .unwrap();
    assert_eq!(elements.international_designator.as_ref().unwrap(), "1957-01 A");
    let mut bytes = ISS_LINE1.as_bytes().to_vec();
    bytes[11..17].copy_from_slice("\u{a0}7\u{2003}".as_bytes());
    let bytes = with_checksum(&String::from_utf8(bytes).unwrap()[..]).into_bytes();
    assert_eq!(bytes.len(), 69);
    let elements = Elements::from_tle(None, &bytes, ISS_LINE2.as_bytes()).unwrap();
    assert_eq!(elements.international_designator.as_ref().unwrap(), "1998-7");
}

#[test]
fn expected_float() {
    assert_eq!(
        error_of(&replaced(ISS_LINE1, 20, "264.5178252x"), ISS_LINE2),
        error(ErrorWhat::ExpectedFloat, ErrorLine::Line1, 20, 32)
    );
    assert_eq!(
        error_of(&replaced(ISS_LINE1, 18, " 8"), ISS_LINE2),
        error(ErrorWhat::ExpectedFloat, ErrorLine::Line1, 18, 20)
    );
    assert_eq!(
        error_of(&replaced(ISS_LINE1, 33, "-.0000218 "), ISS_LINE2),
        error(ErrorWhat::ExpectedFloat, ErrorLine::Line1, 33, 43)
    );
    assert_eq!(
        error_of(&replaced(ISS_LINE1, 50, " 0"), ISS_LINE2),
        error(ErrorWhat::ExpectedFloat, ErrorLine::Line1, 50, 52)
    );
    assert_eq!(
        error_of(&replaced(ISS_LINE1, 59, "-x"), ISS_LINE2),
        error(ErrorWhat::ExpectedFloat, ErrorLine::Line1, 59, 61)
    );
    assert_eq!(
        error_of(ISS_LINE1, &replaced(ISS_LINE2, 8, "51..6416")),
        error(ErrorWhat::ExpectedFloat, ErrorLine::Line2, 8, 16)
    );
    assert_eq!(
        error_of(ISS_LINE1, &replaced(ISS_LINE2, 17, "        ")),
        error(ErrorWhat::ExpectedFloat, ErrorLine::Line2, 17, 25)
    );
    assert_eq!(
        error_of(ISS_LINE1, &replaced(ISS_LINE2, 34, "130.536e")),
        error(ErrorWhat::ExpectedFloat, ErrorLine::Line2, 34, 42)
    );
    assert_eq!(
        error_of(ISS_LINE1, &replaced(ISS_LINE2, 43, "0x25.028")),
        error(ErrorWhat::ExpectedFloat, ErrorLine::Line2, 43, 51)
    );
    assert_eq!(
        error_of(ISS_LINE1, &replaced(ISS_LINE2, 52, "15,72125391")),
        error(ErrorWhat::ExpectedFloat, ErrorLine::Line2, 52, 63)
    );
}

#[test]
fn expected_float_with_assumed_decimal_point() {
    assert_eq!(
        error_of(&replaced(ISS_LINE1, 44, "      "), ISS_LINE2),
        error(ErrorWhat::ExpectedFloatWithAssumedDecimalPoint, ErrorLine::Line1, 44, 50)
    );
    assert_eq!(
        error_of(&replaced(ISS_LINE1, 53, "-1x606"), ISS_LINE2),
        error(ErrorWhat::ExpectedFloatWithAssumedDecimalPoint, ErrorLine::Line1, 53, 59)
    );
    assert_eq!(
        error_of(ISS_LINE1, &replaced(ISS_LINE2, 26, "0.06703")),
        error(ErrorWhat::ExpectedFloatWithAssumedDecimalPoint, ErrorLine::Line2, 26, 33)
    );
}

#[test]
fn float_with_assumed_decimal_point_too_long() {
    assert_eq!(
        error_of(&replaced(ISS_LINE1, 44, "     -"), ISS_LINE2),
        error(ErrorWhat::FloatWithAssumedDecimalPointTooLong, ErrorLine::Line1, 44, 50)
    );
    assert_eq!(
        error_of(ISS_LINE1, &replaced(ISS_LINE2, 26, "      +")),
        error(ErrorWhat::FloatWithAssumedDecimalPointTooLong, ErrorLine::Line2, 26, 33)
    );
    let line = format!("{:<20}", "-123456789012345");
    assert_eq!(
        sgp4::tle::parse_decimal_point_assumed(line.as_bytes(), 0, 16, ErrorLine::Both),
        Err(error(ErrorWhat::FloatWithAssumedDecimalPointTooLong, ErrorLine::Both, 0, 16))
    );
    assert_eq!(
        sgp4::tle::parse_decimal_point_assumed(line.as_bytes(), 0, 15, ErrorLine::Both),
        Ok(Decimal::Finite { negative: true, mantissa: 12345678901234, exponent: -14 })
    );
}

#[test]
fn assumed_decimal_point_stands_behind_the_sign() {
    let line = b"+5  -25 7e1 ";
    assert_eq!(
        sgp4::tle::parse_decimal_point_assumed(line, 0, 2, ErrorLine::Line1),
        Ok(Decimal::Finite { negative: false, mantissa: 5, exponent: -1 })
    );
    assert_eq!(
        sgp4::tle::parse_decimal_point_assumed(line, 2, 7, ErrorLine::Line1),
        Ok(Decimal::Finite { negative: true, mantissa: 25, exponent: -2 })
    );
    assert_eq!(
        sgp4::tle::parse_decimal_point_assumed(line, 8, 11, ErrorLine::Line1),
        Ok(Decimal::Finite { negative: false, mantissa: 7, exponent: 0 })
    );
    assert_eq!(
        sgp4::tle::parse_decimal_point_assumed(line, 7, 12, ErrorLine::Line2),
        Err(error(ErrorWhat::ExpectedFloatWithAssumedDecimalPoint, ErrorLine::Line2, 7, 12))
    );
}

#[test]
fn from_yo_opt_failed() {
    assert_eq!(
        error_of(&replaced(ISS_LINE1, 20, "367.51782528"), ISS_LINE2),
        error(ErrorWhat::FromYoOptFailed, ErrorLine::Line1, 18, 20)
    );
    assert_eq!(
        error_of(&replaced(ISS_LINE1, 18, "09366.51782528"), ISS_LINE2).what,
        ErrorWhat::FromYoOptFailed
    );
    assert_eq!(
        error_of(&replaced(ISS_LINE1, 20, "  0.51782528"), ISS_LINE2).what,
        ErrorWhat::FromYoOptFailed
    );
    assert_eq!(
        error_of(&replaced(ISS_LINE1, 20, " -1.51782528"), ISS_LINE2).what,
        ErrorWhat::FromYoOptFailed
    );
    assert_eq!(
        error_of(&replaced(ISS_LINE1, 20, "         nan"), ISS_LINE2).what,
        ErrorWhat::FromYoOptFailed
    );
    assert_eq!(
        error_of(&replaced(ISS_LINE1, 20, "    Infinity"), ISS_LINE2).what,
        ErrorWhat::FromYoOptFailed
    );
    assert_eq!(
        error_of(&replaced(ISS_LINE1, 20, "        4e40"), ISS_LINE2).what,
        ErrorWhat::FromYoOptFailed
    );
    let leap = Elements::from_tle(
        None,
        replaced(ISS_LINE1, 20, "366.51782528").as_bytes(),
        ISS_LINE2.as_bytes(),
    )
    .unwrap();
    assert_eq!((leap.epoch.year, leap.epoch.month, leap.epoch.day), (2008, 12, 31));
}

#[test]
fn the_first_error_in_the_order_of_the_fields_is_reported() {
    let line1 = replaced(&replaced(ISS_LINE1, 20, "400.51782528"), 33, "-.0000218x");
    assert_eq!(
        error_of(&line1, &replaced(ISS_LINE2, 8, "51..6416")),
        error(ErrorWhat::FromYoOptFailed, ErrorLine::Line1, 18, 20)
    );
    let line1 = replaced(&replaced(ISS_LINE1, 20, "26x.51782528"), 18, "x8");
    assert_eq!(error_of(&line1, ISS_LINE2), error(ErrorWhat::ExpectedFloat, ErrorLine::Line1, 20, 32));
}

#[test]
fn errors_are_described_in_words() {
    assert_eq!(ErrorWhat::BadChecksum.description(), "Bad line checksum");
    assert_eq!(ErrorWhat::ExpectedInteger.description(), "Parsing an integer field failed");
    assert_eq!(
        ErrorWhat::FromNumSecondsFromMidnightFailed.description(),
        "Date generation failed due to an error in the seconds from midnight"
    );
    assert_eq!(ErrorLine::Line1.description(), "on TLE line 1");
    assert_eq!(ErrorLine::Line2.description(), "on TLE line 2");
    assert_eq!(ErrorLine::Both.description(), "(TLE lines mismatch)");
    let error = error_of(ISS_LINE1, &replaced(ISS_LINE2, 2, "25545"));
    assert_eq!(
        format!(
            "TLE parse error: {} {} between characters {} and {}",
            error.what.description(),
            error.line.description(),
            error.start,
            error.end
        ),
        "TLE parse error: NORAD mismatch between TLE lines (TLE lines mismatch) between characters 2 and 7"
    );
}

#[test]
fn epoch_days_are_counted_from_the_first_day_of_2000() {
    let elements = Elements::from_tle(None, ISS_LINE1.as_bytes(), ISS_LINE2.as_bytes()).unwrap();
    assert_eq!(elements.epoch.days_since_j2000(), 3185);
    assert_eq!(elements.epoch.day_number(), 733716);
}

#[test]
fn nanoseconds_have_to_fit_in_64_bits() {
    let fits = |x: f64| sgp4::tle::is_nanoseconds_in_range(sgp4::binary64::Binary64::from_bits(x.to_bits()));
    assert_eq!(sgp4::tle::NANOSECONDS_LIMIT, (i64::MAX as f64).to_bits());
    assert_eq!(sgp4::tle::NANOSECONDS_LOWER_LIMIT, (i64::MIN as f64).to_bits());
    assert!(fits(0.0));
    assert!(fits(1440.0 * 60e9));
    assert!(fits(i64::MAX as f64));
    assert!(fits(i64::MIN as f64));
    assert!(!fits(9.3e18));
    assert!(!fits(-9.3e18));
    assert!(fits(f64::NAN));
}
