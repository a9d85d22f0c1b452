use sgp4::ascii::{
    is_ascii_whitespace, parse_i8, parse_u64, parse_u8, parse_unsigned, scan_digits,
    trim_ascii_start,
};
use sgp4::decimal::Decimal;

fn finite(negative: bool, mantissa: u64, exponent: i64) -> Option<Decimal> {
    Some(Decimal::Finite { negative, mantissa, exponent })
}

fn to_f64(decimal: &Decimal) -> f64 {
    match *decimal {
        Decimal::Finite { negative, mantissa, exponent } => {
            let sign = if negative { "-" } else { "" };
            format!("{}{}e{}", sign, mantissa, exponent).parse().unwrap()
        }
        Decimal::Infinite { negative } => {
            if negative {
                f64::NEG_INFINITY
            } else {
                f64::INFINITY
            }
        }
        Decimal::NotANumber { negative } => {
            if negative {
                -f64::NAN
            } else {
                f64::NAN
            }
        }
    }
}

#[test]
fn whitespace_is_trimmed_at_the_start_only() {
    assert_eq!(trim_ascii_start(b"  \t\r\n\x0c12 "), b"12 ");
    assert_eq!(trim_ascii_start(b"12"), b"12");
    assert_eq!(trim_ascii_start(b"   "), b"");
    assert_eq!(trim_ascii_start(b""), b"");
    assert_eq!(trim_ascii_start(b"\x0b1"), b"\x0b1");
    for byte in 0..=255_u8 {
        assert_eq!(is_ascii_whitespace(byte), byte.is_ascii_whitespace());
    }
}

#[test]
fn digits_are_scanned_up_to_the_first_other_byte() {
    assert_eq!(scan_digits(b"12345x", 0, 0, 100000), (5, Some(12345)));
    assert_eq!(scan_digits(b"12345x", 2, 7, 100000), (5, Some(7345)));
    assert_eq!(scan_digits(b"12345x", 0, 0, 12344), (5, None));
    assert_eq!(scan_digits(b"x", 0, 9, 10), (0, Some(9)));
    assert_eq!(scan_digits(b"", 0, 0, 0), (0, Some(0)));
}

#[test]
fn unsigned_integers() {
    assert_eq!(parse_u64(b"25544"), Some(25544));
    assert_eq!(parse_u64(b"+25544"), Some(25544));
    assert_eq!(parse_u64(b"007"), Some(7));
    assert_eq!(parse_u64(b"18446744073709551615"), Some(u64::MAX));
    assert_eq!(parse_u64(b"18446744073709551616"), None);
    assert_eq!(parse_u64(b"99999999999999999999999999"), None);
    assert_eq!(parse_u64(b""), None);
    assert_eq!(parse_u64(b"+"), None);
    assert_eq!(parse_u64(b"-1"), None);
    assert_eq!(parse_u64(b" 1"), None);
    assert_eq!(parse_u64(b"1 "), None);
    assert_eq!(parse_u64(b"++1"), None);
    assert_eq!(parse_u64(b"1_0"), None);
    assert_eq!(parse_u8(b"255"), Some(255));
    assert_eq!(parse_u8(b"256"), None);
    assert_eq!(parse_u8(b"0"), Some(0));
    assert_eq!(parse_unsigned(b"100", 99), None);
    assert_eq!(parse_unsigned(b"099", 99), Some(99));
    for text in ["", "0", "+0", "-0", "12", "255", "256", "1e3", "0x10", " 5", "5 ", "٣"] {
        assert_eq!(parse_u8(text.as_bytes()), text.parse::<u8>().ok(), "{:?}", text);
        assert_eq!(parse_u64(text.as_bytes()), text.parse::<u64>().ok(), "{:?}", text);
    }
}

#[test]
fn signed_integers() {
    assert_eq!(parse_i8(b"-4"), Some(-4));
    assert_eq!(parse_i8(b"-0"), Some(0));
    assert_eq!(parse_i8(b"+1"), Some(1));
    assert_eq!(parse_i8(b"12"), Some(12));
    assert_eq!(parse_i8(b"127"), Some(127));
    assert_eq!(parse_i8(b"128"), None);
    assert_eq!(parse_i8(b"-128"), Some(-128));
    assert_eq!(parse_i8(b"-129"), None);
    assert_eq!(parse_i8(b"-"), None);
    assert_eq!(parse_i8(b" 0"), None);
    for text in ["", "-", "+", "-0", "+0", "-128", "-129", "127", "128", "1-", "--1", "0 "] {
        assert_eq!(parse_i8(text.as_bytes()), text.parse::<i8>().ok(), "{:?}", text);
    }
}

#[test]
fn numerals() {
    assert_eq!(Decimal::parse(b"51.6416"), finite(false, 516416, -4));
    assert_eq!(Decimal::parse(b"-.00002182"), finite(true, 2182, -8));
    assert_eq!(Decimal::parse(b".0006703"), finite(false, 6703, -7));
    assert_eq!(Decimal::parse(b"15.72125391"), finite(false, 1572125391, -8));
    assert_eq!(Decimal::parse(b"0"), finite(false, 0, 0));
    assert_eq!(Decimal::parse(b"-0"), finite(true, 0, 0));
    assert_eq!(Decimal::parse(b"+7"), finite(false, 7, 0));
    assert_eq!(Decimal::parse(b"7."), finite(false, 7, 0));
    assert_eq!(Decimal::parse(b"1e3"), finite(false, 1, 3));
    assert_eq!(Decimal::parse(b"1.5E-3"), finite(false, 15, -4));
    assert_eq!(Decimal::parse(b"1.e+2"), finite(false, 1, 2));
    assert_eq!(Decimal::parse(b".5e1"), finite(false, 5, 0));
    assert_eq!(Decimal::parse(b"-3.1515e-5"), finite(true, 31515, -9));
    assert_eq!(Decimal::parse(b"18446744073709551615"), finite(false, u64::MAX, 0));
    assert_eq!(Decimal::parse(b"18446744073709551616"), None);
    assert_eq!(Decimal::parse(b"1e9223372036854775807"), finite(false, 1, i64::MAX));
    assert_eq!(Decimal::parse(b"1e9223372036854775808"), None);
    assert_eq!(Decimal::parse(b"1e-9223372036854775808"), finite(false, 1, i64::MIN));
    assert_eq!(Decimal::parse(b"0.1e-9223372036854775808"), None);
    assert_eq!(Decimal::parse(b"0.1e9223372036854775808"), finite(false, 1, i64::MAX));
}

#[test]
fn texts_that_are_no_numbers() {
    for text in [
        "", "+", "-", ".", "+.", "e5", ".e5", "1e", "1e+", "1e-", "1.2.3", "1 ", " 1", "1,5",
        "0x10", "1_000", "--1", "+-1", "1e1.5", "in", "infinit", "infinityy", "na", "nann", "1f",
    ] {
        assert_eq!(Decimal::parse(text.as_bytes()), None, "{:?}", text);
        assert!(text.parse::<f64>().is_err(), "{:?}", text);
    }
}

#[test]
fn infinities_and_what_is_no_number() {
    for text in ["inf", "INF", "Infinity", "+inf", "iNfInItY"] {
        assert_eq!(
            Decimal::parse(text.as_bytes()),
            Some(Decimal::Infinite { negative: false }),
            "{:?}",
            text
        );
    }
    assert_eq!(Decimal::parse(b"-inf"), Some(Decimal::Infinite { negative: true }));
    assert_eq!(Decimal::parse(b"-INFINITY"), Some(Decimal::Infinite { negative: true }));
    assert_eq!(Decimal::parse(b"nan"), Some(Decimal::NotANumber { negative: false }));
    assert_eq!(Decimal::parse(b"NaN"), Some(Decimal::NotANumber { negative: false }));
    assert_eq!(Decimal::parse(b"+NAN"), Some(Decimal::NotANumber { negative: false }));
    assert_eq!(Decimal::parse(b"-nan"), Some(Decimal::NotANumber { negative: true }));
}

#[test]
fn a_text_is_a_number_here_where_it_is_one_for_the_standard_library() {
    let texts = [
        "0", "-0", "1", "+1", "1.", ".1", "1.1", "-1.1e1", "1E10", "1e-10", "00012.500", "inf",
        "-inf", "nan", "", ".", "e", "1e", "e1", "+.e1", "1.1.1", "1e1e1", "264.51782528",
        "-.00002182", " 51.6416", "51.6416 ", "7318036", "+", "-", "Infinity", "infinit", "NAN",
        "123456789012", "1e400", "1e-400", "0e0", "0.e0", ".0e0", "٣.٣",
    ];
    for text in texts {
        let parsed = Decimal::parse(text.as_bytes());
        let expected = text.parse::<f64>();
        assert_eq!(parsed.is_some(), expected.is_ok(), "{:?}", text);
        if let (Some(decimal), Ok(number)) = (parsed, expected) {
            assert_eq!(to_f64(&decimal).to_bits(), number.to_bits(), "{:?}", text);
        }
    }
}

#[test]
fn whole_part_is_cut_to_32_bits() {
    let cases: [(&str, u32); 22] = [
        ("264.51782528", 264),
        ("0.99999999999", 0),
        ("1", 1),
        ("1.0", 1),
        ("365.999999", 365),
        ("366", 366),
        ("-1.5", 0),
        ("-0.5", 0),
        ("-0", 0),
        ("4294967295", u32::MAX),
        ("4294967295.9", u32::MAX),
        ("4294967296", u32::MAX),
        ("99999999999", u32::MAX),
        ("1e3", 1000),
        ("4.2e1", 42),
        ("2645178e-4", 264),
        ("1e-400", 0),
        ("1e400", u32::MAX),
        ("0e400", 0),
        ("inf", u32::MAX),
        ("-inf", 0),
        ("nan", 0),
    ];
    for (text, expected) in cases {
        let decimal = Decimal::parse(text.as_bytes()).unwrap();
        assert_eq!(decimal.whole_part(), expected, "{:?}", text);
        assert_eq!(text.parse::<f64>().unwrap() as u32, expected, "{:?}", text);
    }
}
