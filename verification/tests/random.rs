use sgp4::binary64::Binary64;
use sgp4::decimal::Decimal;

/// A fixed sequence of numbers that looks random.
struct Sequence(u64);

impl Sequence {
    fn next(&mut self) -> u64 {
        self.0 ^= self.0 << 13;
        self.0 ^= self.0 >> 7;
        self.0 ^= self.0 << 17;
        self.0
    }
}

fn interesting_bits(sequence: &mut Sequence) -> u64 {
    let bits = sequence.next();
    match sequence.next() % 8 {
        0 => bits & 0x800f_ffff_ffff_ffff,
        1 => bits | 0x7ff0_0000_0000_0000,
        2 => bits & 0x8000_0000_0000_0001,
        3 => (bits & 0x8000_0000_0000_0000) | 0x7ff0_0000_0000_0000,
        4 => (bits & 0x800f_ffff_ffff_ffff) | 0x3ff0_0000_0000_0000,
        _ => bits,
    }
}

#[test]
fn order_of_many_bit_patterns_is_that_of_the_numbers() {
    let mut sequence = Sequence(0x2545_f491_4f6c_dd1d);
    for _ in 0..200_000 {
        let a = interesting_bits(&mut sequence);
        let b = match sequence.next() % 4 {
            0 => a,
            1 => a.wrapping_add(1),
            2 => a ^ 0x8000_0000_0000_0000,
            _ => interesting_bits(&mut sequence),
        };
        let (x, y) = (f64::from_bits(a), f64::from_bits(b));
        let (p, q) = (Binary64::from_bits(a), Binary64::from_bits(b));
        assert_eq!(p.lt(q), x < y, "{:x} {:x}", a, b);
        assert_eq!(p.le(q), x <= y, "{:x} {:x}", a, b);
        assert_eq!(p.gt(q), x > y, "{:x} {:x}", a, b);
        assert_eq!(p.ge(q), x >= y, "{:x} {:x}", a, b);
        assert_eq!(p.eq(q), x == y, "{:x} {:x}", a, b);
        assert_eq!(p.is_nan(), x.is_nan(), "{:x}", a);
        assert_eq!(p.abs().to_bits(), x.abs().to_bits(), "{:x}", a);
        assert_eq!(p.is_sign_positive(), x.is_sign_positive(), "{:x}", a);
    }
}

fn to_f64(decimal: &Decimal) -> f64 {
    match *decimal {
        Decimal::Finite { negative, mantissa, exponent } => {
            let sign = if negative { "-" } else { "" };
            format!("{}{}e{}", sign, mantissa, exponent).parse().unwrap()
        }
        Decimal::Infinite { negative } => {
            if negative {
                f64::NEG_INFINITY
            } else {
                f64::INFINITY
            }
        }
        Decimal::NotANumber { negative } => {
            if negative {
                -f64::NAN
            } else {
                f64::NAN
            }
        }
    }
}

#[test]
fn many_short_texts_are_read_as_the_standard_library_reads_them() {
    let alphabet = b"0123456789012345678901234567890123456789....++--eeEE infINFnatyNAN";
    let mut sequence = Sequence(0x9e37_79b9_7f4a_7c15);
    let mut numbers = 0;
    for _ in 0..400_000 {
        let length = (sequence.next() % 13) as usize;
        let mut text = Vec::new();
        for _ in 0..length {
            text.push(alphabet[(sequence.next() % alphabet.len() as u64) as usize]);
        }
        let text = String::from_utf8(text).unwrap();
        let parsed = Decimal::parse(text.as_bytes());
        let expected = text.parse::<f64>();
        assert_eq!(parsed.is_some(), expected.is_ok(), "{:?}", text);
        if let (Some(decimal), Ok(number)) = (parsed, expected) {
            numbers += 1;
            assert_eq!(to_f64(&decimal).to_bits(), number.to_bits(), "{:?}", text);
            assert_eq!(decimal.whole_part(), number as u32, "{:?}", text);
        }
        assert_eq!(sgp4::ascii::parse_u64(text.as_bytes()), text.parse::<u64>().ok(), "{:?}", text);
        assert_eq!(sgp4::ascii::parse_u8(text.as_bytes()), text.parse::<u8>().ok(), "{:?}", text);
        assert_eq!(sgp4::ascii::parse_i8(text.as_bytes()), text.parse::<i8>().ok(), "{:?}", text);
    }
    assert!(numbers > 10_000);
}

#[test]
fn many_days_of_the_year_have_the_whole_part_of_their_number() {
    let mut sequence = Sequence(0x1234_5678_9abc_def1);
    for _ in 0..200_000 {
        let whole = sequence.next() % 400;
        let digits = (sequence.next() % 9) as usize;
        let fraction = sequence.next() % 10_u64.pow(digits as u32);
        let text = if digits == 0 {
            format!("{}", whole)
        } else {
            format!("{}.{:0width$}", whole, fraction, width = digits)
        };
        let decimal = Decimal::parse(text.as_bytes()).unwrap();
        assert_eq!(decimal.whole_part(), whole as u32, "{:?}", text);
        assert_eq!(text.parse::<f64>().unwrap() as u32, whole as u32, "{:?}", text);
    }
    for whole in 0..400_u32 {
        for text in [format!("{}.99999999", whole), format!("{:3}.9999999", whole)] {
            let trimmed = text.trim_start();
            let decimal = Decimal::parse(trimmed.as_bytes()).unwrap();
            assert_eq!(decimal.whole_part(), whole);
            assert_eq!(trimmed.parse::<f64>().unwrap() as u32, whole);
        }
    }
}
