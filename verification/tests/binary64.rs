use sgp4::binary64::Binary64;

fn samples() -> Vec<f64> {
    vec![
        0.0,
        -0.0,
        1.0,
        -1.0,
        0.5,
        0.65,
        0.7,
        0.715,
        1.0e-12,
        -1.0e-12,
        1.5e-12,
        0.95,
        -0.95,
        2.0,
        720.0,
        -720.0,
        1440.0,
        98.0,
        156.0,
        std::f64::consts::PI,
        f64::MIN_POSITIVE,
        -f64::MIN_POSITIVE,
        f64::MIN_POSITIVE / 2.0,
        5e-324,
        -5e-324,
        f64::MAX,
        f64::MIN,
        f64::INFINITY,
        f64::NEG_INFINITY,
        f64::NAN,
        -f64::NAN,
        f64::EPSILON,
        1.0 + f64::EPSILON,
        1.0 - f64::EPSILON / 2.0,
        0.9999999999999999,
        3.999999999999999,
        4.0,
    ]
}

fn bits(x: f64) -> Binary64 {
    Binary64::from_bits(x.to_bits())
}

#[test]
fn order_is_that_of_the_numbers() {
    for a in samples() {
        for b in samples() {
            assert_eq!(bits(a).lt(bits(b)), a < b, "{} < {}", a, b);
            assert_eq!(bits(a).le(bits(b)), a <= b, "{} <= {}", a, b);
            assert_eq!(bits(a).gt(bits(b)), a > b, "{} > {}", a, b);
            assert_eq!(bits(a).ge(bits(b)), a >= b, "{} >= {}", a, b);
            assert_eq!(bits(a).eq(bits(b)), a == b, "{} == {}", a, b);
        }
    }
}

#[test]
fn sign_and_size() {
    for a in samples() {
        assert_eq!(bits(a).is_nan(), a.is_nan());
        assert_eq!(bits(a).is_sign_positive(), a.is_sign_positive());
        assert_eq!(bits(a).abs().to_bits(), a.abs().to_bits());
    }
}

#[test]
fn the_two_zeros_are_equal_and_neither_is_less() {
    assert!(bits(0.0).eq(bits(-0.0)));
    assert!(!bits(-0.0).lt(bits(0.0)));
    assert!(bits(-0.0).le(bits(0.0)));
    assert!(bits(-5e-324).lt(bits(0.0)));
}

#[test]
fn what_is_no_number_compares_with_nothing() {
    let nan = bits(f64::NAN);
    assert!(!nan.eq(nan));
    assert!(!nan.lt(bits(1.0)) && !nan.gt(bits(1.0)) && !nan.le(nan) && !nan.ge(nan));
}

#[test]
fn bits_go_in_and_out_unchanged() {
    assert_eq!(Binary64::from_bits(0x3ff0_0000_0000_0000).to_bits(), 1.0_f64.to_bits());
    assert_eq!(Binary64::from_bits(0x8000_0000_0000_0000).to_bits(), (-0.0_f64).to_bits());
}
