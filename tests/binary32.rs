use rayscii::binary32::{less_equal, less_than, nan, MAX_FINITE, ONE, ZERO};

fn interesting_values() -> Vec<f32> {
    vec![
        0.0,
        -0.0,
        1.0,
        -1.0,
        0.5,
        1.5,
        2.0,
        -2.0,
        40.0,
        400.0,
        -60.0,
        f32::MIN_POSITIVE,
        -f32::MIN_POSITIVE,
        f32::from_bits(1),
        f32::from_bits(0x8000_0001),
        f32::from_bits(0x007f_ffff),
        f32::MAX,
        f32::MIN,
        f32::INFINITY,
        f32::NEG_INFINITY,
        f32::NAN,
        -f32::NAN,
        f32::from_bits(0x7f80_0001),
        f32::EPSILON,
        1.0e-30,
        -1.0e30,
    ]
}

#[test]
fn constants_match_their_values() {
    assert_eq!(MAX_FINITE, f32::MAX.to_bits());
    assert_eq!(ONE, 1.0f32.to_bits());
    assert_eq!(ZERO, 0.0f32.to_bits());
}

#[test]
fn less_than_agrees_with_hardware() {
    let values = interesting_values();
    for a in &values {
        for b in &values {
            assert_eq!(less_than(a.to_bits(), b.to_bits()), a < b, "{} < {}", a, b);
        }
    }
}

#[test]
fn less_equal_agrees_with_hardware() {
    let values = interesting_values();
    for a in &values {
        for b in &values {
            assert_eq!(less_equal(a.to_bits(), b.to_bits()), a <= b, "{} <= {}", a, b);
        }
    }
}

#[test]
fn nan_agrees_with_hardware() {
    for a in interesting_values() {
        assert_eq!(nan(a.to_bits()), a.is_nan(), "{}", a);
    }
}

#[test]
fn zeros_are_equal() {
    assert!(!less_than(0x8000_0000, 0));
    assert!(!less_than(0, 0x8000_0000));
    assert!(less_equal(0x8000_0000, 0));
    assert!(less_equal(0, 0x8000_0000));
}

#[test]
fn nan_is_unordered() {
    let n = f32::NAN.to_bits();
    assert!(!less_than(n, ONE));
    assert!(!less_than(ONE, n));
    assert!(!less_equal(n, n));
}
