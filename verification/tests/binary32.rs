use speech_synthesis::Binary32;

fn number(x: f32) -> Binary32 {
    Binary32(x.to_bits())
}

fn samples() -> Vec<f32> {
    vec![
        0.0,
        -0.0,
        f32::from_bits(1),
        -f32::from_bits(1),
        f32::from_bits(0x007f_ffff),
        f32::MIN_POSITIVE,
        -f32::MIN_POSITIVE,
        f32::EPSILON,
        0.1,
        0.5,
        0.999_999_94,
        1.0,
        1.000_000_1,
        -1.0,
        2.0,
        16.7,
        33.4,
        1000.0,
        1000.5,
        -1000.5,
        86_400_000.0,
        f32::MAX,
        f32::MIN,
        f32::INFINITY,
        f32::NEG_INFINITY,
        f32::NAN,
        -f32::NAN,
        f32::from_bits(0x7f80_0001),
        f32::from_bits(0xffff_ffff),
    ]
}

#[test]
fn order_is_that_of_the_numbers() {
    let all = samples();
    for &a in &all {
        for &b in &all {
            assert_eq!(number(a).le(number(b)), a <= b, "{:?} <= {:?}", a, b);
        }
    }
}

#[test]
fn not_a_number_is_told_from_numbers() {
    for &a in &samples() {
        assert_eq!(number(a).is_nan(), a.is_nan(), "{:?}", a);
    }
}

#[test]
fn order_is_that_of_the_numbers_around_each_power_of_two() {
    let mut all: Vec<f32> = Vec::new();
    for exponent in 0u32..=255 {
        for fraction in [0u32, 1, 0x0040_0000, 0x007f_ffff] {
            let bits = (exponent << 23) | fraction;
            all.push(f32::from_bits(bits));
            all.push(f32::from_bits(bits | 0x8000_0000));
        }
    }
    for &a in &all {
        for &b in &all {
            assert_eq!(number(a).le(number(b)), a <= b, "{:?} <= {:?}", a, b);
        }
    }
}

#[test]
fn zeros_of_both_signs_are_equal() {
    assert!(number(0.0).le(number(-0.0)));
    assert!(number(-0.0).le(number(0.0)));
    assert!(Binary32(0x8000_0000).le(Binary32(0)));
}

#[test]
fn nothing_compares_with_not_a_number() {
    let nan = number(f32::NAN);
    assert!(nan.is_nan());
    assert!(!nan.le(nan));
    assert!(!nan.le(number(1.0)));
    assert!(!number(1.0).le(nan));
    assert!(!number(f32::INFINITY).le(nan));
    assert!(!nan.le(number(f32::INFINITY)));
    assert!(!number(f32::INFINITY).is_nan());
    assert!(!number(f32::NEG_INFINITY).is_nan());
}

#[test]
fn bits_are_kept_as_given() {
    assert_eq!(number(1.0).0, 0x3f80_0000);
    assert_eq!(number(-2.0).0, 0xc000_0000);
    assert_eq!(f32::from_bits(Binary32(0x4120_0000).0), 10.0);
    let copy = number(0.25);
    let same = copy;
    assert_eq!(copy.0, same.0);
}
