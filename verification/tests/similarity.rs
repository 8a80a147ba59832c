use semantic_commands::{Similarity, DEFAULT_THRESHOLD};

fn score(x: f32) -> Similarity {
    Similarity::from_bits(x.to_bits())
}

#[test]
fn default_threshold_is_a_fifth() {
    assert_eq!(DEFAULT_THRESHOLD, 0.2f32.to_bits());
    assert_eq!(Similarity::default_threshold().to_bits(), 0x3e4c_cccd);
    assert_eq!(f32::from_bits(Similarity::default_threshold().to_bits()), 0.2f32);
}

#[test]
fn bits_round_trip() {
    assert_eq!(Similarity::from_bits(0x3f80_0000).to_bits(), 0x3f80_0000);
    assert_eq!(Similarity::from_bits(0).bits, 0);
    assert_eq!(score(1.0).to_bits(), 0x3f80_0000);
}

#[test]
fn order_key_follows_sign_and_magnitude() {
    assert_eq!(score(0.0).order_key(), 0);
    assert_eq!(score(-0.0).order_key(), 0);
    assert_eq!(score(1.0).order_key(), 0x3f80_0000);
    assert_eq!(score(-1.0).order_key(), -0x3f80_0000);
    assert_eq!(score(f32::INFINITY).order_key(), 0x7f80_0000);
    assert_eq!(score(f32::NEG_INFINITY).order_key(), -0x7f80_0000);
    assert_eq!(Similarity::from_bits(0xffff_ffff).order_key(), -0x7fff_ffff);
}

#[test]
fn nan_is_recognized() {
    assert!(score(f32::NAN).is_nan());
    assert!(score(-f32::NAN).is_nan());
    assert!(Similarity::from_bits(0x7f80_0001).is_nan());
    assert!(Similarity::from_bits(0xff80_0001).is_nan());
    assert!(!score(f32::INFINITY).is_nan());
    assert!(!score(f32::NEG_INFINITY).is_nan());
    assert!(!score(0.0).is_nan());
    assert!(!score(f32::MAX).is_nan());
}

#[test]
fn at_least_agrees_with_the_order_of_numbers() {
    let values = [
        f32::NEG_INFINITY,
        f32::MIN,
        -1.0,
        -0.2,
        -f32::MIN_POSITIVE,
        -1.0e-45,
        -0.0,
        0.0,
        1.0e-45,
        f32::MIN_POSITIVE,
        0.199_999_99,
        0.2,
        0.200_000_02,
        0.5,
        0.999_999_94,
        1.0,
        1.000_000_1,
        f32::MAX,
        f32::INFINITY,
        f32::NAN,
    ];
    for a in values {
        for b in values {
            assert_eq!(score(a).at_least(&score(b)), a >= b);
        }
    }
}

#[test]
fn at_least_is_false_for_nan_on_either_side() {
    assert!(!score(f32::NAN).at_least(&score(0.2)));
    assert!(!score(1.0).at_least(&score(f32::NAN)));
    assert!(!score(f32::NAN).at_least(&score(f32::NAN)));
}

#[test]
fn one_reaches_the_default_threshold_and_zero_does_not() {
    let threshold = Similarity::default_threshold();
    assert!(score(1.0).at_least(&threshold));
    assert!(score(0.2).at_least(&threshold));
    assert!(!score(0.0).at_least(&threshold));
    assert!(!score(0.199_999_99).at_least(&threshold));
    assert!(!score(-1.0).at_least(&threshold));
}
