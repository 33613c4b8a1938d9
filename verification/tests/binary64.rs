use pdm::Binary64;

fn number(x: f64) -> Binary64 {
    Binary64::from_bits(x.to_bits())
}

fn samples() -> Vec<f64> {
    vec![
        0.0,
        -0.0,
        5e-324,
        -5e-324,
        f64::MIN_POSITIVE,
        -f64::MIN_POSITIVE,
        2.2250738585072009e-308,
        0.5,
        -0.5,
        1.0,
        -1.0,
        1.0000000000000002,
        1.5,
        2.0,
        -2.0,
        1e9,
        -1e9,
        f64::MAX,
        f64::MIN,
        f64::INFINITY,
        f64::NEG_INFINITY,
        f64::NAN,
        -f64::NAN,
    ]
}

#[test]
fn bits_pass_through_unchanged() {
    assert_eq!(Binary64::from_bits(0x3ff8_0000_0000_0000).to_bits(), 0x3ff8_0000_0000_0000);
    assert_eq!(number(1.5).to_bits(), 0x3ff8_0000_0000_0000);
    assert_eq!(number(-0.0).to_bits(), 0x8000_0000_0000_0000);
    assert_eq!(number(1.5), Binary64 { bits: 0x3ff8_0000_0000_0000 });
}

#[test]
fn one_is_below_two_and_not_the_reverse() {
    assert!(number(1.0).lt(number(2.0)));
    assert!(!number(2.0).lt(number(1.0)));
    assert!(!number(1.0).lt(number(1.0)));
}

#[test]
fn order_agrees_with_the_hardware_on_every_pair() {
    let xs = samples();
    for &a in xs.iter() {
        for &b in xs.iter() {
            assert_eq!(number(a).lt(number(b)), a < b, "{:e} < {:e}", a, b);
        }
    }
}

#[test]
fn the_two_zeros_are_equal_in_order() {
    assert!(!number(0.0).lt(number(-0.0)));
    assert!(!number(-0.0).lt(number(0.0)));
    assert!(number(-0.0).lt(number(5e-324)));
    assert!(number(-5e-324).lt(number(0.0)));
}

#[test]
fn negative_numbers_order_by_falling_magnitude() {
    assert!(number(-2.0).lt(number(-1.0)));
    assert!(!number(-1.0).lt(number(-2.0)));
    assert!(number(f64::NEG_INFINITY).lt(number(f64::MIN)));
    assert!(number(-1.0).lt(number(0.5)));
    assert!(!number(0.5).lt(number(-1.0)));
}

#[test]
fn subnormals_lie_between_zero_and_the_smallest_normal() {
    assert!(number(0.0).lt(number(5e-324)));
    assert!(number(5e-324).lt(number(2.2250738585072009e-308)));
    assert!(number(2.2250738585072009e-308).lt(number(f64::MIN_POSITIVE)));
}

#[test]
fn infinity_is_above_every_finite_number() {
    assert!(number(f64::MAX).lt(number(f64::INFINITY)));
    assert!(!number(f64::INFINITY).lt(number(f64::MAX)));
    assert!(!number(f64::INFINITY).lt(number(f64::INFINITY)));
}

#[test]
fn nan_is_below_nothing_and_nothing_is_below_nan() {
    for &a in samples().iter() {
        assert!(!number(f64::NAN).lt(number(a)));
        assert!(!number(a).lt(number(f64::NAN)));
    }
}

#[test]
fn nan_is_told_from_infinity() {
    for &a in samples().iter() {
        assert_eq!(number(a).is_nan(), a.is_nan(), "{:e}", a);
    }
    assert!(Binary64::from_bits(0x7ff0_0000_0000_0001).is_nan());
    assert!(Binary64::from_bits(0xffff_ffff_ffff_ffff).is_nan());
    assert!(!Binary64::from_bits(0x7ff0_0000_0000_0000).is_nan());
    assert!(!Binary64::from_bits(0xfff0_0000_0000_0000).is_nan());
}

#[test]
fn only_the_two_zeros_are_zero() {
    for &a in samples().iter() {
        assert_eq!(number(a).is_zero(), a == 0.0, "{:e}", a);
    }
    assert!(Binary64::from_bits(0).is_zero());
    assert!(Binary64::from_bits(0x8000_0000_0000_0000).is_zero());
    assert!(!Binary64::from_bits(1).is_zero());
}

#[test]
fn floor_agrees_with_the_hardware() {
    let mut xs = samples();
    xs.extend_from_slice(&[
        0.25,
        -0.25,
        0.9999999999999999,
        -0.9999999999999999,
        1.25,
        -1.25,
        2.5,
        -2.5,
        3.0,
        -3.0,
        7.999999999999999,
        -7.999999999999999,
        1023.5,
        -1023.5,
        4503599627370495.5,
        -4503599627370495.5,
        4503599627370496.0,
        -4503599627370496.0,
        9007199254740991.0,
        -9007199254740991.0,
        9007199254740992.0,
        9223372036854774784.0,
        -9223372036854774784.0,
        9223372036854775808.0,
        -9223372036854775808.0,
        -9223372036854777856.0,
        1e19,
        -1e19,
        1e300,
        -1e300,
    ]);
    for &x in xs.iter() {
        assert_eq!(number(x).floor_to_i64(), x.floor() as i64, "{:e}", x);
    }
}

#[test]
fn floor_rounds_down_on_both_sides_of_zero() {
    assert_eq!(number(2.5).floor_to_i64(), 2);
    assert_eq!(number(-2.5).floor_to_i64(), -3);
    assert_eq!(number(2.0).floor_to_i64(), 2);
    assert_eq!(number(-2.0).floor_to_i64(), -2);
    assert_eq!(number(0.75).floor_to_i64(), 0);
    assert_eq!(number(-0.75).floor_to_i64(), -1);
    assert_eq!(number(0.0).floor_to_i64(), 0);
    assert_eq!(number(-0.0).floor_to_i64(), 0);
    assert_eq!(number(5e-324).floor_to_i64(), 0);
    assert_eq!(number(-5e-324).floor_to_i64(), -1);
}

#[test]
fn floor_stops_at_the_ends_of_the_range() {
    assert_eq!(number(f64::INFINITY).floor_to_i64(), i64::MAX);
    assert_eq!(number(f64::NEG_INFINITY).floor_to_i64(), i64::MIN);
    assert_eq!(number(1e19).floor_to_i64(), i64::MAX);
    assert_eq!(number(-1e19).floor_to_i64(), i64::MIN);
    assert_eq!(number(-9223372036854775808.0).floor_to_i64(), i64::MIN);
    assert_eq!(number(9223372036854774784.0).floor_to_i64(), 9223372036854774784);
    assert_eq!(number(f64::NAN).floor_to_i64(), 0);
}

#[test]
fn floor_agrees_with_the_hardware_on_a_sweep_of_patterns() {
    let mut bits: u64 = 0x0123_4567_89ab_cdef;
    for _ in 0..200_000 {
        bits = bits.wrapping_mul(6364136223846793005).wrapping_add(1442695040888963407);
        let x = f64::from_bits(bits);
        assert_eq!(Binary64::from_bits(bits).floor_to_i64(), x.floor() as i64, "{:e}", x);
        let near_one = f64::from_bits(0x3fe0_0000_0000_0000 | (bits >> 12)) * 64.0 - 48.0;
        assert_eq!(number(near_one).floor_to_i64(), near_one.floor() as i64, "{:e}", near_one);
    }
}

#[test]
fn order_agrees_with_the_hardware_on_a_sweep_of_patterns() {
    let mut bits: u64 = 0xfedc_ba98_7654_3210;
    let mut last = 1.0f64;
    for _ in 0..200_000 {
        bits = bits.wrapping_mul(6364136223846793005).wrapping_add(1442695040888963407);
        let x = f64::from_bits(bits);
        assert_eq!(number(x).lt(number(last)), x < last, "{:e} < {:e}", x, last);
        assert_eq!(number(last).lt(number(x)), last < x, "{:e} < {:e}", last, x);
        last = x;
    }
}
