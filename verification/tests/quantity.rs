use joyofenergy::quantity::Quantity;
use joyofenergy::quantity::INFINITY_BITS;
use joyofenergy::quantity::SIGN_BIT;
use std::cmp::Ordering;

fn quantity(number: f64) -> Quantity {
    Quantity::from_bits(number.to_bits())
}

fn samples() -> Vec<f64> {
    vec![
        f64::NEG_INFINITY,
        f64::MIN,
        -1.0e300,
        -10.0,
        -2.5,
        -1.0,
        -f64::MIN_POSITIVE,
        -5.0e-324,
        -0.0,
        0.0,
        5.0e-324,
        f64::MIN_POSITIVE,
        0.1,
        1.0,
        1.0000000000000002,
        1.23,
        2.0,
        10.0,
        600.0,
        1.0e300,
        f64::MAX,
        f64::INFINITY,
    ]
}

#[test]
fn keys_order_numbers_as_their_values() {
    for a in samples() {
        for b in samples() {
            let key_a = quantity(a).key();
            let key_b = quantity(b).key();
            assert_eq!(key_a < key_b, a < b, "{a} < {b}");
            assert_eq!(key_a == key_b, a == b, "{a} == {b}");
            assert_eq!(key_a > key_b, a > b, "{a} > {b}");
        }
    }
}

#[test]
fn keys_of_known_numbers() {
    assert_eq!(quantity(0.0).key(), 0);
    assert_eq!(quantity(-0.0).key(), 0);
    assert_eq!(quantity(1.0).key(), 0x3ff0_0000_0000_0000);
    assert_eq!(quantity(-1.0).key(), -0x3ff0_0000_0000_0000);
    assert_eq!(quantity(2.0).key(), 0x4000_0000_0000_0000);
    assert_eq!(quantity(10.0).key(), 0x4024_0000_0000_0000);
    assert_eq!(quantity(f64::INFINITY).key(), 0x7ff0_0000_0000_0000);
    assert_eq!(quantity(f64::NEG_INFINITY).key(), -0x7ff0_0000_0000_0000);
    assert_eq!(Quantity::from_bits(u64::MAX).key(), -i64::MAX);
    assert_eq!(Quantity::from_bits(u64::MAX >> 1).key(), i64::MAX);
}

#[test]
fn a_nan_has_a_key_beyond_the_infinity_of_its_sign() {
    let nan = Quantity::from_bits(0x7ff8_0000_0000_0000);
    let negative_nan = Quantity::from_bits(0xfff8_0000_0000_0000);
    assert!(nan.key() > quantity(f64::INFINITY).key());
    assert!(negative_nan.key() < quantity(f64::NEG_INFINITY).key());
    assert!(quantity(f64::NAN).is_nan());
}

#[test]
fn comparison_is_that_of_the_numbers() {
    let mut all = samples();
    all.push(f64::NAN);
    all.push(-f64::NAN);
    for a in all.iter() {
        for b in all.iter() {
            assert_eq!(
                quantity(*a).partial_cmp(&quantity(*b)),
                a.partial_cmp(b),
                "{a} ? {b}"
            );
            assert_eq!(quantity(*a) == quantity(*b), a == b, "{a} == {b}");
            assert_eq!(quantity(*a) != quantity(*b), a != b, "{a} != {b}");
            assert_eq!(quantity(*a) < quantity(*b), a < b, "{a} < {b}");
            assert_eq!(quantity(*a) <= quantity(*b), a <= b, "{a} <= {b}");
            assert_eq!(quantity(*a) > quantity(*b), a > b, "{a} > {b}");
            assert_eq!(quantity(*a) >= quantity(*b), a >= b, "{a} >= {b}");
        }
    }
}

#[test]
fn the_two_zeros_are_equal_and_a_nan_equals_nothing() {
    assert!(quantity(0.0) == quantity(-0.0));
    assert_eq!(
        quantity(-0.0).partial_cmp(&quantity(0.0)),
        Some(Ordering::Equal)
    );
    assert!(quantity(f64::NAN) != quantity(f64::NAN));
    assert_eq!(quantity(f64::NAN).partial_cmp(&quantity(1.0)), None);
    assert_eq!(quantity(1.0).partial_cmp(&quantity(f64::NAN)), None);
    assert_eq!(quantity(2.0).partial_cmp(&quantity(10.0)), Some(Ordering::Less));
    assert_eq!(
        quantity(10.0).partial_cmp(&quantity(2.0)),
        Some(Ordering::Greater)
    );
}

#[test]
fn is_nan_tells_numbers_from_nans() {
    for a in samples() {
        assert_eq!(quantity(a).is_nan(), a.is_nan(), "{a}");
    }
    assert!(Quantity::from_bits(INFINITY_BITS + 1).is_nan());
    assert!(Quantity::from_bits(SIGN_BIT + INFINITY_BITS + 1).is_nan());
    assert!(Quantity::from_bits(u64::MAX).is_nan());
    assert!(!Quantity::from_bits(INFINITY_BITS).is_nan());
    assert!(!Quantity::from_bits(SIGN_BIT + INFINITY_BITS).is_nan());
    assert!(!Quantity::from_bits(SIGN_BIT).is_nan());
    assert!(!Quantity::from_bits(0).is_nan());
}

#[test]
fn bits_come_back_unchanged() {
    for a in samples() {
        assert_eq!(quantity(a).to_bits(), a.to_bits());
        assert_eq!(f64::from_bits(quantity(a).to_bits()).to_bits(), a.to_bits());
    }
    assert_eq!(Quantity::from_bits(0x1234_5678_9abc_def0).bits, 0x1234_5678_9abc_def0);
    assert_eq!(INFINITY_BITS, f64::INFINITY.to_bits());
    assert_eq!(SIGN_BIT, (-0.0f64).to_bits());
}
