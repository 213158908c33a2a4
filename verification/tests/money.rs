use commercerack::money::{Money, MAX_MANTISSA};

#[test]
fn test_new_and_parts() {
    let m = Money::new(1999, 2);
    assert_eq!(m.mantissa(), 1999);
    assert_eq!(m.scale(), 2);
    let z = Money::zero();
    assert_eq!(z.mantissa(), 0);
    assert_eq!(z.scale(), 0);
}

#[test]
fn test_from_parts_bounds() {
    assert!(Money::from_parts(MAX_MANTISSA, 28).is_some());
    assert!(Money::from_parts(-MAX_MANTISSA, 0).is_some());
    // One digit of scale too many, or one past the largest mantissa, is out.
    assert!(Money::from_parts(1, 29).is_none());
    assert!(Money::from_parts(MAX_MANTISSA + 1, 0).is_none());
    assert!(Money::from_parts(-MAX_MANTISSA - 1, 0).is_none());
}

#[test]
fn test_add_aligns_scales() {
    // 1.5 + 0.25 = 1.75
    let sum = Money::new(15, 1).add(&Money::new(25, 2));
    assert_eq!(sum.mantissa(), 175);
    assert_eq!(sum.scale(), 2);
    // 19.99 + 29.99 = 49.98 at the shared scale
    let sum = Money::new(1999, 2).add(&Money::new(2999, 2));
    assert_eq!(sum.mantissa(), 4998);
    assert_eq!(sum.scale(), 2);
    // Adding zero keeps the value.
    let sum = Money::zero().add(&Money::new(3998, 2));
    assert!(sum.eq_value(&Money::new(3998, 2)));
}

#[test]
fn test_mul_i32_is_exact() {
    let line = Money::new(1999, 2).mul_i32(3);
    assert_eq!(line.mantissa(), 5997);
    assert_eq!(line.scale(), 2);
    let negative = Money::new(1999, 2).mul_i32(-2);
    assert_eq!(negative.mantissa(), -3998);
    let nothing = Money::new(1999, 2).mul_i32(0);
    assert!(nothing.eq_value(&Money::zero()));
}

#[test]
fn test_eq_value_ignores_scale() {
    // 1.00 == 1 == 1.0000
    assert!(Money::new(100, 2).eq_value(&Money::new(1, 0)));
    assert!(Money::new(1, 0).eq_value(&Money::new(10000, 4)));
    assert!(Money::new(0, 0).eq_value(&Money::new(0, 28)));
    // 1.01 != 1.1, and 19.99 != 19.9
    assert!(!Money::new(101, 2).eq_value(&Money::new(11, 1)));
    assert!(!Money::new(1999, 2).eq_value(&Money::new(199, 1)));
    // Sign matters.
    assert!(!Money::new(-1999, 2).eq_value(&Money::new(1999, 2)));
    // A huge mantissa at a deep scale equals nothing small.
    let huge = Money::from_parts(MAX_MANTISSA, 0).unwrap();
    assert!(!Money::new(1, 28).eq_value(&huge));
    assert!(huge.eq_value(&huge));
}
