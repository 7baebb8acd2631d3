use stat_metrics_rs::Ratio;

#[test]
fn new_normalizes_a_negative_denominator() {
    let a = Ratio::new(1, -2).unwrap();
    assert_eq!(a.numerator(), -1);
    assert_eq!(a.denominator(), 2);
    assert!(a.eq_value(&Ratio::new(-1, 2).unwrap()));
}

#[test]
fn new_with_zero_denominator_is_none() {
    assert!(Ratio::new(1, 0).is_none());
}

#[test]
fn getters_return_the_stored_coefficients() {
    let a = Ratio::new(3, 4).unwrap();
    assert_eq!(a.numerator(), 3);
    assert_eq!(a.denominator(), 4);
    assert!(!a.is_zero());
    assert!(Ratio::zero().is_zero());
}

#[test]
fn eq_value_sees_through_representation() {
    let a = Ratio::new(2, 4).unwrap();
    let b = Ratio::new(1, 2).unwrap();
    assert!(a.eq_value(&b));
    assert!(!a.eq_value(&Ratio::one()));
}

#[test]
fn le_value_orders_by_value() {
    let third = Ratio::new(1, 3).unwrap();
    let half = Ratio::new(1, 2).unwrap();
    assert!(third.le_value(&half));
    assert!(!half.le_value(&third));
    assert!(half.le_value(&half));
}

#[test]
fn checked_add_is_exact() {
    let a = Ratio::new(1, 10).unwrap();
    let b = Ratio::new(1, 20).unwrap();
    let s = a.checked_add(&b).unwrap();
    assert!(s.eq_value(&Ratio::new(3, 20).unwrap()));
}

#[test]
fn checked_add_reports_overflow() {
    let big = Ratio::from_i64(i64::MAX);
    assert!(big.checked_add(&Ratio::one()).is_none());
}

#[test]
fn checked_sub_and_abs() {
    let a = Ratio::new(1, 4).unwrap();
    let b = Ratio::new(3, 4).unwrap();
    let d = a.checked_sub(&b).unwrap();
    assert!(d.eq_value(&Ratio::new(-1, 2).unwrap()));
    let ad = d.checked_abs().unwrap();
    assert!(ad.eq_value(&Ratio::new(1, 2).unwrap()));
}

#[test]
fn checked_mul_is_exact() {
    let a = Ratio::new(2, 3).unwrap();
    let b = Ratio::new(3, 4).unwrap();
    let m = a.checked_mul(&b).unwrap();
    assert!(m.eq_value(&Ratio::new(1, 2).unwrap()));
}

#[test]
fn checked_div_by_zero_is_none() {
    let a = Ratio::one();
    assert!(a.checked_div(&Ratio::zero()).is_none());
}

#[test]
fn checked_div_by_negative_keeps_denominator_positive() {
    let a = Ratio::new(1, 2).unwrap();
    let b = Ratio::new(-2, 3).unwrap();
    let q = a.checked_div(&b).unwrap();
    assert!(q.denominator() > 0);
    assert!(q.eq_value(&Ratio::new(-3, 4).unwrap()));
}

#[test]
fn from_usize_rejects_values_out_of_range() {
    assert!(Ratio::from_usize(usize::MAX).is_none());
    let v = Ratio::from_usize(7).unwrap();
    assert!(v.eq_value(&Ratio::from_i64(7)));
}
