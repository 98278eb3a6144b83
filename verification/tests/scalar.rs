//! Exact arithmetic of the fixed-point scalar.

use rk4_ode::fixed::Fixed;

const SCALE: i64 = 4294967296;

#[test]
fn from_int_exact() {
    assert_eq!(Fixed::from_int(3).unwrap().raw, 3 * SCALE);
    assert_eq!(Fixed::from_int(0).unwrap().raw, 0);
    assert_eq!(Fixed::from_int(-2).unwrap().raw, -2 * SCALE);
    assert!(Fixed::from_int(i64::MAX).is_none());
}

#[test]
fn from_ratio_exact() {
    assert_eq!(Fixed::from_ratio(1, 2).unwrap().raw, SCALE / 2);
    assert_eq!(Fixed::from_ratio(-1, 4).unwrap().raw, -(SCALE / 4));
    assert_eq!(Fixed::from_ratio(1, 3).unwrap().raw, 1431655765);
    assert_eq!(Fixed::from_ratio(1, 100).unwrap().raw, 42949672);
    assert!(Fixed::from_ratio(1, 0).is_none());
}

#[test]
fn add_sub_neg_exact() {
    let a = Fixed::from_ratio(3, 2).unwrap();
    let b = Fixed::from_int(2).unwrap();
    assert_eq!(a.checked_add(b).unwrap().raw, 7 * SCALE / 2);
    assert_eq!(a.checked_sub(b).unwrap().raw, -(SCALE / 2));
    assert_eq!(a.checked_neg().unwrap().raw, -(3 * SCALE / 2));
    assert!(Fixed { raw: i64::MAX }.checked_add(Fixed { raw: 1 }).is_none());
    assert!(Fixed { raw: i64::MIN }.checked_neg().is_none());
}

#[test]
fn mul_div_exact() {
    let a = Fixed::from_ratio(3, 2).unwrap();
    let b = Fixed::from_int(2).unwrap();
    assert_eq!(a.checked_mul(b).unwrap().raw, 3 * SCALE);
    let one = Fixed::from_int(1).unwrap();
    let three = Fixed::from_int(3).unwrap();
    assert_eq!(one.checked_div(three).unwrap().raw, 1431655765);
    assert!(one.checked_div(Fixed::zero()).is_none());
    assert!(Fixed { raw: i64::MAX }.checked_mul(Fixed { raw: i64::MAX }).is_none());
}

#[test]
fn rounding_is_toward_zero() {
    // -1 raw unit halved rounds up to zero, not down to -1.
    assert_eq!(Fixed { raw: -1 }.half().raw, 0);
    assert_eq!(Fixed { raw: -7 }.div_by(2).raw, -3);
    assert_eq!(Fixed { raw: 7 }.div_by(2).raw, 3);
    // (-1/4) * (1/4) = -1/16 exactly.
    let q = Fixed::from_ratio(-1, 4).unwrap();
    let p = Fixed::from_ratio(1, 4).unwrap();
    assert_eq!(q.checked_mul(p).unwrap().raw, -(SCALE / 16));
}
