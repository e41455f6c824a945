//! Round-trip behavior of the conversion graph on concrete values.

use colorimetry::aces::Aces;
use colorimetry::cie1931::{Cie1931, D50, D65};
use colorimetry::lms::Lms;

/// The fixed-point value nearest to the given real number.
fn fx(v: f64) -> i64 {
    (v * 10_000_000.0).round() as i64
}

/// The real number a fixed-point value stands for.
fn fl(v: i64) -> f64 {
    (v as f64) / 10_000_000.0
}

#[test]
fn aces_to_from() {
    let a = Aces::new(fx(0.123), fx(1.0), fx(0.234));
    let b: Cie1931<colorimetry::cie1931::D60> = a.to_cie1931();
    let c: Aces = b.to_aces();

    assert!(fl(a.r()) - fl(c.r()) < 0.000001);
    assert!(fl(c.r()) - fl(a.r()) < 0.000001);
    assert!(fl(a.g()) - fl(c.g()) < 0.000001);
    assert!(fl(c.g()) - fl(a.g()) < 0.000001);
    assert!(fl(a.b()) - fl(c.b()) < 0.000001);
    assert!(fl(c.b()) - fl(a.b()) < 0.000001);
}

#[test]
fn cie1931_to_from() {
    let a = Cie1931::<D65>::new(fx(0.123), fx(1.0), fx(0.234));
    let b = a.clone().to_xyy();
    let c: Cie1931<D65> = b.to_xyz();

    assert!(fl(a.x()) - fl(c.x()) < 0.000001);
    assert!(fl(c.x()) - fl(a.x()) < 0.000001);
    assert!(fl(a.y()) - fl(c.y()) < 0.000001);
    assert!(fl(c.y()) - fl(a.y()) < 0.000001);
    assert!(fl(a.z()) - fl(c.z()) < 0.000001);
    assert!(fl(c.z()) - fl(a.z()) < 0.000001);
}

#[test]
fn invert_test() {
    let c1 = Cie1931::<D50>::new(fx(0.998123), fx(0.24987234), fx(0.45287234));
    let c2: Cie1931<D65> = c1.clone().to_d65();
    let c3: Cie1931<D50> = c2.to_d50();

    assert!((fl(c1.x()) - fl(c3.x())).abs() < 0.00001);
    assert!((fl(c1.y()) - fl(c3.y())).abs() < 0.00001);
    assert!((fl(c1.z()) - fl(c3.z())).abs() < 0.00001);
}

#[test]
fn lms_to_from() {
    let a = Lms::new(fx(0.123), fx(1.0), fx(0.234));
    let b: Cie1931<D65> = a.to_cie1931();
    let c: Lms = b.to_lms();

    assert!(fl(a.x()) - fl(c.x()) < 0.000001);
    assert!(fl(c.x()) - fl(a.x()) < 0.000001);
    assert!(fl(a.y()) - fl(c.y()) < 0.000001);
    assert!(fl(c.y()) - fl(a.y()) < 0.000001);
    assert!(fl(a.z()) - fl(c.z()) < 0.000001);
    assert!(fl(c.z()) - fl(a.z()) < 0.000001);
}

#[test]
fn xyy_keeps_luminance() {
    let a = Cie1931::<D65>::new(fx(0.25), fx(0.40), fx(0.10));
    let b = a.to_xyy();
    assert_eq!(b.x(), 3_333_333);
    assert_eq!(b.y(), 5_333_333);
    assert_eq!(b.z(), fx(0.40));
    let c = b.to_xyz();
    assert_eq!(c.y(), fx(0.40));
}

#[test]
fn xyy_of_degenerate_sum_uses_the_epsilon_divisor() {
    // a stimulus sum that is not positive divides by the smallest
    // positive fixed-point value instead, as the inverse direction does
    let zero = Cie1931::<D65>::new(0, 0, 0);
    let b = zero.to_xyy();
    assert_eq!((b.x(), b.y(), b.z()), (0, 0, 0));

    let tiny = Cie1931::<D65>::new(-100, -100, -100);
    let c = tiny.to_xyy();
    assert_eq!(c.x(), -1_000_000_000);
    assert_eq!(c.y(), -1_000_000_000);
    assert_eq!(c.z(), -100);
}

#[test]
fn d65_to_d50_and_back() {
    let a = Cie1931::<D65>::new(fx(0.5), fx(1.0), fx(0.75));
    let b = a.clone().to_d50();
    let c = b.to_d65();
    assert!((fl(a.x()) - fl(c.x())).abs() < 0.00001);
    assert!((fl(a.y()) - fl(c.y())).abs() < 0.00001);
    assert!((fl(a.z()) - fl(c.z())).abs() < 0.00001);
}
