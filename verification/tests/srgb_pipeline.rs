//! The sRGB pipeline: quantization, the transfer function, and the
//! brightness and luminance rescaling operations.

use colorimetry::cie1931::{Cie1931, D65};
use colorimetry::srgb::{LinearSrgb, Srgb, Srgb24};

/// The fixed-point value nearest to the given real number.
fn fx(v: f64) -> i64 {
    (v * 10_000_000.0).round() as i64
}

/// The real number a fixed-point value stands for.
fn fl(v: i64) -> f64 {
    (v as f64) / 10_000_000.0
}

#[test]
fn test_scale_brightness() {
    let mut x = LinearSrgb::new(fx(0.5), fx(0.1), fx(0.4));

    x.set_brightness(fx(0.8));
    assert!(fl(x.get_brightness()) > 0.799999);
    assert!(fl(x.get_brightness()) < 0.800001);

    x.set_brightness(fx(0.2));
    assert!(fl(x.get_brightness()) > 0.199999);
    assert!(fl(x.get_brightness()) < 0.200001);
}

#[test]
fn test_to_and_from_24() {
    let srgb24 = Srgb24(1, 64, 255);
    let srgb: Srgb = srgb24.clone().to_srgb();
    let srgb24_2: Srgb24 = srgb.to_srgb24();
    assert_eq!(srgb24, srgb24_2);
}

#[test]
fn quantization_is_idempotent_on_every_byte() {
    let mut q: u16 = 0;
    while q <= 255 {
        let srgb24 = Srgb24(q as u8, q as u8, q as u8);
        let back = srgb24.clone().to_srgb().to_srgb24();
        assert_eq!(srgb24, back);
        q += 1;
    }
}

#[test]
fn test_to_and_from_cie1931() {
    let lsrgb = LinearSrgb::new(fx(0.5), fx(0.2), fx(0.7));
    let xyz: Cie1931<D65> = lsrgb.clone().to_cie1931();
    let lsrgb2: LinearSrgb = xyz.to_linear_srgb();

    assert!((fl(lsrgb.r()) - fl(lsrgb2.r())).abs() < 0.00001);
    assert!((fl(lsrgb.g()) - fl(lsrgb2.g())).abs() < 0.00001);
    assert!((fl(lsrgb.b()) - fl(lsrgb2.b())).abs() < 0.00001);
}

#[test]
fn test_xyz_to_srgb() {
    let xyz = Cie1931::<D65>::new(fx(0.25), fx(0.40), fx(0.10));
    let lsrgb: LinearSrgb = xyz.to_linear_srgb();
    let srgb: Srgb = lsrgb.to_srgb();
    let srgbu: Srgb24 = srgb.to_srgb24();
    assert_eq!(srgbu.0, 106);
    assert_eq!(srgbu.1, 190);
    assert_eq!(srgbu.2, 55);
}

#[test]
fn test_to_and_from_linear() {
    let srgb = Srgb::new(fx(0.1245), fx(0.0924), fx(0.9812));

    let l: LinearSrgb = srgb.clone().to_linear();
    let srgb2: Srgb = l.to_srgb();

    assert!((fl(srgb.r()) - fl(srgb2.r())).abs() < 0.00001);
    assert!((fl(srgb.g()) - fl(srgb2.g())).abs() < 0.00001);
    assert!((fl(srgb.b()) - fl(srgb2.b())).abs() < 0.00001);
}

#[test]
fn test_set_max_brightness() {
    let mut lsrgb = LinearSrgb::new(fx(0.1), fx(0.25), fx(0.5));
    lsrgb.set_max_brightness();

    assert!((fl(lsrgb.r()) - 0.2).abs() < 0.0000012);
    assert!((fl(lsrgb.g()) - 0.5).abs() < 0.0000012);
    assert!((fl(lsrgb.b()) - 1.0).abs() < 0.0000012);

    let mut lsrgb = LinearSrgb::new(fx(1.5), fx(0.8234), fx(0.24));
    lsrgb.set_max_brightness();
    assert!((fl(lsrgb.r()) - 1.0).abs() < 0.0000012);
}

#[test]
fn transfer_function_exact_values() {
    // at the linear threshold the encoded value is 12.92 * 0.0031308,
    // correctly rounded at this resolution
    let c = LinearSrgb::new(31_308, 0, fx(1.0)).to_srgb();
    assert_eq!(c.r(), 404_499);
    assert_eq!(c.g(), 0);
    assert_eq!(c.b(), fx(1.0));
    // decoding maps the encoded threshold back below the linear one
    let l = Srgb::new(404_500, fx(1.0), 0).to_linear();
    assert_eq!(l.r(), 31_308);
    assert_eq!(l.g(), fx(1.0));
    // encoding clamps above white
    let c2 = LinearSrgb::new(fx(1.5), fx(1.0), 0).to_srgb();
    assert_eq!(c2.r(), fx(1.0));
}

#[test]
fn dequantize_exact_values() {
    let c = Srgb24(1, 128, 255).to_srgb();
    assert_eq!(c.r(), 39_216);
    assert_eq!(c.g(), 5_019_608);
    assert_eq!(c.b(), 10_000_000);
}

#[test]
fn brightness_and_luminance_are_distinct() {
    let c = LinearSrgb::new(fx(0.5), fx(0.1), fx(0.4));
    // 0.299*0.5 + 0.587*0.1 + 0.114*0.4 == 0.2538 exactly
    assert_eq!(c.get_brightness(), 2_538_000);
    // the luminance row weights green far more heavily
    assert!(c.get_luminance() != c.get_brightness());
    // the luminance row sums to 1.0000001 at full published precision
    let w = LinearSrgb::new(fx(1.0), fx(1.0), fx(1.0));
    assert_eq!(w.get_luminance(), 10_000_001);
}

#[test]
fn rescale_of_black_is_a_no_op() {
    let mut c = LinearSrgb::new(0, 0, 0);
    c.set_brightness(fx(0.8));
    assert_eq!((c.r(), c.g(), c.b()), (0, 0, 0));
    c.set_luminance(fx(0.8));
    assert_eq!((c.r(), c.g(), c.b()), (0, 0, 0));
    c.set_max_brightness();
    assert_eq!((c.r(), c.g(), c.b()), (0, 0, 0));

    let mut xyz = Cie1931::<D65>::new(0, 0, 0);
    xyz.set_luminance(fx(1.0));
    assert_eq!((xyz.x(), xyz.y(), xyz.z()), (0, 0, 0));
}

#[test]
fn rescale_from_negative_current_scales_through_zero() {
    // brightness -0.299: the exact rescale to 0.299 multiplies by -1
    let mut c = LinearSrgb::new(fx(-1.0), 0, 0);
    assert_eq!(c.get_brightness(), fx(-0.299));
    c.set_brightness(fx(0.299));
    assert_eq!((c.r(), c.g(), c.b()), (fx(1.0), 0, 0));
    assert_eq!(c.get_brightness(), fx(0.299));

    // a negative luminance rescales through zero as well
    let mut l = LinearSrgb::new(fx(-0.5), 0, 0);
    assert_eq!(l.get_luminance(), -1_063_365);
    l.set_luminance(fx(0.1));
    assert_eq!(l.r(), 4_702_054);
    assert!((fl(l.get_luminance()) - 0.1).abs() < 0.000001);

    // and so does an XYZ value with negative Y
    let mut xyz = Cie1931::<D65>::new(0, fx(-1.0), 0);
    xyz.set_luminance(fx(1.0));
    assert_eq!((xyz.x(), xyz.y(), xyz.z()), (0, fx(1.0), 0));

    // an all-negative color rescales by its (negative) largest channel
    let mut m = LinearSrgb::new(fx(-0.5), fx(-1.0), fx(-2.0));
    m.set_max_brightness();
    assert_eq!((m.r(), m.g(), m.b()), (fx(1.0), fx(2.0), fx(4.0)));
}

#[test]
fn set_luminance_hits_the_target() {
    let mut c = LinearSrgb::new(fx(0.5), fx(0.1), fx(0.4));
    c.set_luminance(fx(0.3));
    assert!((fl(c.get_luminance()) - 0.3).abs() < 0.000001);

    let mut xyz = Cie1931::<D65>::new(fx(0.3), fx(0.6), fx(0.2));
    xyz.set_luminance(fx(1.0));
    assert_eq!(xyz.get_luminance(), fx(1.0));
}
