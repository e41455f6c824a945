//! The derived quantities: Planckian-locus color temperature, the display
//! level mapping, and the gamut descriptors.

use colorimetry::aces::{aces_ap0_chromaticities, aces_ap1_chromaticities};
use colorimetry::colortemp::ColorTemp;
use colorimetry::rec2020::rec2020_chromaticities;
use colorimetry::{color_level, CONTRAST_RATIO};

/// The fixed-point value nearest to the given real number.
fn fx(v: f64) -> i64 {
    (v * 10_000_000.0).round() as i64
}

/// The real number a fixed-point value stands for.
fn fl(v: i64) -> f64 {
    (v as f64) / 10_000_000.0
}

#[test]
fn test_planckian_locus() {
    let ct = ColorTemp::new(2222);
    let xy = ct.to_cie1931xy().unwrap();
    assert!(fl(xy.x) > 0.5030);
    assert!(fl(xy.x) < 0.5035);
    assert!(fl(xy.y) > 0.4151);
    assert!(fl(xy.y) < 0.4154);

    let ct = ColorTemp::new(4000);
    let xy = ct.to_cie1931xy().unwrap();
    assert!(fl(xy.x) > 0.3802);
    assert!(fl(xy.x) < 0.3807);
    assert!(fl(xy.y) > 0.3766);
    assert!(fl(xy.y) < 0.3769);

    let ct = ColorTemp::new(10000);
    let xy = ct.to_cie1931xy().unwrap();
    assert!(fl(xy.x) > 0.2805);
    assert!(fl(xy.x) < 0.2808);
    assert!(fl(xy.y) > 0.2882);
    assert!(fl(xy.y) < 0.2884);
}

#[test]
fn planckian_locus_boundaries() {
    assert!(ColorTemp::new(1666).to_cie1931xy().is_none());
    assert!(ColorTemp::new(1667).to_cie1931xy().is_some());
    assert!(ColorTemp::new(25000).to_cie1931xy().is_some());
    assert!(ColorTemp::new(25001).to_cie1931xy().is_none());
    assert!(ColorTemp::new(0).to_cie1931xy().is_none());
    assert!(ColorTemp::new(u16::MAX).to_cie1931xy().is_none());
}

#[test]
fn planckian_locus_at_ten_thousand_kelvin() {
    // the high-temperature branch: x within 0.2806 +/- 0.0002 and
    // y within 0.2883 +/- 0.0002
    let xy = ColorTemp::new(10000).to_cie1931xy().unwrap();
    assert!((fl(xy.x) - 0.2806).abs() < 0.0002);
    assert!((fl(xy.y) - 0.2883).abs() < 0.0002);
}

#[test]
fn color_level_endpoints_and_interpolation() {
    let white = fx(1.0);
    // at or above the white point the level saturates at 1.0
    assert_eq!(color_level(white, white), fx(1.0));
    assert_eq!(color_level(white * 10, white), fx(1.0));
    // at or below the black point (white / 100000) the level is 0.0
    assert_eq!(color_level(white / CONTRAST_RATIO, white), 0);
    assert_eq!(color_level(0, white), 0);
    assert_eq!(color_level(-white, white), 0);
    // halfway up, the linear interpolation lands just under one half
    assert_eq!(color_level(fx(0.5), white), 4_999_950);
}

#[test]
fn color_level_is_monotone_on_samples() {
    let white = fx(1.0);
    let mut prev: i64 = -1;
    let mut irr: i64 = 0;
    while irr <= white {
        let level = color_level(irr, white);
        assert!(level >= prev);
        prev = level;
        irr += fx(0.05);
    }
}

#[test]
fn gamut_descriptor_values() {
    let ap0 = aces_ap0_chromaticities();
    assert_eq!((ap0.red.x, ap0.red.y), (fx(0.73470), fx(0.26530)));
    assert_eq!((ap0.green.x, ap0.green.y), (fx(0.0), fx(1.0)));
    assert_eq!((ap0.blue.x, ap0.blue.y), (fx(0.0001), fx(-0.0770)));
    assert_eq!((ap0.white.x, ap0.white.y), (fx(0.32168), fx(0.33767)));

    let ap1 = aces_ap1_chromaticities();
    assert_eq!((ap1.red.x, ap1.red.y), (fx(0.713), fx(0.293)));
    assert_eq!((ap1.green.x, ap1.green.y), (fx(0.165), fx(0.830)));
    assert_eq!((ap1.blue.x, ap1.blue.y), (fx(0.128), fx(0.044)));
    assert_eq!((ap1.white.x, ap1.white.y), (fx(0.32168), fx(0.33767)));

    let r2020 = rec2020_chromaticities();
    assert_eq!((r2020.red.x, r2020.red.y), (fx(0.708), fx(0.292)));
    assert_eq!((r2020.green.x, r2020.green.y), (fx(0.170), fx(0.797)));
    assert_eq!((r2020.blue.x, r2020.blue.y), (fx(0.131), fx(0.046)));
    assert_eq!((r2020.white.x, r2020.white.y), (fx(0.3217), fx(0.3290)));
}
