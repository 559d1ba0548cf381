use meccz::trig::{asin_udeg, atan2_udeg, cos_udeg, fixmul, isqrt, sin_quarter, sin_udeg};

#[test]
fn isqrt_exact_values() {
    assert_eq!(isqrt(0), 0);
    assert_eq!(isqrt(1), 1);
    assert_eq!(isqrt(2), 1);
    assert_eq!(isqrt(3), 1);
    assert_eq!(isqrt(4), 2);
    assert_eq!(isqrt(999_999_999_999_999_999), 999_999_999);
    assert_eq!(isqrt(1_000_000_000_000_000_000), 1_000_000_000);
    assert_eq!(isqrt(2_000_000_000_000_000_000), 1_414_213_562);
}

#[test]
fn sine_known_points() {
    assert_eq!(sin_quarter(0), 0);
    // sin 30 = 1/2, sin 90 = 1, within the series and scaling error.
    assert!((sin_quarter(30_000_000) - 500_000_000).abs() < 2_000);
    assert!((sin_quarter(90_000_000) - 1_000_000_000).abs() < 2_000);
    // sin 45 = sqrt(2)/2.
    assert!((sin_quarter(45_000_000) - 707_106_781).abs() < 2_000);
    // Symmetry and sign over the other quadrants.
    assert!((sin_udeg(150_000_000) - 500_000_000).abs() < 2_000);
    assert!((sin_udeg(210_000_000) + 500_000_000).abs() < 2_000);
    assert!((sin_udeg(330_000_000) + 500_000_000).abs() < 2_000);
    assert!((sin_udeg(-30_000_000) + 500_000_000).abs() < 2_000);
}

#[test]
fn cosine_known_points() {
    assert!((cos_udeg(0) - 1_000_000_000).abs() < 2_000);
    assert!((cos_udeg(60_000_000) - 500_000_000).abs() < 2_000);
    assert!(cos_udeg(90_000_000).abs() < 2_000);
    assert!((cos_udeg(180_000_000) + 1_000_000_000).abs() < 2_000);
    assert!((cos_udeg(-60_000_000) - 500_000_000).abs() < 2_000);
}

#[test]
fn arcsine_known_points() {
    assert_eq!(asin_udeg(0), 0);
    assert!((asin_udeg(500_000_000) - 30_000_000).abs() < 1_000);
    assert!((asin_udeg(1_000_000_000) - 90_000_000).abs() < 1_000);
    assert!((asin_udeg(-500_000_000) + 30_000_000).abs() < 1_000);
    assert!((asin_udeg(707_106_781) - 45_000_000).abs() < 1_000);
    // Just above the series crossover, the complementary form takes over.
    assert!((asin_udeg(707_200_000) - 45_007_553).abs() < 1_000);
}

#[test]
fn atan2_quadrants() {
    assert_eq!(atan2_udeg(0, 0), 0);
    assert_eq!(atan2_udeg(0, 1_000_000_000), 0);
    assert_eq!(atan2_udeg(0, -1_000_000_000), 180_000_000);
    assert!((atan2_udeg(1_000_000_000, 0) - 90_000_000).abs() < 1_000);
    assert!((atan2_udeg(-1_000_000_000, 0) + 90_000_000).abs() < 1_000);
    assert!((atan2_udeg(1_000_000_000, 1_000_000_000) - 45_000_000).abs() < 1_000);
    assert!((atan2_udeg(1_000_000_000, -1_000_000_000) - 135_000_000).abs() < 1_000);
    assert!((atan2_udeg(-1_000_000_000, -1_000_000_000) + 135_000_000).abs() < 1_000);
    assert!((atan2_udeg(-1_000_000_000, 1_000_000_000) + 45_000_000).abs() < 1_000);
}

#[test]
fn fixmul_scales_products() {
    assert_eq!(fixmul(1_000_000_000, 1_000_000_000), 1_000_000_000);
    assert_eq!(fixmul(500_000_000, 500_000_000), 250_000_000);
    assert_eq!(fixmul(-500_000_000, 500_000_000), -250_000_000);
    assert_eq!(fixmul(-500_000_000, -500_000_000), 250_000_000);
    assert_eq!(fixmul(0, 1_000_000_000), 0);
    // Truncation is toward zero on both signs.
    assert_eq!(fixmul(1, 1), 0);
    assert_eq!(fixmul(-1, 1), 0);
}
