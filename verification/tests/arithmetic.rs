//! Exact expectations for the fixed-point scalar kernel.

use ibl_pipeline::fixed::{clamp_fp, div_fp, mul_fp, sqrt_fp, HALF_PI_FP, PI_FP, SCALE, TWO_PI_FP};
use ibl_pipeline::sampling::hammersley;
use ibl_pipeline::trig::{asin_fp, atan2_fp, cos_fp, sin_fp};

#[test]
fn mul_fp_matches_exact_products() {
    assert_eq!(mul_fp(SCALE, SCALE), SCALE);
    assert_eq!(mul_fp(2 * SCALE, 3 * SCALE), 6 * SCALE);
    assert_eq!(mul_fp(-2 * SCALE, 3 * SCALE), -6 * SCALE);
    assert_eq!(mul_fp(SCALE / 2, SCALE / 2), SCALE / 4);
    assert_eq!(mul_fp(0, 12345), 0);
}

#[test]
fn div_fp_matches_exact_quotients() {
    assert_eq!(div_fp(SCALE, SCALE), SCALE);
    assert_eq!(div_fp(6 * SCALE, 3 * SCALE), 2 * SCALE);
    assert_eq!(div_fp(-6 * SCALE, 3 * SCALE), -2 * SCALE);
    assert_eq!(div_fp(SCALE, 2 * SCALE), SCALE / 2);
}

#[test]
fn sqrt_fp_is_exact_on_perfect_squares() {
    assert_eq!(sqrt_fp(0), 0);
    assert_eq!(sqrt_fp(SCALE), SCALE);
    assert_eq!(sqrt_fp(4 * SCALE), 2 * SCALE);
    assert_eq!(sqrt_fp(9 * SCALE), 3 * SCALE);
}

#[test]
fn clamp_fp_pins_to_interval() {
    assert_eq!(clamp_fp(5, 0, 3), 3);
    assert_eq!(clamp_fp(-5, 0, 3), 0);
    assert_eq!(clamp_fp(2, 0, 3), 2);
}

#[test]
fn trig_values_match_reference_within_tolerance() {
    let s = SCALE as f64;
    assert_eq!(cos_fp(0), SCALE);
    assert_eq!(sin_fp(0), 0);
    assert_eq!(sin_fp(HALF_PI_FP), SCALE);
    let cases: [i64; 5] = [262144, 838848, HALF_PI_FP, PI_FP, TWO_PI_FP - 1000];
    for &x in cases.iter() {
        let xf = x as f64 / s;
        assert!((sin_fp(x) as f64 / s - xf.sin()).abs() < 1e-4, "sin at {}", xf);
        assert!((cos_fp(x) as f64 / s - xf.cos()).abs() < 1e-4, "cos at {}", xf);
    }
}

#[test]
fn inverse_trig_matches_reference() {
    let s = SCALE as f64;
    assert_eq!(atan2_fp(0, SCALE), 0);
    assert_eq!(asin_fp(SCALE), HALF_PI_FP);
    assert_eq!(asin_fp(-SCALE), -HALF_PI_FP);
    let pairs: [(i64, i64); 4] = [(SCALE, SCALE), (-SCALE, SCALE), (SCALE, -SCALE), (3 * SCALE / 4, SCALE / 3)];
    for &(y, x) in pairs.iter() {
        let expect = (y as f64).atan2(x as f64);
        assert!((atan2_fp(y, x) as f64 / s - expect).abs() < 1e-4, "atan2 {} {}", y, x);
    }
    for &v in [0i64, SCALE / 2, -SCALE / 2, 9 * SCALE / 10].iter() {
        let expect = (v as f64 / s).asin();
        assert!((asin_fp(v) as f64 / s - expect).abs() < 2e-4, "asin {}", v);
    }
}

#[test]
fn hammersley_pairs_are_the_radical_inverse() {
    assert_eq!(hammersley(0), (0, 0));
    // sample 1 reverses to one half, sample 2 to one quarter, 3 to three quarters
    assert_eq!(hammersley(1).1, SCALE / 2);
    assert_eq!(hammersley(2).1, SCALE / 4);
    assert_eq!(hammersley(3).1, 3 * SCALE / 4);
    assert_eq!(hammersley(513).0, 513 * 1024);
    // deterministic across calls
    for i in 0..1024 {
        assert_eq!(hammersley(i), hammersley(i));
    }
}
