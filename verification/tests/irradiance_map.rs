//! Energy and resolution behavior of the irradiance convolution.

use ibl_pipeline::fixed::{PI_FP, SCALE};
use ibl_pipeline::irradiance::compute_irradiance_map;
use ibl_pipeline::texture::{Texture2D, TextureCubeMap};

fn constant_env(value: i64, res: usize) -> TextureCubeMap {
    let img = Texture2D::new_from_hdr(8, 4, vec![value; 8 * 4 * 3]).unwrap();
    TextureCubeMap::new_from_hdr(&img, res).unwrap()
}

#[test]
fn irradiance_of_constant_environment_is_pi_times_radiance() {
    let env = constant_env(SCALE / 2, 8);
    let irr = compute_irradiance_map(&env);
    // resolution contract: exactly 32 x 32, one level
    assert_eq!(irr.face_resolution, 32);
    assert_eq!(irr.mips.len(), 1);
    assert_eq!(irr.mips[0].len(), 6 * 32 * 32);
    let expected = PI_FP * (SCALE / 2) / SCALE;
    let s = SCALE as f64;
    for t in irr.mips[0].iter() {
        assert_eq!(t.r, expected);
        assert_eq!(t.g, expected);
        assert_eq!(t.b, expected);
    }
    // pi * 0.5 to within the fixed-point grid
    assert!((expected as f64 / s - std::f64::consts::PI * 0.5).abs() < 1e-4);
}

#[test]
fn irradiance_stays_within_pi_scaled_radiance_bounds() {
    // one bright band on an otherwise dim environment
    let mut data: Vec<i64> = Vec::new();
    for y in 0..4usize {
        for _x in 0..8usize {
            let v = if y == 0 { 100 * SCALE } else { SCALE / 10 };
            data.push(v);
            data.push(v);
            data.push(v);
        }
    }
    let img = Texture2D::new_from_hdr(8, 4, data).unwrap();
    let env = TextureCubeMap::new_from_hdr(&img, 8).unwrap();
    let irr = compute_irradiance_map(&env);
    let lo = PI_FP * (SCALE / 10) / SCALE;
    let hi = PI_FP * (100 * SCALE) / SCALE;
    for t in irr.mips[0].iter() {
        assert!(t.r >= lo && t.r <= hi);
        assert!(t.g >= lo && t.g <= hi);
        assert!(t.b >= lo && t.b <= hi);
    }
}
