//! The end-to-end scenario: a solid mid-gray environment.

use ibl_pipeline::fixed::{PI_FP, SCALE};
use ibl_pipeline::pipeline::precompute_ibl;
use ibl_pipeline::texture::{Texture2D, TextureError};

#[test]
fn mid_gray_environment_precomputes_to_the_analytic_values() {
    let img = Texture2D::new_from_hdr(16, 8, vec![SCALE / 2; 16 * 8 * 3]).unwrap();
    let maps = precompute_ibl(&img, 8, 8).unwrap();

    // environment: every face solid 0.5
    for mip in maps.environment.mips.iter() {
        for t in mip.iter() {
            assert_eq!(t.r, SCALE / 2);
        }
    }
    // irradiance: every texel pi * 0.5, about 1.5708
    let expected = PI_FP * (SCALE / 2) / SCALE;
    assert!((expected as f64 / SCALE as f64 - 1.5708).abs() < 1e-3);
    assert_eq!(maps.irradiance.face_resolution, 32);
    for t in maps.irradiance.mips[0].iter() {
        assert_eq!(t.r, expected);
        assert_eq!(t.g, expected);
        assert_eq!(t.b, expected);
    }
    // prefiltered: every mip and face solid 0.5
    assert_eq!(maps.prefiltered.mips.len(), 5);
    for mip in maps.prefiltered.mips.iter() {
        for t in mip.iter() {
            assert_eq!(t.r, SCALE / 2);
        }
    }
    // the table is independent of the environment and in unit range
    assert_eq!(maps.brdf_lut.width, 8);
    for t in maps.brdf_lut.texels.iter() {
        assert!(t.r >= 0 && t.r <= SCALE);
        assert!(t.g >= 0 && t.g <= SCALE);
    }
}

#[test]
fn pipeline_rejects_bad_resolutions_without_partial_results() {
    let img = Texture2D::new_from_hdr(4, 2, vec![0; 4 * 2 * 3]).unwrap();
    assert_eq!(
        precompute_ibl(&img, 0, 8).unwrap_err(),
        TextureError::BadDimensions
    );
    assert_eq!(
        precompute_ibl(&img, 8, 0).unwrap_err(),
        TextureError::BadDimensions
    );
}
