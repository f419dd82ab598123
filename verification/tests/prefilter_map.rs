//! Roughness blur and resolution behavior of the specular prefilter.

use ibl_pipeline::fixed::SCALE;
use ibl_pipeline::prefilter::compute_prefiltered_env_map;
use ibl_pipeline::texture::{Texture2D, TextureCubeMap};

#[test]
fn prefilter_has_the_fixed_mip_schedule_and_keeps_a_constant() {
    let img = Texture2D::new_from_hdr(8, 4, vec![SCALE / 2; 8 * 4 * 3]).unwrap();
    let env = TextureCubeMap::new_from_hdr(&img, 8).unwrap();
    let pre = compute_prefiltered_env_map(&env, 8);
    // resolution contract: 5 levels at 128, 64, 32, 16, 8
    assert_eq!(pre.face_resolution, 128);
    assert_eq!(pre.mips.len(), 5);
    let sizes: Vec<usize> = pre.mips.iter().map(|m| m.len()).collect();
    assert_eq!(
        sizes,
        vec![6 * 128 * 128, 6 * 64 * 64, 6 * 32 * 32, 6 * 16 * 16, 6 * 8 * 8]
    );
    for mip in pre.mips.iter() {
        for t in mip.iter() {
            assert_eq!(t.r, SCALE / 2);
            assert_eq!(t.g, SCALE / 2);
            assert_eq!(t.b, SCALE / 2);
        }
    }
}

#[test]
fn increasing_roughness_increases_blur() {
    // a single bright band on a dim background
    let mut data: Vec<i64> = Vec::new();
    for y in 0..8usize {
        for x in 0..16usize {
            let v = if y < 2 && x < 4 { 200 * SCALE } else { SCALE / 10 };
            data.push(v);
            data.push(v);
            data.push(v);
        }
    }
    let img = Texture2D::new_from_hdr(16, 8, data).unwrap();
    let env = TextureCubeMap::new_from_hdr(&img, 16).unwrap();
    let pre = compute_prefiltered_env_map(&env, 16);

    let variance = |texels: &Vec<ibl_pipeline::texture::Texel>| -> f64 {
        let s = SCALE as f64;
        let vals: Vec<f64> = texels.iter().map(|t| t.r as f64 / s).collect();
        let mean = vals.iter().sum::<f64>() / vals.len() as f64;
        vals.iter().map(|v| (v - mean) * (v - mean)).sum::<f64>() / vals.len() as f64
    };
    let sharp = variance(&pre.mips[0]);
    let blurred = variance(&pre.mips[4]);
    assert!(
        blurred < sharp,
        "variance should fall with roughness: {} vs {}",
        sharp,
        blurred
    );
    // and nothing leaves the source radiance range
    for mip in pre.mips.iter() {
        for t in mip.iter() {
            assert!(t.r >= SCALE / 10 && t.r <= 200 * SCALE);
        }
    }
}
