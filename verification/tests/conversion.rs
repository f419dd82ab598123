//! Equirectangular-to-cubemap conversion behavior.

use ibl_pipeline::fixed::SCALE;
use ibl_pipeline::texture::{Texture2D, TextureCubeMap, TextureError};

fn gray_image(width: usize, height: usize, value: i64) -> Texture2D {
    let data = vec![value; width * height * 3];
    Texture2D::new_from_hdr(width, height, data).unwrap()
}

#[test]
fn conversion_of_constant_image_is_constant() {
    let img = gray_image(64, 32, SCALE / 2);
    let cube = TextureCubeMap::new_from_hdr(&img, 16).unwrap();
    assert_eq!(cube.face_resolution, 16);
    for mip in cube.mips.iter() {
        for t in mip.iter() {
            assert_eq!(t.r, SCALE / 2);
            assert_eq!(t.g, SCALE / 2);
            assert_eq!(t.b, SCALE / 2);
        }
    }
}

#[test]
fn conversion_builds_full_mip_chain() {
    let img = gray_image(8, 4, 1000);
    let cube = TextureCubeMap::new_from_hdr(&img, 16).unwrap();
    // 16, 8, 4, 2, 1
    assert_eq!(cube.mips.len(), 5);
    let sizes: Vec<usize> = cube.mips.iter().map(|m| m.len()).collect();
    assert_eq!(sizes, vec![6 * 256, 6 * 64, 6 * 16, 6 * 4, 6]);
}

#[test]
fn conversion_works_at_one_texel_faces() {
    let img = gray_image(2, 1, 777);
    let cube = TextureCubeMap::new_from_hdr(&img, 1).unwrap();
    assert_eq!(cube.mips.len(), 1);
    assert_eq!(cube.mips[0].len(), 6);
    for t in cube.mips[0].iter() {
        assert_eq!(t.r, 777);
    }
}

#[test]
fn conversion_rejects_bad_resolution() {
    let img = gray_image(2, 1, 0);
    assert_eq!(
        TextureCubeMap::new_from_hdr(&img, 0).unwrap_err(),
        TextureError::BadDimensions
    );
}

#[test]
fn conversion_stays_within_source_range() {
    // a vertical gradient
    let mut data: Vec<i64> = Vec::new();
    for y in 0..16usize {
        for _x in 0..32usize {
            let v = (y as i64 + 1) * 4096;
            data.push(v);
            data.push(v / 2);
            data.push(v / 4);
        }
    }
    let img = Texture2D::new_from_hdr(32, 16, data).unwrap();
    let cube = TextureCubeMap::new_from_hdr(&img, 8).unwrap();
    let lo = 1024; // 4096 / 4
    let hi = 16 * 4096;
    for mip in cube.mips.iter() {
        for t in mip.iter() {
            assert!(t.r >= lo && t.r <= hi);
            assert!(t.g >= lo && t.g <= hi);
            assert!(t.b >= lo && t.b <= hi);
        }
    }
}

#[test]
fn conversion_is_deterministic() {
    let mut data: Vec<i64> = Vec::new();
    for i in 0..(16 * 8 * 3) as i64 {
        data.push((i * 37) % 100000);
    }
    let img = Texture2D::new_from_hdr(16, 8, data.clone()).unwrap();
    let img2 = Texture2D::new_from_hdr(16, 8, data).unwrap();
    let c1 = TextureCubeMap::new_from_hdr(&img, 8).unwrap();
    let c2 = TextureCubeMap::new_from_hdr(&img2, 8).unwrap();
    assert_eq!(c1.mips.len(), c2.mips.len());
    for (m1, m2) in c1.mips.iter().zip(c2.mips.iter()) {
        assert_eq!(m1, m2);
    }
}
