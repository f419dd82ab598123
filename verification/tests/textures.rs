//! Construction and validation of the texture data model.

use ibl_pipeline::fixed::SCALE;
use ibl_pipeline::texture::{Texture2D, TextureCubeMap, TextureError, RAD_MAX};

fn gray_image(width: usize, height: usize, value: i64) -> Texture2D {
    let mut data: Vec<i64> = Vec::new();
    for _ in 0..width * height * 3 {
        data.push(value);
    }
    Texture2D::new_from_hdr(width, height, data).unwrap()
}

#[test]
fn new_from_hdr_accepts_well_formed_data() {
    let img = gray_image(4, 2, SCALE / 2);
    assert_eq!(img.width, 4);
    assert_eq!(img.height, 2);
    assert_eq!(img.texels.len(), 8);
    for t in img.texels.iter() {
        assert_eq!(t.r, SCALE / 2);
        assert_eq!(t.g, SCALE / 2);
        assert_eq!(t.b, SCALE / 2);
    }
}

#[test]
fn new_from_hdr_rejects_zero_dimensions() {
    assert_eq!(
        Texture2D::new_from_hdr(0, 2, vec![0; 0]).unwrap_err(),
        TextureError::BadDimensions
    );
}

#[test]
fn new_from_hdr_rejects_wrong_buffer_length() {
    assert_eq!(
        Texture2D::new_from_hdr(2, 2, vec![0; 11]).unwrap_err(),
        TextureError::DataSizeMismatch
    );
}

#[test]
fn new_from_hdr_rejects_out_of_range_radiance() {
    let mut data = vec![0i64; 12];
    data[7] = RAD_MAX + 1;
    assert_eq!(
        Texture2D::new_from_hdr(2, 2, data).unwrap_err(),
        TextureError::ValueOutOfRange
    );
    let mut data2 = vec![0i64; 12];
    data2[0] = -1;
    assert_eq!(
        Texture2D::new_from_hdr(2, 2, data2).unwrap_err(),
        TextureError::ValueOutOfRange
    );
}

#[test]
fn new_from_image_converts_bytes_exactly() {
    let img = Texture2D::new_from_image(2, 1, 3, vec![255, 0, 51, 255, 255, 255]).unwrap();
    assert_eq!(img.texels[0].r, SCALE);
    assert_eq!(img.texels[0].g, 0);
    assert_eq!(img.texels[0].b, 51 * SCALE / 255);
    assert_eq!(img.texels[1].r, SCALE);
}

#[test]
fn new_from_image_replicates_gray_and_drops_alpha() {
    let gray = Texture2D::new_from_image(1, 1, 1, vec![128]).unwrap();
    assert_eq!(gray.texels[0].r, gray.texels[0].g);
    assert_eq!(gray.texels[0].g, gray.texels[0].b);
    let rgba = Texture2D::new_from_image(1, 1, 4, vec![10, 20, 30, 40]).unwrap();
    assert_eq!(rgba.texels[0].r, 10 * SCALE / 255);
    assert_eq!(rgba.texels[0].g, 20 * SCALE / 255);
    assert_eq!(rgba.texels[0].b, 30 * SCALE / 255);
}

#[test]
fn new_from_image_rejects_unknown_formats() {
    assert_eq!(
        Texture2D::new_from_image(1, 1, 2, vec![1, 2]).unwrap_err(),
        TextureError::UnsupportedFormat
    );
}

#[test]
fn error_descriptions_are_distinct() {
    let texts = [
        TextureError::BadDimensions.describe(),
        TextureError::DataSizeMismatch.describe(),
        TextureError::UnsupportedFormat.describe(),
        TextureError::ValueOutOfRange.describe(),
    ];
    for i in 0..texts.len() {
        for j in 0..texts.len() {
            if i != j {
                assert_ne!(texts[i], texts[j]);
            }
        }
    }
}

#[test]
fn new_from_images_assembles_six_faces() {
    let faces: Vec<Texture2D> = (0..6).map(|f| gray_image(2, 2, (f + 1) as i64 * 1000)).collect();
    let cube = TextureCubeMap::new_from_images(
        &faces[0], &faces[1], &faces[2], &faces[3], &faces[4], &faces[5],
    )
    .unwrap();
    assert_eq!(cube.face_resolution, 2);
    assert_eq!(cube.mips.len(), 1);
    assert_eq!(cube.mips[0].len(), 24);
    for f in 0..6 {
        for i in 0..4 {
            assert_eq!(cube.mips[0][f * 4 + i].r, (f + 1) as i64 * 1000);
        }
    }
}

#[test]
fn new_from_images_rejects_mismatched_faces() {
    let a = gray_image(2, 2, 0);
    let b = gray_image(4, 4, 0);
    let nonsquare = gray_image(2, 3, 0);
    assert_eq!(
        TextureCubeMap::new_from_images(&nonsquare, &a, &a, &a, &a, &a).unwrap_err(),
        TextureError::BadDimensions
    );
    assert_eq!(
        TextureCubeMap::new_from_images(&a, &b, &a, &a, &a, &a).unwrap_err(),
        TextureError::DataSizeMismatch
    );
}
