//! Boundary behavior and determinism of the BRDF integration table.

use ibl_pipeline::brdf_lut::{compute_lut_texture, integrate_brdf};
use ibl_pipeline::fixed::SCALE;

#[test]
fn mirror_corner_is_exactly_scale_one_bias_zero() {
    let (a, b) = integrate_brdf(SCALE, 0);
    assert_eq!(a, SCALE);
    assert_eq!(b, 0);
}

#[test]
fn grazing_angles_shift_toward_the_fresnel_bias() {
    // at roughness zero the sample set is a perfect mirror, so the pair is
    // governed by the Schlick factor alone
    let (a, b) = integrate_brdf(SCALE / 100, 0);
    assert!(b > 9 * SCALE / 10, "bias {} should dominate at grazing", b);
    assert!(a < SCALE / 10, "scale {} should vanish at grazing", a);
    // the near-mirror column keeps scale close to one
    let (a2, b2) = integrate_brdf(99 * SCALE / 100, 0);
    assert!(a2 > 9 * SCALE / 10);
    assert!(b2 < SCALE / 10);
}

#[test]
fn table_respects_its_resolution_and_unit_range() {
    let lut = compute_lut_texture(16);
    assert_eq!(lut.width, 16);
    assert_eq!(lut.height, 16);
    assert_eq!(lut.texels.len(), 256);
    for t in lut.texels.iter() {
        assert!(t.r >= 0 && t.r <= SCALE);
        assert!(t.g >= 0 && t.g <= SCALE);
        assert_eq!(t.b, 0);
    }
    // the texel nearest the mirror corner carries a near-one scale
    let corner = &lut.texels[15];
    assert!(corner.r > 8 * SCALE / 10, "corner scale {}", corner.r);
    assert!(corner.g < 2 * SCALE / 10, "corner bias {}", corner.g);
}

#[test]
fn table_is_deterministic() {
    let l1 = compute_lut_texture(8);
    let l2 = compute_lut_texture(8);
    assert_eq!(l1.texels, l2.texels);
}
