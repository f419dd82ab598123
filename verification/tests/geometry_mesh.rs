//! Shape of the procedural sphere mesh.

use ibl_pipeline::fixed::SCALE;
use ibl_pipeline::geometry::crate_sphere_buffers;

#[test]
fn sphere_mesh_has_the_expected_extent() {
    let (data, indices) = crate_sphere_buffers(SCALE);
    // 65 x 65 vertices of 8 values, 64 double-covered strip rows
    assert_eq!(data.len(), 65 * 65 * 8);
    assert_eq!(indices.len(), 64 * 130);
    for &i in indices.iter() {
        assert!(i < 65 * 65);
    }
}

#[test]
fn sphere_poles_are_exact() {
    let radius = 3 * SCALE;
    let (data, _) = crate_sphere_buffers(radius);
    // north pole: vertex (0, 0)
    assert_eq!(&data[0..3], &[0, radius, 0]);
    assert_eq!(&data[5..8], &[0, SCALE, 0]);
    // south pole: vertex (0, 64)
    let base = (64 * 65) * 8;
    assert_eq!(&data[base..base + 3], &[0, -radius, 0]);
    assert_eq!(&data[base + 5..base + 8], &[0, -SCALE, 0]);
}

#[test]
fn sphere_texture_coordinates_are_the_grid_fractions() {
    let (data, _) = crate_sphere_buffers(SCALE);
    let at = |x: usize, y: usize, c: usize| data[(y * 65 + x) * 8 + c];
    assert_eq!(at(32, 16, 3), SCALE / 2);
    assert_eq!(at(32, 16, 4), SCALE / 4);
    assert_eq!(at(64, 64, 3), SCALE);
    assert_eq!(at(64, 64, 4), SCALE);
}

#[test]
fn sphere_equator_keeps_the_radius() {
    let radius = 2 * SCALE;
    let (data, _) = crate_sphere_buffers(radius);
    let s = SCALE as f64;
    for x in 0..65usize {
        let base = (32 * 65 + x) * 8;
        let px = data[base] as f64 / s;
        let py = data[base + 1] as f64 / s;
        let pz = data[base + 2] as f64 / s;
        let len = (px * px + py * py + pz * pz).sqrt();
        assert!((len - 2.0).abs() < 1e-3, "length {} at column {}", len, x);
    }
}

#[test]
fn sphere_strip_rows_alternate_direction() {
    let (_, indices) = crate_sphere_buffers(SCALE);
    // first row walks right to left over row pairs (0, 1)
    assert_eq!(indices[0], 64);
    assert_eq!(indices[1], 129);
    assert_eq!(indices[2], 63);
    // second row walks left to right over row pairs (2, 1)
    assert_eq!(indices[130], 130);
    assert_eq!(indices[131], 65);
    assert_eq!(indices[132], 131);
}
