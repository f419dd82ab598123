//! Procedural sphere mesh.
//!
//! The sphere used as a draw target is a 64-by-64 latitude/longitude grid:
//! one vertex per grid point carrying position, texture coordinate and
//! normal interleaved, and a zig-zag triangle-strip index list that walks
//! the rows alternately right-to-left and left-to-right.  The contract
//! pins every vertex component to its trigonometric value and proves that
//! every index stays inside the vertex table.

use crate::fixed::{div_nonneg, lemma_mul_fp_abs_bound, mul_fp, mul_fp_spec, PI_FP, SCALE, TWO_PI_FP};
use crate::trig::{cos_fp, cos_fp_spec, sin_fp, sin_fp_spec};
use vstd::arithmetic::div_mod::lemma_fundamental_div_mod_converse;
use vstd::prelude::*;

verus! {

/// Grid segments along longitude and latitude.
pub const SPHERE_SEGMENTS: usize = 64;

/// Vertices per row or column: one more than the segment count.
pub const SPHERE_POINTS: usize = 65;

/// Values per vertex: position, texture coordinate, normal.
pub const SPHERE_STRIDE: usize = 8;

/// Largest accepted sphere radius (1024.0 scaled).
pub const SPHERE_RADIUS_MAX: i64 = 1073741824;

/// Component `c` of grid vertex `(x, y)`: positions scaled by the radius,
/// texture coordinates as the grid fractions, normals the unit sphere
/// point.
pub open spec fn sphere_vertex_spec(radius: int, x: int, y: int, c: int) -> int {
    let ax = (x * (TWO_PI_FP as int)) / 64;
    let ay = (y * (PI_FP as int)) / 64;
    let xp = mul_fp_spec(cos_fp_spec(ax), sin_fp_spec(ay));
    let yp = cos_fp_spec(ay);
    let zp = mul_fp_spec(sin_fp_spec(ax), sin_fp_spec(ay));
    if c == 0 {
        mul_fp_spec(radius, xp)
    } else if c == 1 {
        mul_fp_spec(radius, yp)
    } else if c == 2 {
        mul_fp_spec(radius, zp)
    } else if c == 3 {
        x * 16384
    } else if c == 4 {
        y * 16384
    } else if c == 5 {
        xp
    } else if c == 6 {
        yp
    } else {
        zp
    }
}

/// Flat position of component `c` of grid vertex `(x, y)` in the
/// interleaved vertex buffer.
pub open spec fn sphere_vtx_idx_spec(x: int, y: int, c: int) -> int {
    (y * 65 + x) * 8 + c
}

/// Entry `j` of the triangle-strip index list: rows alternate direction,
/// and each grid column contributes the vertex of the current row and the
/// one below it.
pub open spec fn sphere_index_spec(j: int) -> int {
    let r = j / 130;
    let k = j % 130;
    let col = if r % 2 == 0 {
        64 - k / 2
    } else {
        k / 2
    };
    let row = if r % 2 == 0 {
        if k % 2 == 0 {
            r
        } else {
            r + 1
        }
    } else {
        if k % 2 == 0 {
            r + 1
        } else {
            r
        }
    };
    row * 65 + col
}

/// Builds the interleaved vertex data and the strip indices of a sphere
/// with the given radius.
///
/// The vertex buffer holds 65 x 65 grid points of eight values each, every
/// component equal to its trigonometric description; the index list holds
/// 64 double-covered rows, and every index addresses a valid vertex.
#[verifier::loop_isolation(false)]
pub fn crate_sphere_buffers(radius: i64) -> (mesh: (Vec<i64>, Vec<u32>))
    requires
        0 <= radius <= SPHERE_RADIUS_MAX,
    ensures
        mesh.0@.len() == 33800,
        forall|x: int, y: int, c: int|
            0 <= x < 65 && 0 <= y < 65 && 0 <= c < 8 ==> mesh.0@[#[trigger] sphere_vtx_idx_spec(
                x,
                y,
                c,
            )] == sphere_vertex_spec(radius as int, x, y, c),
        mesh.1@.len() == 8320,
        forall|j: int| 0 <= j < 8320 ==> #[trigger] mesh.1@[j] == sphere_index_spec(j),
        forall|j: int| 0 <= j < 8320 ==> 0 <= #[trigger] mesh.1@[j] < 4225,
{
    let mut data: Vec<i64> = Vec::new();
    let mut y: usize = 0;
    while y < SPHERE_POINTS
        invariant
            0 <= y <= 65,
            data@.len() == (y as int) * 520,
            forall|x2: int, y2: int, c: int|
                0 <= x2 < 65 && 0 <= y2 < 65 && 0 <= c < 8 && sphere_vtx_idx_spec(x2, y2, c)
                    < data@.len() ==> data@[#[trigger] sphere_vtx_idx_spec(x2, y2, c)]
                    == sphere_vertex_spec(radius as int, x2, y2, c),
        decreases 65 - y,
    {
        let ay: i64 = div_nonneg((y as i64) * PI_FP, 64);
        let sy: i64 = sin_fp(ay);
        let cy: i64 = cos_fp(ay);
        let mut x: usize = 0;
        while x < SPHERE_POINTS
            invariant
                0 <= x <= 65,
                data@.len() == (y as int) * 520 + (x as int) * 8,
                ay as int == ((y as int) * (PI_FP as int)) / 64,
                sy == sin_fp_spec(ay as int),
                cy == cos_fp_spec(ay as int),
                0 <= sy <= SCALE,
                -SCALE <= cy <= SCALE,
                forall|x2: int, y2: int, c: int|
                    0 <= x2 < 65 && 0 <= y2 < 65 && 0 <= c < 8 && sphere_vtx_idx_spec(x2, y2, c)
                        < data@.len() ==> data@[#[trigger] sphere_vtx_idx_spec(x2, y2, c)]
                        == sphere_vertex_spec(radius as int, x2, y2, c),
            decreases 65 - x,
        {
            let ax: i64 = div_nonneg((x as i64) * TWO_PI_FP, 64);
            let sx: i64 = sin_fp(ax);
            let cx: i64 = cos_fp(ax);
            proof {
                lemma_mul_fp_abs_bound(cx as int, sy as int, 1048576, 1048576);
                lemma_mul_fp_abs_bound(sx as int, sy as int, 1048576, 1048576);
            }
            let xp: i64 = mul_fp(cx, sy);
            let yp: i64 = cy;
            let zp: i64 = mul_fp(sx, sy);
            proof {
                lemma_mul_fp_abs_bound(radius as int, xp as int, 1073741824, 1048576);
                lemma_mul_fp_abs_bound(radius as int, yp as int, 1073741824, 1048576);
                lemma_mul_fp_abs_bound(radius as int, zp as int, 1073741824, 1048576);
            }
            let vals: [i64; 8] = [
                mul_fp(radius, xp),
                mul_fp(radius, yp),
                mul_fp(radius, zp),
                (x as i64) * 16384,
                (y as i64) * 16384,
                xp,
                yp,
                zp,
            ];
            let ghost base: int = data@.len() as int;
            proof {
                assert(base == sphere_vtx_idx_spec(x as int, y as int, 0)) by (nonlinear_arith)
                    requires
                        base == (y as int) * 520 + (x as int) * 8,
                ;
            }
            let mut c: usize = 0;
            while c < SPHERE_STRIDE
                invariant
                    0 <= c <= 8,
                    data@.len() == base + c,
                    base == sphere_vtx_idx_spec(x as int, y as int, 0),
                    forall|c2: int|
                        0 <= c2 < c ==> data@[base + c2] == vals@[c2],
                    forall|x2: int, y2: int, c2: int|
                        0 <= x2 < 65 && 0 <= y2 < 65 && 0 <= c2 < 8 && sphere_vtx_idx_spec(
                            x2,
                            y2,
                            c2,
                        ) < base ==> data@[#[trigger] sphere_vtx_idx_spec(x2, y2, c2)]
                            == sphere_vertex_spec(radius as int, x2, y2, c2),
                decreases 8 - c,
            {
                data.push(vals[c]);
                c = c + 1;
            }
            proof {
                assert forall|x2: int, y2: int, c2: int|
                    0 <= x2 < 65 && 0 <= y2 < 65 && 0 <= c2 < 8 && sphere_vtx_idx_spec(x2, y2, c2)
                        < data@.len() implies data@[#[trigger] sphere_vtx_idx_spec(x2, y2, c2)]
                    == sphere_vertex_spec(radius as int, x2, y2, c2) by {
                    let idx = sphere_vtx_idx_spec(x2, y2, c2);
                    if idx >= base {
                        assert(y2 * 65 + x2 == (y as int) * 65 + (x as int) && c2 == idx - base)
                            by (nonlinear_arith)
                            requires
                                idx == (y2 * 65 + x2) * 8 + c2 && base == ((y as int) * 65 + (
                                x as int)) * 8 && 0 <= c2 < 8 && base <= idx < base + 8,
                        ;
                        assert(x2 == x && y2 == y) by (nonlinear_arith)
                            requires
                                y2 * 65 + x2 == (y as int) * 65 + (x as int) && 0 <= x2 < 65 && 0
                                    <= x < 65 && 0 <= y2 < 65 && 0 <= y < 65,
                        ;
                        assert(data@[idx] == vals@[c2]);
                    }
                }
            }
            x = x + 1;
        }
        proof {
            assert(((y as int) + 1) * 520 == (y as int) * 520 + 520) by (nonlinear_arith);
        }
        y = y + 1;
    }
    let mut indices: Vec<u32> = Vec::new();
    let mut r: usize = 0;
    while r < SPHERE_SEGMENTS
        invariant
            0 <= r <= 64,
            indices@.len() == (r as int) * 130,
            forall|j: int| 0 <= j < indices@.len() ==> #[trigger] indices@[j] == sphere_index_spec(j),
            forall|j: int| 0 <= j < indices@.len() ==> 0 <= #[trigger] indices@[j] < 4225,
        decreases 64 - r,
    {
        let mut k: usize = 0;
        while k < 130
            invariant
                0 <= k <= 130,
                indices@.len() == (r as int) * 130 + (k as int),
                forall|j: int|
                    0 <= j < indices@.len() ==> #[trigger] indices@[j] == sphere_index_spec(j),
                forall|j: int| 0 <= j < indices@.len() ==> 0 <= #[trigger] indices@[j] < 4225,
            decreases 130 - k,
        {
            let col: usize = if r % 2 == 0 {
                64 - k / 2
            } else {
                k / 2
            };
            let row: usize = if r % 2 == 0 {
                if k % 2 == 0 {
                    r
                } else {
                    r + 1
                }
            } else {
                if k % 2 == 0 {
                    r + 1
                } else {
                    r
                }
            };
            let idx: u32 = (row as u32) * 65 + (col as u32);
            proof {
                let j0 = indices@.len() as int;
                lemma_fundamental_div_mod_converse(j0, 130, r as int, k as int);
                assert(idx == sphere_index_spec(j0));
            }
            indices.push(idx);
            k = k + 1;
        }
        proof {
            assert(((r as int) + 1) * 130 == (r as int) * 130 + 130) by (nonlinear_arith);
        }
        r = r + 1;
    }
    (data, indices)
}

} // verus!
