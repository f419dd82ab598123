//! Fixed-point three-component vectors.
//!
//! Directions and tangent frames are carried as `Vec3Fp` values whose
//! components are scaled by `SCALE`.  Normalization clamps its result to
//! unit range and falls back to the +X axis on a vanishing input, so every
//! operation is total and exactly specified.

use crate::fixed::{
    clamp_fp, clamp_fp_spec, div_fp, div_fp_spec, iabs, lemma_mul_fp_abs_bound, mul_fp,
    mul_fp_spec, sqrt_fp, sqrt_fp_spec, SCALE,
};
use vstd::prelude::*;

verus! {

/// Sine of roughly 82 degrees: the threshold above which the world up axis
/// is considered parallel to a normal.
pub const NEAR_ONE_FP: i64 = 1038090;

/// A vector with components scaled by `SCALE`.
#[derive(Clone, Copy, Debug, PartialEq, Eq, Structural)]
pub struct Vec3Fp {
    pub x: i64,
    pub y: i64,
    pub z: i64,
}

/// All components within `[-b, b]`.
pub open spec fn v3_bounded(v: Vec3Fp, b: int) -> bool {
    &&& iabs(v.x as int) <= b
    &&& iabs(v.y as int) <= b
    &&& iabs(v.z as int) <= b
}

/// The fixed-point dot product.
pub open spec fn dot_fp_spec(a: Vec3Fp, b: Vec3Fp) -> int {
    mul_fp_spec(a.x as int, b.x as int) + mul_fp_spec(a.y as int, b.y as int) + mul_fp_spec(
        a.z as int,
        b.z as int,
    )
}

/// The fixed-point cross product.
pub open spec fn cross_fp_spec(a: Vec3Fp, b: Vec3Fp) -> Vec3Fp
    recommends
        v3_bounded(a, 2 * SCALE as int),
        v3_bounded(b, 2 * SCALE as int),
{
    Vec3Fp {
        x: (mul_fp_spec(a.y as int, b.z as int) - mul_fp_spec(a.z as int, b.y as int)) as i64,
        y: (mul_fp_spec(a.z as int, b.x as int) - mul_fp_spec(a.x as int, b.z as int)) as i64,
        z: (mul_fp_spec(a.x as int, b.y as int) - mul_fp_spec(a.y as int, b.x as int)) as i64,
    }
}

/// The clamped normalization; the +X axis when the input has no length.
pub open spec fn normalize_fp_spec(v: Vec3Fp) -> Vec3Fp
    recommends
        v3_bounded(v, 8 * SCALE as int),
{
    let len = sqrt_fp_spec(dot_fp_spec(v, v));
    if len <= 0 {
        Vec3Fp { x: SCALE, y: 0, z: 0 }
    } else {
        Vec3Fp {
            x: clamp_fp_spec(div_fp_spec(v.x as int, len), -(SCALE as int), SCALE as int) as i64,
            y: clamp_fp_spec(div_fp_spec(v.y as int, len), -(SCALE as int), SCALE as int) as i64,
            z: clamp_fp_spec(div_fp_spec(v.z as int, len), -(SCALE as int), SCALE as int) as i64,
        }
    }
}

/// A tangent-space sample mapped to world space:
/// `right*tx + up*ty + n*tz`.
pub open spec fn basis_combine_spec(
    right: Vec3Fp,
    up: Vec3Fp,
    n: Vec3Fp,
    tx: int,
    ty: int,
    tz: int,
) -> Vec3Fp
    recommends
        v3_bounded(right, SCALE as int),
        v3_bounded(up, SCALE as int),
        v3_bounded(n, SCALE as int),
{
    Vec3Fp {
        x: (mul_fp_spec(right.x as int, tx) + mul_fp_spec(up.x as int, ty) + mul_fp_spec(
            n.x as int,
            tz,
        )) as i64,
        y: (mul_fp_spec(right.y as int, tx) + mul_fp_spec(up.y as int, ty) + mul_fp_spec(
            n.y as int,
            tz,
        )) as i64,
        z: (mul_fp_spec(right.z as int, tx) + mul_fp_spec(up.z as int, ty) + mul_fp_spec(
            n.z as int,
            tz,
        )) as i64,
    }
}

/// A tangent frame around a unit-range normal, built from a fixed world up
/// axis (or the +X axis when the normal is nearly vertical).
pub open spec fn tangent_basis_spec(n: Vec3Fp) -> (Vec3Fp, Vec3Fp)
    recommends
        v3_bounded(n, SCALE as int),
{
    let up0 = if n.y > NEAR_ONE_FP || n.y < -NEAR_ONE_FP {
        Vec3Fp { x: SCALE, y: 0, z: 0 }
    } else {
        Vec3Fp { x: 0, y: SCALE, z: 0 }
    };
    let right = normalize_fp_spec(cross_fp_spec(up0, n));
    let up = normalize_fp_spec(cross_fp_spec(n, right));
    (right, up)
}

/// Executable dot product.
pub fn dot_fp(a: Vec3Fp, b: Vec3Fp) -> (r: i64)
    requires
        v3_bounded(a, 8 * SCALE as int),
        v3_bounded(b, 8 * SCALE as int),
    ensures
        r == dot_fp_spec(a, b),
        -201326592 <= r <= 201326592,
{
    proof {
        lemma_mul_fp_abs_bound(a.x as int, b.x as int, 8388608, 8388608);
        lemma_mul_fp_abs_bound(a.y as int, b.y as int, 8388608, 8388608);
        lemma_mul_fp_abs_bound(a.z as int, b.z as int, 8388608, 8388608);
    }
    mul_fp(a.x, b.x) + mul_fp(a.y, b.y) + mul_fp(a.z, b.z)
}

/// Executable cross product.
pub fn cross_fp(a: Vec3Fp, b: Vec3Fp) -> (r: Vec3Fp)
    requires
        v3_bounded(a, 2 * SCALE as int),
        v3_bounded(b, 2 * SCALE as int),
    ensures
        r == cross_fp_spec(a, b),
        v3_bounded(r, 8 * SCALE as int),
{
    proof {
        lemma_mul_fp_abs_bound(a.y as int, b.z as int, 2097152, 2097152);
        lemma_mul_fp_abs_bound(a.z as int, b.y as int, 2097152, 2097152);
        lemma_mul_fp_abs_bound(a.z as int, b.x as int, 2097152, 2097152);
        lemma_mul_fp_abs_bound(a.x as int, b.z as int, 2097152, 2097152);
        lemma_mul_fp_abs_bound(a.x as int, b.y as int, 2097152, 2097152);
        lemma_mul_fp_abs_bound(a.y as int, b.x as int, 2097152, 2097152);
    }
    Vec3Fp {
        x: mul_fp(a.y, b.z) - mul_fp(a.z, b.y),
        y: mul_fp(a.z, b.x) - mul_fp(a.x, b.z),
        z: mul_fp(a.x, b.y) - mul_fp(a.y, b.x),
    }
}

/// Executable clamped normalization.
pub fn normalize_fp(v: Vec3Fp) -> (r: Vec3Fp)
    requires
        v3_bounded(v, 8 * SCALE as int),
    ensures
        r == normalize_fp_spec(v),
        v3_bounded(r, SCALE as int),
{
    let dot: i64 = dot_fp(v, v);
    proof {
        lemma_mul_fp_abs_bound(v.x as int, v.x as int, 8388608, 8388608);
        lemma_mul_fp_abs_bound(v.y as int, v.y as int, 8388608, 8388608);
        lemma_mul_fp_abs_bound(v.z as int, v.z as int, 8388608, 8388608);
        assert((v.x as int) * (v.x as int) >= 0) by (nonlinear_arith);
        assert((v.y as int) * (v.y as int) >= 0) by (nonlinear_arith);
        assert((v.z as int) * (v.z as int) >= 0) by (nonlinear_arith);
        crate::fixed::lemma_tdiv_nonneg((v.x as int) * (v.x as int), SCALE as int);
        crate::fixed::lemma_tdiv_nonneg((v.y as int) * (v.y as int), SCALE as int);
        crate::fixed::lemma_tdiv_nonneg((v.z as int) * (v.z as int), SCALE as int);
    }
    let len: i64 = sqrt_fp(dot);
    if len <= 0 {
        Vec3Fp { x: SCALE, y: 0, z: 0 }
    } else {
        Vec3Fp {
            x: clamp_fp(div_fp(v.x, len), -SCALE, SCALE),
            y: clamp_fp(div_fp(v.y, len), -SCALE, SCALE),
            z: clamp_fp(div_fp(v.z, len), -SCALE, SCALE),
        }
    }
}

/// Executable tangent-to-world combination.
pub fn basis_combine(right: Vec3Fp, up: Vec3Fp, n: Vec3Fp, tx: i64, ty: i64, tz: i64) -> (r:
    Vec3Fp)
    requires
        v3_bounded(right, SCALE as int),
        v3_bounded(up, SCALE as int),
        v3_bounded(n, SCALE as int),
        -2 * SCALE <= tx <= 2 * SCALE,
        -2 * SCALE <= ty <= 2 * SCALE,
        -2 * SCALE <= tz <= 2 * SCALE,
    ensures
        r == basis_combine_spec(right, up, n, tx as int, ty as int, tz as int),
        v3_bounded(r, 6 * SCALE as int),
{
    proof {
        lemma_mul_fp_abs_bound(right.x as int, tx as int, 1048576, 2097152);
        lemma_mul_fp_abs_bound(up.x as int, ty as int, 1048576, 2097152);
        lemma_mul_fp_abs_bound(n.x as int, tz as int, 1048576, 2097152);
        lemma_mul_fp_abs_bound(right.y as int, tx as int, 1048576, 2097152);
        lemma_mul_fp_abs_bound(up.y as int, ty as int, 1048576, 2097152);
        lemma_mul_fp_abs_bound(n.y as int, tz as int, 1048576, 2097152);
        lemma_mul_fp_abs_bound(right.z as int, tx as int, 1048576, 2097152);
        lemma_mul_fp_abs_bound(up.z as int, ty as int, 1048576, 2097152);
        lemma_mul_fp_abs_bound(n.z as int, tz as int, 1048576, 2097152);
    }
    Vec3Fp {
        x: mul_fp(right.x, tx) + mul_fp(up.x, ty) + mul_fp(n.x, tz),
        y: mul_fp(right.y, tx) + mul_fp(up.y, ty) + mul_fp(n.y, tz),
        z: mul_fp(right.z, tx) + mul_fp(up.z, ty) + mul_fp(n.z, tz),
    }
}

/// Executable tangent frame.
pub fn tangent_basis(n: Vec3Fp) -> (ru: (Vec3Fp, Vec3Fp))
    requires
        v3_bounded(n, SCALE as int),
    ensures
        ru == tangent_basis_spec(n),
        v3_bounded(ru.0, SCALE as int),
        v3_bounded(ru.1, SCALE as int),
{
    let up0: Vec3Fp = if n.y > NEAR_ONE_FP || n.y < -NEAR_ONE_FP {
        Vec3Fp { x: SCALE, y: 0, z: 0 }
    } else {
        Vec3Fp { x: 0, y: SCALE, z: 0 }
    };
    let right: Vec3Fp = normalize_fp(cross_fp(up0, n));
    let up: Vec3Fp = normalize_fp(cross_fp(n, right));
    (right, up)
}

} // verus!
