//! Texture sampling.
//!
//! Cubemap texels are looked up by direction with nearest filtering: the
//! major axis of the direction picks the face, the two remaining components
//! divided by it give the face-local coordinates.  The equirectangular
//! source image is sampled through the spherical parametrization
//! `u = atan2(z, x) / 2pi + 0.5`, `v = asin(y) / pi + 0.5`.  Every sampled
//! value is one of the source's own texels, so sampling can neither invent
//! radiance outside the source's range nor perturb a constant environment.

use crate::fixed::{
    clamp_fp, clamp_fp_spec, div_fp, div_fp_spec, div_nonneg, iabs, lemma_div_fp_abs_unit,
    mul_fp, mul_fp_spec, sqrt_fp, sqrt_fp_spec, HALF_PI_FP, PI_FP, SCALE, TWO_PI_FP,
};
use crate::texture::{
    texel_constant, texel_wf, texel_within, Texel, Texture2D, TextureCubeMap, mip_res_spec,
    DIM_MAX,
};
use crate::trig::{asin_fp, asin_fp_spec, atan2_fp, atan2_fp_spec};
use vstd::prelude::*;

verus! {

/// Mip resolutions stay between one and the base resolution.
pub proof fn lemma_mip_res_bounds(res: int, m: int)
    requires
        1 <= res,
        0 <= m,
    ensures
        1 <= mip_res_spec(res, m) <= res,
    decreases m,
{
    if m > 0 {
        lemma_mip_res_bounds(res, m - 1);
    }
}

/// The face resolution of mip level `m`.
pub fn mip_resolution(face_res: usize, m: usize) -> (r: usize)
    requires
        1 <= face_res <= DIM_MAX,
    ensures
        r == mip_res_spec(face_res as int, m as int),
        1 <= r <= face_res,
{
    proof {
        lemma_mip_res_bounds(face_res as int, m as int);
    }
    let mut k: usize = 0;
    let mut r: usize = face_res;
    while k < m
        invariant
            0 <= k <= m,
            1 <= face_res <= DIM_MAX,
            r == mip_res_spec(face_res as int, k as int),
            1 <= r <= face_res,
        decreases m - k,
    {
        proof {
            lemma_mip_res_bounds(face_res as int, k as int);
        }
        r = if r / 2 >= 1 {
            r / 2
        } else {
            1
        };
        k = k + 1;
    }
    r
}

/// Face index, the two face-local numerator components, and the major-axis
/// magnitude for a direction, in the order `(face, sc, tc, ma)`.
///
/// Faces follow the usual cubemap order +X, -X, +Y, -Y, +Z, -Z, matching
/// the six capture views of the conversion passes.
pub open spec fn cube_face_spec(dx: int, dy: int, dz: int) -> (int, int, int, int) {
    let ax = iabs(dx);
    let ay = iabs(dy);
    let az = iabs(dz);
    if ax >= ay && ax >= az {
        if dx >= 0 {
            (0, -dz, -dy, ax)
        } else {
            (1, dz, -dy, ax)
        }
    } else if ay >= az {
        if dy >= 0 {
            (2, dx, dz, ay)
        } else {
            (3, dx, -dz, ay)
        }
    } else {
        if dz >= 0 {
            (4, dx, -dy, az)
        } else {
            (5, -dx, -dy, az)
        }
    }
}

/// A face-local coordinate in `[-1, 1]` mapped to a texel column or row.
pub open spec fn uv_to_px_spec(u: int, res: int) -> int
    recommends
        1 <= res,
{
    clamp_fp_spec(((u + SCALE) * res) / (2 * (SCALE as int)), 0, res - 1)
}

/// Executable form of `uv_to_px_spec`.
fn uv_to_px(u: i64, res: usize) -> (r: usize)
    requires
        -SCALE <= u <= SCALE,
        1 <= res <= DIM_MAX,
    ensures
        r == uv_to_px_spec(u as int, res as int),
        r < res,
{
    proof {
        assert(0 <= ((u + SCALE) as int) * (res as int) <= 34359738368int) by (nonlinear_arith)
            requires
                0 <= u + SCALE <= 2097152int && 1 <= res <= 16384int,
        ;
    }
    let num: i64 = (u + SCALE) * (res as i64);
    let q: i64 = div_nonneg(num, 2 * SCALE);
    let c: i64 = clamp_fp(q, 0, (res as i64) - 1);
    c as usize
}

/// The texel a direction reads from a cubemap at a given mip, with the mip
/// index clamped to the available chain and nearest filtering on the face.
pub open spec fn sample_cube_spec(
    cube: TextureCubeMap,
    dx: int,
    dy: int,
    dz: int,
    mip: int,
) -> Texel
    recommends
        cube.wf(),
        0 <= mip,
{
    let mi = if mip < cube.mips@.len() {
        mip
    } else {
        cube.mips@.len() - 1
    };
    let res = mip_res_spec(cube.face_resolution as int, mi);
    if dx == 0 && dy == 0 && dz == 0 {
        cube.mips@[mi]@[0]
    } else {
        let fq = cube_face_spec(dx, dy, dz);
        let px = uv_to_px_spec(div_fp_spec(fq.1, fq.3), res);
        let py = uv_to_px_spec(div_fp_spec(fq.2, fq.3), res);
        cube.mips@[mi]@[fq.0 * res * res + py * res + px]
    }
}

/// Looks up the texel a direction reads from a cubemap at a given mip.
///
/// Besides the exact value, the contract states that the result is drawn
/// from the cubemap itself: any bound or constancy that holds of every
/// texel of the map holds of the result.
#[verifier::rlimit(40)]
pub fn sample_cube(cube: &TextureCubeMap, dx: i64, dy: i64, dz: i64, mip: usize) -> (t: Texel)
    requires
        cube.wf(),
        -8 * SCALE <= dx <= 8 * SCALE,
        -8 * SCALE <= dy <= 8 * SCALE,
        -8 * SCALE <= dz <= 8 * SCALE,
    ensures
        t == sample_cube_spec(*cube, dx as int, dy as int, dz as int, mip as int),
        texel_wf(t),
        forall|lo: int, hi: int| cube.all_within(lo, hi) ==> texel_within(t, lo, hi),
        forall|c: int| cube.all_constant(c) ==> texel_constant(t, c),
{
    let nmips: usize = cube.mips.len();
    let mi: usize = if mip < nmips {
        mip
    } else {
        nmips - 1
    };
    let res: usize = mip_resolution(cube.face_resolution, mi);
    proof {
        assert(cube.mips@[mi as int]@.len() == 6 * mip_res_spec(
            cube.face_resolution as int,
            mi as int,
        ) * mip_res_spec(cube.face_resolution as int, mi as int));
        assert(1 * 1 <= (res as int) * (res as int) && (res as int) * (res as int)
            <= 268435456int) by (nonlinear_arith)
            requires
                1 <= res <= 16384int,
        ;
        assert(6 * (res as int) * (res as int) == 6 * ((res as int) * (res as int)))
            by (nonlinear_arith);
    }
    let face_data: &Vec<Texel> = &cube.mips[mi];
    if dx == 0 && dy == 0 && dz == 0 {
        let t: Texel = face_data[0];
        proof {
            assert forall|lo: int, hi: int| cube.all_within(lo, hi) implies texel_within(
                t,
                lo,
                hi,
            ) by {
                assert(texel_within(cube.mips@[mi as int]@[0], lo, hi));
            }
            assert forall|c: int| cube.all_constant(c) implies texel_constant(t, c) by {
                assert(texel_constant(cube.mips@[mi as int]@[0], c));
            }
        }
        return t;
    }
    let ax: i64 = if dx >= 0 {
        dx
    } else {
        -dx
    };
    let ay: i64 = if dy >= 0 {
        dy
    } else {
        -dy
    };
    let az: i64 = if dz >= 0 {
        dz
    } else {
        -dz
    };
    let face: usize;
    let sc: i64;
    let tc: i64;
    let ma: i64;
    if ax >= ay && ax >= az {
        if dx >= 0 {
            face = 0;
            sc = -dz;
            tc = -dy;
        } else {
            face = 1;
            sc = dz;
            tc = -dy;
        }
        ma = ax;
    } else if ay >= az {
        if dy >= 0 {
            face = 2;
            sc = dx;
            tc = dz;
        } else {
            face = 3;
            sc = dx;
            tc = -dz;
        }
        ma = ay;
    } else {
        if dz >= 0 {
            face = 4;
            sc = dx;
            tc = -dy;
        } else {
            face = 5;
            sc = -dx;
            tc = -dy;
        }
        ma = az;
    }
    proof {
        lemma_div_fp_abs_unit(sc as int, ma as int);
        lemma_div_fp_abs_unit(tc as int, ma as int);
    }
    let u: i64 = div_fp(sc, ma);
    let v: i64 = div_fp(tc, ma);
    let px: usize = uv_to_px(u, res);
    let py: usize = uv_to_px(v, res);
    proof {
        assert((face as int) * (res as int) * (res as int) + (py as int) * (res as int) + (
        px as int) < 6 * ((res as int) * (res as int)) && 0 <= (face as int) * (res as int) * (
        res as int) + (py as int) * (res as int) + (px as int)) by (nonlinear_arith)
            requires
                0 <= face <= 5 && 0 <= px < res && 0 <= py < res && 1 <= res <= 16384int,
        ;
    }
    let idx: usize = face * res * res + py * res + px;
    let t: Texel = face_data[idx];
    proof {
        assert forall|lo: int, hi: int| cube.all_within(lo, hi) implies texel_within(
            t,
            lo,
            hi,
        ) by {
            assert(texel_within(cube.mips@[mi as int]@[idx as int], lo, hi));
        }
        assert forall|c: int| cube.all_constant(c) implies texel_constant(t, c) by {
            assert(texel_constant(cube.mips@[mi as int]@[idx as int], c));
        }
    }
    t
}

/// The texel a direction reads from an equirectangular image.
pub open spec fn sample_equirect_spec(img: Texture2D, dx: int, dy: int, dz: int) -> Texel
    recommends
        img.wf(),
{
    let dot = mul_fp_spec(dx, dx) + mul_fp_spec(dy, dy) + mul_fp_spec(dz, dz);
    let len = sqrt_fp_spec(dot);
    if len <= 0 {
        img.texels@[0]
    } else {
        let yn = clamp_fp_spec(div_fp_spec(dy, len), -(SCALE as int), SCALE as int);
        let ua = atan2_fp_spec(dz, dx);
        let va = asin_fp_spec(yn);
        let px = clamp_fp_spec(
            ((ua + PI_FP) * (img.width as int)) / (TWO_PI_FP as int),
            0,
            img.width - 1,
        );
        let py = clamp_fp_spec(
            ((va + HALF_PI_FP) * (img.height as int)) / (PI_FP as int),
            0,
            img.height - 1,
        );
        img.texels@[py * (img.width as int) + px]
    }
}

/// Samples the equirectangular image in the given direction (nearest
/// texel).  As with cubemap lookup, the result is one of the image's own
/// texels.
pub fn sample_equirect(img: &Texture2D, dx: i64, dy: i64, dz: i64) -> (t: Texel)
    requires
        img.wf(),
        -8 * SCALE <= dx <= 8 * SCALE,
        -8 * SCALE <= dy <= 8 * SCALE,
        -8 * SCALE <= dz <= 8 * SCALE,
    ensures
        t == sample_equirect_spec(*img, dx as int, dy as int, dz as int),
        texel_wf(t),
        forall|lo: int, hi: int| img.all_within(lo, hi) ==> texel_within(t, lo, hi),
        forall|c: int| img.all_constant(c) ==> texel_constant(t, c),
{
    proof {
        assert((img.width as int) * (img.height as int) >= 1 * 1) by (nonlinear_arith)
            requires
                1 <= img.width && 1 <= img.height,
        ;
    }
    let dot: i64 = mul_fp(dx, dx) + mul_fp(dy, dy) + mul_fp(dz, dz);
    proof {
        crate::fixed::lemma_mul_fp_abs_bound(dx as int, dx as int, 8388608, 8388608);
        crate::fixed::lemma_mul_fp_abs_bound(dy as int, dy as int, 8388608, 8388608);
        crate::fixed::lemma_mul_fp_abs_bound(dz as int, dz as int, 8388608, 8388608);
        assert((dx as int) * (dx as int) >= 0) by (nonlinear_arith);
        assert((dy as int) * (dy as int) >= 0) by (nonlinear_arith);
        assert((dz as int) * (dz as int) >= 0) by (nonlinear_arith);
        crate::fixed::lemma_tdiv_nonneg((dx as int) * (dx as int), SCALE as int);
        crate::fixed::lemma_tdiv_nonneg((dy as int) * (dy as int), SCALE as int);
        crate::fixed::lemma_tdiv_nonneg((dz as int) * (dz as int), SCALE as int);
        assert(0 <= mul_fp_spec(dx as int, dx as int) <= 67108864int);
        assert(0 <= mul_fp_spec(dy as int, dy as int) <= 67108864int);
        assert(0 <= mul_fp_spec(dz as int, dz as int) <= 67108864int);
    }
    let len: i64 = sqrt_fp(dot);
    if len <= 0 {
        let t: Texel = img.texels[0];
        proof {
            assert forall|lo: int, hi: int| img.all_within(lo, hi) implies texel_within(
                t,
                lo,
                hi,
            ) by {
                assert(texel_within(img.texels@[0], lo, hi));
            }
            assert forall|c: int| img.all_constant(c) implies texel_constant(t, c) by {
                assert(texel_constant(img.texels@[0], c));
            }
        }
        return t;
    }
    let yn: i64 = clamp_fp(div_fp(dy, len), -SCALE, SCALE);
    let ua: i64 = atan2_fp(dz, dx);
    let va: i64 = asin_fp(yn);
    proof {
        assert(0 <= ((ua + PI_FP) as int) * (img.width as int) <= 107958271148032int)
            by (nonlinear_arith)
            requires
                0 <= ua + PI_FP <= 6588398int && 1 <= img.width <= 16384int,
        ;
        assert(0 <= ((va + HALF_PI_FP) as int) * (img.height as int) <= 53979135574016int)
            by (nonlinear_arith)
            requires
                0 <= va + HALF_PI_FP <= 3294198int && 1 <= img.height <= 16384int,
        ;
    }
    let pxq: i64 = div_nonneg((ua + PI_FP) * (img.width as i64), TWO_PI_FP);
    let px: i64 = clamp_fp(pxq, 0, (img.width as i64) - 1);
    let pyq: i64 = div_nonneg((va + HALF_PI_FP) * (img.height as i64), PI_FP);
    let py: i64 = clamp_fp(pyq, 0, (img.height as i64) - 1);
    proof {
        assert((py as int) * (img.width as int) + (px as int) < (img.height as int) * (
        img.width as int) && 0 <= (py as int) * (img.width as int) + (px as int))
            by (nonlinear_arith)
            requires
                0 <= px < img.width && 0 <= py < img.height && 1 <= img.width <= 16384int,
        ;
        assert((img.width as int) * (img.height as int) == (img.height as int) * (
        img.width as int)) by (nonlinear_arith);
        assert((img.height as int) * (img.width as int) <= 268435456int) by (nonlinear_arith)
            requires
                1 <= img.width <= 16384int && 1 <= img.height <= 16384int,
        ;
    }
    let idx: usize = (py as usize) * img.width + (px as usize);
    let t: Texel = img.texels[idx];
    proof {
        assert forall|lo: int, hi: int| img.all_within(lo, hi) implies texel_within(
            t,
            lo,
            hi,
        ) by {
            assert(texel_within(img.texels@[idx as int], lo, hi));
        }
        assert forall|c: int| img.all_constant(c) implies texel_constant(t, c) by {
            assert(texel_constant(img.texels@[idx as int], c));
        }
    }
    t
}


/// What holds of every texel of a cubemap holds of any sampled value:
/// bounds are preserved.
pub proof fn lemma_sample_cube_spec_within(
    cube: TextureCubeMap,
    dx: int,
    dy: int,
    dz: int,
    mip: int,
    lo: int,
    hi: int,
)
    requires
        cube.wf(),
        cube.all_within(lo, hi),
        0 <= mip,
    ensures
        texel_within(sample_cube_spec(cube, dx, dy, dz, mip), lo, hi),
{
    let mi = if mip < cube.mips@.len() {
        mip
    } else {
        cube.mips@.len() - 1
    };
    let res = mip_res_spec(cube.face_resolution as int, mi);
    lemma_mip_res_bounds(cube.face_resolution as int, mi);
    assert(1 <= 6 * res * res) by (nonlinear_arith)
        requires
            1 <= res,
    ;
    if dx == 0 && dy == 0 && dz == 0 {
        assert(texel_within(cube.mips@[mi]@[0], lo, hi));
    } else {
        let fq = cube_face_spec(dx, dy, dz);
        let px = uv_to_px_spec(div_fp_spec(fq.1, fq.3), res);
        let py = uv_to_px_spec(div_fp_spec(fq.2, fq.3), res);
        assert(0 <= fq.0 <= 5);
        assert(0 <= px < res && 0 <= py < res);
        assert(0 <= fq.0 * res * res + py * res + px < 6 * res * res) by (nonlinear_arith)
            requires
                0 <= fq.0 <= 5 && 0 <= px < res && 0 <= py < res && 1 <= res,
        ;
        assert(texel_within(cube.mips@[mi]@[fq.0 * res * res + py * res + px], lo, hi));
    }
}

/// Sampling a constant cubemap returns the constant.
pub proof fn lemma_sample_cube_spec_constant(
    cube: TextureCubeMap,
    dx: int,
    dy: int,
    dz: int,
    mip: int,
    c: int,
)
    requires
        cube.wf(),
        cube.all_constant(c),
        0 <= mip,
    ensures
        texel_constant(sample_cube_spec(cube, dx, dy, dz, mip), c),
{
    assert forall|m: int, i: int|
        0 <= m < cube.mips@.len() && 0 <= i < cube.mips@[m]@.len() implies texel_within(
        #[trigger] cube.mips@[m]@[i],
        c,
        c,
    ) by {
        assert(texel_constant(cube.mips@[m]@[i], c));
    }
    lemma_sample_cube_spec_within(cube, dx, dy, dz, mip, c, c);
}

} // verus!
