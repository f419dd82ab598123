//! Split-sum BRDF integration lookup table.
//!
//! Each texel of the table, indexed by `(N . V, roughness)` at pixel
//! centers, integrates the GGX specular BRDF against the same 1024
//! importance samples as the prefilter, but against an analytic white
//! environment: the two accumulated scalars are the scale and bias later
//! applied to the Fresnel base color.  The table depends on nothing but
//! its resolution, so it can be computed once and reused across scenes.
//! At the mirror corner (`N . V = 1`, roughness 0) the scale is exactly
//! one and the bias exactly zero.

use crate::fixed::{
    clamp_fp, clamp_fp_spec, div_fp, div_fp_spec, div_nonneg, lemma_mul_fp_abs_bound,
    lemma_mul_fp_unit, lemma_sqrt_fp_unit, lemma_sqrt_nat_unique, lemma_tdiv_nonneg, mul_fp,
    mul_fp_spec, sqrt_fp, sqrt_fp_spec, SCALE,
};
use crate::sampling::{ggx_half, ggx_half_spec, lemma_vdc_state_bound, GGX_SAMPLE_COUNT};
use crate::texture::{
    texel_wf, texel_within, Texel, Texture2D, DIM_MAX,
};
use vstd::arithmetic::div_mod::{
    lemma_div_multiples_vanish, lemma_div_pos_is_pos, lemma_fundamental_div_mod_converse,
    lemma_multiply_divide_lt,
};
use vstd::arithmetic::power2::lemma2_to64;
use vstd::prelude::*;

verus! {

/// Cap on the visibility quotient (16.0 scaled).
pub const GVIS_CAP: i64 = 16777216;

/// The fifth power of a unit-range value.
pub open spec fn pow5_fp_spec(x: int) -> int {
    let x2 = mul_fp_spec(x, x);
    let x4 = mul_fp_spec(x2, x2);
    mul_fp_spec(x4, x)
}

/// Schlick-GGX masking for one direction, clamped to `[0, 4]`, with the
/// guard that a vanishing denominator contributes nothing.
pub open spec fn g1_spec(x: int, kk: int) -> int {
    let den = mul_fp_spec(x, (SCALE as int) - kk) + kk;
    if den > 0 {
        clamp_fp_spec(div_fp_spec(x, den), 0, 4 * (SCALE as int))
    } else {
        0
    }
}

/// The two split-sum contributions of sample `i`.
pub open spec fn lut_term_spec(ndotv: int, roughness: int, i: int) -> (int, int) {
    let h = ggx_half_spec(i, roughness);
    let vx = sqrt_fp_spec((SCALE as int) - mul_fp_spec(ndotv, ndotv));
    let vdh = mul_fp_spec(vx, h.0) + mul_fp_spec(ndotv, h.2);
    let lz = 2 * mul_fp_spec(vdh, h.2) - ndotv;
    if lz > 0 {
        let ndotl = clamp_fp_spec(lz, 0, SCALE as int);
        let ndoth = h.2;
        let vdoth = clamp_fp_spec(vdh, 0, SCALE as int);
        let kk = mul_fp_spec(roughness, roughness) / 2;
        let g = mul_fp_spec(g1_spec(ndotv, kk), g1_spec(ndotl, kk));
        let den2 = mul_fp_spec(ndoth, ndotv);
        let gv = if den2 > 0 {
            clamp_fp_spec(div_fp_spec(mul_fp_spec(g, vdoth), den2), 0, GVIS_CAP as int)
        } else {
            0
        };
        let fc = pow5_fp_spec((SCALE as int) - vdoth);
        (mul_fp_spec((SCALE as int) - fc, gv), mul_fp_spec(fc, gv))
    } else {
        (0, 0)
    }
}

/// The running sums over the first `k` samples.
pub open spec fn lut_accum_spec(ndotv: int, roughness: int, k: int) -> (int, int)
    decreases k,
{
    if k <= 0 {
        (0, 0)
    } else {
        let prev = lut_accum_spec(ndotv, roughness, k - 1);
        let term = lut_term_spec(ndotv, roughness, k - 1);
        (prev.0 + term.0, prev.1 + term.1)
    }
}

/// An averaged sum, clamped to unit range.
pub open spec fn lut_value_spec(acc: int) -> int {
    clamp_fp_spec(acc / 1024, 0, SCALE as int)
}

/// The scale and bias of the BRDF table at the given view cosine and
/// roughness.
pub open spec fn integrate_brdf_spec(ndotv: int, roughness: int) -> (int, int) {
    let acc = lut_accum_spec(ndotv, roughness, 1024);
    (lut_value_spec(acc.0), lut_value_spec(acc.1))
}

/// Each term is non-negative and bounded, whatever the inputs in range.
pub proof fn lemma_lut_term_range(ndotv: int, roughness: int, i: int)
    requires
        0 <= i,
        0 < ndotv <= SCALE as int,
        0 <= roughness <= SCALE as int,
    ensures
        0 <= lut_term_spec(ndotv, roughness, i).0 <= GVIS_CAP as int,
        0 <= lut_term_spec(ndotv, roughness, i).1 <= GVIS_CAP as int,
{
    let s = SCALE as int;
    let h = ggx_half_spec(i, roughness);
    let vx = sqrt_fp_spec(s - mul_fp_spec(ndotv, ndotv));
    let vdh = mul_fp_spec(vx, h.0) + mul_fp_spec(ndotv, h.2);
    let lz = 2 * mul_fp_spec(vdh, h.2) - ndotv;
    if lz > 0 {
        let vdoth = clamp_fp_spec(vdh, 0, s);
        let fc = pow5_fp_spec(s - vdoth);
        lemma_mul_fp_unit(s - vdoth, s - vdoth);
        lemma_mul_fp_unit(mul_fp_spec(s - vdoth, s - vdoth), mul_fp_spec(s - vdoth, s - vdoth));
        lemma_mul_fp_unit(
            mul_fp_spec(
                mul_fp_spec(s - vdoth, s - vdoth),
                mul_fp_spec(s - vdoth, s - vdoth),
            ),
            s - vdoth,
        );
        let ndotl = clamp_fp_spec(lz, 0, s);
        let kk = mul_fp_spec(roughness, roughness) / 2;
        let den2 = mul_fp_spec(h.2, ndotv);
        let g = mul_fp_spec(g1_spec(ndotv, kk), g1_spec(ndotl, kk));
        let gv = if den2 > 0 {
            clamp_fp_spec(div_fp_spec(mul_fp_spec(g, vdoth), den2), 0, GVIS_CAP as int)
        } else {
            0
        };
        assert(0 <= gv <= GVIS_CAP as int);
        assert(0 <= fc <= s);
        lemma_mul_fp_bounds_pair(s - fc, gv);
        lemma_mul_fp_bounds_pair(fc, gv);
    }
}

/// A product of a unit-range factor with a capped factor stays capped.
proof fn lemma_mul_fp_bounds_pair(a: int, gv: int)
    requires
        0 <= a <= SCALE as int,
        0 <= gv <= GVIS_CAP as int,
    ensures
        0 <= mul_fp_spec(a, gv) <= GVIS_CAP as int,
{
    crate::fixed::lemma_mul_fp_bounds(a, gv, SCALE as int, GVIS_CAP as int);
    lemma_div_multiples_vanish(GVIS_CAP as int, SCALE as int);
    assert((SCALE as int) * (GVIS_CAP as int) == (GVIS_CAP as int) * (SCALE as int))
        by (nonlinear_arith);
}

/// At roughness zero every half vector is the normal itself.
pub proof fn lemma_ggx_mirror(i: int)
    requires
        0 <= i,
    ensures
        ggx_half_spec(i, 0).0 == 0,
        ggx_half_spec(i, 0).1 == 0,
        ggx_half_spec(i, 0).2 == SCALE as int,
{
    let s = SCALE as int;
    let xi2 = crate::sampling::hammersley_y_spec(i);
    lemma_vdc_state_bound(i, 10);
    lemma2_to64();
    assert(0 <= xi2 <= 1047552);
    assert(mul_fp_spec(0, 0) == 0);
    assert(mul_fp_spec(-s, xi2) == -xi2) by {
        lemma_div_multiples_vanish(xi2, s);
        if xi2 > 0 {
            lemma_div_pos_is_pos(s * xi2, s);
        }
        assert((-s) * xi2 == -(s * xi2)) by (nonlinear_arith);
    }
    let denom = s - xi2;
    assert(div_fp_spec(s - xi2, denom) == s) by {
        lemma_div_multiples_vanish(s, denom);
        assert((s - xi2) * s == denom * s) by (nonlinear_arith)
            requires
                denom == s - xi2,
        ;
        lemma_tdiv_nonneg((s - xi2) * s, denom);
    }
    assert(sqrt_fp_spec(s) == s) by {
        assert(0 <= s * s && (s + 1) * (s + 1) > s * s) by (nonlinear_arith)
            requires
                s == 1048576int,
        ;
        lemma_sqrt_nat_unique((s * s) as nat, s as nat);
    }
    assert(mul_fp_spec(s, s) == s) by {
        lemma_div_multiples_vanish(s, s);
    }
    assert(sqrt_fp_spec(0) == 0) by {
        assert(0 * 0 == 0 && (0 + 1) * (0 + 1) == 1) by (nonlinear_arith);
        lemma_sqrt_nat_unique(0, 0);
    }
    let phi = mul_fp_spec(
        crate::fixed::TWO_PI_FP as int,
        crate::sampling::hammersley_x_spec(i),
    );
    assert(0 * crate::trig::cos_fp_spec(phi) == 0) by (nonlinear_arith);
    assert(0 * crate::trig::sin_fp_spec(phi) == 0) by (nonlinear_arith);
    assert(mul_fp_spec(0, crate::trig::cos_fp_spec(phi)) == 0);
    assert(mul_fp_spec(0, crate::trig::sin_fp_spec(phi)) == 0);
}

/// At the mirror corner each sample contributes full scale and no bias.
proof fn lemma_lut_term_mirror(i: int)
    requires
        0 <= i,
    ensures
        lut_term_spec(SCALE as int, 0, i).0 == SCALE as int,
        lut_term_spec(SCALE as int, 0, i).1 == 0,
{
    let s = SCALE as int;
    lemma_ggx_mirror(i);
    assert(mul_fp_spec(s, s) == s) by {
        lemma_div_multiples_vanish(s, s);
    }
    assert(sqrt_fp_spec(0) == 0) by {
        assert(0 * 0 == 0 && (0 + 1) * (0 + 1) == 1) by (nonlinear_arith);
        lemma_sqrt_nat_unique(0, 0);
    }
    assert(mul_fp_spec(0, 0) == 0);
    assert(mul_fp_spec(0, s) == 0);
    assert(mul_fp_spec(s, 0) == 0);
    assert(div_fp_spec(s, s) == s) by {
        lemma_div_multiples_vanish(s, s);
        lemma_tdiv_nonneg(s * s, s);
    }
}

/// At the mirror corner the integrated scale is one and the bias zero.
pub proof fn lemma_lut_mirror_corner()
    ensures
        integrate_brdf_spec(SCALE as int, 0).0 == SCALE as int,
        integrate_brdf_spec(SCALE as int, 0).1 == 0,
{
    lemma_lut_mirror_accum(1024);
    assert((1024 * (SCALE as int)) / 1024 == SCALE as int) by {
        lemma_div_multiples_vanish(SCALE as int, 1024);
    }
}

/// The mirror-corner accumulator after `k` samples.
proof fn lemma_lut_mirror_accum(k: int)
    requires
        0 <= k <= 1024,
    ensures
        lut_accum_spec(SCALE as int, 0, k).0 == k * (SCALE as int),
        lut_accum_spec(SCALE as int, 0, k).1 == 0,
    decreases k,
{
    if k <= 0 {
        assert(0 * (SCALE as int) == 0) by (nonlinear_arith);
    } else {
        lemma_lut_mirror_accum(k - 1);
        lemma_lut_term_mirror(k - 1);
        assert(k * (SCALE as int) == (k - 1) * (SCALE as int) + (SCALE as int))
            by (nonlinear_arith);
    }
}

/// One term, computed from a precomputed half vector.
fn lut_term(ndotv: i64, roughness: i64, h: (i64, i64, i64), Ghost(i): Ghost<int>) -> (ab: (
    i64,
    i64,
))
    requires
        0 < ndotv <= SCALE,
        0 <= roughness <= SCALE,
        0 <= i,
        h.0 == ggx_half_spec(i, roughness as int).0,
        h.1 == ggx_half_spec(i, roughness as int).1,
        h.2 == ggx_half_spec(i, roughness as int).2,
        -SCALE <= h.0 <= SCALE,
        -SCALE <= h.1 <= SCALE,
        0 <= h.2 <= SCALE,
    ensures
        ab.0 == lut_term_spec(ndotv as int, roughness as int, i).0,
        ab.1 == lut_term_spec(ndotv as int, roughness as int, i).1,
        0 <= ab.0 <= GVIS_CAP,
        0 <= ab.1 <= GVIS_CAP,
{
    proof {
        lemma_mul_fp_unit(ndotv as int, ndotv as int);
        lemma_sqrt_fp_unit((SCALE as int) - mul_fp_spec(ndotv as int, ndotv as int));
    }
    let vx: i64 = sqrt_fp(SCALE - mul_fp(ndotv, ndotv));
    proof {
        lemma_mul_fp_abs_bound(vx as int, h.0 as int, 1048576, 1048576);
        lemma_mul_fp_abs_bound(ndotv as int, h.2 as int, 1048576, 1048576);
    }
    let vdh: i64 = mul_fp(vx, h.0) + mul_fp(ndotv, h.2);
    proof {
        lemma_mul_fp_abs_bound(vdh as int, h.2 as int, 2097152, 1048576);
    }
    let lz: i64 = 2 * mul_fp(vdh, h.2) - ndotv;
    if lz <= 0 {
        proof {
            lemma_lut_term_range(ndotv as int, roughness as int, i);
        }
        return (0, 0);
    }
    let ndotl: i64 = clamp_fp(lz, 0, SCALE);
    let vdoth: i64 = clamp_fp(vdh, 0, SCALE);
    proof {
        lemma_mul_fp_unit(roughness as int, roughness as int);
    }
    let kk: i64 = div_nonneg(mul_fp(roughness, roughness), 2);
    let g1v: i64 = g1_exec(ndotv, kk);
    let g1l: i64 = g1_exec(ndotl, kk);
    proof {
        lemma_mul_fp_unit(h.2 as int, ndotv as int);
    }
    proof {
        crate::fixed::lemma_mul_fp_bounds(g1v as int, g1l as int, 4194304, 4194304);
    }
    let g: i64 = mul_fp(g1v, g1l);
    let den2: i64 = mul_fp(h.2, ndotv);
    let gv: i64 = if den2 > 0 {
        proof {
            crate::fixed::lemma_mul_fp_bounds(g as int, vdoth as int, 16777216, 1048576);
        }
        clamp_fp(div_fp(mul_fp(g, vdoth), den2), 0, GVIS_CAP)
    } else {
        0
    };
    proof {
        lemma_mul_fp_unit(SCALE as int - vdoth as int, SCALE as int - vdoth as int);
        lemma_mul_fp_unit(
            mul_fp_spec(SCALE as int - vdoth as int, SCALE as int - vdoth as int),
            mul_fp_spec(SCALE as int - vdoth as int, SCALE as int - vdoth as int),
        );
        lemma_mul_fp_unit(
            mul_fp_spec(
                mul_fp_spec(SCALE as int - vdoth as int, SCALE as int - vdoth as int),
                mul_fp_spec(SCALE as int - vdoth as int, SCALE as int - vdoth as int),
            ),
            SCALE as int - vdoth as int,
        );
    }
    let f2: i64 = mul_fp(SCALE - vdoth, SCALE - vdoth);
    let f4: i64 = mul_fp(f2, f2);
    let fc: i64 = mul_fp(f4, SCALE - vdoth);
    proof {
        lemma_mul_fp_bounds_pair(SCALE as int - fc as int, gv as int);
        lemma_mul_fp_bounds_pair(fc as int, gv as int);
    }
    (mul_fp(SCALE - fc, gv), mul_fp(fc, gv))
}

/// Executable Schlick-GGX masking term.
fn g1_exec(x: i64, kk: i64) -> (r: i64)
    requires
        0 <= x <= SCALE,
        0 <= kk <= SCALE,
    ensures
        r == g1_spec(x as int, kk as int),
        0 <= r <= 4 * SCALE,
{
    proof {
        lemma_mul_fp_unit(x as int, SCALE as int - kk as int);
    }
    let den: i64 = mul_fp(x, SCALE - kk) + kk;
    if den > 0 {
        proof {
            lemma_tdiv_nonneg((x as int) * (SCALE as int), den as int);
        }
        clamp_fp(div_fp(x, den), 0, 4 * SCALE)
    } else {
        0
    }
}

/// Computes the split-sum scale and bias at one `(N . V, roughness)` pair.
#[verifier::loop_isolation(false)]
pub fn integrate_brdf(ndotv: i64, roughness: i64) -> (ab: (i64, i64))
    requires
        0 < ndotv <= SCALE,
        0 <= roughness <= SCALE,
    ensures
        ab.0 == integrate_brdf_spec(ndotv as int, roughness as int).0,
        ab.1 == integrate_brdf_spec(ndotv as int, roughness as int).1,
        0 <= ab.0 <= SCALE,
        0 <= ab.1 <= SCALE,
{
    let mut acc_a: i64 = 0;
    let mut acc_b: i64 = 0;
    let mut k: usize = 0;
    while k < GGX_SAMPLE_COUNT
        invariant
            0 <= k <= 1024,
            acc_a as int == lut_accum_spec(ndotv as int, roughness as int, k as int).0,
            acc_b as int == lut_accum_spec(ndotv as int, roughness as int, k as int).1,
            0 <= acc_a <= (k as int) * 16777216,
            0 <= acc_b <= (k as int) * 16777216,
        decreases 1024 - k,
    {
        let h: (i64, i64, i64) = ggx_half(k, roughness);
        let term: (i64, i64) = lut_term(ndotv, roughness, h, Ghost(k as int));
        proof {
            assert(((k as int) + 1) * 16777216 == (k as int) * 16777216 + 16777216)
                by (nonlinear_arith);
        }
        acc_a = acc_a + term.0;
        acc_b = acc_b + term.1;
        k = k + 1;
    }
    let a: i64 = clamp_fp(div_nonneg(acc_a, 1024), 0, SCALE);
    let b: i64 = clamp_fp(div_nonneg(acc_b, 1024), 0, SCALE);
    (a, b)
}

/// The table texel at column `x` (view cosine) and row `y` (roughness),
/// both taken at pixel centers; the blue channel is always zero.
pub open spec fn lut_texel_spec(res: int, x: int, y: int) -> Texel {
    let ndotv = ((2 * x + 1) * (SCALE as int)) / (2 * res);
    let rough = ((2 * y + 1) * (SCALE as int)) / (2 * res);
    let ab = integrate_brdf_spec(ndotv, rough);
    Texel { r: ab.0 as i64, g: ab.1 as i64, b: 0 }
}

/// The whole table, row-major.
pub open spec fn lut_map_spec(res: int) -> Seq<Texel> {
    Seq::new((res * res) as nat, |i: int| lut_texel_spec(res, i % res, i / res))
}

/// Renders the split-sum BRDF integration table at the given resolution.
///
/// The result is square, two-channel (the blue channel is zero), with
/// every value in `[0, 1]`; it depends on nothing but the resolution.
#[verifier::loop_isolation(false)]
pub fn compute_lut_texture(resolution: usize) -> (lut: Texture2D)
    requires
        1 <= resolution <= DIM_MAX,
    ensures
        lut.wf(),
        lut.width == resolution,
        lut.height == resolution,
        lut.texels@ == lut_map_spec(resolution as int),
        lut.all_within(0, SCALE as int),
{
    proof {
        assert(1 <= (resolution as int) * (resolution as int) <= 268435456int)
            by (nonlinear_arith)
            requires
                1 <= resolution <= 16384int,
        ;
    }
    let mut texels: Vec<Texel> = Vec::new();
    let mut y: usize = 0;
    while y < resolution
        invariant
            0 <= y <= resolution,
            texels@.len() == (y as int) * (resolution as int),
            forall|j: int|
                0 <= j < texels@.len() ==> #[trigger] texels@[j] == lut_map_spec(
                    resolution as int,
                )[j],
            forall|j: int|
                0 <= j < texels@.len() ==> texel_wf(#[trigger] texels@[j]) && texel_within(
                    texels@[j],
                    0,
                    SCALE as int,
                ),
        decreases resolution - y,
    {
        let rough: i64 = pixel_center(y, resolution);
        let mut htab: Vec<(i64, i64, i64)> = Vec::new();
        let mut i: usize = 0;
        while i < GGX_SAMPLE_COUNT
            invariant
                0 <= i <= 1024,
                0 <= rough <= SCALE,
                htab@.len() == i,
                forall|j: int|
                    0 <= j < htab@.len() ==> {
                        &&& (#[trigger] htab@[j]).0 == ggx_half_spec(j, rough as int).0
                        &&& htab@[j].1 == ggx_half_spec(j, rough as int).1
                        &&& htab@[j].2 == ggx_half_spec(j, rough as int).2
                        &&& -SCALE <= htab@[j].0 <= SCALE
                        &&& -SCALE <= htab@[j].1 <= SCALE
                        &&& 0 <= htab@[j].2 <= SCALE
                    },
            decreases 1024 - i,
        {
            let h = ggx_half(i, rough);
            htab.push(h);
            i = i + 1;
        }
        let mut x: usize = 0;
        while x < resolution
            invariant
                0 <= x <= resolution,
                0 <= rough <= SCALE,
                rough as int == ((2 * (y as int) + 1) * (SCALE as int)) / (2 * (
                resolution as int)),
                texels@.len() == (y as int) * (resolution as int) + (x as int),
                forall|j: int|
                    0 <= j < htab@.len() ==> {
                        &&& (#[trigger] htab@[j]).0 == ggx_half_spec(j, rough as int).0
                        &&& htab@[j].1 == ggx_half_spec(j, rough as int).1
                        &&& htab@[j].2 == ggx_half_spec(j, rough as int).2
                        &&& -SCALE <= htab@[j].0 <= SCALE
                        &&& -SCALE <= htab@[j].1 <= SCALE
                        &&& 0 <= htab@[j].2 <= SCALE
                    },
                htab@.len() == 1024,
                forall|j: int|
                    0 <= j < texels@.len() ==> #[trigger] texels@[j] == lut_map_spec(
                        resolution as int,
                    )[j],
                forall|j: int|
                    0 <= j < texels@.len() ==> texel_wf(#[trigger] texels@[j]) && texel_within(
                        texels@[j],
                        0,
                        SCALE as int,
                    ),
            decreases resolution - x,
        {
            let ndotv: i64 = pixel_center(x, resolution);
            let mut acc_a: i64 = 0;
            let mut acc_b: i64 = 0;
            let mut k: usize = 0;
            while k < GGX_SAMPLE_COUNT
                invariant
                    0 <= k <= 1024,
                    0 < ndotv <= SCALE,
                    acc_a as int == lut_accum_spec(ndotv as int, rough as int, k as int).0,
                    acc_b as int == lut_accum_spec(ndotv as int, rough as int, k as int).1,
                    0 <= acc_a <= (k as int) * 16777216,
                    0 <= acc_b <= (k as int) * 16777216,
                decreases 1024 - k,
            {
                let h: (i64, i64, i64) = htab[k];
                let term: (i64, i64) = lut_term(ndotv, rough, h, Ghost(k as int));
                proof {
                    assert(((k as int) + 1) * 16777216 == (k as int) * 16777216 + 16777216)
                        by (nonlinear_arith);
                }
                acc_a = acc_a + term.0;
                acc_b = acc_b + term.1;
                k = k + 1;
            }
            let a: i64 = clamp_fp(div_nonneg(acc_a, 1024), 0, SCALE);
            let b: i64 = clamp_fp(div_nonneg(acc_b, 1024), 0, SCALE);
            let t = Texel { r: a, g: b, b: 0 };
            proof {
                let i0 = texels@.len() as int;
                lemma_fundamental_div_mod_converse(
                    i0,
                    resolution as int,
                    y as int,
                    x as int,
                );
                assert(0 <= i0 < (resolution as int) * (resolution as int)) by (nonlinear_arith)
                    requires
                        i0 == (y as int) * (resolution as int) + (x as int) && 0 <= x < resolution
                            && 0 <= y < resolution,
                ;
                assert(lut_map_spec(resolution as int)[i0] == lut_texel_spec(
                    resolution as int,
                    x as int,
                    y as int,
                ));
                assert(t == lut_texel_spec(resolution as int, x as int, y as int));
            }
            texels.push(t);
            x = x + 1;
        }
        proof {
            assert(((y as int) + 1) * (resolution as int) == (y as int) * (resolution as int) + (
            resolution as int)) by (nonlinear_arith);
        }
        y = y + 1;
    }
    let lut = Texture2D { width: resolution, height: resolution, texels };
    proof {
        assert(lut.texels@ =~= lut_map_spec(resolution as int));
    }
    lut
}

/// The pixel-center coordinate `(2p + 1) / (2 res)` in unit range.
fn pixel_center(p: usize, res: usize) -> (r: i64)
    requires
        p < res,
        res <= DIM_MAX,
    ensures
        r as int == ((2 * (p as int) + 1) * (SCALE as int)) / (2 * (res as int)),
        0 < r <= SCALE,
{
    let num: i64 = (2 * (p as i64) + 1) * SCALE;
    proof {
        lemma_div_pos_is_pos(num as int, 2 * (res as int));
        lemma_multiply_divide_lt(num as int, 2 * (res as int), 1048576int);
        vstd::arithmetic::div_mod::lemma_div_non_zero(num as int, 2 * (res as int));
    }
    div_nonneg(num, 2 * (res as i64))
}

} // verus!
