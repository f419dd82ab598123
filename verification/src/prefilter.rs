//! Specular prefiltering.
//!
//! The prefiltered environment map has a fixed schedule: base face
//! resolution 128 and five mip levels, the level index mapping linearly to
//! roughness `m / 4`.  Every texel treats its direction as normal, view and
//! reflection at once, draws 1024 GGX-importance-sampled light directions,
//! keeps those on the upper hemisphere, weights them by `N . L`, and reads
//! the source environment at a mip chosen by the solid-angle ratio
//! heuristic `0.5 * log2(sample_solid_angle / texel_solid_angle)`.  The
//! result is the weighted average, so it can never leave the radiance range
//! spanned by the environment, and a constant environment is left exactly
//! unchanged.

use crate::convert::{face_dir, face_dir_spec};
use crate::fixed::{
    clamp_fp, clamp_fp_spec, div_fp, div_fp_spec, div_nonneg, lemma_mul_fp_abs_bound,
    lemma_mul_fp_mono, lemma_mul_fp_unit, lemma_tdiv_nonneg, mul_fp, mul_fp_spec, PI_FP, SCALE,
};
use crate::sample::{
    lemma_mip_res_bounds, lemma_sample_cube_spec_constant, lemma_sample_cube_spec_within,
    mip_resolution, sample_cube, sample_cube_spec,
};
use crate::sampling::{
    ggx_half, ggx_half_spec, ggx_light, ggx_light_spec, lemma_ggx_sample_zero, GGX_SAMPLE_COUNT,
};
use crate::texture::{
    face_idx_spec, lemma_face_index_decompose, lemma_flat_index_ranges, mip_res_spec,
    texel_constant, texel_wf, texel_within, Texel, TextureCubeMap, DIM_MAX, VAL_MAX,
};
use crate::vec3::{
    basis_combine, basis_combine_spec, normalize_fp, normalize_fp_spec, tangent_basis,
    tangent_basis_spec, Vec3Fp,
};
use vstd::arithmetic::div_mod::{
    lemma_div_is_ordered, lemma_div_is_ordered_by_denominator, lemma_div_multiples_vanish,
    lemma_div_pos_is_pos,
};
use vstd::arithmetic::power2::lemma2_to64;
use vstd::prelude::*;

verus! {

/// Base face resolution of the prefiltered cubemap.
pub const PREFILTERED_MAP_SIZE: usize = 128;

/// Number of roughness mip levels.
pub const MAX_MIP_LEVELS: usize = 5;

/// Roughness distance between two mip levels: `1 / (MAX_MIP_LEVELS - 1)`.
pub const ROUGHNESS_STEP_FP: i64 = 262144;

/// The probability-density guard term, 0.0001 scaled.
pub const GGX_PDF_EPS: i64 = 105;

/// Cap on the evaluated GGX distribution term (128.0 scaled); far above
/// the largest value the roughness schedule can produce.
pub const GGX_D_CAP: i64 = 134217728;

/// The solid angle of one source texel, scaled by `SCALE` squared:
/// `4 * pi / (6 * res * res)`.
pub open spec fn sa_texel_spec(env_res: int) -> int {
    (13176796 * (SCALE as int)) / (6 * env_res * env_res)
}

/// The GGX normal distribution at `N . H`, clamped to `[0, GGX_D_CAP]`.
pub open spec fn ggx_d_spec(roughness: int, ndoth: int) -> int {
    let a = mul_fp_spec(roughness, roughness);
    let a2 = mul_fp_spec(a, a);
    let dd = (SCALE as int) + mul_fp_spec(mul_fp_spec(ndoth, ndoth), a2 - (SCALE as int));
    let pd = mul_fp_spec(PI_FP as int, mul_fp_spec(dd, dd));
    if pd > 0 {
        clamp_fp_spec(div_fp_spec(a2, pd), 0, GGX_D_CAP as int)
    } else {
        GGX_D_CAP as int
    }
}

/// The sampling density of a half vector, with the usual guard term.
pub open spec fn ggx_pdf_spec(roughness: int, ndoth: int) -> int {
    if ndoth > 0 {
        div_fp_spec(mul_fp_spec(ggx_d_spec(roughness, ndoth), ndoth), 4 * ndoth) + (
        GGX_PDF_EPS as int)
    } else {
        GGX_PDF_EPS as int
    }
}

/// The solid angle one sample covers, scaled by `SCALE` squared.
pub open spec fn sa_sample_spec(pdf: int) -> int {
    if pdf > 0 {
        1152921504606846976int / (1024 * pdf)
    } else {
        1152921504606846976int
    }
}

/// `floor(0.5 * log2(sa / tex))`, clamped to `[k, 15]`, by repeated
/// division by four.
pub open spec fn mip_select_rec(sa: int, tex: int, k: int) -> int
    decreases 15 - k,
{
    if k >= 15 {
        15
    } else if sa < 4 * tex {
        k
    } else {
        mip_select_rec(sa / 4, tex, k + 1)
    }
}

/// The source mip a sample reads, per the solid-angle heuristic; mirror
/// samples at roughness zero always read the base level.
pub open spec fn src_mip_spec(env_res: int, roughness: int, i: int) -> int {
    if roughness == 0 {
        0
    } else {
        let h = ggx_half_spec(i, roughness);
        mip_select_rec(sa_sample_spec(ggx_pdf_spec(roughness, h.2)), sa_texel_spec(env_res), 0)
    }
}

/// The selected mip is in `[0, 15]`.
pub proof fn lemma_mip_select_range(sa: int, tex: int, k: int)
    requires
        0 <= k <= 15,
    ensures
        k <= mip_select_rec(sa, tex, k) <= 15,
    decreases 15 - k,
{
    if k < 15 && !(sa < 4 * tex) {
        lemma_mip_select_range(sa / 4, tex, k + 1);
    }
}

/// One precomputed sample of a prefilter pass: the tangent-space light
/// direction (whose z component is `N . L`) and the source mip to read.
#[derive(Clone, Copy, Debug, PartialEq, Eq, Structural)]
pub struct PreSample {
    pub lx: i64,
    pub ly: i64,
    pub lz: i64,
    pub srcmip: usize,
}

/// The whole per-pass sample table.
pub open spec fn pre_table_ok(s: Seq<PreSample>, env_res: int, roughness: int) -> bool {
    &&& s.len() == 1024
    &&& forall|i: int|
        0 <= i < 1024 ==> {
            let l = ggx_light_spec(i, roughness);
            &&& (#[trigger] s[i]).lx == l.0
            &&& s[i].ly == l.1
            &&& s[i].lz == l.2
            &&& s[i].srcmip == src_mip_spec(env_res, roughness, i)
        }
}

/// Builds the sample table for one roughness level.
#[verifier::loop_isolation(false)]
fn build_pre_samples(env_res: usize, roughness: i64) -> (v: Vec<PreSample>)
    requires
        1 <= env_res <= DIM_MAX,
        roughness == 0 || 262144 <= roughness <= SCALE,
    ensures
        pre_table_ok(v@, env_res as int, roughness as int),
{
    proof {
        assert(1 <= (env_res as int) * (env_res as int) <= 268435456int) by (nonlinear_arith)
            requires
                1 <= env_res <= 16384int,
        ;
        assert(6 * (env_res as int) * (env_res as int) == 6 * ((env_res as int) * (
        env_res as int))) by (nonlinear_arith);
    }
    let e2: i64 = (env_res as i64) * (env_res as i64);
    let sa_t: i64 = div_nonneg(13176796 * SCALE, 6 * e2);
    let mut v: Vec<PreSample> = Vec::new();
    let mut i: usize = 0;
    while i < GGX_SAMPLE_COUNT
        invariant
            0 <= i <= 1024,
            v@.len() == i,
            forall|j: int|
                0 <= j < v@.len() ==> {
                    let l = ggx_light_spec(j, roughness as int);
                    &&& (#[trigger] v@[j]).lx == l.0
                    &&& v@[j].ly == l.1
                    &&& v@[j].lz == l.2
                    &&& v@[j].srcmip == src_mip_spec(env_res as int, roughness as int, j)
                },
        decreases 1024 - i,
    {
        let l: (i64, i64, i64) = ggx_light(i, roughness);
        let srcmip: usize = if roughness == 0 {
            0
        } else {
            let h: (i64, i64, i64) = ggx_half(i, roughness);
            let a: i64 = mul_fp(roughness, roughness);
            proof {
                lemma_mul_fp_unit(roughness as int, roughness as int);
                lemma_mul_fp_mono(262144, 262144, roughness as int, roughness as int);
            }
            let a2: i64 = mul_fp(a, a);
            proof {
                lemma_mul_fp_unit(a as int, a as int);
                lemma_mul_fp_mono(65536, 65536, a as int, a as int);
                lemma_mul_fp_unit(h.2 as int, h.2 as int);
            }
            let n2: i64 = mul_fp(h.2, h.2);
            proof {
                lemma_mul_fp_abs_bound(n2 as int, a2 as int - SCALE as int, 1048576, (
                SCALE as int) - a2 as int);
                lemma_div_multiples_vanish((SCALE as int) - a2 as int, 1048576);
                assert((n2 as int) * (a2 as int - SCALE as int) <= 0) by (nonlinear_arith)
                    requires
                        n2 >= 0 && a2 <= SCALE,
                ;
                if (n2 as int) * (a2 as int - SCALE as int) < 0 {
                    lemma_div_pos_is_pos(-((n2 as int) * (a2 as int - SCALE as int)), SCALE as int);
                }
            }
            let dd: i64 = SCALE + mul_fp(n2, a2 - SCALE);
            proof {
                lemma_mul_fp_unit(dd as int, dd as int);
                lemma_mul_fp_mono(16, 16, dd as int, dd as int);
                assert(mul_fp_spec(16, 16) == 0);
                assert(mul_fp_spec(4096, 4096) == 16);
                lemma_mul_fp_mono(4096, 4096, dd as int, dd as int);
            }
            let ddd: i64 = mul_fp(dd, dd);
            proof {
                lemma_mul_fp_unit(PI_FP as int, ddd as int);
                assert(mul_fp_spec(3294199, 16) == 50);
                lemma_mul_fp_mono(3294199, 16, PI_FP as int, ddd as int);
                lemma_mul_fp_abs_bound(PI_FP as int, ddd as int, 3294199, 1048576);
            }
            let pd: i64 = mul_fp(PI_FP, ddd);
            proof {
                lemma_tdiv_nonneg((a2 as int) * (SCALE as int), pd as int);
            }
            let dterm: i64 = clamp_fp(div_fp(a2, pd), 0, GGX_D_CAP);
            proof {
                lemma_mul_fp_abs_bound(dterm as int, h.2 as int, 134217728, 1048576);
                lemma_tdiv_nonneg((dterm as int) * (h.2 as int), SCALE as int);
            }
            let pdfn: i64 = mul_fp(dterm, h.2);
            proof {
                lemma_tdiv_nonneg((pdfn as int) * (SCALE as int), 4 * (h.2 as int));
                lemma_div_is_ordered_by_denominator(
                    (pdfn as int) * (SCALE as int),
                    131072,
                    4 * (h.2 as int),
                );
                assert((pdfn as int) * (SCALE as int) <= 140737488355328int) by (nonlinear_arith)
                    requires
                        0 <= pdfn <= 134217728int,
                ;
                lemma_div_is_ordered((pdfn as int) * (SCALE as int), 140737488355328int, 131072);
            }
            let pdf: i64 = div_fp(pdfn, 4 * h.2) + GGX_PDF_EPS;
            let sa_s: i64 = div_nonneg(1152921504606846976, 1024 * pdf);
            let mut k: usize = 0;
            let mut sa: i64 = sa_s;
            while k < 15 && sa >= 4 * sa_t
                invariant
                    0 <= k <= 15,
                    0 <= sa,
                    mip_select_rec(sa_s as int, sa_t as int, 0) == mip_select_rec(
                        sa as int,
                        sa_t as int,
                        k as int,
                    ),
                decreases 15 - k,
            {
                sa = div_nonneg(sa, 4);
                k = k + 1;
            }
            k
        };
        proof {
            if roughness != 0 {
                lemma_mip_select_range(
                    sa_sample_spec(ggx_pdf_spec(roughness as int, ggx_half_spec(i as int, roughness as int).2)),
                    sa_texel_spec(env_res as int),
                    0,
                );
            }
        }
        v.push(PreSample { lx: l.0, ly: l.1, lz: l.2, srcmip });
        i = i + 1;
    }
    v
}

/// The running `N . L`-weighted radiance sums and weight sum over the
/// first `k` GGX samples, as `(red, green, blue, weight)`.  Samples below
/// the horizon contribute nothing.
pub open spec fn pre_accum_spec(
    env: TextureCubeMap,
    env_res: int,
    right: Vec3Fp,
    up: Vec3Fp,
    n: Vec3Fp,
    roughness: int,
    k: int,
) -> (int, int, int, int)
    decreases k,
{
    if k <= 0 {
        (0, 0, 0, 0)
    } else {
        let prev = pre_accum_spec(env, env_res, right, up, n, roughness, k - 1);
        let l = ggx_light_spec(k - 1, roughness);
        if l.2 > 0 {
            let wd = basis_combine_spec(right, up, n, l.0, l.1, l.2);
            let sm = src_mip_spec(env_res, roughness, k - 1);
            let tex = sample_cube_spec(env, wd.x as int, wd.y as int, wd.z as int, sm);
            (prev.0 + tex.r * l.2, prev.1 + tex.g * l.2, prev.2 + tex.b * l.2, prev.3 + l.2)
        } else {
            prev
        }
    }
}

/// Spec-level ranges of the GGX sample components.
pub proof fn lemma_ggx_spec_ranges(i: int, roughness: int)
    requires
        0 <= i,
        0 <= roughness <= SCALE as int,
    ensures
        -(SCALE as int) <= ggx_half_spec(i, roughness).0 <= SCALE as int,
        -(SCALE as int) <= ggx_half_spec(i, roughness).1 <= SCALE as int,
        0 <= ggx_half_spec(i, roughness).2 <= SCALE as int,
        -2 * (SCALE as int) <= ggx_light_spec(i, roughness).0 <= 2 * (SCALE as int),
        -2 * (SCALE as int) <= ggx_light_spec(i, roughness).1 <= 2 * (SCALE as int),
        -(SCALE as int) <= ggx_light_spec(i, roughness).2 <= SCALE as int,
{
    let xi1 = crate::sampling::hammersley_x_spec(i);
    let xi2 = crate::sampling::hammersley_y_spec(i);
    let phi = mul_fp_spec(crate::fixed::TWO_PI_FP as int, xi1);
    let a = mul_fp_spec(roughness, roughness);
    let a2 = mul_fp_spec(a, a);
    let denom = (SCALE as int) + mul_fp_spec(a2 - (SCALE as int), xi2);
    let ratio = clamp_fp_spec(div_fp_spec((SCALE as int) - xi2, denom), 0, SCALE as int);
    crate::fixed::lemma_sqrt_fp_unit(ratio);
    let ct = ggx_half_spec(i, roughness).2;
    lemma_mul_fp_unit(ct, ct);
    crate::fixed::lemma_sqrt_fp_unit((SCALE as int) - mul_fp_spec(ct, ct));
    let st = crate::fixed::sqrt_fp_spec((SCALE as int) - mul_fp_spec(ct, ct));
    assert(-(SCALE as int) <= crate::trig::cos_fp_spec(phi) <= SCALE as int);
    assert(-(SCALE as int) <= crate::trig::sin_fp_spec(phi) <= SCALE as int);
    lemma_mul_fp_abs_bound(st, crate::trig::cos_fp_spec(phi), 1048576, 1048576);
    lemma_mul_fp_abs_bound(st, crate::trig::sin_fp_spec(phi), 1048576, 1048576);
    let h = ggx_half_spec(i, roughness);
    lemma_mul_fp_abs_bound(h.2, h.0, 1048576, 1048576);
    lemma_mul_fp_abs_bound(h.2, h.1, 1048576, 1048576);
    lemma_mul_fp_unit(h.2, h.2);
}

/// The accumulated sums are bracketed by the environment's radiance bounds
/// times the weight sum.
pub proof fn lemma_pre_acc_bounds(
    env: TextureCubeMap,
    env_res: int,
    right: Vec3Fp,
    up: Vec3Fp,
    n: Vec3Fp,
    roughness: int,
    lo: int,
    hi: int,
    k: int,
)
    requires
        env.wf(),
        env.all_within(lo, hi),
        0 <= lo <= hi,
        0 <= roughness <= SCALE as int,
        0 <= k <= 1024,
    ensures
        0 <= pre_accum_spec(env, env_res, right, up, n, roughness, k).3 <= k * (SCALE as int),
        lo * pre_accum_spec(env, env_res, right, up, n, roughness, k).3 <= pre_accum_spec(
            env,
            env_res,
            right,
            up,
            n,
            roughness,
            k,
        ).0 <= hi * pre_accum_spec(env, env_res, right, up, n, roughness, k).3,
        lo * pre_accum_spec(env, env_res, right, up, n, roughness, k).3 <= pre_accum_spec(
            env,
            env_res,
            right,
            up,
            n,
            roughness,
            k,
        ).1 <= hi * pre_accum_spec(env, env_res, right, up, n, roughness, k).3,
        lo * pre_accum_spec(env, env_res, right, up, n, roughness, k).3 <= pre_accum_spec(
            env,
            env_res,
            right,
            up,
            n,
            roughness,
            k,
        ).2 <= hi * pre_accum_spec(env, env_res, right, up, n, roughness, k).3,
    decreases k,
{
    if k <= 0 {
        assert(lo * 0 == 0 && hi * 0 == 0) by (nonlinear_arith);
    } else {
        lemma_pre_acc_bounds(env, env_res, right, up, n, roughness, lo, hi, k - 1);
        let prev = pre_accum_spec(env, env_res, right, up, n, roughness, k - 1);
        let l = ggx_light_spec(k - 1, roughness);
        lemma_ggx_spec_ranges(k - 1, roughness);
        if l.2 > 0 {
            let wd = basis_combine_spec(right, up, n, l.0, l.1, l.2);
            let sm = src_mip_spec(env_res, roughness, k - 1);
            if roughness != 0 {
                lemma_mip_select_range(
                    sa_sample_spec(ggx_pdf_spec(roughness, ggx_half_spec(k - 1, roughness).2)),
                    sa_texel_spec(env_res),
                    0,
                );
            }
            let tex = sample_cube_spec(env, wd.x as int, wd.y as int, wd.z as int, sm);
            lemma_sample_cube_spec_within(env, wd.x as int, wd.y as int, wd.z as int, sm, lo, hi);
            assert(lo * (prev.3 + l.2) <= prev.0 + tex.r * l.2 <= hi * (prev.3 + l.2)
                && lo * (prev.3 + l.2) <= prev.1 + tex.g * l.2 <= hi * (prev.3 + l.2)
                && lo * (prev.3 + l.2) <= prev.2 + tex.b * l.2 <= hi * (prev.3 + l.2))
                by (nonlinear_arith)
                requires
                    lo * prev.3 <= prev.0 <= hi * prev.3 && lo * prev.3 <= prev.1 <= hi * prev.3
                        && lo * prev.3 <= prev.2 <= hi * prev.3 && lo <= tex.r <= hi && lo <= tex.g
                        <= hi && lo <= tex.b <= hi && 0 < l.2 && 0 <= lo <= hi,
            ;
        }
    }
}

/// On a constant environment the weighted sums are exactly the constant
/// times the weight sum.
pub proof fn lemma_pre_acc_constant(
    env: TextureCubeMap,
    env_res: int,
    right: Vec3Fp,
    up: Vec3Fp,
    n: Vec3Fp,
    roughness: int,
    c: int,
    k: int,
)
    requires
        env.wf(),
        env.all_constant(c),
        0 <= k <= 1024,
    ensures
        pre_accum_spec(env, env_res, right, up, n, roughness, k).0 == c * pre_accum_spec(
            env,
            env_res,
            right,
            up,
            n,
            roughness,
            k,
        ).3,
        pre_accum_spec(env, env_res, right, up, n, roughness, k).1 == c * pre_accum_spec(
            env,
            env_res,
            right,
            up,
            n,
            roughness,
            k,
        ).3,
        pre_accum_spec(env, env_res, right, up, n, roughness, k).2 == c * pre_accum_spec(
            env,
            env_res,
            right,
            up,
            n,
            roughness,
            k,
        ).3,
    decreases k,
{
    if k <= 0 {
        assert(c * 0 == 0) by (nonlinear_arith);
    } else {
        lemma_pre_acc_constant(env, env_res, right, up, n, roughness, c, k - 1);
        let prev = pre_accum_spec(env, env_res, right, up, n, roughness, k - 1);
        let l = ggx_light_spec(k - 1, roughness);
        if l.2 > 0 {
            let wd = basis_combine_spec(right, up, n, l.0, l.1, l.2);
            let sm = src_mip_spec(env_res, roughness, k - 1);
            if roughness != 0 {
                lemma_mip_select_range(
                    sa_sample_spec(ggx_pdf_spec(roughness, ggx_half_spec(k - 1, roughness).2)),
                    sa_texel_spec(env_res),
                    0,
                );
            }
            lemma_sample_cube_spec_constant(env, wd.x as int, wd.y as int, wd.z as int, sm, c);
            let tex = sample_cube_spec(env, wd.x as int, wd.y as int, wd.z as int, sm);
            assert(c * (prev.3 + l.2) == c * prev.3 + c * l.2) by (nonlinear_arith);
            assert(tex.r * l.2 == c * l.2 && tex.g * l.2 == c * l.2 && tex.b * l.2 == c * l.2);
        }
    }
}

/// The weight sum is strictly positive: sample zero always contributes a
/// full weight.
pub proof fn lemma_pre_wsum_pos(
    env: TextureCubeMap,
    env_res: int,
    right: Vec3Fp,
    up: Vec3Fp,
    n: Vec3Fp,
    roughness: int,
    k: int,
)
    requires
        0 <= roughness <= SCALE as int,
        1 <= k <= 1024,
    ensures
        pre_accum_spec(env, env_res, right, up, n, roughness, k).3 >= SCALE as int,
    decreases k,
{
    if k == 1 {
        lemma_ggx_sample_zero(roughness);
        assert(pre_accum_spec(env, env_res, right, up, n, roughness, 0).3 == 0);
    } else {
        lemma_pre_wsum_pos(env, env_res, right, up, n, roughness, k - 1);
        lemma_ggx_spec_ranges(k - 1, roughness);
    }
}

/// The weighted average of a sum pair.
pub open spec fn pre_value_spec(sum_ch: int, sum_w: int) -> int {
    if sum_w > 0 {
        sum_ch / sum_w
    } else {
        0
    }
}

/// Executable form of `pre_value_spec`.
fn pre_value(sum_ch: i128, sum_w: i128) -> (r: i64)
    requires
        0 <= sum_ch,
        0 <= sum_w <= 1073741824,
        sum_ch <= (VAL_MAX as int) * (sum_w as int),
    ensures
        r as int == pre_value_spec(sum_ch as int, sum_w as int),
        0 <= r <= VAL_MAX,
{
    if sum_w <= 0 {
        return 0;
    }
    proof {
        assert((VAL_MAX as int) * (sum_w as int) == (sum_w as int) * (VAL_MAX as int))
            by (nonlinear_arith);
        lemma_div_is_ordered(sum_ch as int, (sum_w as int) * (VAL_MAX as int), sum_w as int);
        lemma_div_multiples_vanish(VAL_MAX as int, sum_w as int);
        lemma_div_pos_is_pos(sum_ch as int, sum_w as int);
    }
    ((sum_ch as u128) / (sum_w as u128)) as i64
}

/// The prefiltered texel of level `m`, face `f`, pixel `(x, y)`.
pub open spec fn pre_texel_spec(
    env: TextureCubeMap,
    env_res: int,
    m: int,
    f: int,
    x: int,
    y: int,
) -> Texel {
    let res = mip_res_spec(128, m);
    let d = face_dir_spec(f, x, y, res);
    let n = normalize_fp_spec(Vec3Fp { x: d.0 as i64, y: d.1 as i64, z: d.2 as i64 });
    let ru = tangent_basis_spec(n);
    let acc = pre_accum_spec(env, env_res, ru.0, ru.1, n, m * (ROUGHNESS_STEP_FP as int), 1024);
    Texel {
        r: pre_value_spec(acc.0, acc.3) as i64,
        g: pre_value_spec(acc.1, acc.3) as i64,
        b: pre_value_spec(acc.2, acc.3) as i64,
    }
}

/// One whole prefiltered level, face-major.
pub open spec fn prefilter_mip_spec(env: TextureCubeMap, env_res: int, m: int) -> Seq<Texel> {
    let res = mip_res_spec(128, m);
    Seq::new(
        (6 * res * res) as nat,
        |i: int|
            pre_texel_spec(
                env,
                env_res,
                m,
                i / (res * res),
                (i % (res * res)) % res,
                (i % (res * res)) / res,
            ),
    )
}

/// Prefiltered texels stay inside any radiance interval containing the
/// environment.
pub proof fn lemma_pre_texel_within(
    env: TextureCubeMap,
    env_res: int,
    m: int,
    f: int,
    x: int,
    y: int,
    lo: int,
    hi: int,
)
    requires
        env.wf(),
        env.all_within(lo, hi),
        0 <= lo <= hi <= VAL_MAX as int,
        0 <= m <= 4,
    ensures
        texel_within(pre_texel_spec(env, env_res, m, f, x, y), lo, hi),
{
    let res = mip_res_spec(128, m);
    let d = face_dir_spec(f, x, y, res);
    let n = normalize_fp_spec(Vec3Fp { x: d.0 as i64, y: d.1 as i64, z: d.2 as i64 });
    let ru = tangent_basis_spec(n);
    let rough = m * (ROUGHNESS_STEP_FP as int);
    assert(0 <= rough <= SCALE as int) by (nonlinear_arith)
        requires
            0 <= m <= 4 && rough == m * 262144,
    ;
    let acc = pre_accum_spec(env, env_res, ru.0, ru.1, n, rough, 1024);
    lemma_pre_acc_bounds(env, env_res, ru.0, ru.1, n, rough, lo, hi, 1024);
    lemma_pre_wsum_pos(env, env_res, ru.0, ru.1, n, rough, 1024);
    lemma_pre_channel_bracket(acc.0, acc.3, lo, hi);
    lemma_pre_channel_bracket(acc.1, acc.3, lo, hi);
    lemma_pre_channel_bracket(acc.2, acc.3, lo, hi);
}

/// One channel of the weighted average is bracketed by the bounds.
proof fn lemma_pre_channel_bracket(sum_ch: int, sum_w: int, lo: int, hi: int)
    requires
        0 < sum_w,
        lo * sum_w <= sum_ch <= hi * sum_w,
        0 <= lo <= hi,
    ensures
        lo <= pre_value_spec(sum_ch, sum_w) <= hi,
{
    assert(lo * sum_w == sum_w * lo && hi * sum_w == sum_w * hi) by (nonlinear_arith);
    lemma_div_is_ordered(sum_w * lo, sum_ch, sum_w);
    lemma_div_is_ordered(sum_ch, sum_w * hi, sum_w);
    lemma_div_multiples_vanish(lo, sum_w);
    lemma_div_multiples_vanish(hi, sum_w);
}

/// On a constant environment every prefiltered texel equals the constant
/// exactly.
pub proof fn lemma_pre_texel_constant(
    env: TextureCubeMap,
    env_res: int,
    m: int,
    f: int,
    x: int,
    y: int,
    c: int,
)
    requires
        env.wf(),
        env.all_constant(c),
        0 <= c <= VAL_MAX as int,
        0 <= m <= 4,
    ensures
        texel_constant(pre_texel_spec(env, env_res, m, f, x, y), c),
{
    let res = mip_res_spec(128, m);
    let d = face_dir_spec(f, x, y, res);
    let n = normalize_fp_spec(Vec3Fp { x: d.0 as i64, y: d.1 as i64, z: d.2 as i64 });
    let ru = tangent_basis_spec(n);
    let rough = m * (ROUGHNESS_STEP_FP as int);
    assert(0 <= rough <= SCALE as int) by (nonlinear_arith)
        requires
            0 <= m <= 4 && rough == m * 262144,
    ;
    let acc = pre_accum_spec(env, env_res, ru.0, ru.1, n, rough, 1024);
    lemma_pre_acc_constant(env, env_res, ru.0, ru.1, n, rough, c, 1024);
    lemma_pre_wsum_pos(env, env_res, ru.0, ru.1, n, rough, 1024);
    assert(c * acc.3 == acc.3 * c) by (nonlinear_arith);
    lemma_div_multiples_vanish(c, acc.3);
}

/// One output texel, computed against the precomputed sample table.
#[verifier::loop_isolation(false)]
fn prefilter_texel(
    env: &TextureCubeMap,
    env_res: usize,
    samples: &Vec<PreSample>,
    m: usize,
    res: usize,
    f: usize,
    x: usize,
    y: usize,
) -> (t: Texel)
    requires
        env.wf(),
        m < 5,
        res == mip_res_spec(128, m as int),
        1 <= res <= 128,
        pre_table_ok(samples@, env_res as int, (m as int) * (ROUGHNESS_STEP_FP as int)),
        f < 6,
        x < res,
        y < res,
    ensures
        t == pre_texel_spec(*env, env_res as int, m as int, f as int, x as int, y as int),
        texel_wf(t),
{
    let ghost rough: int = (m as int) * (ROUGHNESS_STEP_FP as int);
    proof {
        assert(0 <= rough <= SCALE as int) by (nonlinear_arith)
            requires
                0 <= m <= 4 && rough == (m as int) * 262144,
        ;
    }
    let d: (i64, i64, i64) = face_dir(f, x, y, res);
    let n: Vec3Fp = normalize_fp(Vec3Fp { x: d.0, y: d.1, z: d.2 });
    let ru: (Vec3Fp, Vec3Fp) = tangent_basis(n);
    let right: Vec3Fp = ru.0;
    let up: Vec3Fp = ru.1;
    let mut acc_r: i128 = 0;
    let mut acc_g: i128 = 0;
    let mut acc_b: i128 = 0;
    let mut acc_w: i128 = 0;
    let mut k: usize = 0;
    while k < GGX_SAMPLE_COUNT
        invariant
            0 <= k <= 1024,
            acc_r as int == pre_accum_spec(*env, env_res as int, right, up, n, rough, k as int).0,
            acc_g as int == pre_accum_spec(*env, env_res as int, right, up, n, rough, k as int).1,
            acc_b as int == pre_accum_spec(*env, env_res as int, right, up, n, rough, k as int).2,
            acc_w as int == pre_accum_spec(*env, env_res as int, right, up, n, rough, k as int).3,
            0 <= acc_r <= (k as int) * 4503599627370496,
            0 <= acc_g <= (k as int) * 4503599627370496,
            0 <= acc_b <= (k as int) * 4503599627370496,
            0 <= acc_w <= (k as int) * 1048576,
        decreases 1024 - k,
    {
        let s: PreSample = samples[k];
        proof {
            lemma_ggx_spec_ranges(k as int, rough);
            if rough != 0 {
                lemma_mip_select_range(
                    sa_sample_spec(ggx_pdf_spec(rough, ggx_half_spec(k as int, rough).2)),
                    sa_texel_spec(env_res as int),
                    0,
                );
            }
            assert(((k as int) + 1) * 4503599627370496 == (k as int) * 4503599627370496
                + 4503599627370496) by (nonlinear_arith);
            assert(((k as int) + 1) * 1048576 == (k as int) * 1048576 + 1048576)
                by (nonlinear_arith);
        }
        if s.lz > 0 {
            let wd: Vec3Fp = basis_combine(right, up, n, s.lx, s.ly, s.lz);
            let tex: Texel = sample_cube(env, wd.x, wd.y, wd.z, s.srcmip);
            proof {
                assert(0 <= (tex.r as int) * (s.lz as int) <= 4503599627370496int && 0 <= (
                tex.g as int) * (s.lz as int) <= 4503599627370496int && 0 <= (tex.b as int) * (
                s.lz as int) <= 4503599627370496int) by (nonlinear_arith)
                    requires
                        0 <= tex.r <= 4294967296int && 0 <= tex.g <= 4294967296int && 0 <= tex.b
                            <= 4294967296int && 0 < s.lz <= 1048576int,
                ;
            }
            acc_r = acc_r + (tex.r as i128) * (s.lz as i128);
            acc_g = acc_g + (tex.g as i128) * (s.lz as i128);
            acc_b = acc_b + (tex.b as i128) * (s.lz as i128);
            acc_w = acc_w + (s.lz as i128);
        }
        k = k + 1;
    }
    proof {
        assert forall|mm: int, ii: int|
            0 <= mm < env.mips@.len() && 0 <= ii < env.mips@[mm]@.len() implies texel_within(
            #[trigger] env.mips@[mm]@[ii],
            0,
            VAL_MAX as int,
        ) by {
            assert(texel_wf(env.mips@[mm]@[ii]));
        }
        lemma_pre_acc_bounds(*env, env_res as int, right, up, n, rough, 0, VAL_MAX as int, 1024);
        assert(0 * pre_accum_spec(*env, env_res as int, right, up, n, rough, 1024).3 == 0)
            by (nonlinear_arith);
    }
    let tr: i64 = pre_value(acc_r, acc_w);
    let tg: i64 = pre_value(acc_g, acc_w);
    let tb: i64 = pre_value(acc_b, acc_w);
    Texel { r: tr, g: tg, b: tb }
}

/// Prefilters the environment cubemap into the fixed five-level roughness
/// chain with base face resolution 128.
///
/// The result's level `m` holds the GGX pre-convolution at roughness
/// `m / 4`; every texel lies within any radiance interval containing the
/// environment, and a constant environment is reproduced exactly at every
/// level.
#[verifier::loop_isolation(false)]
pub fn compute_prefiltered_env_map(
    hdr_environmental_map: &TextureCubeMap,
    face_resolution: usize,
) -> (pre: TextureCubeMap)
    requires
        hdr_environmental_map.wf(),
        face_resolution == hdr_environmental_map.face_resolution,
    ensures
        pre.wf(),
        pre.face_resolution == 128,
        pre.mips@.len() == 5,
        forall|m: int|
            0 <= m < 5 ==> (#[trigger] pre.mips@[m])@ == prefilter_mip_spec(
                *hdr_environmental_map,
                face_resolution as int,
                m,
            ),
        forall|lo: int, hi: int|
            0 <= lo && hi <= VAL_MAX && hdr_environmental_map.all_within(lo, hi)
                ==> pre.all_within(lo, hi),
        forall|c: int|
            0 <= c <= VAL_MAX && hdr_environmental_map.all_constant(c) ==> pre.all_constant(c),
{
    let env = hdr_environmental_map;
    let mut mips: Vec<Vec<Texel>> = Vec::new();
    let mut m: usize = 0;
    while m < 5
        invariant
            0 <= m <= 5,
            mips@.len() == m,
            forall|mm: int|
                0 <= mm < m ==> (#[trigger] mips@[mm])@ == prefilter_mip_spec(
                    *env,
                    face_resolution as int,
                    mm,
                ),
            forall|mm: int|
                0 <= mm < m ==> (#[trigger] mips@[mm])@.len() == 6 * mip_res_spec(128, mm)
                    * mip_res_spec(128, mm),
            forall|mm: int, i: int|
                0 <= mm < m && 0 <= i < mips@[mm]@.len() ==> texel_wf(#[trigger] mips@[mm]@[i]),
        decreases 5 - m,
    {
        let res: usize = mip_resolution(PREFILTERED_MAP_SIZE, m);
        let roughness: i64 = (m as i64) * ROUGHNESS_STEP_FP;
        proof {
            assert(roughness as int == (m as int) * (ROUGHNESS_STEP_FP as int));
            assert(roughness == 0 || 262144 <= roughness <= SCALE) by (nonlinear_arith)
                requires
                    0 <= m <= 4 && roughness == (m as int) * 262144,
            ;
            assert(1 <= (res as int) * (res as int) <= 16384int && 6 * (res as int) * (
            res as int) == 6 * ((res as int) * (res as int))) by (nonlinear_arith)
                requires
                    1 <= res <= 128int,
            ;
        }
        let samples: Vec<PreSample> = build_pre_samples(face_resolution, roughness);
        let mut data: Vec<Texel> = Vec::new();
        let mut f: usize = 0;
        while f < 6
            invariant
                0 <= f <= 6,
                data@.len() == (f as int) * ((res as int) * (res as int)),
                forall|j: int|
                    0 <= j < data@.len() ==> #[trigger] data@[j] == prefilter_mip_spec(
                        *env,
                        face_resolution as int,
                        m as int,
                    )[j],
                forall|j: int| 0 <= j < data@.len() ==> texel_wf(#[trigger] data@[j]),
            decreases 6 - f,
        {
            let mut y: usize = 0;
            while y < res
                invariant
                    0 <= y <= res,
                    data@.len() == (f as int) * ((res as int) * (res as int)) + (y as int) * (
                    res as int),
                    forall|j: int|
                        0 <= j < data@.len() ==> #[trigger] data@[j] == prefilter_mip_spec(
                            *env,
                            face_resolution as int,
                            m as int,
                        )[j],
                    forall|j: int| 0 <= j < data@.len() ==> texel_wf(#[trigger] data@[j]),
                decreases res - y,
            {
                let mut x: usize = 0;
                while x < res
                    invariant
                        0 <= x <= res,
                        data@.len() == (f as int) * ((res as int) * (res as int)) + (y as int) * (
                        res as int) + (x as int),
                        forall|j: int|
                            0 <= j < data@.len() ==> #[trigger] data@[j] == prefilter_mip_spec(
                                *env,
                                face_resolution as int,
                                m as int,
                            )[j],
                        forall|j: int| 0 <= j < data@.len() ==> texel_wf(#[trigger] data@[j]),
                    decreases res - x,
                {
                    let t: Texel = prefilter_texel(env, face_resolution, &samples, m, res, f, x, y);
                    proof {
                        let i0 = data@.len() as int;
                        assert(i0 == face_idx_spec(res as int, f as int, x as int, y as int))
                            by (nonlinear_arith)
                            requires
                                i0 == (f as int) * ((res as int) * (res as int)) + (y as int) * (
                                res as int) + (x as int),
                        ;
                        lemma_face_index_decompose(res as int, f as int, x as int, y as int);
                        assert(0 <= i0 < 6 * (res as int) * (res as int)) by (nonlinear_arith)
                            requires
                                i0 == (f as int) * ((res as int) * (res as int)) + (y as int) * (
                                res as int) + (x as int) && 0 <= f < 6 && 0 <= x < res && 0 <= y
                                    < res && 1 <= res,
                        ;
                        assert(prefilter_mip_spec(*env, face_resolution as int, m as int)[i0]
                            == pre_texel_spec(
                            *env,
                            face_resolution as int,
                            m as int,
                            f as int,
                            x as int,
                            y as int,
                        ));
                    }
                    data.push(t);
                    x = x + 1;
                }
                proof {
                    assert(((y as int) + 1) * (res as int) == (y as int) * (res as int) + (
                    res as int)) by (nonlinear_arith);
                }
                y = y + 1;
            }
            proof {
                assert(((f as int) + 1) * ((res as int) * (res as int)) == (f as int) * ((
                res as int) * (res as int)) + (res as int) * (res as int)) by (nonlinear_arith);
            }
            f = f + 1;
        }
        proof {
            assert(data@ =~= prefilter_mip_spec(*env, face_resolution as int, m as int));
        }
        mips.push(data);
        m = m + 1;
    }
    let pre = TextureCubeMap { face_resolution: PREFILTERED_MAP_SIZE, mips };
    proof {
        assert(pre.wf());
        assert forall|lo: int, hi: int|
            0 <= lo && hi <= VAL_MAX && env.all_within(lo, hi) implies pre.all_within(
            lo,
            hi,
        ) by {
            assert(1 <= 6 * mip_res_spec(env.face_resolution as int, 0) * mip_res_spec(
                env.face_resolution as int,
                0,
            )) by {
                lemma_mip_res_bounds(env.face_resolution as int, 0);
                assert(1 * 1 <= mip_res_spec(env.face_resolution as int, 0) * mip_res_spec(
                    env.face_resolution as int,
                    0,
                ) && 6 * mip_res_spec(env.face_resolution as int, 0) * mip_res_spec(
                    env.face_resolution as int,
                    0,
                ) == 6 * (mip_res_spec(env.face_resolution as int, 0) * mip_res_spec(
                    env.face_resolution as int,
                    0,
                ))) by (nonlinear_arith)
                    requires
                        1 <= mip_res_spec(env.face_resolution as int, 0),
                ;
            }
            assert(texel_within(env.mips@[0]@[0], lo, hi));
            assert forall|mm: int, i: int|
                0 <= mm < pre.mips@.len() && 0 <= i < pre.mips@[mm]@.len() implies texel_within(
                #[trigger] pre.mips@[mm]@[i],
                lo,
                hi,
            ) by {
                let res = mip_res_spec(128, mm);
                lemma_mip_res_bounds(128, mm);
                lemma_flat_index_ranges(res, i);
                lemma_pre_texel_within(
                    *env,
                    face_resolution as int,
                    mm,
                    i / (res * res),
                    (i % (res * res)) % res,
                    (i % (res * res)) / res,
                    lo,
                    hi,
                );
            }
        }
        assert forall|c: int|
            0 <= c <= VAL_MAX && env.all_constant(c) implies pre.all_constant(c) by {
            assert forall|mm: int, i: int|
                0 <= mm < pre.mips@.len() && 0 <= i < pre.mips@[mm]@.len() implies texel_constant(
                #[trigger] pre.mips@[mm]@[i],
                c,
            ) by {
                let res = mip_res_spec(128, mm);
                lemma_mip_res_bounds(128, mm);
                lemma_flat_index_ranges(res, i);
                lemma_pre_texel_constant(
                    *env,
                    face_resolution as int,
                    mm,
                    i / (res * res),
                    (i % (res * res)) % res,
                    (i % (res * res)) / res,
                    c,
                );
            }
        }
    }
    pre
}

} // verus!
