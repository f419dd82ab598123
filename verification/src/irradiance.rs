//! Diffuse irradiance convolution.
//!
//! For every texel of a fixed 32x32-per-face output cubemap, radiance is
//! integrated over the hemisphere around the texel's direction with a
//! Riemann sum at a fixed angular step of 0.025 radians, each sample
//! weighted by `cos(theta) * sin(theta)`.  The sum is normalized by the
//! total weight and scaled by pi, so a constant environment of radiance `c`
//! convolves exactly to `pi * c`, and any environment's irradiance lies
//! between pi times its lower and upper radiance bounds.

use crate::convert::{face_dir, face_dir_spec};
use crate::fixed::{lemma_cancel_scale_factor, mul_fp, mul_fp_spec, tdiv, PI_FP, SCALE};
use crate::sample::{
    lemma_sample_cube_spec_constant, lemma_sample_cube_spec_within, sample_cube, sample_cube_spec,
};
use crate::texture::{
    mip_res_spec, texel_constant, texel_wf, texel_within, Texel, TextureCubeMap, RAD_MAX,
};
use crate::trig::{cos_core_spec, cos_fp, cos_fp_spec, sin_core_spec, sin_fp, sin_fp_spec};
use crate::vec3::{
    basis_combine, basis_combine_spec, normalize_fp, normalize_fp_spec, tangent_basis,
    tangent_basis_spec, Vec3Fp,
};
use vstd::arithmetic::div_mod::{
    lemma_div_is_ordered, lemma_div_pos_is_pos, lemma_fundamental_div_mod_converse,
    lemma_mod_division_less_than_divisor, lemma_multiply_divide_lt,
};
use vstd::prelude::*;

verus! {

/// Face resolution of the irradiance cubemap.
pub const IRR_MAP_SIZE: usize = 32;

/// The angular integration step, 0.025 radians scaled by `SCALE`.
pub const IRR_STEP_FP: i64 = 26214;

/// Number of azimuth steps below two pi.
pub const IRR_NPHI: usize = 252;

/// Number of elevation steps below pi over two.
pub const IRR_NTHETA: usize = 63;

/// One precomputed hemisphere sample: a tangent-space direction and its
/// projected-solid-angle weight.
#[derive(Clone, Copy, Debug, PartialEq, Eq, Structural)]
pub struct IrrSample {
    pub tx: i64,
    pub ty: i64,
    pub tz: i64,
    pub w: i64,
}

/// The tangent-space direction and weight of azimuth step `p`, elevation
/// step `t`: `(sin t cos p, sin t sin p, cos t, cos t sin t)` at angles
/// `p * 0.025` and `t * 0.025`.
pub open spec fn irr_sample_spec(p: int, t: int) -> (int, int, int, int) {
    let phi = p * (IRR_STEP_FP as int);
    let th = t * (IRR_STEP_FP as int);
    let sp = sin_fp_spec(phi);
    let cp = cos_fp_spec(phi);
    let st = sin_fp_spec(th);
    let ct = cos_fp_spec(th);
    (mul_fp_spec(st, cp), mul_fp_spec(st, sp), ct, mul_fp_spec(ct, st))
}

/// The sample components are unit-range and the weight is non-negative.
pub proof fn lemma_irr_sample_range(p: int, t: int)
    requires
        0 <= p < 252,
        0 <= t < 63,
    ensures
        -(SCALE as int) <= irr_sample_spec(p, t).0 <= SCALE as int,
        -(SCALE as int) <= irr_sample_spec(p, t).1 <= SCALE as int,
        0 <= irr_sample_spec(p, t).2 <= SCALE as int,
        0 <= irr_sample_spec(p, t).3 <= SCALE as int,
{
    let phi = p * (IRR_STEP_FP as int);
    let th = t * (IRR_STEP_FP as int);
    assert(0 <= phi <= 6579714 && 0 <= th <= 1625268);
    let sp = sin_fp_spec(phi);
    let cp = cos_fp_spec(phi);
    let st = sin_fp_spec(th);
    let ct = cos_fp_spec(th);
    assert(-(SCALE as int) <= sp <= SCALE as int);
    assert(-(SCALE as int) <= cp <= SCALE as int);
    assert(0 <= st <= SCALE as int);
    assert(0 <= ct <= SCALE as int);
    crate::fixed::lemma_mul_fp_abs_bound(st, cp, SCALE as int, SCALE as int);
    crate::fixed::lemma_mul_fp_abs_bound(st, sp, SCALE as int, SCALE as int);
    crate::fixed::lemma_mul_fp_unit(ct, st);
}

/// The whole sample table, row-major in `p` then `t`.
pub open spec fn irr_table_ok(s: Seq<IrrSample>) -> bool {
    &&& s.len() == 15876
    &&& forall|k: int|
        0 <= k < 15876 ==> {
            let sp = irr_sample_spec(k / 63, k % 63);
            &&& (#[trigger] s[k]).tx == sp.0
            &&& s[k].ty == sp.1
            &&& s[k].tz == sp.2
            &&& s[k].w == sp.3
        }
}

/// Builds the sample table.
#[verifier::loop_isolation(false)]
fn build_irr_samples() -> (v: Vec<IrrSample>)
    ensures
        irr_table_ok(v@),
{
    let mut v: Vec<IrrSample> = Vec::new();
    let mut p: usize = 0;
    while p < IRR_NPHI
        invariant
            0 <= p <= 252,
            v@.len() == 63 * p,
            forall|k: int|
                0 <= k < v@.len() ==> {
                    let sp = irr_sample_spec(k / 63, k % 63);
                    &&& (#[trigger] v@[k]).tx == sp.0
                    &&& v@[k].ty == sp.1
                    &&& v@[k].tz == sp.2
                    &&& v@[k].w == sp.3
                },
        decreases 252 - p,
    {
        let phi: i64 = (p as i64) * IRR_STEP_FP;
        let sp: i64 = sin_fp(phi);
        let cp: i64 = cos_fp(phi);
        let mut t: usize = 0;
        while t < IRR_NTHETA
            invariant
                0 <= t <= 63,
                v@.len() == 63 * p + t,
                forall|k: int|
                    0 <= k < v@.len() ==> {
                        let sp2 = irr_sample_spec(k / 63, k % 63);
                        &&& (#[trigger] v@[k]).tx == sp2.0
                        &&& v@[k].ty == sp2.1
                        &&& v@[k].tz == sp2.2
                        &&& v@[k].w == sp2.3
                    },
            decreases 63 - t,
        {
            let th: i64 = (t as i64) * IRR_STEP_FP;
            let st: i64 = sin_fp(th);
            let ct: i64 = cos_fp(th);
            let s = IrrSample {
                tx: mul_fp(st, cp),
                ty: mul_fp(st, sp),
                tz: ct,
                w: mul_fp(ct, st),
            };
            proof {
                lemma_fundamental_div_mod_converse(
                    63 * (p as int) + (t as int),
                    63,
                    p as int,
                    t as int,
                );
            }
            v.push(s);
            t = t + 1;
        }
        p = p + 1;
    }
    v
}

/// The running weighted radiance sums and weight sum over the first `k`
/// hemisphere samples, as `(red, green, blue, weight)`.
pub open spec fn irr_accum_spec(
    env: TextureCubeMap,
    right: Vec3Fp,
    up: Vec3Fp,
    n: Vec3Fp,
    k: int,
) -> (int, int, int, int)
    decreases k,
{
    if k <= 0 {
        (0, 0, 0, 0)
    } else {
        let prev = irr_accum_spec(env, right, up, n, k - 1);
        let s = irr_sample_spec((k - 1) / 63, (k - 1) % 63);
        let wd = basis_combine_spec(right, up, n, s.0, s.1, s.2);
        let tex = sample_cube_spec(env, wd.x as int, wd.y as int, wd.z as int, 0);
        (
            prev.0 + tex.r * s.3,
            prev.1 + tex.g * s.3,
            prev.2 + tex.b * s.3,
            prev.3 + s.3,
        )
    }
}

/// The accumulated sums are bracketed by the environment's radiance bounds
/// times the weight sum, and the weight sum is bounded.
pub proof fn lemma_irr_acc_bounds(
    env: TextureCubeMap,
    right: Vec3Fp,
    up: Vec3Fp,
    n: Vec3Fp,
    lo: int,
    hi: int,
    k: int,
)
    requires
        env.wf(),
        env.all_within(lo, hi),
        0 <= lo <= hi,
        0 <= k <= 15876,
    ensures
        0 <= irr_accum_spec(env, right, up, n, k).3 <= k * (SCALE as int),
        lo * irr_accum_spec(env, right, up, n, k).3 <= irr_accum_spec(env, right, up, n, k).0 <= hi
            * irr_accum_spec(env, right, up, n, k).3,
        lo * irr_accum_spec(env, right, up, n, k).3 <= irr_accum_spec(env, right, up, n, k).1 <= hi
            * irr_accum_spec(env, right, up, n, k).3,
        lo * irr_accum_spec(env, right, up, n, k).3 <= irr_accum_spec(env, right, up, n, k).2 <= hi
            * irr_accum_spec(env, right, up, n, k).3,
    decreases k,
{
    if k <= 0 {
        assert(lo * 0 == 0) by (nonlinear_arith);
        assert(hi * 0 == 0) by (nonlinear_arith);
    } else {
        lemma_irr_acc_bounds(env, right, up, n, lo, hi, k - 1);
        let prev = irr_accum_spec(env, right, up, n, k - 1);
        lemma_multiply_divide_lt(k - 1, 63, 252);
        lemma_div_pos_is_pos(k - 1, 63);
        lemma_mod_division_less_than_divisor(k - 1, 63);
        let s = irr_sample_spec((k - 1) / 63, (k - 1) % 63);
        lemma_irr_sample_range((k - 1) / 63, (k - 1) % 63);
        let wd = basis_combine_spec(right, up, n, s.0, s.1, s.2);
        let tex = sample_cube_spec(env, wd.x as int, wd.y as int, wd.z as int, 0);
        lemma_sample_cube_spec_within(env, wd.x as int, wd.y as int, wd.z as int, 0, lo, hi);
        assert(lo * (prev.3 + s.3) <= prev.0 + tex.r * s.3 <= hi * (prev.3 + s.3))
            by (nonlinear_arith)
            requires
                lo * prev.3 <= prev.0 <= hi * prev.3 && lo <= tex.r <= hi && 0 <= s.3 && 0 <= lo
                    <= hi,
        ;
        assert(lo * (prev.3 + s.3) <= prev.1 + tex.g * s.3 <= hi * (prev.3 + s.3))
            by (nonlinear_arith)
            requires
                lo * prev.3 <= prev.1 <= hi * prev.3 && lo <= tex.g <= hi && 0 <= s.3 && 0 <= lo
                    <= hi,
        ;
        assert(lo * (prev.3 + s.3) <= prev.2 + tex.b * s.3 <= hi * (prev.3 + s.3))
            by (nonlinear_arith)
            requires
                lo * prev.3 <= prev.2 <= hi * prev.3 && lo <= tex.b <= hi && 0 <= s.3 && 0 <= lo
                    <= hi,
        ;
    }
}

/// On a constant environment the weighted sums are exactly the constant
/// times the weight sum.
pub proof fn lemma_irr_acc_constant(
    env: TextureCubeMap,
    right: Vec3Fp,
    up: Vec3Fp,
    n: Vec3Fp,
    c: int,
    k: int,
)
    requires
        env.wf(),
        env.all_constant(c),
        0 <= k <= 15876,
    ensures
        irr_accum_spec(env, right, up, n, k).0 == c * irr_accum_spec(env, right, up, n, k).3,
        irr_accum_spec(env, right, up, n, k).1 == c * irr_accum_spec(env, right, up, n, k).3,
        irr_accum_spec(env, right, up, n, k).2 == c * irr_accum_spec(env, right, up, n, k).3,
    decreases k,
{
    if k <= 0 {
        assert(c * 0 == 0) by (nonlinear_arith);
    } else {
        lemma_irr_acc_constant(env, right, up, n, c, k - 1);
        let prev = irr_accum_spec(env, right, up, n, k - 1);
        let s = irr_sample_spec((k - 1) / 63, (k - 1) % 63);
        let wd = basis_combine_spec(right, up, n, s.0, s.1, s.2);
        lemma_sample_cube_spec_constant(env, wd.x as int, wd.y as int, wd.z as int, 0, c);
        let tex = sample_cube_spec(env, wd.x as int, wd.y as int, wd.z as int, 0);
        assert(c * (prev.3 + s.3) == c * prev.3 + c * s.3) by (nonlinear_arith);
        assert(tex.r * s.3 == c * s.3 && tex.g * s.3 == c * s.3 && tex.b * s.3 == c * s.3);
    }
}

/// Weight sums never go negative.
proof fn lemma_irr_wsum_nonneg(env: TextureCubeMap, right: Vec3Fp, up: Vec3Fp, n: Vec3Fp, k: int)
    requires
        0 <= k <= 15876,
    ensures
        irr_accum_spec(env, right, up, n, k).3 >= 0,
    decreases k,
{
    if k > 0 {
        lemma_irr_wsum_nonneg(env, right, up, n, k - 1);
        lemma_multiply_divide_lt(k - 1, 63, 252);
        lemma_div_pos_is_pos(k - 1, 63);
        lemma_mod_division_less_than_divisor(k - 1, 63);
        lemma_irr_sample_range((k - 1) / 63, (k - 1) % 63);
    }
}

/// The weight of azimuth step 0, elevation step 32, evaluated on the
/// fixed-point grid.
proof fn lemma_irr_w32_value()
    ensures
        irr_sample_spec(0, 32).3 == 524065,
{
    let x: int = 838848;
    assert(32 * (IRR_STEP_FP as int) == x);
    let x2: int = mul_fp_spec(x, x);
    assert(x2 == 671068);
    let a: int = (SCALE as int) - x2 / 72;
    assert(a == 1039256);
    assert(mul_fp_spec(x2, a) == 665103);
    let b: int = (SCALE as int) - mul_fp_spec(x2, a) / 42;
    assert(b == 1032741);
    assert(mul_fp_spec(x2, b) == 660933);
    let c: int = (SCALE as int) - mul_fp_spec(x2, b) / 20;
    assert(c == 1015530);
    assert(mul_fp_spec(x2, c) == 649919);
    let d: int = (SCALE as int) - mul_fp_spec(x2, c) / 6;
    assert(d == 940257);
    assert(mul_fp_spec(x, d) == 752194);
    assert(sin_core_spec(x) == 752194);
    assert(sin_fp_spec(x) == 752194);
    let a2: int = (SCALE as int) - x2 / 56;
    assert(a2 == 1036593);
    assert(mul_fp_spec(x2, a2) == 663399);
    let b2: int = (SCALE as int) - mul_fp_spec(x2, a2) / 30;
    assert(b2 == 1026463);
    assert(mul_fp_spec(x2, b2) == 656916);
    let c2: int = (SCALE as int) - mul_fp_spec(x2, b2) / 12;
    assert(c2 == 993833);
    assert(mul_fp_spec(x2, c2) == 636033);
    let d2: int = (SCALE as int) - mul_fp_spec(x2, c2) / 2;
    assert(d2 == 730560);
    assert(cos_core_spec(x) == 730560);
    assert(cos_fp_spec(x) == 730560);
    assert(mul_fp_spec(730560, 752194) == 524065);
}

/// The total weight is strictly positive: from elevation step 32 on, each
/// whole-table sum includes a strictly positive weight.
pub proof fn lemma_irr_wsum_pos(env: TextureCubeMap, right: Vec3Fp, up: Vec3Fp, n: Vec3Fp, k: int)
    requires
        33 <= k <= 15876,
    ensures
        irr_accum_spec(env, right, up, n, k).3 >= irr_sample_spec(0, 32).3,
        irr_accum_spec(env, right, up, n, k).3 > 0,
    decreases k,
{
    lemma_irr_w32_value();
    if k == 33 {
        lemma_irr_wsum_nonneg(env, right, up, n, 32);
        assert((32int) / 63 == 0 && (32int) % 63 == 32) by {
            lemma_fundamental_div_mod_converse(32, 63, 0, 32);
        }
    } else {
        lemma_irr_wsum_pos(env, right, up, n, k - 1);
        lemma_multiply_divide_lt(k - 1, 63, 252);
        lemma_div_pos_is_pos(k - 1, 63);
        lemma_mod_division_less_than_divisor(k - 1, 63);
        lemma_irr_sample_range((k - 1) / 63, (k - 1) % 63);
    }
}

/// The normalized, pi-scaled irradiance from a weighted sum.
pub open spec fn irr_value_spec(sum_ch: int, sum_w: int) -> int {
    if sum_w > 0 {
        ((PI_FP as int) * sum_ch) / (sum_w * (SCALE as int))
    } else {
        0
    }
}

/// Executable form of `irr_value_spec`.
fn irr_value(sum_ch: i128, sum_w: i128) -> (r: i64)
    requires
        0 <= sum_ch,
        0 <= sum_w <= 16647192576,
        sum_ch <= (RAD_MAX as int) * (sum_w as int),
    ensures
        r as int == irr_value_spec(sum_ch as int, sum_w as int),
        0 <= r <= 3373259776,
{
    if sum_w <= 0 {
        return 0;
    }
    proof {
        assert((PI_FP as int) * (sum_ch as int) <= (3294199 * 1073741824) * (sum_w as int)
            && 0 <= (PI_FP as int) * (sum_ch as int) && 0 < (sum_w as int) * (SCALE as int) && (
        sum_w as int) * (SCALE as int) <= 17455846602571776int) by (nonlinear_arith)
            requires
                0 <= sum_ch <= 1073741824 * (sum_w as int) && 0 < sum_w <= 16647192576int,
        ;
        lemma_div_is_ordered(
            (PI_FP as int) * (sum_ch as int),
            (3294199 * 1073741824) * (sum_w as int),
            (sum_w as int) * (SCALE as int),
        );
        lemma_cancel_scale_factor(3294199int * 1073741824, sum_w as int);
        lemma_div_pos_is_pos((PI_FP as int) * (sum_ch as int), (sum_w as int) * (SCALE as int));
    }
    let num: u128 = (PI_FP as u128) * (sum_ch as u128);
    let den: u128 = (sum_w as u128) * (SCALE as u128);
    let q: u128 = num / den;
    q as i64
}

/// The irradiance texel of face `f`, pixel `(x, y)`: the tangent frame
/// around the texel direction, the full weighted hemisphere sum over the
/// environment, normalized and scaled by pi.
pub open spec fn irr_texel_spec(env: TextureCubeMap, f: int, x: int, y: int) -> Texel {
    let d = face_dir_spec(f, x, y, 32);
    let n = normalize_fp_spec(Vec3Fp { x: d.0 as i64, y: d.1 as i64, z: d.2 as i64 });
    let ru = tangent_basis_spec(n);
    let acc = irr_accum_spec(env, ru.0, ru.1, n, 15876);
    Texel {
        r: irr_value_spec(acc.0, acc.3) as i64,
        g: irr_value_spec(acc.1, acc.3) as i64,
        b: irr_value_spec(acc.2, acc.3) as i64,
    }
}

/// The whole irradiance level, face-major at resolution 32.
pub open spec fn irradiance_map_spec(env: TextureCubeMap) -> Seq<Texel> {
    Seq::new(6144, |i: int| irr_texel_spec(env, i / 1024, (i % 1024) % 32, (i % 1024) / 32))
}

/// Irradiance texels are bracketed by pi times the environment's radiance
/// bounds.
pub proof fn lemma_irr_texel_within(env: TextureCubeMap, f: int, x: int, y: int, lo: int, hi: int)
    requires
        env.wf(),
        env.all_within(lo, hi),
        0 <= lo <= hi <= RAD_MAX as int,
    ensures
        texel_within(
            irr_texel_spec(env, f, x, y),
            tdiv((PI_FP as int) * lo, SCALE as int),
            tdiv((PI_FP as int) * hi, SCALE as int),
        ),
{
    let d = face_dir_spec(f, x, y, 32);
    let n = normalize_fp_spec(Vec3Fp { x: d.0 as i64, y: d.1 as i64, z: d.2 as i64 });
    let ru = tangent_basis_spec(n);
    let acc = irr_accum_spec(env, ru.0, ru.1, n, 15876);
    lemma_irr_acc_bounds(env, ru.0, ru.1, n, lo, hi, 15876);
    lemma_irr_wsum_pos(env, ru.0, ru.1, n, 15876);
    lemma_irr_channel_bracket(acc.0, acc.3, lo, hi);
    lemma_irr_channel_bracket(acc.1, acc.3, lo, hi);
    lemma_irr_channel_bracket(acc.2, acc.3, lo, hi);
}

/// One channel of the normalized value is bracketed by the pi-scaled
/// bounds.
proof fn lemma_irr_channel_bracket(sum_ch: int, sum_w: int, lo: int, hi: int)
    requires
        0 < sum_w,
        lo * sum_w <= sum_ch <= hi * sum_w,
        0 <= lo <= hi,
    ensures
        tdiv((PI_FP as int) * lo, SCALE as int) <= irr_value_spec(sum_ch, sum_w) <= tdiv(
            (PI_FP as int) * hi,
            SCALE as int,
        ),
{
    let pi = PI_FP as int;
    assert(pi * (lo * sum_w) == (pi * lo) * sum_w && pi * (hi * sum_w) == (pi * hi) * sum_w
        && pi * (lo * sum_w) <= pi * sum_ch <= pi * (hi * sum_w) && 0 < sum_w * (SCALE as int))
        by (nonlinear_arith)
        requires
            lo * sum_w <= sum_ch <= hi * sum_w && 0 < sum_w && 0 <= lo <= hi && pi == 3294199,
    ;
    lemma_div_is_ordered((pi * lo) * sum_w, pi * sum_ch, sum_w * (SCALE as int));
    lemma_div_is_ordered(pi * sum_ch, (pi * hi) * sum_w, sum_w * (SCALE as int));
    assert(0 <= pi * lo && 0 <= pi * hi) by (nonlinear_arith)
        requires
            0 <= lo <= hi && pi == 3294199,
    ;
    lemma_cancel_scale_factor(pi * lo, sum_w);
    lemma_cancel_scale_factor(pi * hi, sum_w);
}

/// On a constant environment of radiance `c`, every irradiance texel is
/// exactly `pi * c`, truncated to the fixed-point grid.
pub proof fn lemma_irr_texel_constant(env: TextureCubeMap, f: int, x: int, y: int, c: int)
    requires
        env.wf(),
        env.all_constant(c),
        0 <= c <= RAD_MAX as int,
    ensures
        texel_constant(irr_texel_spec(env, f, x, y), tdiv((PI_FP as int) * c, SCALE as int)),
{
    assert forall|m: int, i: int|
        0 <= m < env.mips@.len() && 0 <= i < env.mips@[m]@.len() implies texel_within(
        #[trigger] env.mips@[m]@[i],
        c,
        c,
    ) by {
        assert(texel_constant(env.mips@[m]@[i], c));
    }
    lemma_irr_texel_within(env, f, x, y, c, c);
    let t = irr_texel_spec(env, f, x, y);
    assert(texel_within(t, tdiv((PI_FP as int) * c, SCALE as int), tdiv((PI_FP as int) * c, SCALE as int)));
}

/// One output texel, computed against the precomputed sample table.
#[verifier::loop_isolation(false)]
fn irradiance_texel(
    env: &TextureCubeMap,
    samples: &Vec<IrrSample>,
    f: usize,
    x: usize,
    y: usize,
) -> (t: Texel)
    requires
        env.wf(),
        env.all_within(0, RAD_MAX as int),
        irr_table_ok(samples@),
        f < 6,
        x < 32,
        y < 32,
    ensures
        t == irr_texel_spec(*env, f as int, x as int, y as int),
        texel_wf(t),
        0 <= t.r <= 3373259776,
        0 <= t.g <= 3373259776,
        0 <= t.b <= 3373259776,
{
    let d: (i64, i64, i64) = face_dir(f, x, y, IRR_MAP_SIZE);
    let n: Vec3Fp = normalize_fp(Vec3Fp { x: d.0, y: d.1, z: d.2 });
    let ru: (Vec3Fp, Vec3Fp) = tangent_basis(n);
    let right: Vec3Fp = ru.0;
    let up: Vec3Fp = ru.1;
    let mut acc_r: i128 = 0;
    let mut acc_g: i128 = 0;
    let mut acc_b: i128 = 0;
    let mut acc_w: i128 = 0;
    let mut k: usize = 0;
    while k < 15876
        invariant
            0 <= k <= 15876,
            acc_r as int == irr_accum_spec(*env, right, up, n, k as int).0,
            acc_g as int == irr_accum_spec(*env, right, up, n, k as int).1,
            acc_b as int == irr_accum_spec(*env, right, up, n, k as int).2,
            acc_w as int == irr_accum_spec(*env, right, up, n, k as int).3,
            0 <= acc_r <= (k as int) * 4503599627370496,
            0 <= acc_g <= (k as int) * 4503599627370496,
            0 <= acc_b <= (k as int) * 4503599627370496,
            0 <= acc_w <= (k as int) * 1048576,
        decreases 15876 - k,
    {
        let s: IrrSample = samples[k];
        proof {
            lemma_multiply_divide_lt(k as int, 63, 252);
            lemma_div_pos_is_pos(k as int, 63);
            lemma_mod_division_less_than_divisor(k as int, 63);
            lemma_irr_sample_range((k as int) / 63, (k as int) % 63);
        }
        let wd: Vec3Fp = basis_combine(right, up, n, s.tx, s.ty, s.tz);
        let tex: Texel = sample_cube(env, wd.x, wd.y, wd.z, 0);
        proof {
            assert(0 <= (tex.r as int) * (s.w as int) <= 4503599627370496int && 0 <= (
            tex.g as int) * (s.w as int) <= 4503599627370496int && 0 <= (tex.b as int) * (
            s.w as int) <= 4503599627370496int) by (nonlinear_arith)
                requires
                    0 <= tex.r <= 4294967296int && 0 <= tex.g <= 4294967296int && 0 <= tex.b
                        <= 4294967296int && 0 <= s.w <= 1048576int,
            ;
            assert(((k as int) + 1) * 4503599627370496 == (k as int) * 4503599627370496
                + 4503599627370496) by (nonlinear_arith);
            assert(((k as int) + 1) * 1048576 == (k as int) * 1048576 + 1048576)
                by (nonlinear_arith);
        }
        acc_r = acc_r + (tex.r as i128) * (s.w as i128);
        acc_g = acc_g + (tex.g as i128) * (s.w as i128);
        acc_b = acc_b + (tex.b as i128) * (s.w as i128);
        acc_w = acc_w + (s.w as i128);
        k = k + 1;
    }
    proof {
        lemma_irr_acc_bounds(*env, right, up, n, 0, RAD_MAX as int, 15876);
        assert(0 * irr_accum_spec(*env, right, up, n, 15876).3 == 0) by (nonlinear_arith);
    }
    let tr: i64 = irr_value(acc_r, acc_w);
    let tg: i64 = irr_value(acc_g, acc_w);
    let tb: i64 = irr_value(acc_b, acc_w);
    Texel { r: tr, g: tg, b: tb }
}

/// Convolves the environment cubemap into a 32x32-per-face irradiance
/// cubemap.
///
/// The result has exactly one mip level at face resolution 32, every texel
/// lies between pi times the environment's radiance bounds, and a constant
/// environment of radiance `c` yields exactly `pi * c` everywhere.
#[verifier::loop_isolation(false)]
pub fn compute_irradiance_map(hdr_environmental_map: &TextureCubeMap) -> (irr: TextureCubeMap)
    requires
        hdr_environmental_map.wf(),
        hdr_environmental_map.all_within(0, RAD_MAX as int),
    ensures
        irr.wf(),
        irr.face_resolution == 32,
        irr.mips@.len() == 1,
        irr.mips@[0]@ == irradiance_map_spec(*hdr_environmental_map),
        forall|lo: int, hi: int|
            0 <= lo && hi <= RAD_MAX && hdr_environmental_map.all_within(lo, hi)
                ==> irr.all_within(
                tdiv((PI_FP as int) * lo, SCALE as int),
                tdiv((PI_FP as int) * hi, SCALE as int),
            ),
        forall|c: int|
            0 <= c <= RAD_MAX && hdr_environmental_map.all_constant(c) ==> irr.all_constant(
                tdiv((PI_FP as int) * c, SCALE as int),
            ),
{
    let env = hdr_environmental_map;
    let samples: Vec<IrrSample> = build_irr_samples();
    let mut data: Vec<Texel> = Vec::new();
    let mut f: usize = 0;
    while f < 6
        invariant
            0 <= f <= 6,
            data@.len() == (f as int) * 1024,
            irr_table_ok(samples@),
            forall|j: int|
                0 <= j < data@.len() ==> #[trigger] data@[j] == irradiance_map_spec(*env)[j],
            forall|j: int| 0 <= j < data@.len() ==> texel_wf(#[trigger] data@[j]),
        decreases 6 - f,
    {
        let mut y: usize = 0;
        while y < 32
            invariant
                0 <= y <= 32,
                data@.len() == (f as int) * 1024 + (y as int) * 32,
                forall|j: int|
                    0 <= j < data@.len() ==> #[trigger] data@[j] == irradiance_map_spec(*env)[j],
                forall|j: int| 0 <= j < data@.len() ==> texel_wf(#[trigger] data@[j]),
            decreases 32 - y,
        {
            let mut x: usize = 0;
            while x < 32
                invariant
                    0 <= x <= 32,
                    data@.len() == (f as int) * 1024 + (y as int) * 32 + (x as int),
                    forall|j: int|
                        0 <= j < data@.len() ==> #[trigger] data@[j] == irradiance_map_spec(
                            *env,
                        )[j],
                    forall|j: int| 0 <= j < data@.len() ==> texel_wf(#[trigger] data@[j]),
                decreases 32 - x,
            {
                let t: Texel = irradiance_texel(env, &samples, f, x, y);
                proof {
                    let i0 = data@.len() as int;
                    lemma_fundamental_div_mod_converse(
                        i0,
                        1024,
                        f as int,
                        (y as int) * 32 + (x as int),
                    );
                    lemma_fundamental_div_mod_converse(
                        (y as int) * 32 + (x as int),
                        32,
                        y as int,
                        x as int,
                    );
                    assert(irradiance_map_spec(*env)[i0] == irr_texel_spec(
                        *env,
                        f as int,
                        x as int,
                        y as int,
                    ));
                }
                data.push(t);
                x = x + 1;
            }
            y = y + 1;
        }
        f = f + 1;
    }
    let mut mips: Vec<Vec<Texel>> = Vec::new();
    mips.push(data);
    let irr = TextureCubeMap { face_resolution: IRR_MAP_SIZE, mips };
    proof {
        assert(mip_res_spec(32, 0) == 32);
        assert(irr.mips@[0]@ =~= irradiance_map_spec(*env));
        assert forall|m: int, i: int|
            0 <= m < irr.mips@.len() && 0 <= i < irr.mips@[m]@.len() implies texel_wf(
            #[trigger] irr.mips@[m]@[i],
        ) by {
            assert(irr.mips@[m]@[i] == irr.mips@[0]@[i]);
        }
        assert(irr.wf());
        assert forall|lo: int, hi: int|
            0 <= lo && hi <= RAD_MAX && env.all_within(lo, hi) implies irr.all_within(
            tdiv((PI_FP as int) * lo, SCALE as int),
            tdiv((PI_FP as int) * hi, SCALE as int),
        ) by {
            assert(1 <= 6 * mip_res_spec(env.face_resolution as int, 0) * mip_res_spec(
                env.face_resolution as int,
                0,
            )) by {
                crate::sample::lemma_mip_res_bounds(env.face_resolution as int, 0);
                assert(1 * 1 <= mip_res_spec(env.face_resolution as int, 0) * mip_res_spec(
                    env.face_resolution as int,
                    0,
                ) && 6 * mip_res_spec(env.face_resolution as int, 0) * mip_res_spec(
                    env.face_resolution as int,
                    0,
                ) == 6 * (mip_res_spec(env.face_resolution as int, 0) * mip_res_spec(
                    env.face_resolution as int,
                    0,
                ))) by (nonlinear_arith)
                    requires
                        1 <= mip_res_spec(env.face_resolution as int, 0),
                ;
            }
            assert(texel_within(env.mips@[0]@[0], lo, hi));
            assert forall|m: int, i: int|
                0 <= m < irr.mips@.len() && 0 <= i < irr.mips@[m]@.len() implies texel_within(
                #[trigger] irr.mips@[m]@[i],
                tdiv((PI_FP as int) * lo, SCALE as int),
                tdiv((PI_FP as int) * hi, SCALE as int),
            ) by {
                lemma_multiply_divide_lt(i, 1024, 6);
                lemma_div_pos_is_pos(i, 1024);
                lemma_mod_division_less_than_divisor(i, 1024);
                lemma_multiply_divide_lt(i % 1024, 32, 32);
                lemma_div_pos_is_pos(i % 1024, 32);
                lemma_mod_division_less_than_divisor(i % 1024, 32);
                lemma_irr_texel_within(*env, i / 1024, (i % 1024) % 32, (i % 1024) / 32, lo, hi);
            }
        }
        assert forall|c: int|
            0 <= c <= RAD_MAX && env.all_constant(c) implies irr.all_constant(
            tdiv((PI_FP as int) * c, SCALE as int),
        ) by {
            assert forall|m: int, i: int|
                0 <= m < irr.mips@.len() && 0 <= i < irr.mips@[m]@.len() implies texel_constant(
                #[trigger] irr.mips@[m]@[i],
                tdiv((PI_FP as int) * c, SCALE as int),
            ) by {
                lemma_multiply_divide_lt(i, 1024, 6);
                lemma_div_pos_is_pos(i, 1024);
                lemma_mod_division_less_than_divisor(i, 1024);
                lemma_multiply_divide_lt(i % 1024, 32, 32);
                lemma_div_pos_is_pos(i % 1024, 32);
                lemma_mod_division_less_than_divisor(i % 1024, 32);
                lemma_irr_texel_constant(*env, i / 1024, (i % 1024) % 32, (i % 1024) / 32, c);
            }
        }
    }
    irr
}

} // verus!
