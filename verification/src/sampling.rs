//! GGX importance sampling over the Hammersley sequence.
//!
//! Sample `i` of 1024 uses the low-discrepancy pair
//! `(i/1024, radical_inverse_2(i))`, where the radical inverse reverses the
//! ten low bits of `i`.  The pair drives the usual GGX half-vector
//! construction around the +Z axis; the light direction is the reflection
//! of +Z about the half vector.  Everything is a pure function of `i` and
//! the roughness, which is what makes the prefilter deterministic.

use crate::fixed::{
    clamp_fp, clamp_fp_spec, div_fp, div_fp_spec, lemma_mul_fp_abs_bound, lemma_mul_fp_unit,
    lemma_sqrt_fp_unit, lemma_sqrt_nat_unique, lemma_tdiv_nonneg, mul_fp, mul_fp_spec, sqrt_fp,
    sqrt_fp_spec, SCALE, TWO_PI_FP,
};
use crate::trig::{cos_fp, cos_fp_spec, sin_fp, sin_fp_spec};
use vstd::arithmetic::div_mod::{
    lemma_div_is_ordered, lemma_div_is_ordered_by_denominator, lemma_div_multiples_vanish,
    lemma_div_pos_is_pos,
};
use vstd::arithmetic::power2::{lemma2_to64, lemma_pow2_adds, lemma_pow2_strictly_increases, pow2};
use vstd::prelude::*;

verus! {

/// Samples drawn per prefiltered or integrated texel.
pub const GGX_SAMPLE_COUNT: usize = 1024;

/// The bit-reversal state after `k` steps: the accumulated reversed bits
/// and the remaining value.
pub open spec fn vdc_state_spec(i: int, k: int) -> (int, int)
    decreases k,
{
    if k <= 0 {
        (0, i)
    } else {
        let p = vdc_state_spec(i, k - 1);
        (2 * p.0 + p.1 % 2, p.1 / 2)
    }
}

/// The first Hammersley coordinate of sample `i`: `i / 1024` scaled.
pub open spec fn hammersley_x_spec(i: int) -> int {
    i * 1024
}

/// The second Hammersley coordinate: the ten-bit radical inverse of `i`,
/// scaled to `[0, SCALE)`.
pub open spec fn hammersley_y_spec(i: int) -> int {
    vdc_state_spec(i, 10).0 * 1024
}

/// The reversal state stays in range.
pub proof fn lemma_vdc_state_bound(i: int, k: int)
    requires
        0 <= i,
        0 <= k,
    ensures
        0 <= vdc_state_spec(i, k).0 < pow2(k as nat),
        0 <= vdc_state_spec(i, k).1,
    decreases k,
{
    if k == 0 {
        lemma2_to64();
    } else {
        lemma_vdc_state_bound(i, k - 1);
        lemma_pow2_adds((k - 1) as nat, 1);
        lemma2_to64();
        let p = vdc_state_spec(i, k - 1);
        vstd::arithmetic::div_mod::lemma_mod_division_less_than_divisor(p.1, 2);
        lemma_div_pos_is_pos(p.1, 2);
    }
}

/// The radical inverse of zero is zero.
pub proof fn lemma_vdc_zero(k: int)
    requires
        0 <= k,
    ensures
        vdc_state_spec(0, k).0 == 0,
        vdc_state_spec(0, k).1 == 0,
    decreases k,
{
    if k > 0 {
        lemma_vdc_zero(k - 1);
    }
}

/// The Hammersley pair of sample `i`.
#[verifier::loop_isolation(false)]
pub fn hammersley(i: usize) -> (xi: (i64, i64))
    requires
        i < 1024,
    ensures
        xi.0 == hammersley_x_spec(i as int),
        xi.1 == hammersley_y_spec(i as int),
        0 <= xi.0 <= 1047552,
        0 <= xi.1 <= 1047552,
{
    let mut acc: u64 = 0;
    let mut v: u64 = i as u64;
    let mut k: usize = 0;
    proof {
        lemma2_to64();
    }
    while k < 10
        invariant
            0 <= k <= 10,
            acc as int == vdc_state_spec(i as int, k as int).0,
            v as int == vdc_state_spec(i as int, k as int).1,
            acc < pow2(k as nat),
            v <= 1024,
        decreases 10 - k,
    {
        proof {
            lemma_vdc_state_bound(i as int, (k + 1) as int);
            if k < 10 {
                lemma_pow2_strictly_increases(k as nat, 10);
            }
            lemma2_to64();
        }
        acc = 2 * acc + v % 2;
        v = v / 2;
        k = k + 1;
    }
    proof {
        lemma_vdc_state_bound(i as int, 10);
        lemma2_to64();
    }
    ((i as i64) * 1024, (acc as i64) * 1024)
}

/// The GGX half vector of sample `i` at the given roughness, in tangent
/// space around +Z: `phi` from the first coordinate, `cos(theta)` from the
/// inverted GGX distribution on the second.
pub open spec fn ggx_half_spec(i: int, roughness: int) -> (int, int, int) {
    let xi1 = hammersley_x_spec(i);
    let xi2 = hammersley_y_spec(i);
    let a = mul_fp_spec(roughness, roughness);
    let a2 = mul_fp_spec(a, a);
    let phi = mul_fp_spec(TWO_PI_FP as int, xi1);
    let denom = (SCALE as int) + mul_fp_spec(a2 - (SCALE as int), xi2);
    let ratio = clamp_fp_spec(div_fp_spec((SCALE as int) - xi2, denom), 0, SCALE as int);
    let ct = sqrt_fp_spec(ratio);
    let st = sqrt_fp_spec((SCALE as int) - mul_fp_spec(ct, ct));
    (mul_fp_spec(st, cos_fp_spec(phi)), mul_fp_spec(st, sin_fp_spec(phi)), ct)
}

/// The tangent-space light direction: the +Z view reflected about the half
/// vector, `L = 2 (V . H) H - V`.  Its z component is `N . L`.
pub open spec fn ggx_light_spec(i: int, roughness: int) -> (int, int, int) {
    let h = ggx_half_spec(i, roughness);
    (
        2 * mul_fp_spec(h.2, h.0),
        2 * mul_fp_spec(h.2, h.1),
        2 * mul_fp_spec(h.2, h.2) - (SCALE as int),
    )
}

/// Executable GGX half vector.
pub fn ggx_half(i: usize, roughness: i64) -> (h: (i64, i64, i64))
    requires
        i < 1024,
        0 <= roughness <= SCALE,
    ensures
        h.0 == ggx_half_spec(i as int, roughness as int).0,
        h.1 == ggx_half_spec(i as int, roughness as int).1,
        h.2 == ggx_half_spec(i as int, roughness as int).2,
        -SCALE <= h.0 <= SCALE,
        -SCALE <= h.1 <= SCALE,
        32768 <= h.2 <= SCALE,
{
    let xi = hammersley(i);
    let a: i64 = mul_fp(roughness, roughness);
    proof {
        lemma_mul_fp_unit(roughness as int, roughness as int);
    }
    let a2: i64 = mul_fp(a, a);
    proof {
        lemma_mul_fp_unit(a as int, a as int);
        lemma_mul_fp_abs_bound(TWO_PI_FP as int, xi.0 as int, 6588397, 1047552);
        lemma_mul_fp_abs_bound(a2 as int - SCALE as int, xi.1 as int, 1048576, 1047552);
        lemma_tdiv_nonneg((TWO_PI_FP as int) * (xi.0 as int), SCALE as int);
    }
    let phi: i64 = mul_fp(TWO_PI_FP, xi.0);
    proof {
        assert((TWO_PI_FP as int) * (xi.0 as int) <= 6588397int * 1047552) by (nonlinear_arith)
            requires
                0 <= xi.0 <= 1047552int,
        ;
        lemma_div_is_ordered(
            (TWO_PI_FP as int) * (xi.0 as int),
            6588397int * 1047552,
            SCALE as int,
        );
    }
    let denom: i64 = SCALE + mul_fp(a2 - SCALE, xi.1);
    proof {
        lemma_mul_fp_abs_bound(a2 as int - SCALE as int, xi.1 as int, 1048576, xi.1 as int);
        lemma_div_multiples_vanish(xi.1 as int, 1048576);
        assert((a2 as int - SCALE as int) * (xi.1 as int) <= 0) by (nonlinear_arith)
            requires
                a2 <= SCALE && xi.1 >= 0,
        ;
        if (a2 as int - SCALE as int) * (xi.1 as int) < 0 {
            lemma_div_pos_is_pos(-((a2 as int - SCALE as int) * (xi.1 as int)), SCALE as int);
        }
        assert(mul_fp_spec(a2 as int - SCALE as int, xi.1 as int) <= 0);
    }
    let num: i64 = SCALE - xi.1;
    let q: i64 = div_fp(num, denom);
    proof {
        lemma_tdiv_nonneg((num as int) * (SCALE as int), denom as int);
        lemma_div_is_ordered_by_denominator((num as int) * (SCALE as int), denom as int, SCALE as int);
        lemma_div_multiples_vanish(num as int, SCALE as int);
        assert((num as int) * (SCALE as int) == (SCALE as int) * (num as int)) by (nonlinear_arith);
    }
    let ratio: i64 = clamp_fp(q, 0, SCALE);
    proof {
        assert(1024 <= ratio);
        crate::fixed::lemma_sqrt_fp_spec_bounds(ratio as int);
        lemma_sqrt_fp_unit(ratio as int);
    }
    let ct: i64 = sqrt_fp(ratio);
    proof {
        assert(32768 <= ct) by (nonlinear_arith)
            requires
                0 <= ct && ((ct as int) + 1) * ((ct as int) + 1) > (ratio as int) * (
                SCALE as int) && ratio >= 1024 && (ratio as int) * (SCALE as int) >= 1024 * (
                SCALE as int),
        ;
        lemma_mul_fp_unit(ct as int, ct as int);
        lemma_sqrt_fp_unit((SCALE as int) - mul_fp_spec(ct as int, ct as int));
    }
    let st: i64 = sqrt_fp(SCALE - mul_fp(ct, ct));
    proof {
        lemma_mul_fp_abs_bound(st as int, cos_fp_spec(phi as int), 1048576, 1048576);
        lemma_mul_fp_abs_bound(st as int, sin_fp_spec(phi as int), 1048576, 1048576);
    }
    let hx: i64 = mul_fp(st, cos_fp(phi));
    let hy: i64 = mul_fp(st, sin_fp(phi));
    (hx, hy, ct)
}

/// Executable tangent-space light direction with its `N . L`.
pub fn ggx_light(i: usize, roughness: i64) -> (l: (i64, i64, i64))
    requires
        i < 1024,
        0 <= roughness <= SCALE,
    ensures
        l.0 == ggx_light_spec(i as int, roughness as int).0,
        l.1 == ggx_light_spec(i as int, roughness as int).1,
        l.2 == ggx_light_spec(i as int, roughness as int).2,
        -2 * SCALE <= l.0 <= 2 * SCALE,
        -2 * SCALE <= l.1 <= 2 * SCALE,
        -SCALE <= l.2 <= SCALE,
{
    let h = ggx_half(i, roughness);
    proof {
        lemma_mul_fp_abs_bound(h.2 as int, h.0 as int, 1048576, 1048576);
        lemma_mul_fp_abs_bound(h.2 as int, h.1 as int, 1048576, 1048576);
        lemma_mul_fp_unit(h.2 as int, h.2 as int);
    }
    (2 * mul_fp(h.2, h.0), 2 * mul_fp(h.2, h.1), 2 * mul_fp(h.2, h.2) - SCALE)
}

/// Sample zero always points straight along the normal: its half vector is
/// +Z and its light direction is +Z with full weight.
pub proof fn lemma_ggx_sample_zero(roughness: int)
    requires
        0 <= roughness <= SCALE as int,
    ensures
        ggx_half_spec(0, roughness).0 == 0,
        ggx_half_spec(0, roughness).1 == 0,
        ggx_half_spec(0, roughness).2 == SCALE as int,
        ggx_light_spec(0, roughness).0 == 0,
        ggx_light_spec(0, roughness).1 == 0,
        ggx_light_spec(0, roughness).2 == SCALE as int,
{
    lemma_vdc_zero(10);
    let s = SCALE as int;
    assert(hammersley_y_spec(0) == 0);
    let a = mul_fp_spec(roughness, roughness);
    let a2 = mul_fp_spec(a, a);
    assert(mul_fp_spec(a2 - s, 0) == 0);
    assert(div_fp_spec(s, s) == s) by {
        lemma_div_multiples_vanish(s, s);
        assert(s * s == s * s);
    }
    assert(sqrt_fp_spec(s) == s) by {
        assert(0 <= s * s && (s + 1) * (s + 1) > s * s) by (nonlinear_arith)
            requires
                s == 1048576int,
        ;
        lemma_sqrt_nat_unique((s * s) as nat, s as nat);
    }
    assert(mul_fp_spec(s, s) == s) by {
        lemma_div_multiples_vanish(s, s);
    }
    assert(sqrt_fp_spec(0) == 0) by {
        assert(0 * 0 == 0 && (0 + 1) * (0 + 1) == 1) by (nonlinear_arith);
        lemma_sqrt_nat_unique(0, 0);
    }
    assert(mul_fp_spec(0, cos_fp_spec(mul_fp_spec(TWO_PI_FP as int, 0))) == 0);
    assert(mul_fp_spec(0, sin_fp_spec(mul_fp_spec(TWO_PI_FP as int, 0))) == 0);
}

} // verus!
