//! Fixed-point trigonometry.
//!
//! Sine and cosine use degree-9 and degree-8 truncated power series on the
//! first quadrant with explicit quadrant reduction; the inverse functions
//! use a degree-9 minimax polynomial for the arctangent on `[0, 1]` together
//! with octant reduction.  Each executable function is specified exactly by
//! the spec function of the same shape, so results are pure functions of the
//! arguments.

use crate::fixed::{
    clamp_fp, clamp_fp_spec, div_fp, div_fp_spec, div_nonneg, iabs, lemma_div_fp_unit,
    lemma_mul_fp_abs_bound, lemma_mul_fp_bounds, lemma_tdiv_nonneg, mul_fp, mul_fp_spec, sqrt_fp,
    sqrt_fp_spec, FP_INPUT_MAX, HALF_PI_FP, PI_FP, QUARTER_PI_FP, SCALE, TWO_PI_FP,
};
use vstd::prelude::*;

verus! {

/// 3*pi/2 scaled by `SCALE`; equals `PI_FP + HALF_PI_FP`.
pub const THREE_HALF_PI_FP: i64 = 4941298;

/// Arctangent polynomial coefficients, scaled by `SCALE`.
pub const ATAN_C0: i64 = 1048436;

pub const ATAN_C1: i64 = -346344;

pub const ATAN_C2: i64 = 188892;

pub const ATAN_C3: i64 = -89269;

pub const ATAN_C4: i64 = 21847;

/// First-quadrant sine: `x - x^3/6 + x^5/120 - x^7/5040 + x^9/362880`,
/// evaluated by Horner's rule and clamped to `[0, 1]`.
pub open spec fn sin_core_spec(x: int) -> int {
    let x2 = mul_fp_spec(x, x);
    let a = (SCALE as int) - x2 / 72;
    let b = (SCALE as int) - mul_fp_spec(x2, a) / 42;
    let c = (SCALE as int) - mul_fp_spec(x2, b) / 20;
    let d = (SCALE as int) - mul_fp_spec(x2, c) / 6;
    clamp_fp_spec(mul_fp_spec(x, d), 0, SCALE as int)
}

/// First-quadrant cosine: `1 - x^2/2 + x^4/24 - x^6/720 + x^8/40320`,
/// evaluated by Horner's rule and clamped to `[0, 1]`.
pub open spec fn cos_core_spec(x: int) -> int {
    let x2 = mul_fp_spec(x, x);
    let a = (SCALE as int) - x2 / 56;
    let b = (SCALE as int) - mul_fp_spec(x2, a) / 30;
    let c = (SCALE as int) - mul_fp_spec(x2, b) / 12;
    let d = (SCALE as int) - mul_fp_spec(x2, c) / 2;
    clamp_fp_spec(d, 0, SCALE as int)
}

/// Sine on `[0, 2*pi]`, by quadrant reduction to `sin_core_spec`.
pub open spec fn sin_fp_spec(x: int) -> int
    recommends
        0 <= x <= TWO_PI_FP as int,
{
    if x <= HALF_PI_FP as int {
        sin_core_spec(x)
    } else if x <= PI_FP as int {
        sin_core_spec((PI_FP as int) - x)
    } else if x <= THREE_HALF_PI_FP as int {
        -sin_core_spec(x - (PI_FP as int))
    } else {
        -sin_core_spec((TWO_PI_FP as int) - x)
    }
}

/// Cosine on `[0, 2*pi]`, by quadrant reduction to `cos_core_spec`.
pub open spec fn cos_fp_spec(x: int) -> int
    recommends
        0 <= x <= TWO_PI_FP as int,
{
    if x <= HALF_PI_FP as int {
        cos_core_spec(x)
    } else if x <= PI_FP as int {
        -cos_core_spec((PI_FP as int) - x)
    } else if x <= THREE_HALF_PI_FP as int {
        -cos_core_spec(x - (PI_FP as int))
    } else {
        cos_core_spec((TWO_PI_FP as int) - x)
    }
}

/// Arctangent on `[0, 1]`, degree-9 odd polynomial, clamped to `[0, pi/4]`.
pub open spec fn atan_core_spec(t: int) -> int {
    let t2 = mul_fp_spec(t, t);
    let h3 = (ATAN_C3 as int) + mul_fp_spec(t2, ATAN_C4 as int);
    let h2 = (ATAN_C2 as int) + mul_fp_spec(t2, h3);
    let h1 = (ATAN_C1 as int) + mul_fp_spec(t2, h2);
    let h0 = (ATAN_C0 as int) + mul_fp_spec(t2, h1);
    clamp_fp_spec(mul_fp_spec(t, h0), 0, QUARTER_PI_FP as int)
}

/// Full-circle arctangent of `y / x`, in `[-pi, pi]`; zero when both
/// arguments are zero.
pub open spec fn atan2_fp_spec(y: int, x: int) -> int {
    let ax = iabs(x);
    let ay = iabs(y);
    if ax == 0 && ay == 0 {
        0
    } else {
        let base = if ay <= ax {
            atan_core_spec(div_fp_spec(ay, ax))
        } else {
            (HALF_PI_FP as int) - atan_core_spec(div_fp_spec(ax, ay))
        };
        if x >= 0 && y >= 0 {
            base
        } else if x < 0 && y >= 0 {
            (PI_FP as int) - base
        } else if x < 0 {
            -((PI_FP as int) - base)
        } else {
            -base
        }
    }
}

/// Arcsine of a value in `[-1, 1]`, via `atan2(y, sqrt(1 - y^2))`.
pub open spec fn asin_fp_spec(y: int) -> int
    recommends
        -(SCALE as int) <= y <= SCALE as int,
{
    atan2_fp_spec(y, sqrt_fp_spec((SCALE as int) - mul_fp_spec(y, y)))
}

/// First-quadrant sine.
pub fn sin_core(x: i64) -> (r: i64)
    requires
        0 <= x <= HALF_PI_FP,
    ensures
        r == sin_core_spec(x as int),
        0 <= r <= SCALE,
{
    let x2: i64 = mul_fp(x, x);
    proof {
        lemma_mul_fp_bounds(x as int, x as int, HALF_PI_FP as int, HALF_PI_FP as int);
    }
    let a: i64 = SCALE - div_nonneg(x2, 72);
    proof {
        lemma_mul_fp_bounds(x2 as int, a as int, 2600000, SCALE as int);
    }
    let b: i64 = SCALE - div_nonneg(mul_fp(x2, a), 42);
    proof {
        lemma_mul_fp_bounds(x2 as int, b as int, 2600000, SCALE as int);
    }
    let c: i64 = SCALE - div_nonneg(mul_fp(x2, b), 20);
    proof {
        lemma_mul_fp_bounds(x2 as int, c as int, 2600000, SCALE as int);
    }
    let d: i64 = SCALE - div_nonneg(mul_fp(x2, c), 6);
    proof {
        lemma_mul_fp_bounds(x as int, d as int, HALF_PI_FP as int, SCALE as int);
    }
    clamp_fp(mul_fp(x, d), 0, SCALE)
}

/// First-quadrant cosine.
pub fn cos_core(x: i64) -> (r: i64)
    requires
        0 <= x <= HALF_PI_FP,
    ensures
        r == cos_core_spec(x as int),
        0 <= r <= SCALE,
{
    let x2: i64 = mul_fp(x, x);
    proof {
        lemma_mul_fp_bounds(x as int, x as int, HALF_PI_FP as int, HALF_PI_FP as int);
    }
    let a: i64 = SCALE - div_nonneg(x2, 56);
    proof {
        lemma_mul_fp_bounds(x2 as int, a as int, 2600000, SCALE as int);
    }
    let b: i64 = SCALE - div_nonneg(mul_fp(x2, a), 30);
    proof {
        lemma_mul_fp_bounds(x2 as int, b as int, 2600000, SCALE as int);
    }
    let c: i64 = SCALE - div_nonneg(mul_fp(x2, b), 12);
    proof {
        lemma_mul_fp_bounds(x2 as int, c as int, 2600000, SCALE as int);
    }
    let d: i64 = SCALE - div_nonneg(mul_fp(x2, c), 2);
    clamp_fp(d, 0, SCALE)
}

/// Sine on `[0, 2*pi]`.
pub fn sin_fp(x: i64) -> (r: i64)
    requires
        0 <= x <= TWO_PI_FP,
    ensures
        r == sin_fp_spec(x as int),
        -SCALE <= r <= SCALE,
{
    if x <= HALF_PI_FP {
        sin_core(x)
    } else if x <= PI_FP {
        sin_core(PI_FP - x)
    } else if x <= THREE_HALF_PI_FP {
        -sin_core(x - PI_FP)
    } else {
        -sin_core(TWO_PI_FP - x)
    }
}

/// Cosine on `[0, 2*pi]`.
pub fn cos_fp(x: i64) -> (r: i64)
    requires
        0 <= x <= TWO_PI_FP,
    ensures
        r == cos_fp_spec(x as int),
        -SCALE <= r <= SCALE,
{
    if x <= HALF_PI_FP {
        cos_core(x)
    } else if x <= PI_FP {
        -cos_core(PI_FP - x)
    } else if x <= THREE_HALF_PI_FP {
        -cos_core(x - PI_FP)
    } else {
        cos_core(TWO_PI_FP - x)
    }
}

/// Arctangent on `[0, 1]`.
pub fn atan_core(t: i64) -> (r: i64)
    requires
        0 <= t <= SCALE,
    ensures
        r == atan_core_spec(t as int),
        0 <= r <= QUARTER_PI_FP,
{
    let t2: i64 = mul_fp(t, t);
    proof {
        lemma_mul_fp_bounds(t as int, t as int, SCALE as int, SCALE as int);
        lemma_mul_fp_abs_bound(t2 as int, ATAN_C4 as int, SCALE as int, 21847);
    }
    let h3: i64 = ATAN_C3 + mul_fp(t2, ATAN_C4);
    proof {
        lemma_mul_fp_abs_bound(t2 as int, h3 as int, SCALE as int, 111116);
    }
    let h2: i64 = ATAN_C2 + mul_fp(t2, h3);
    proof {
        lemma_mul_fp_abs_bound(t2 as int, h2 as int, SCALE as int, 300008);
    }
    let h1: i64 = ATAN_C1 + mul_fp(t2, h2);
    proof {
        lemma_mul_fp_abs_bound(t2 as int, h1 as int, SCALE as int, 646352);
    }
    let h0: i64 = ATAN_C0 + mul_fp(t2, h1);
    proof {
        lemma_mul_fp_abs_bound(t as int, h0 as int, SCALE as int, 1694788);
    }
    clamp_fp(mul_fp(t, h0), 0, QUARTER_PI_FP)
}

/// Full-circle arctangent.
pub fn atan2_fp(y: i64, x: i64) -> (r: i64)
    requires
        -FP_INPUT_MAX <= y <= FP_INPUT_MAX,
        -FP_INPUT_MAX <= x <= FP_INPUT_MAX,
    ensures
        r == atan2_fp_spec(y as int, x as int),
        -PI_FP <= r <= PI_FP,
        x >= 0 ==> -HALF_PI_FP <= r <= HALF_PI_FP,
{
    let ax: i64 = if x >= 0 {
        x
    } else {
        -x
    };
    let ay: i64 = if y >= 0 {
        y
    } else {
        -y
    };
    if ax == 0 && ay == 0 {
        return 0;
    }
    let base: i64 = if ay <= ax {
        proof {
            lemma_div_fp_unit(ay as int, ax as int);
        }
        atan_core(div_fp(ay, ax))
    } else {
        proof {
            lemma_div_fp_unit(ax as int, ay as int);
        }
        HALF_PI_FP - atan_core(div_fp(ax, ay))
    };
    if x >= 0 && y >= 0 {
        base
    } else if x < 0 && y >= 0 {
        PI_FP - base
    } else if x < 0 {
        -(PI_FP - base)
    } else {
        -base
    }
}

/// Arcsine.
pub fn asin_fp(y: i64) -> (r: i64)
    requires
        -SCALE <= y <= SCALE,
    ensures
        r == asin_fp_spec(y as int),
        -HALF_PI_FP <= r <= HALF_PI_FP,
{
    proof {
        lemma_mul_fp_abs_bound(y as int, y as int, SCALE as int, SCALE as int);
        assert((y as int) * (y as int) >= 0) by (nonlinear_arith);
        lemma_tdiv_nonneg((y as int) * (y as int), SCALE as int);
    }
    let ys: i64 = mul_fp(y, y);
    let c: i64 = SCALE - ys;
    let x: i64 = sqrt_fp(c);
    proof {
        assert(x <= SCALE) by (nonlinear_arith)
            requires
                x >= 0 && (x as int) * (x as int) <= 1099511627776int,
        ;
    }
    atan2_fp(y, x)
}

} // verus!
