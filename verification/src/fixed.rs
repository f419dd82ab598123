//! Fixed-point scalar arithmetic.
//!
//! Radiance values, directions and trigonometric quantities are all carried
//! as `i64` values scaled by `SCALE` (so `SCALE` itself stands for 1.0).
//! Products and quotients are computed exactly in unsigned 64-bit
//! intermediates and truncated toward zero, which keeps every operation a
//! pure function of its arguments.

use vstd::arithmetic::div_mod::{
    lemma_div_is_ordered, lemma_div_multiples_vanish, lemma_div_nonincreasing,
    lemma_div_pos_is_pos,
};
use vstd::arithmetic::mul::{lemma_mul_inequality, lemma_mul_is_commutative};
use vstd::prelude::*;

verus! {

/// The fixed-point unit: stored value `SCALE` means 1.0.
pub const SCALE: i64 = 1048576;

/// Largest magnitude accepted by the arithmetic helpers; chosen so that a
/// product of two operands fits in an unsigned 64-bit intermediate and the
/// scaled results fit in `i64`.
pub const FP_INPUT_MAX: i64 = 2000000000;

/// pi scaled by `SCALE`.
pub const PI_FP: i64 = 3294199;

/// 2*pi scaled by `SCALE`.
pub const TWO_PI_FP: i64 = 6588397;

/// pi/2 scaled by `SCALE`.
pub const HALF_PI_FP: i64 = 1647099;

/// pi/4 scaled by `SCALE`.
pub const QUARTER_PI_FP: i64 = 823550;

/// Magnitude of an integer.
pub open spec fn iabs(x: int) -> int {
    if x >= 0 {
        x
    } else {
        -x
    }
}

/// Division truncated toward zero, for positive divisors.  On non-negative
/// numerators this agrees with Euclidean division.
pub open spec fn tdiv(a: int, d: int) -> int
    recommends
        d > 0,
{
    if a >= 0 {
        a / d
    } else {
        -((-a) / d)
    }
}

/// The fixed-point product: `a * b / SCALE`, truncated toward zero.
pub open spec fn mul_fp_spec(a: int, b: int) -> int {
    tdiv(a * b, SCALE as int)
}

/// The fixed-point quotient: `a * SCALE / b`, truncated toward zero.
pub open spec fn div_fp_spec(a: int, b: int) -> int
    recommends
        b > 0,
{
    tdiv(a * (SCALE as int), b)
}

proof fn lemma_abs_mul(a: int, b: int)
    by (nonlinear_arith)
    ensures
        iabs(a * b) == iabs(a) * iabs(b),
{
}

/// Truncating division of a magnitude pair equals `tdiv` of the signed value.
proof fn lemma_tdiv_via_abs(p: int, d: int, q: int)
    requires
        d > 0,
        q == iabs(p) / d,
    ensures
        tdiv(p, d) == if p >= 0 {
            q
        } else {
            -q
        },
{
}

/// Fixed-point multiplication.
pub fn mul_fp(a: i64, b: i64) -> (r: i64)
    requires
        -FP_INPUT_MAX <= a <= FP_INPUT_MAX,
        -FP_INPUT_MAX <= b <= FP_INPUT_MAX,
    ensures
        r == mul_fp_spec(a as int, b as int),
        -4000000000000 <= r <= 4000000000000,
{
    let neg: bool = (a < 0) != (b < 0);
    let aa: u64 = if a >= 0 {
        a as u64
    } else {
        (-(a as i128)) as u64
    };
    let bb: u64 = if b >= 0 {
        b as u64
    } else {
        (-(b as i128)) as u64
    };
    proof {
        assert(aa == iabs(a as int));
        assert(bb == iabs(b as int));
        assert(aa * bb <= 4000000000000000000) by (nonlinear_arith)
            requires
                aa <= 2000000000 && bb <= 2000000000,
        ;
    }
    let p: u64 = aa * bb;
    let q: u64 = p / (SCALE as u64);
    proof {
        lemma_div_nonincreasing(p as int, SCALE as int);
        lemma_div_pos_is_pos(p as int, SCALE as int);
        lemma_abs_mul(a as int, b as int);
        lemma_tdiv_via_abs((a as int) * (b as int), SCALE as int, q as int);
        assert(a >= 0 && b >= 0 ==> (a as int) * (b as int) >= 0) by (nonlinear_arith);
        assert(a < 0 && b < 0 ==> (a as int) * (b as int) >= 0) by (nonlinear_arith);
        assert(a >= 0 && b < 0 ==> (a as int) * (b as int) <= 0) by (nonlinear_arith);
        assert(a < 0 && b >= 0 ==> (a as int) * (b as int) <= 0) by (nonlinear_arith);
        assert((q as int) * (SCALE as int) <= p as int) by {
            vstd::arithmetic::div_mod::lemma_fundamental_div_mod(p as int, SCALE as int);
        }
        assert(q <= 4000000000000) by (nonlinear_arith)
            requires
                (q as int) * (SCALE as int) <= p as int && p <= 4000000000000000000 && q >= 0,
        ;
    }
    if neg {
        -(q as i64)
    } else {
        q as i64
    }
}

/// Fixed-point division; the divisor must be positive.
pub fn div_fp(a: i64, b: i64) -> (r: i64)
    requires
        -FP_INPUT_MAX <= a <= FP_INPUT_MAX,
        0 < b,
    ensures
        r == div_fp_spec(a as int, b as int),
        -2097152000000000 <= r <= 2097152000000000,
{
    let neg: bool = a < 0;
    let aa: u64 = if a >= 0 {
        a as u64
    } else {
        (-(a as i128)) as u64
    };
    proof {
        assert(aa == iabs(a as int));
        assert(aa * (SCALE as u64) <= 2097152000000000) by (nonlinear_arith)
            requires
                aa <= 2000000000,
        ;
    }
    let p: u64 = aa * (SCALE as u64);
    let q: u64 = p / (b as u64);
    proof {
        lemma_div_nonincreasing(p as int, b as int);
        lemma_div_pos_is_pos(p as int, b as int);
        lemma_abs_mul(a as int, SCALE as int);
        lemma_tdiv_via_abs((a as int) * (SCALE as int), b as int, q as int);
    }
    if neg {
        -(q as i64)
    } else {
        q as i64
    }
}

/// Clamping to an inclusive interval.
pub open spec fn clamp_fp_spec(x: int, lo: int, hi: int) -> int {
    if x < lo {
        lo
    } else if x > hi {
        hi
    } else {
        x
    }
}

/// Clamp a value to `[lo, hi]`.
pub fn clamp_fp(x: i64, lo: i64, hi: i64) -> (r: i64)
    requires
        lo <= hi,
    ensures
        r == clamp_fp_spec(x as int, lo as int, hi as int),
        lo <= r <= hi,
{
    if x < lo {
        lo
    } else if x > hi {
        hi
    } else {
        x
    }
}

/// The integer square root, defined by primitive recursion so that it is a
/// genuine function of its argument.
pub open spec fn sqrt_nat(n: nat) -> nat
    decreases n,
{
    if n == 0 {
        0
    } else {
        let r = sqrt_nat((n - 1) as nat);
        if (r + 1) * (r + 1) <= n {
            r + 1
        } else {
            r
        }
    }
}

/// `sqrt_nat` really is the rounded-down square root.
pub proof fn lemma_sqrt_nat_bounds(n: nat)
    ensures
        sqrt_nat(n) * sqrt_nat(n) <= n,
        (sqrt_nat(n) + 1) * (sqrt_nat(n) + 1) > n,
    decreases n,
{
    if n == 0 {
        assert(sqrt_nat(0) == 0);
        assert((sqrt_nat(n) + 1) * (sqrt_nat(n) + 1) == 1) by (nonlinear_arith)
            requires
                sqrt_nat(n) == 0,
        ;
    } else {
        lemma_sqrt_nat_bounds((n - 1) as nat);
        let r = sqrt_nat((n - 1) as nat);
        let s = sqrt_nat(n);
        if (r + 1) * (r + 1) <= n {
            assert(s == r + 1);
            assert(s * s <= n && (s + 1) * (s + 1) > n) by (nonlinear_arith)
                requires
                    s == r + 1 && (r + 1) * (r + 1) <= n && n <= (r + 1) * (r + 1),
            ;
        } else {
            assert(s == r);
            assert(s * s <= n && (s + 1) * (s + 1) > n) by (nonlinear_arith)
                requires
                    s == r && r * r + 1 <= n && (r + 1) * (r + 1) > n,
            ;
        }
    }
}

/// Any value with the square-root bracketing property equals `sqrt_nat`.
pub proof fn lemma_sqrt_nat_unique(n: nat, r: nat)
    requires
        r * r <= n,
        (r + 1) * (r + 1) > n,
    ensures
        r == sqrt_nat(n),
{
    lemma_sqrt_nat_bounds(n);
    let s = sqrt_nat(n);
    if r < s {
        assert((r + 1) * (r + 1) <= s * s) by (nonlinear_arith)
            requires
                r + 1 <= s,
        ;
    }
    if s < r {
        assert((s + 1) * (s + 1) <= r * r) by (nonlinear_arith)
            requires
                s + 1 <= r,
        ;
    }
}

/// The square root of a fixed-point value: `sqrt(x / SCALE) * SCALE`,
/// computed as the integer square root of `x * SCALE`.
pub open spec fn sqrt_fp_spec(x: int) -> int
    recommends
        x >= 0,
{
    sqrt_nat((x * (SCALE as int)) as nat) as int
}

/// Integer square root by bisection.
fn isqrt_u64(n: u64) -> (r: u64)
    ensures
        r == sqrt_nat(n as nat),
        r < 4294967296,
{
    let mut lo: u64 = 0;
    let mut hi: u64 = 4294967296;
    proof {
        assert((hi as int) * (hi as int) > n as int) by (nonlinear_arith)
            requires
                hi == 4294967296int && n <= 0xffff_ffff_ffff_ffffu64,
        ;
    }
    while lo + 1 < hi
        invariant
            lo < hi,
            hi <= 4294967296,
            (lo as int) * (lo as int) <= n as int,
            (hi as int) * (hi as int) > n as int,
        decreases hi - lo,
    {
        let mid: u64 = lo + (hi - lo) / 2;
        proof {
            assert((mid as int) * (mid as int) <= 0x1_0000_0000_0000_0000int) by (nonlinear_arith)
                requires
                    mid <= 4294967296int,
            ;
        }
        if (mid as u128) * (mid as u128) <= n as u128 {
            lo = mid;
        } else {
            hi = mid;
        }
    }
    proof {
        lemma_sqrt_nat_unique(n as nat, lo as nat);
    }
    lo
}

/// Fixed-point square root of a non-negative value.
pub fn sqrt_fp(x: i64) -> (r: i64)
    requires
        0 <= x <= FP_INPUT_MAX,
    ensures
        r == sqrt_fp_spec(x as int),
        0 <= r < 4294967296,
        (r as int) * (r as int) <= (x as int) * (SCALE as int),
        ((r as int) + 1) * ((r as int) + 1) > (x as int) * (SCALE as int),
{
    proof {
        assert((x as int) * (SCALE as int) <= 2097152000000000) by (nonlinear_arith)
            requires
                0 <= x <= 2000000000int,
        ;
    }
    let n: u64 = (x as u64) * (SCALE as u64);
    let r: u64 = isqrt_u64(n);
    proof {
        lemma_sqrt_nat_bounds(n as nat);
    }
    r as i64
}

/// `tdiv` on non-negative values stays within `[0, a]`.
pub proof fn lemma_tdiv_nonneg(a: int, d: int)
    requires
        a >= 0,
        d > 0,
    ensures
        0 <= tdiv(a, d) <= a,
        tdiv(a, d) == a / d,
{
    lemma_div_pos_is_pos(a, d);
    lemma_div_nonincreasing(a, d);
}

/// A fixed-point product of non-negative factors, the second at most 1.0,
/// is at most the first factor.
pub proof fn lemma_mul_fp_unit(a: int, b: int)
    requires
        0 <= a,
        0 <= b <= SCALE as int,
    ensures
        0 <= mul_fp_spec(a, b) <= a,
{
    assert(a * b >= 0) by (nonlinear_arith)
        requires
            a >= 0 && b >= 0,
    ;
    lemma_mul_inequality(b, SCALE as int, a);
    lemma_mul_is_commutative(a, b);
    lemma_mul_is_commutative(a, SCALE as int);
    lemma_div_is_ordered(a * b, a * (SCALE as int), SCALE as int);
    lemma_div_multiples_vanish(a, SCALE as int);
    lemma_div_pos_is_pos(a * b, SCALE as int);
}

/// A fixed-point product of non-negative factors is non-negative and at most
/// the true product.
pub proof fn lemma_mul_fp_nonneg(a: int, b: int)
    requires
        0 <= a,
        0 <= b,
    ensures
        0 <= mul_fp_spec(a, b),
    {
    assert(a * b >= 0) by (nonlinear_arith)
        requires
            a >= 0 && b >= 0,
    ;
    lemma_div_pos_is_pos(a * b, SCALE as int);
}

/// Interval bound for a fixed-point product of non-negative factors.
pub proof fn lemma_mul_fp_bounds(a: int, b: int, amax: int, bmax: int)
    requires
        0 <= a <= amax,
        0 <= b <= bmax,
    ensures
        0 <= mul_fp_spec(a, b) <= (amax * bmax) / (SCALE as int),
{
    lemma_mul_fp_nonneg(a, b);
    assert(a * b <= amax * bmax) by (nonlinear_arith)
        requires
            0 <= a <= amax && 0 <= b <= bmax,
    ;
    lemma_div_is_ordered(a * b, amax * bmax, SCALE as int);
}

/// Magnitude bound for a fixed-point product of signed factors.
pub proof fn lemma_mul_fp_abs_bound(a: int, b: int, amax: int, bmax: int)
    requires
        iabs(a) <= amax,
        iabs(b) <= bmax,
    ensures
        iabs(mul_fp_spec(a, b)) <= (amax * bmax) / (SCALE as int),
{
    lemma_abs_mul(a, b);
    let p = a * b;
    if p >= 0 {
        lemma_div_pos_is_pos(p, SCALE as int);
    } else {
        lemma_div_pos_is_pos(-p, SCALE as int);
    }
    assert(iabs(p) <= amax * bmax) by (nonlinear_arith)
        requires
            iabs(p) == iabs(a) * iabs(b) && 0 <= iabs(a) <= amax && 0 <= iabs(b) <= bmax,
    ;
    lemma_div_is_ordered(iabs(p), amax * bmax, SCALE as int);
}

/// The quotient of two non-negative values with `a <= b` is at most 1.0.
pub proof fn lemma_div_fp_unit(a: int, b: int)
    requires
        0 <= a <= b,
        0 < b,
    ensures
        0 <= div_fp_spec(a, b) <= SCALE as int,
{
    lemma_tdiv_nonneg(a * (SCALE as int), b);
    lemma_mul_inequality(a, b, SCALE as int);
    lemma_div_is_ordered(a * (SCALE as int), b * (SCALE as int), b);
    lemma_div_multiples_vanish(SCALE as int, b);
}

/// The quotient of a signed value by a positive bound on its magnitude has
/// magnitude at most 1.0.
pub proof fn lemma_div_fp_abs_unit(a: int, b: int)
    requires
        iabs(a) <= b,
        0 < b,
    ensures
        -(SCALE as int) <= div_fp_spec(a, b) <= SCALE as int,
{
    if a >= 0 {
        lemma_div_fp_unit(a, b);
    } else {
        lemma_div_fp_unit(-a, b);
        assert((-a) * (SCALE as int) == -(a * (SCALE as int))) by (nonlinear_arith);
    }
}

/// Truncating division of a non-negative value by a positive one, in
/// executable code.
pub fn div_nonneg(a: i64, d: i64) -> (r: i64)
    requires
        0 <= a,
        0 < d,
    ensures
        r == (a as int) / (d as int),
        0 <= r <= a,
{
    proof {
        lemma_div_pos_is_pos(a as int, d as int);
        lemma_div_nonincreasing(a as int, d as int);
    }
    ((a as u64) / (d as u64)) as i64
}


/// A common positive factor in numerator and denominator cancels:
/// `(a*w) / (w*SCALE) == a / SCALE`.
pub proof fn lemma_cancel_scale_factor(a: int, w: int)
    requires
        0 <= a,
        0 < w,
    ensures
        (a * w) / (w * (SCALE as int)) == a / (SCALE as int),
{
    let s = SCALE as int;
    let q = a / s;
    let r = a % s;
    vstd::arithmetic::div_mod::lemma_fundamental_div_mod(a, s);
    vstd::arithmetic::div_mod::lemma_mod_division_less_than_divisor(a, s);
    assert(a * w == q * (w * s) + r * w && 0 <= r * w < w * s) by (nonlinear_arith)
        requires
            a == s * q + r && 0 <= r < s && 0 < w,
    ;
    vstd::arithmetic::div_mod::lemma_fundamental_div_mod_converse(a * w, w * s, q, r * w);
}


/// Spec-level restatement of the square-root bracketing.
pub proof fn lemma_sqrt_fp_spec_bounds(x: int)
    requires
        0 <= x,
    ensures
        0 <= sqrt_fp_spec(x),
        sqrt_fp_spec(x) * sqrt_fp_spec(x) <= x * (SCALE as int),
        (sqrt_fp_spec(x) + 1) * (sqrt_fp_spec(x) + 1) > x * (SCALE as int),
{
    lemma_sqrt_nat_bounds((x * (SCALE as int)) as nat);
}

/// The square root of a unit-range value is unit-range.
pub proof fn lemma_sqrt_fp_unit(x: int)
    requires
        0 <= x <= SCALE as int,
    ensures
        0 <= sqrt_fp_spec(x) <= SCALE as int,
{
    lemma_sqrt_fp_spec_bounds(x);
    let r = sqrt_fp_spec(x);
    if r > SCALE as int {
        assert(r * r > 1099511627776int) by (nonlinear_arith)
            requires
                r > 1048576int,
        ;
    }
}

/// Fixed-point multiplication is monotone on non-negative operands.
pub proof fn lemma_mul_fp_mono(a0: int, b0: int, a: int, b: int)
    requires
        0 <= a0 <= a,
        0 <= b0 <= b,
    ensures
        mul_fp_spec(a0, b0) <= mul_fp_spec(a, b),
{
    assert(0 <= a0 * b0 <= a * b) by (nonlinear_arith)
        requires
            0 <= a0 <= a && 0 <= b0 <= b,
    ;
    lemma_div_is_ordered(a0 * b0, a * b, SCALE as int);
}

} // verus!
