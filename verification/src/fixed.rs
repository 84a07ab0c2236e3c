//! Q16 fixed-point arithmetic: saturating exponential and hyperbolic
//! tangent, the building blocks of the normalized logistic transition.
//!
//! All values carry 16 fractional bits (`UNIT_Q16` is 1.0). The
//! exponential is an 8-term Taylor series on the fractional part,
//! scaled by the integer part, saturating at `EXP_CAP_Q16`; arguments
//! are capped where the true function is already indistinguishable
//! from its limit at this precision.

use vstd::prelude::*;
use vstd::arithmetic::div_mod::{
    lemma_div_is_ordered, lemma_div_multiples_vanish, lemma_div_nonincreasing,
    lemma_div_pos_is_pos,
};
use vstd::arithmetic::mul::{lemma_mul_inequality, lemma_mul_is_commutative};

verus! {

/// 1.0 in Q16.
pub const UNIT_Q16: i64 = 65536;

/// Euler's number in Q16 (floor(e * 65536)).
pub const E_Q16: i64 = 178145;

/// Saturation bound of the fixed-point exponential.
pub const EXP_CAP_Q16: i64 = 40000000000000;

/// Arguments to `tanh_q16` at or above this are treated as infinite:
/// tanh(8) already rounds to 1.0 - 2^-16 in Q16.
pub const TANH_ARG_CAP_Q16: i64 = 524288;

/// `0 <= a * b / c <= a` whenever `0 <= b <= c`.
pub proof fn lemma_mul_div_le(a: int, b: int, c: int)
    requires
        0 <= a,
        0 <= b <= c,
        0 < c,
    ensures
        0 <= a * b / c <= a,
{
    lemma_mul_inequality(b, c, a);
    lemma_mul_is_commutative(a, b);
    lemma_mul_is_commutative(a, c);
    lemma_div_is_ordered(a * b, a * c, c);
    lemma_div_multiples_vanish(a, c);
    lemma_div_pos_is_pos(a * b, c);
}

/// Dividing a smaller non-negative numerator by the same positive
/// divisor gives a smaller (still non-negative) quotient.
pub proof fn lemma_div_le_div(a: int, b: int, c: int)
    requires
        0 <= a <= b,
        0 < c,
    ensures
        0 <= a / c <= b / c,
{
    lemma_div_is_ordered(a, b, c);
    lemma_div_pos_is_pos(a, c);
}

/// Term `j` of the Taylor series of e^(f/UNIT), in Q16.
pub open spec fn spec_exp_term(f: int, j: nat) -> int
    decreases j,
{
    if j == 0 {
        UNIT_Q16 as int
    } else {
        spec_exp_term(f, (j - 1) as nat) * f / (UNIT_Q16 as int) / (j as int)
    }
}

/// Partial Taylor sum of e^(f/UNIT) through term `j`, in Q16.
pub open spec fn spec_exp_frac(f: int, j: nat) -> int
    decreases j,
{
    if j == 0 {
        UNIT_Q16 as int
    } else {
        spec_exp_frac(f, (j - 1) as nat) + spec_exp_term(f, j)
    }
}

/// `s` scaled by e^n, saturating at `EXP_CAP_Q16`.
pub open spec fn spec_exp_scale(s: int, n: nat) -> int
    decreases n,
{
    if n == 0 {
        s
    } else {
        let r = spec_exp_scale(s, (n - 1) as nat) * (E_Q16 as int) / (UNIT_Q16 as int);
        if r > EXP_CAP_Q16 as int {
            EXP_CAP_Q16 as int
        } else {
            r
        }
    }
}

/// The saturating Q16 exponential of a non-negative argument.
pub open spec fn spec_exp_q16(z: int) -> int {
    spec_exp_scale(spec_exp_frac(z % (UNIT_Q16 as int), 8), (z / (UNIT_Q16 as int)) as nat)
}

proof fn lemma_exp_term_bounds(f: int, j: nat)
    requires
        0 <= f < UNIT_Q16 as int,
    ensures
        0 <= spec_exp_term(f, j) <= UNIT_Q16 as int,
    decreases j,
{
    if j > 0 {
        lemma_exp_term_bounds(f, (j - 1) as nat);
        let prev = spec_exp_term(f, (j - 1) as nat);
        lemma_mul_div_le(prev, f, UNIT_Q16 as int);
        lemma_div_nonincreasing(prev * f / (UNIT_Q16 as int), j as int);
        lemma_div_pos_is_pos(prev * f / (UNIT_Q16 as int), j as int);
    }
}

proof fn lemma_exp_frac_bounds(f: int, j: nat)
    requires
        0 <= f < UNIT_Q16 as int,
        j <= 8,
    ensures
        UNIT_Q16 as int <= spec_exp_frac(f, j) <= (j + 1) * (UNIT_Q16 as int),
    decreases j,
{
    if j > 0 {
        lemma_exp_frac_bounds(f, (j - 1) as nat);
        lemma_exp_term_bounds(f, j);
    }
}

proof fn lemma_exp_frac_at_zero(j: nat)
    ensures
        spec_exp_frac(0, j) == UNIT_Q16 as int,
        j > 0 ==> spec_exp_term(0, j) == 0,
    decreases j,
{
    if j > 0 {
        lemma_exp_frac_at_zero((j - 1) as nat);
    }
}

proof fn lemma_exp_scale_bounds(s: int, n: nat)
    requires
        UNIT_Q16 as int <= s <= EXP_CAP_Q16 as int,
    ensures
        UNIT_Q16 as int <= spec_exp_scale(s, n) <= EXP_CAP_Q16 as int,
    decreases n,
{
    if n > 0 {
        lemma_exp_scale_bounds(s, (n - 1) as nat);
        let prev = spec_exp_scale(s, (n - 1) as nat);
        assert(prev * (E_Q16 as int) >= prev * (UNIT_Q16 as int)) by {
            lemma_mul_inequality(UNIT_Q16 as int, E_Q16 as int, prev);
            lemma_mul_is_commutative(prev, E_Q16 as int);
            lemma_mul_is_commutative(prev, UNIT_Q16 as int);
        }
        lemma_div_is_ordered(prev * (UNIT_Q16 as int), prev * (E_Q16 as int), UNIT_Q16 as int);
        lemma_div_multiples_vanish(prev, UNIT_Q16 as int);
    }
}

/// Saturating Q16 exponential: e^(z/UNIT) in Q16, clipped to
/// `EXP_CAP_Q16`, exact per `spec_exp_q16`.
pub fn exp_q16(z: i64) -> (r: i64)
    requires
        0 <= z <= 2 * TANH_ARG_CAP_Q16,
    ensures
        r == spec_exp_q16(z as int),
        UNIT_Q16 <= r <= EXP_CAP_Q16,
{
    let f: i64 = z % UNIT_Q16;
    let n: i64 = z / UNIT_Q16;
    assert(0 <= f < UNIT_Q16);
    assert(0 <= n <= 16) by {
        lemma_div_le_div(z as int, 2 * TANH_ARG_CAP_Q16 as int, UNIT_Q16 as int);
    }

    let mut sum: i64 = UNIT_Q16;
    let mut term: i64 = UNIT_Q16;
    let mut j: i64 = 0;
    while j < 8
        invariant
            0 <= j <= 8,
            0 <= f < UNIT_Q16,
            term == spec_exp_term(f as int, j as nat),
            sum == spec_exp_frac(f as int, j as nat),
            0 <= term <= UNIT_Q16,
            UNIT_Q16 <= sum <= (j + 1) * UNIT_Q16,
        decreases 8 - j,
    {
        proof {
            lemma_exp_term_bounds(f as int, (j + 1) as nat);
            lemma_mul_div_le(term as int, f as int, UNIT_Q16 as int);
        }
        term = term * f / UNIT_Q16 / (j + 1);
        sum = sum + term;
        j = j + 1;
    }

    let mut r: i64 = sum;
    let mut i: i64 = 0;
    while i < n
        invariant
            0 <= i <= n <= 16,
            UNIT_Q16 <= sum <= EXP_CAP_Q16,
            r == spec_exp_scale(sum as int, i as nat),
            UNIT_Q16 <= r <= EXP_CAP_Q16,
        decreases n - i,
    {
        proof {
            lemma_exp_scale_bounds(sum as int, (i + 1) as nat);
        }
        let stepped: i64 = r * E_Q16 / UNIT_Q16;
        if stepped > EXP_CAP_Q16 {
            r = EXP_CAP_Q16;
        } else {
            r = stepped;
        }
        i = i + 1;
    }
    proof {
        lemma_exp_frac_bounds(f as int, 8);
        lemma_exp_scale_bounds(sum as int, n as nat);
    }
    r
}

/// Q16 hyperbolic tangent of a non-negative argument, via
/// tanh(y) = (e^(2y) - 1) / (e^(2y) + 1); arguments at or above
/// `TANH_ARG_CAP_Q16` are capped there.
pub open spec fn spec_tanh_q16(y: int) -> int {
    let ya = if y > TANH_ARG_CAP_Q16 as int {
        TANH_ARG_CAP_Q16 as int
    } else {
        y
    };
    let e = spec_exp_q16(2 * ya);
    (e - UNIT_Q16 as int) * (UNIT_Q16 as int) / (e + UNIT_Q16 as int)
}

/// Fixed-point tanh on non-negative arguments: exact per
/// `spec_tanh_q16`, zero exactly at zero, always below 1.0.
pub fn tanh_q16(y: i64) -> (r: i64)
    requires
        0 <= y,
    ensures
        r == spec_tanh_q16(y as int),
        0 <= r < UNIT_Q16,
        y == 0 ==> r == 0,
{
    let ya: i64 = if y > TANH_ARG_CAP_Q16 {
        TANH_ARG_CAP_Q16
    } else {
        y
    };
    let e = exp_q16(2 * ya);
    let num: i64 = (e - UNIT_Q16) * UNIT_Q16;
    let den: i64 = e + UNIT_Q16;
    let r = num / den;
    proof {
        lemma_mul_div_le((e - UNIT_Q16) as int, UNIT_Q16 as int, den as int);
        if y == 0 {
            lemma_exp_frac_at_zero(8);
        }
        assert(r < UNIT_Q16) by {
            assert(num < den * UNIT_Q16) by (nonlinear_arith)
                requires
                    num == (e - UNIT_Q16) * UNIT_Q16,
                    den == e + UNIT_Q16,
                    UNIT_Q16 <= e,
            ;
            assert(num / den < UNIT_Q16) by (nonlinear_arith)
                requires
                    num < den * (UNIT_Q16 as int),
                    0 < den,
                    0 <= num,
            ;
        }
    }
    r
}

/// Spec-level range of the saturating exponential.
pub proof fn lemma_exp_q16_range(z: int)
    requires
        z >= 0,
    ensures
        UNIT_Q16 as int <= spec_exp_q16(z) <= EXP_CAP_Q16 as int,
{
    let f = z % (UNIT_Q16 as int);
    let n = (z / (UNIT_Q16 as int)) as nat;
    lemma_exp_frac_bounds(f, 8);
    lemma_exp_scale_bounds(spec_exp_frac(f, 8), n);
}

/// Spec-level range of the fixed-point tanh on non-negative
/// arguments.
pub proof fn lemma_tanh_q16_range(y: int)
    requires
        y >= 0,
    ensures
        0 <= spec_tanh_q16(y) < UNIT_Q16 as int,
{
    let ya = if y > TANH_ARG_CAP_Q16 as int {
        TANH_ARG_CAP_Q16 as int
    } else {
        y
    };
    lemma_exp_q16_range(2 * ya);
    let e = spec_exp_q16(2 * ya);
    let num = (e - UNIT_Q16 as int) * (UNIT_Q16 as int);
    let den = e + UNIT_Q16 as int;
    lemma_mul_div_le(e - UNIT_Q16 as int, UNIT_Q16 as int, den);
    assert(num < den * (UNIT_Q16 as int)) by (nonlinear_arith)
        requires
            num == (e - UNIT_Q16 as int) * (UNIT_Q16 as int),
            den == e + UNIT_Q16 as int,
            UNIT_Q16 as int <= e,
    ;
    assert(num / den < UNIT_Q16 as int) by (nonlinear_arith)
        requires
            num < den * (UNIT_Q16 as int),
            0 < den,
            0 <= num,
    ;
}

} // verus!
