//! Fixed-point sine and cosine on one turn, built from Bhaskara I's rational
//! approximation: all integer arithmetic, exact at the quadrant points, and
//! proved to stay within one fixed-point unit -- which is what a constructor
//! needs to give an agent a unit-speed heading from an angle.

use vstd::prelude::*;
use vstd::arithmetic::div_mod::{
    lemma_div_by_multiple, lemma_div_is_ordered, lemma_div_pos_is_pos,
};
use crate::fixed::{div_trunc, tdiv, SCALE};

verus! {

/// One half turn (pi) in fixed point.
pub const PI_FIX: i64 = 31_416;

/// One full turn (two pi) in fixed point.
pub const TAU_FIX: i64 = 62_832;

/// One quarter turn (pi over two) in fixed point.
pub const HALF_PI_FIX: i64 = 15_708;

/// Bhaskara I's sine approximation on the half turn `[0, pi]`:
/// `sin x = 16 x (pi - x) / (5 pi^2 - 4 x (pi - x))`, exact at 0, the
/// quarter turn and the half turn.
pub open spec fn spec_sin_half(a: int) -> int {
    let u = a * (PI_FIX - a);
    tdiv(16 * u * (SCALE as int), 5 * (PI_FIX as int) * (PI_FIX as int) - 4 * u)
}

/// Fixed-point sine on one turn `[0, tau)`: the half-turn approximation,
/// negated on the second half.
pub open spec fn spec_sin(a: int) -> int {
    if a <= PI_FIX {
        spec_sin_half(a)
    } else {
        -spec_sin_half(a - PI_FIX)
    }
}

/// Fixed-point cosine on one turn `[0, tau)`: sine advanced a quarter turn.
pub open spec fn spec_cos(a: int) -> int {
    if a + HALF_PI_FIX < TAU_FIX {
        spec_sin(a + HALF_PI_FIX)
    } else {
        spec_sin(a + HALF_PI_FIX - TAU_FIX)
    }
}

/// On the half turn the approximation lies in `[0, SCALE]`: the numerator is
/// non-negative and at most `SCALE` times the denominator, which follows
/// from `4 a (pi - a) <= pi^2`, a restatement of `(pi - 2a)^2 >= 0`.
pub proof fn lemma_sin_half_bounds(a: int)
    requires
        0 <= a <= PI_FIX,
    ensures
        0 <= spec_sin_half(a) <= SCALE,
{
    let p = PI_FIX as int;
    let u = a * (p - a);
    let num = 16 * u * (SCALE as int);
    let den = 5 * p * p - 4 * u;
    assert(u >= 0) by (nonlinear_arith)
        requires
            u == a * (p - a),
            0 <= a <= p,
    ;
    assert(4 * u <= p * p) by (nonlinear_arith)
        requires
            u == a * (p - a),
    ;
    assert(den >= 1) by (nonlinear_arith)
        requires
            den == 5 * p * p - 4 * u,
            4 * u <= p * p,
            p == 31_416,
    ;
    assert(num >= 0) by (nonlinear_arith)
        requires
            num == 16 * u * (SCALE as int),
            u >= 0,
    ;
    assert(num <= (SCALE as int) * den) by (nonlinear_arith)
        requires
            num == 16 * u * (SCALE as int),
            den == 5 * p * p - 4 * u,
            4 * u <= p * p,
            u >= 0,
    ;
    lemma_div_pos_is_pos(num, den);
    lemma_div_is_ordered(num, (SCALE as int) * den, den);
    lemma_div_by_multiple(SCALE as int, den);
}

fn sin_half(a: i64) -> (r: i64)
    requires
        0 <= a <= PI_FIX,
    ensures
        r == spec_sin_half(a as int),
        0 <= r <= SCALE,
{
    proof {
        lemma_sin_half_bounds(a as int);
        assert((a as int) * ((PI_FIX - a) as int) >= 0 && (a as int) * ((PI_FIX - a) as int) <= (
        PI_FIX as int) * (PI_FIX as int)) by (nonlinear_arith)
            requires
                0 <= a <= PI_FIX,
        ;
    }
    let u = (a as i128) * ((PI_FIX - a) as i128);
    let num = 16 * u * (SCALE as i128);
    let den = 5 * (PI_FIX as i128) * (PI_FIX as i128) - 4 * u;
    div_trunc(num, den) as i64
}

/// Fixed-point sine of an angle on one turn.
pub fn sin_fix(a: i64) -> (r: i64)
    requires
        0 <= a < TAU_FIX,
    ensures
        r == spec_sin(a as int),
        -SCALE <= r <= SCALE,
{
    if a <= PI_FIX {
        sin_half(a)
    } else {
        -sin_half(a - PI_FIX)
    }
}

/// Fixed-point cosine of an angle on one turn.
pub fn cos_fix(a: i64) -> (r: i64)
    requires
        0 <= a < TAU_FIX,
    ensures
        r == spec_cos(a as int),
        -SCALE <= r <= SCALE,
{
    if a + HALF_PI_FIX < TAU_FIX {
        sin_fix(a + HALF_PI_FIX)
    } else {
        sin_fix(a + HALF_PI_FIX - TAU_FIX)
    }
}

} // verus!
