//! Fixed-point scalar arithmetic: the rounding rule (truncating division),
//! the integer square root, and the bounds every simulation quantity obeys.

use vstd::prelude::*;
use vstd::arithmetic::div_mod::{
    lemma_div_pos_is_pos, lemma_fundamental_div_mod, lemma_mod_bound,
};
use vstd::arithmetic::mul::lemma_mul_inequality;
use vstd::math::abs;

verus! {

/// Number of integer steps in one spatial unit: a fixed-point scalar holds
/// `SCALE` times its mathematical value.
pub const SCALE: i64 = 10_000;

/// Largest accepted value for a speed, force, weight or interaction radius.
pub const LIMIT: i64 = 1_000_000_000;

/// Largest accepted magnitude for an agent position component going into an
/// update step; the host keeps positions inside this box (wrapping them, as a
/// renderer does at its window edge) so one tick of motion cannot overflow.
pub const POS_MAX: i64 = 1_000_000_000_000;

/// Largest magnitude a summed per-tick force component can reach: four
/// steering terms, each at most `LIMIT * LIMIT / SCALE`.
pub const FORCE_MAX: i64 = 1_000_000_000_000_000;

/// Largest component magnitude a steering direction handed to the
/// steer-toward calculation can have (a difference of two in-bounds
/// positions, with room to spare).
pub const DIR_MAX: i64 = 10_000_000_000_000;

/// Domain bound for vector magnitude computations: components within this box
/// keep every squared magnitude inside the integer square root's domain.
pub const VEC_MAX: i64 = 10_000_000_000_000_000;

/// Truncating division (rounding toward zero), the rounding rule shared by
/// every fixed-point operation. Spec-mode `/` is Euclidean division, so the
/// negative case is phrased through negation.
pub open spec fn tdiv(a: int, b: int) -> int {
    if a >= 0 {
        a / b
    } else {
        -((-a) / b)
    }
}

/// The quotient of a truncating division never grows: `|a / b| * b <= |a|`,
/// and in particular `|a / b| <= |a|`, with the quotient keeping `a`'s sign.
pub proof fn lemma_tdiv_mag(a: int, b: int)
    requires
        b >= 1,
    ensures
        abs(tdiv(a, b)) * b <= abs(a),
        abs(tdiv(a, b)) <= abs(a),
        a >= 0 ==> tdiv(a, b) >= 0,
        a <= 0 ==> tdiv(a, b) <= 0,
{
    if a >= 0 {
        lemma_div_pos_is_pos(a, b);
        lemma_fundamental_div_mod(a, b);
        lemma_mod_bound(a, b);
        let d = a / b;
        assert(d * b <= a) by {
            assert(a == b * d + a % b);
            assert(d * b == b * d) by (nonlinear_arith);
        }
        assert(d <= d * b) by (nonlinear_arith)
            requires
                d >= 0,
                b >= 1,
        ;
    } else {
        lemma_div_pos_is_pos(-a, b);
        lemma_fundamental_div_mod(-a, b);
        lemma_mod_bound(-a, b);
        let d = (-a) / b;
        assert(d * b <= -a) by {
            assert(-a == b * d + (-a) % b);
            assert(d * b == b * d) by (nonlinear_arith);
        }
        assert(d <= d * b) by (nonlinear_arith)
            requires
                d >= 0,
                b >= 1,
        ;
    }
}

/// Scaling `x` by the ratio `m / s` with truncating division scales its
/// square by at most `(m * m) / (s * s)`: the inequality that makes the
/// magnitude clamp a true bound.
pub proof fn lemma_tdiv_scale_sq(x: int, m: int, s: int)
    requires
        s >= 1,
        m >= 0,
    ensures
        tdiv(x * m, s) * tdiv(x * m, s) * (s * s) <= (x * x) * (m * m),
{
    lemma_tdiv_mag(x * m, s);
    let d = tdiv(x * m, s);
    assert(abs(d) * s <= abs(x * m));
    assert(abs(x * m) == abs(x) * m) by (nonlinear_arith)
        requires
            m >= 0,
    ;
    assert(d * d * (s * s) <= (x * x) * (m * m)) by (nonlinear_arith)
        requires
            abs(d) * s <= abs(x) * m,
            s >= 1,
            m >= 0,
            abs(d) == if d >= 0 { d as int } else { -d },
            abs(x) == if x >= 0 { x as int } else { -x },
    ;
}

/// Floor of the integer square root, defined by counting up; zero on
/// non-positive arguments.
pub open spec fn sqrt_floor(n: int) -> int
    decreases (if n >= 0 { n } else { 0 }),
{
    if n <= 0 {
        0
    } else {
        let r = sqrt_floor(n - 1);
        if (r + 1) * (r + 1) <= n {
            r + 1
        } else {
            r
        }
    }
}

/// `sqrt_floor` is what its name says: the largest integer whose square does
/// not exceed `n`.
pub proof fn lemma_sqrt_floor(n: int)
    requires
        n >= 0,
    ensures
        sqrt_floor(n) >= 0,
        sqrt_floor(n) * sqrt_floor(n) <= n,
        n < (sqrt_floor(n) + 1) * (sqrt_floor(n) + 1),
    decreases n,
{
    if n > 0 {
        lemma_sqrt_floor(n - 1);
        let r = sqrt_floor(n - 1);
        if (r + 1) * (r + 1) <= n {
            assert(sqrt_floor(n) == r + 1);
            assert(n <= (r + 1) * (r + 1));
            assert((r + 1) * (r + 1) < (r + 2) * (r + 2)) by (nonlinear_arith)
                requires
                    r >= 0,
            ;
        } else {
            assert(sqrt_floor(n) == r);
        }
    }
}

/// Ceiling of the integer square root: the magnitude rounding used for
/// normalisation and clamping, chosen so that scaling a vector down to a
/// magnitude bound can never overshoot it.
pub open spec fn sqrt_ceil(n: int) -> int {
    if sqrt_floor(n) * sqrt_floor(n) == n {
        sqrt_floor(n)
    } else {
        sqrt_floor(n) + 1
    }
}

/// `sqrt_ceil` squares to at least `n`, is zero exactly on zero, and is the
/// least integer with that square bound.
pub proof fn lemma_sqrt_ceil(n: int)
    requires
        n >= 0,
    ensures
        sqrt_ceil(n) >= 0,
        n <= sqrt_ceil(n) * sqrt_ceil(n),
        n == 0 ==> sqrt_ceil(n) == 0,
        n > 0 ==> sqrt_ceil(n) >= 1,
        sqrt_ceil(n) >= 1 ==> (sqrt_ceil(n) - 1) * (sqrt_ceil(n) - 1) < n,
{
    lemma_sqrt_floor(n);
    let f = sqrt_floor(n);
    if f * f != n {
        assert(f * f < n);
        assert(sqrt_ceil(n) == f + 1);
        assert(sqrt_ceil(n) * sqrt_ceil(n) == (f + 1) * (f + 1));
        assert((sqrt_ceil(n) - 1) * (sqrt_ceil(n) - 1) == f * f);
    } else {
        assert(sqrt_ceil(n) == f);
        assert(sqrt_ceil(n) * sqrt_ceil(n) == f * f);
        if n > 0 && f == 0 {
            assert(f * f == 0) by (nonlinear_arith)
                requires
                    f == 0,
            ;
        }
        if f >= 1 {
            assert((f - 1) * (f - 1) < f * f) by (nonlinear_arith)
                requires
                    f >= 1,
            ;
        }
    }
}

/// Any integer that squares to at least `n`, while its predecessor squares to
/// less, is `sqrt_ceil(n)`: the postcondition shape the executable square
/// root establishes.
pub proof fn lemma_sqrt_ceil_unique(n: int, r: int)
    requires
        n >= 0,
        r >= 0,
        n <= r * r,
        r >= 1 ==> (r - 1) * (r - 1) < n,
    ensures
        r == sqrt_ceil(n),
{
    lemma_sqrt_ceil(n);
    let c = sqrt_ceil(n);
    if r < c {
        assert((c - 1) * (c - 1) < n);
        assert(r * r <= (c - 1) * (c - 1)) by (nonlinear_arith)
            requires
                0 <= r,
                r <= c - 1,
        ;
    }
    if c < r {
        assert((r - 1) * (r - 1) < n);
        assert(c * c <= (r - 1) * (r - 1)) by (nonlinear_arith)
            requires
                0 <= c,
                c <= r - 1,
        ;
    }
}

/// A magnitude bound keeps each component inside it: if the sum of squares is
/// at most `m * m` then each square, hence each component, is too.
pub proof fn lemma_comp_le_mag(x: int, n: int, m: int)
    requires
        x * x <= n,
        n <= m * m,
        m >= 0,
    ensures
        -m <= x <= m,
{
    assert(-m <= x <= m) by (nonlinear_arith)
        requires
            x * x <= m * m,
            m >= 0,
    ;
}

/// Ceiling integer square root, by binary search for the least root whose
/// square reaches `n`.
pub fn isqrt_ceil(n: u128) -> (r: u128)
    requires
        n <= 0x4000000000000000000000000000u128,
    ensures
        r == sqrt_ceil(n as int),
        r <= 0x80000000000000u128,
{
    let mut lo: u128 = 0;
    let mut hi: u128 = 0x80000000000000u128;
    assert(hi * hi >= n) by (nonlinear_arith)
        requires
            hi == 0x80000000000000u128,
            n <= 0x4000000000000000000000000000u128,
    ;
    while lo < hi
        invariant
            lo <= hi,
            hi <= 0x80000000000000u128,
            hi * hi >= n,
            lo >= 1 ==> (lo - 1) * (lo - 1) < n,
        decreases hi - lo,
    {
        let mid: u128 = lo + (hi - lo) / 2;
        assert(mid * mid <= 0x4000000000000000000000000000u128) by (nonlinear_arith)
            requires
                mid <= 0x80000000000000u128,
        ;
        if mid * mid >= n {
            hi = mid;
        } else {
            lo = mid + 1;
        }
    }
    proof {
        lemma_sqrt_ceil_unique(n as int, lo as int);
    }
    lo
}

/// Truncating division on wide integers, with the quotient's exact value and
/// its magnitude bound in the contract.
pub fn div_trunc(a: i128, b: i128) -> (r: i128)
    requires
        b >= 1,
        a > i128::MIN,
    ensures
        r == tdiv(a as int, b as int),
        abs(r as int) * b <= abs(a as int),
        abs(r as int) <= abs(a as int),
        a >= 0 ==> r >= 0,
        a <= 0 ==> r <= 0,
{
    proof {
        lemma_tdiv_mag(a as int, b as int);
    }
    a / b
}

} // verus!
