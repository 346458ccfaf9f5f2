//! Fixed-point vectors in two and three dimensions, their mathematical views,
//! and the bound lemmas behind normalisation and magnitude clamping.

use vstd::prelude::*;
use vstd::math::abs;
use crate::fixed::{
    lemma_sqrt_ceil, lemma_tdiv_mag, lemma_tdiv_scale_sq, sqrt_ceil, tdiv, SCALE,
};

verus! {

/// A two-dimensional fixed-point vector: each component holds `SCALE` times
/// its mathematical value.
#[derive(Clone, Copy, Debug, PartialEq, Eq, Structural)]
pub struct Vector2 {
    pub x: i64,
    pub y: i64,
}

/// A three-dimensional fixed-point vector, the canonical representation every
/// force calculation is written against.
#[derive(Clone, Copy, Debug, PartialEq, Eq, Structural)]
pub struct Vector3 {
    pub x: i64,
    pub y: i64,
    pub z: i64,
}

/// Mathematical view of a `Vector2`.
pub ghost struct V2 {
    pub x: int,
    pub y: int,
}

/// Mathematical view of a `Vector3`.
pub ghost struct V3 {
    pub x: int,
    pub y: int,
    pub z: int,
}

impl View for Vector2 {
    type V = V2;

    open spec fn view(&self) -> V2 {
        V2 { x: self.x as int, y: self.y as int }
    }
}

impl View for Vector3 {
    type V = V3;

    open spec fn view(&self) -> V3 {
        V3 { x: self.x as int, y: self.y as int, z: self.z as int }
    }
}

impl Vector2 {
    pub fn new(x: i64, y: i64) -> (r: Vector2)
        ensures
            r@ == (V2 { x: x as int, y: y as int }),
    {
        Vector2 { x, y }
    }

    /// The zero vector.
    pub fn zero() -> (r: Vector2)
        ensures
            r@ == V2::zero(),
    {
        Vector2 { x: 0, y: 0 }
    }
}

impl Vector3 {
    pub fn new(x: i64, y: i64, z: i64) -> (r: Vector3)
        ensures
            r@ == (V3 { x: x as int, y: y as int, z: z as int }),
    {
        Vector3 { x, y, z }
    }

    /// The zero vector.
    pub fn zero() -> (r: Vector3)
        ensures
            r@ == V3::zero(),
    {
        Vector3 { x: 0, y: 0, z: 0 }
    }
}

impl V2 {
    pub open spec fn zero() -> V2 {
        V2 { x: 0, y: 0 }
    }

    /// The three-dimensional view of a planar vector.
    pub open spec fn to3(self) -> V3 {
        V3 { x: self.x, y: self.y, z: 0 }
    }
}

impl V3 {
    pub open spec fn zero() -> V3 {
        V3 { x: 0, y: 0, z: 0 }
    }

    /// The lossy planar view: the z component is dropped.
    pub open spec fn to2(self) -> V2 {
        V2 { x: self.x, y: self.y }
    }

    pub open spec fn add3(self, o: V3) -> V3 {
        V3 { x: self.x + o.x, y: self.y + o.y, z: self.z + o.z }
    }

    pub open spec fn sub3(self, o: V3) -> V3 {
        V3 { x: self.x - o.x, y: self.y - o.y, z: self.z - o.z }
    }

    /// Squared magnitude.
    pub open spec fn norm2(self) -> int {
        self.x * self.x + self.y * self.y + self.z * self.z
    }

    /// Every component scaled by the ratio `num / den`, rounding toward zero:
    /// the one rescaling primitive behind normalisation, fixed-point
    /// multiplication and magnitude clamping.
    pub open spec fn scaled(self, num: int, den: int) -> V3 {
        V3 {
            x: tdiv(self.x * num, den),
            y: tdiv(self.y * num, den),
            z: tdiv(self.z * num, den),
        }
    }

    /// Every component divided by `c`, rounding toward zero: averaging an
    /// accumulated sum over a neighbour count.
    pub open spec fn averaged(self, c: int) -> V3 {
        V3 { x: tdiv(self.x, c), y: tdiv(self.y, c), z: tdiv(self.z, c) }
    }

    /// The ceiling-rounded magnitude.
    pub open spec fn mag_ceil(self) -> int {
        sqrt_ceil(self.norm2())
    }

    /// The unit vector in `self`'s direction (magnitude `SCALE`), meaningful
    /// when `self` is not the zero vector.
    pub open spec fn unit(self) -> V3 {
        self.scaled(SCALE as int, self.mag_ceil())
    }

    /// `self` clamped to magnitude at most `m`: rescaled onto the bound when
    /// its squared magnitude exceeds `m * m`, unchanged otherwise.
    pub open spec fn limited(self, m: int) -> V3 {
        if self.norm2() > m * m {
            self.scaled(m, self.mag_ceil())
        } else {
            self
        }
    }

    /// Every component within `[-b, b]`.
    pub open spec fn in_box(self, b: int) -> bool {
        -b <= self.x <= b && -b <= self.y <= b && -b <= self.z <= b
    }
}

impl V2 {
    /// `self` clamped to magnitude at most `m`, computed through the
    /// canonical three-dimensional representation; on a planar vector the two
    /// agree exactly, since a zero z component stays zero.
    pub open spec fn limited(self, m: int) -> V2 {
        self.to3().limited(m).to2()
    }

    /// Both components within `[-b, b]`.
    pub open spec fn in_box(self, b: int) -> bool {
        -b <= self.x <= b && -b <= self.y <= b
    }
}

/// A squared magnitude dominates each squared component and is non-negative.
pub proof fn lemma_norm2_comp(v: V3)
    ensures
        v.norm2() >= v.x * v.x,
        v.norm2() >= v.y * v.y,
        v.norm2() >= v.z * v.z,
        v.norm2() >= 0,
        v.norm2() == 0 ==> v == V3::zero(),
{
    assert(v.x * v.x >= 0 && v.y * v.y >= 0 && v.z * v.z >= 0) by (nonlinear_arith);
    if v.norm2() == 0 {
        assert(v.x == 0 && v.y == 0 && v.z == 0) by (nonlinear_arith)
            requires
                v.x * v.x >= 0,
                v.y * v.y >= 0,
                v.z * v.z >= 0,
                v.x * v.x + v.y * v.y + v.z * v.z == 0,
        ;
    }
}

/// Components within `[-b, b]` bound the squared magnitude by `3 * b * b`.
pub proof fn lemma_norm2_box(v: V3, b: int)
    requires
        v.in_box(b),
    ensures
        v.norm2() <= 3 * b * b,
{
    assert(v.x * v.x + v.y * v.y + v.z * v.z <= 3 * b * b) by (nonlinear_arith)
        requires
            -b <= v.x <= b,
            -b <= v.y <= b,
            -b <= v.z <= b,
    ;
}

/// The ceiling-rounded magnitude dominates each component's absolute value,
/// and is positive exactly on non-zero vectors.
pub proof fn lemma_mag_ceil(v: V3)
    ensures
        v.mag_ceil() >= abs(v.x),
        v.mag_ceil() >= abs(v.y),
        v.mag_ceil() >= abs(v.z),
        v.mag_ceil() >= 0,
        v.norm2() > 0 ==> v.mag_ceil() >= 1,
        v.norm2() == 0 ==> v.mag_ceil() == 0,
        v.norm2() <= v.mag_ceil() * v.mag_ceil(),
{
    lemma_norm2_comp(v);
    lemma_sqrt_ceil(v.norm2());
    let s = v.mag_ceil();
    assert forall|c: int| c * c <= v.norm2() implies abs(c) <= s by {
        assert(abs(c) <= s) by (nonlinear_arith)
            requires
                c * c <= s * s,
                s >= 0,
                abs(c) == if c >= 0 { c } else { -c },
        ;
    }
    assert(v.x * v.x <= v.norm2());
}

/// Scaling by `num / den` with `|component| <= den` keeps every component's
/// magnitude within `num`: a normalised vector stays inside `SCALE`, a
/// desired velocity inside `max_speed`.
pub proof fn lemma_scaled_box(v: V3, num: int, den: int)
    requires
        den >= 1,
        num >= 0,
        abs(v.x) <= den,
        abs(v.y) <= den,
        abs(v.z) <= den,
    ensures
        v.scaled(num, den).in_box(num),
{
    lemma_scaled_comp(v.x, num, den);
    lemma_scaled_comp(v.y, num, den);
    lemma_scaled_comp(v.z, num, den);
}

proof fn lemma_scaled_comp(x: int, num: int, den: int)
    requires
        den >= 1,
        num >= 0,
        abs(x) <= den,
    ensures
        -num <= tdiv(x * num, den) <= num,
{
    lemma_tdiv_mag(x * num, den);
    let d = tdiv(x * num, den);
    assert(abs(x * num) == abs(x) * num) by (nonlinear_arith)
        requires
            num >= 0,
    ;
    assert(abs(x * num) <= den * num) by (nonlinear_arith)
        requires
            num >= 0,
            abs(x) <= den,
            abs(x * num) == abs(x) * num,
    ;
    assert(abs(d) <= num) by (nonlinear_arith)
        requires
            abs(d) * den <= abs(x) * num,
            abs(x) <= den,
            den >= 1,
            num >= 0,
    ;
}

/// Scaling a vector inside the `b` box by `num / den` lands inside the
/// `b * num / den` box.
pub proof fn lemma_scaled_ratio_box(v: V3, num: int, den: int, b: int)
    requires
        den >= 1,
        num >= 0,
        b >= 0,
        v.in_box(b),
    ensures
        v.scaled(num, den).in_box((b * num) / den),
{
    lemma_scaled_ratio_comp(v.x, num, den, b);
    lemma_scaled_ratio_comp(v.y, num, den, b);
    lemma_scaled_ratio_comp(v.z, num, den, b);
}

proof fn lemma_scaled_ratio_comp(x: int, num: int, den: int, b: int)
    requires
        den >= 1,
        num >= 0,
        b >= 0,
        -b <= x <= b,
    ensures
        -((b * num) / den) <= tdiv(x * num, den) <= (b * num) / den,
{
    lemma_tdiv_mag(x * num, den);
    let t = tdiv(x * num, den);
    assert(abs(x * num) <= b * num) by (nonlinear_arith)
        requires
            num >= 0,
            -b <= x <= b,
            abs(x * num) == if x * num >= 0 { x * num } else { -(x * num) },
    ;
    assert(abs(t) * den <= b * num);
    assert(abs(t) <= (b * num) / den) by {
        vstd::arithmetic::div_mod::lemma_div_is_ordered(abs(t) * den, b * num, den);
        vstd::arithmetic::div_mod::lemma_div_by_multiple(abs(t) as int, den);
    }
}

/// Averaging a sum of at most `c` terms each within `b` stays within `b`.
pub proof fn lemma_averaged_box(v: V3, c: int, b: int)
    requires
        c >= 1,
        b >= 0,
        v.in_box(c * b),
    ensures
        v.averaged(c).in_box(b),
{
    lemma_averaged_comp(v.x, c, b);
    lemma_averaged_comp(v.y, c, b);
    lemma_averaged_comp(v.z, c, b);
}

proof fn lemma_averaged_comp(x: int, c: int, b: int)
    requires
        c >= 1,
        b >= 0,
        -(c * b) <= x <= c * b,
    ensures
        -b <= tdiv(x, c) <= b,
{
    lemma_tdiv_mag(x, c);
    assert(-b <= tdiv(x, c) <= b) by (nonlinear_arith)
        requires
            abs(tdiv(x, c)) * c <= abs(x),
            abs(x) <= c * b,
            c >= 1,
            b >= 0,
            abs(tdiv(x, c)) == if tdiv(x, c) >= 0 { tdiv(x, c) } else { -tdiv(x, c) },
            abs(x) == if x >= 0 { x } else { -x },
    ;
}

/// The central clamp guarantee: `limited(m)` never exceeds magnitude `m` --
/// neither in squared magnitude nor componentwise -- and leaves a vector
/// already within the bound untouched.
pub proof fn lemma_limited(v: V3, m: int)
    requires
        m >= 0,
    ensures
        v.limited(m).norm2() <= m * m,
        v.limited(m).in_box(m),
        v.norm2() <= m * m ==> v.limited(m) == v,
{
    lemma_norm2_comp(v);
    assert(m * m >= 0) by (nonlinear_arith)
        requires
            m >= 0,
    ;
    if v.norm2() > m * m {
        let s = v.mag_ceil();
        lemma_mag_ceil(v);
        let w = v.scaled(m, s);
        lemma_norm2_comp(w);
        lemma_tdiv_scale_sq(v.x, m, s);
        lemma_tdiv_scale_sq(v.y, m, s);
        lemma_tdiv_scale_sq(v.z, m, s);
        assert(w.norm2() * (s * s) <= v.norm2() * (m * m)) by (nonlinear_arith)
            requires
                w.x * w.x * (s * s) <= (v.x * v.x) * (m * m),
                w.y * w.y * (s * s) <= (v.y * v.y) * (m * m),
                w.z * w.z * (s * s) <= (v.z * v.z) * (m * m),
                w.norm2() == w.x * w.x + w.y * w.y + w.z * w.z,
                v.norm2() == v.x * v.x + v.y * v.y + v.z * v.z,
        ;
        assert(w.norm2() <= m * m) by (nonlinear_arith)
            requires
                w.norm2() * (s * s) <= v.norm2() * (m * m),
                v.norm2() <= s * s,
                s >= 1,
                m >= 0,
                w.norm2() >= 0,
        ;
        lemma_comp_box(w, m);
    } else {
        lemma_comp_box(v, m);
    }
}

/// A squared-magnitude bound gives a componentwise bound.
pub proof fn lemma_comp_box(v: V3, m: int)
    requires
        m >= 0,
        v.norm2() <= m * m,
    ensures
        v.in_box(m),
{
    lemma_norm2_comp(v);
    crate::fixed::lemma_comp_le_mag(v.x, v.norm2(), m);
    crate::fixed::lemma_comp_le_mag(v.y, v.norm2(), m);
    crate::fixed::lemma_comp_le_mag(v.z, v.norm2(), m);
}

/// The unit vector of a non-zero vector lies inside the `SCALE` box.
pub proof fn lemma_unit_box(v: V3)
    requires
        v.norm2() > 0,
    ensures
        v.unit().in_box(SCALE as int),
{
    lemma_mag_ceil(v);
    lemma_scaled_box(v, SCALE as int, v.mag_ceil());
}

/// The zero vector has zero magnitude and is fixed by every rescaling.
pub proof fn lemma_zero_vec(num: int, den: int)
    requires
        den >= 1,
    ensures
        V3::zero().norm2() == 0,
        V3::zero().scaled(num, den) == V3::zero(),
{
    assert(0 * 0 == 0) by (nonlinear_arith);
    assert(0 * num == 0) by (nonlinear_arith);
    vstd::arithmetic::div_mod::lemma_div_of0(den);
}

/// Rescaling keeps a zero component zero: planar vectors stay planar through
/// every force calculation.
pub proof fn lemma_scaled_z0(v: V3, num: int, den: int)
    requires
        v.z == 0,
        den >= 1,
    ensures
        v.scaled(num, den).z == 0,
{
    assert(v.z * num == 0) by (nonlinear_arith)
        requires
            v.z == 0,
    ;
    vstd::arithmetic::div_mod::lemma_div_of0(den);
}

/// Clamping keeps a zero z component zero.
pub proof fn lemma_limited_z0(v: V3, m: int)
    requires
        v.z == 0,
    ensures
        v.limited(m).z == 0,
{
    assert(m * m >= 0) by (nonlinear_arith);
    if v.norm2() > m * m {
        lemma_norm2_comp(v);
        lemma_mag_ceil(v);
        lemma_scaled_z0(v, m, v.mag_ceil());
    }
}

/// Squared magnitude, computed in wide integers so no in-range input can
/// overflow.
pub fn norm2_wide(v: &Vector3) -> (n: i128)
    requires
        v@.in_box(crate::fixed::VEC_MAX as int),
    ensures
        n == v@.norm2(),
        0 <= n <= 3 * (crate::fixed::VEC_MAX as int) * (crate::fixed::VEC_MAX as int),
{
    proof {
        lemma_norm2_comp(v@);
        lemma_norm2_box(v@, crate::fixed::VEC_MAX as int);
        assert((v@.x) * (v@.x) <= (crate::fixed::VEC_MAX as int) * (crate::fixed::VEC_MAX as int))
            by (nonlinear_arith)
            requires
                -(crate::fixed::VEC_MAX as int) <= v@.x <= crate::fixed::VEC_MAX as int,
        ;
        assert((v@.y) * (v@.y) <= (crate::fixed::VEC_MAX as int) * (crate::fixed::VEC_MAX as int))
            by (nonlinear_arith)
            requires
                -(crate::fixed::VEC_MAX as int) <= v@.y <= crate::fixed::VEC_MAX as int,
        ;
        assert((v@.z) * (v@.z) <= (crate::fixed::VEC_MAX as int) * (crate::fixed::VEC_MAX as int))
            by (nonlinear_arith)
            requires
                -(crate::fixed::VEC_MAX as int) <= v@.z <= crate::fixed::VEC_MAX as int,
        ;
    }
    let x = v.x as i128;
    let y = v.y as i128;
    let z = v.z as i128;
    x * x + y * y + z * z
}

} // verus!
