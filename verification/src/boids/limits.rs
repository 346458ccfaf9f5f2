//! Magnitude clamping for planar and spatial vectors: the shared numeric
//! primitive behind every steering force. The comparison is made on squared
//! magnitudes, so a vector already within the bound is returned untouched
//! without any square root.

use vstd::prelude::*;
use crate::fixed::{div_trunc, isqrt_ceil, VEC_MAX};
use crate::vector::{lemma_limited, lemma_mag_ceil, lemma_norm2_comp, norm2_wide, Vector2, Vector3};

verus! {

/// Limit the magnitude of a planar vector: rescaled onto `max_magnitude` when
/// its squared magnitude exceeds `max_magnitude * max_magnitude`, unchanged
/// otherwise.
pub fn limit_magnitude_v2(vector: Vector2, max_magnitude: i64) -> (r: Vector2)
    requires
        vector@.in_box(VEC_MAX as int),
        0 <= max_magnitude <= VEC_MAX,
    ensures
        r@ == vector@.limited(max_magnitude as int),
        r@.to3().norm2() <= max_magnitude * max_magnitude,
        r@.in_box(max_magnitude as int),
{
    let lifted = Vector3 { x: vector.x, y: vector.y, z: 0 };
    let limited = limit_magnitude_v3(lifted, max_magnitude);
    proof {
        crate::vector::lemma_limited_z0(lifted@, max_magnitude as int);
    }
    Vector2 { x: limited.x, y: limited.y }
}

/// Limit the magnitude of a spatial vector: rescaled onto `max_magnitude`
/// when its squared magnitude exceeds `max_magnitude * max_magnitude`,
/// unchanged otherwise.
pub fn limit_magnitude_v3(vector: Vector3, max_magnitude: i64) -> (r: Vector3)
    requires
        vector@.in_box(VEC_MAX as int),
        0 <= max_magnitude <= VEC_MAX,
    ensures
        r@ == vector@.limited(max_magnitude as int),
        r@.norm2() <= max_magnitude * max_magnitude,
        r@.in_box(max_magnitude as int),
{
    let n = norm2_wide(&vector);
    let m = max_magnitude as i128;
    proof {
        lemma_limited(vector@, max_magnitude as int);
        assert(m * m <= (VEC_MAX as int) * (VEC_MAX as int)) by (nonlinear_arith)
            requires
                0 <= m <= VEC_MAX as int,
        ;
        assert((vector@.x) * m <= (VEC_MAX as int) * (VEC_MAX as int) && (vector@.x) * m >= -(
        (VEC_MAX as int) * (VEC_MAX as int))) by (nonlinear_arith)
            requires
                0 <= m <= VEC_MAX as int,
                -(VEC_MAX as int) <= vector@.x <= VEC_MAX as int,
        ;
        assert((vector@.y) * m <= (VEC_MAX as int) * (VEC_MAX as int) && (vector@.y) * m >= -(
        (VEC_MAX as int) * (VEC_MAX as int))) by (nonlinear_arith)
            requires
                0 <= m <= VEC_MAX as int,
                -(VEC_MAX as int) <= vector@.y <= VEC_MAX as int,
        ;
        assert((vector@.z) * m <= (VEC_MAX as int) * (VEC_MAX as int) && (vector@.z) * m >= -(
        (VEC_MAX as int) * (VEC_MAX as int))) by (nonlinear_arith)
            requires
                0 <= m <= VEC_MAX as int,
                -(VEC_MAX as int) <= vector@.z <= VEC_MAX as int,
        ;
    }
    if n > m * m {
        proof {
            lemma_norm2_comp(vector@);
            lemma_mag_ceil(vector@);
        }
        let s = isqrt_ceil(n as u128) as i128;
        let x = div_trunc((vector.x as i128) * m, s);
        let y = div_trunc((vector.y as i128) * m, s);
        let z = div_trunc((vector.z as i128) * m, s);
        Vector3 { x: x as i64, y: y as i64, z: z as i64 }
    } else {
        vector
    }
}

} // verus!
