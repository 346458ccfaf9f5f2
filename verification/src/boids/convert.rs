//! Lossy conversion between planar and spatial vectors: dropping to the
//! plane forgets the z component, lifting sets it to zero. This lets the
//! force model be written once against the canonical three-dimensional
//! vector while planar agents store only planar state.

use vstd::prelude::*;
use crate::vector::{Vector2, Vector3};

verus! {

/// Conversion that may forget information, with its exact result in the
/// contract.
pub trait LossyConvert<T>: Sized {
    /// The converted value.
    spec fn spec_convert(&self) -> T;

    /// Convert, returning exactly `spec_convert`.
    fn lossy_convert(&self) -> (r: T)
        ensures
            r == self.spec_convert(),
    ;
}

impl LossyConvert<Vector2> for Vector3 {
    open spec fn spec_convert(&self) -> Vector2 {
        Vector2 { x: self.x, y: self.y }
    }

    fn lossy_convert(&self) -> (r: Vector2) {
        Vector2 { x: self.x, y: self.y }
    }
}

impl LossyConvert<Vector3> for Vector2 {
    open spec fn spec_convert(&self) -> Vector3 {
        Vector3 { x: self.x, y: self.y, z: 0 }
    }

    fn lossy_convert(&self) -> (r: Vector3) {
        Vector3 { x: self.x, y: self.y, z: 0 }
    }
}

/// Round trip of the lossy conversions: dropping a spatial vector to the
/// plane and lifting it back preserves x and y exactly and zeroes z, and
/// lifting a planar vector then dropping it returns it unchanged.
pub proof fn lemma_lossy_round_trip(v: Vector3, p: Vector2)
    ensures
        <Vector2 as LossyConvert<Vector3>>::spec_convert(
            &<Vector3 as LossyConvert<Vector2>>::spec_convert(&v),
        ) == (Vector3 { x: v.x, y: v.y, z: 0 }),
        <Vector3 as LossyConvert<Vector2>>::spec_convert(
            &<Vector2 as LossyConvert<Vector3>>::spec_convert(&p),
        ) == p,
{
}

} // verus!
