//! The agent abstraction: the per-behaviour force weights and the capability
//! contract every concrete agent kind implements.

use vstd::prelude::*;

use crate::fixed::{FORCE_MAX, LIMIT};
use crate::flock::Flock;
use crate::vector::{Vector3, V3};

pub mod boid2d;
pub mod boid3d;
pub mod convert;
pub mod limits;
pub mod steer;

verus! {

/// The relative strengths of the steering behaviours, copied into each agent.
/// Fixed-point scalars: `SCALE` is a weight of one.
#[derive(Clone, Copy, Debug, PartialEq, Eq, Structural)]
pub struct BoidWeights {
    pub alignment: i64,
    pub cohesion: i64,
    pub separation: i64,
    pub targeting: i64,
}

/// Every weight within the accepted range.
pub open spec fn weights_ok(w: BoidWeights) -> bool {
    &&& 0 <= w.alignment <= LIMIT
    &&& 0 <= w.cohesion <= LIMIT
    &&& 0 <= w.separation <= LIMIT
    &&& 0 <= w.targeting <= LIMIT
}

impl BoidWeights {
    /// The reference weights: alignment 1.5, cohesion 1.0, separation 1.0,
    /// targeting 0.0003, in fixed point.
    pub open spec fn spec_default() -> BoidWeights {
        BoidWeights { alignment: 15_000, cohesion: 10_000, separation: 10_000, targeting: 3 }
    }
}

impl Default for BoidWeights {
    fn default() -> (r: BoidWeights)
        ensures
            r == BoidWeights::spec_default(),
            weights_ok(r),
    {
        BoidWeights { alignment: 15_000, cohesion: 10_000, separation: 10_000, targeting: 3 }
    }
}

/// Common capabilities of every agent kind, whatever its dimensionality:
/// canonical three-dimensional accessors, the three neighbourhood steering
/// forces, weight configuration, and the pure per-tick transition. Every
/// force result is pinned exactly by the implementing kind's spec functions,
/// and every transition keeps the agent `valid` -- in particular, its speed
/// within `max_speed`.
pub trait Boid: Sized + Clone {
    /// The agent's internal invariant: limits and weights within range and
    /// the speed within `max_speed`.
    spec fn valid(&self) -> bool;

    /// The agent's position inside the simulation box, so one tick of motion
    /// cannot overflow.
    spec fn in_bounds(&self) -> bool;

    /// The precondition of a force calculation or update against a flock
    /// snapshot: this agent valid and in bounds, and the flock's
    /// configuration and population within range.
    spec fn ready(&self, flock: Flock<Self>) -> bool;

    /// Canonical position view.
    spec fn spec_position(&self) -> V3;

    /// Canonical velocity view.
    spec fn spec_velocity(&self) -> V3;

    /// Canonical acceleration view.
    spec fn spec_acceleration(&self) -> V3;

    /// The agent's force weights.
    spec fn spec_weights(&self) -> BoidWeights;

    /// The agent's speed bound.
    spec fn spec_max_speed(&self) -> int;

    /// The agent's steering force bound.
    spec fn spec_max_force(&self) -> int;

    /// The separation force this agent computes against a flock snapshot.
    spec fn spec_separate(&self, flock: Flock<Self>) -> V3;

    /// The alignment force against a flock snapshot.
    spec fn spec_align(&self, flock: Flock<Self>) -> V3;

    /// The cohesion force against a flock snapshot.
    spec fn spec_cohesion(&self, flock: Flock<Self>) -> V3;

    /// The agent after integrating a force: velocity summed and clamped to
    /// `max_speed`, position advanced, acceleration reset to zero.
    spec fn spec_with_force(&self, force: V3) -> Self;

    /// The agent after one full tick against a flock snapshot.
    spec fn spec_update(&self, flock: Flock<Self>) -> Self;

    /// Get the current position of the boid (canonical 3D view).
    fn position(&self) -> (r: Vector3)
        ensures
            r@ == self.spec_position(),
    ;

    /// Get the current velocity of the boid (canonical 3D view).
    fn velocity(&self) -> (r: Vector3)
        ensures
            r@ == self.spec_velocity(),
    ;

    /// Get the current acceleration of the boid (canonical 3D view).
    fn acceleration(&self) -> (r: Vector3)
        ensures
            r@ == self.spec_acceleration(),
    ;

    /// Calculate the separation force for this boid: never larger in
    /// magnitude than `max_force`.
    fn separate(&self, flock: &Flock<Self>) -> (r: Vector3)
        requires
            self.ready(*flock),
        ensures
            r@ == self.spec_separate(*flock),
            r@.norm2() <= self.spec_max_force() * self.spec_max_force(),
            r@.in_box(self.spec_max_force()),
    ;

    /// Calculate the alignment force for this boid: never larger in
    /// magnitude than `max_force`.
    fn align(&self, flock: &Flock<Self>) -> (r: Vector3)
        requires
            self.ready(*flock),
        ensures
            r@ == self.spec_align(*flock),
            r@.norm2() <= self.spec_max_force() * self.spec_max_force(),
            r@.in_box(self.spec_max_force()),
    ;

    /// Calculate the cohesion force for this boid: never larger in magnitude
    /// than `max_force`.
    fn cohesion(&self, flock: &Flock<Self>) -> (r: Vector3)
        requires
            self.ready(*flock),
        ensures
            r@ == self.spec_cohesion(*flock),
            r@.norm2() <= self.spec_max_force() * self.spec_max_force(),
            r@.in_box(self.spec_max_force()),
    ;

    /// Set the weights for the boid, leaving every other field unchanged.
    fn set_weights(&mut self, weights: BoidWeights)
        ensures
            final(self).spec_weights() == weights,
            final(self).spec_position() == old(self).spec_position(),
            final(self).spec_velocity() == old(self).spec_velocity(),
            final(self).spec_acceleration() == old(self).spec_acceleration(),
            final(self).spec_max_speed() == old(self).spec_max_speed(),
            final(self).spec_max_force() == old(self).spec_max_force(),
            final(self).in_bounds() == old(self).in_bounds(),
            old(self).valid() && weights_ok(weights) ==> final(self).valid(),
    ;

    /// Get the weights for the boid.
    fn get_weights(&self) -> (r: BoidWeights)
        ensures
            r == self.spec_weights(),
    ;

    /// A *new* agent with the force integrated; the receiver is unchanged.
    /// The new agent's speed is again within `max_speed`.
    fn with_force(&self, force: Vector3) -> (r: Self)
        requires
            self.valid(),
            self.in_bounds(),
            force@.in_box(FORCE_MAX as int),
        ensures
            r == self.spec_with_force(force@),
            r.valid(),
    ;

    /// One tick: the three weighted steering forces (and target seeking when
    /// the flock has a target) summed and integrated through `with_force`,
    /// all read from the given immutable snapshot.
    fn update(&self, flock: &Flock<Self>) -> (r: Self)
        requires
            self.ready(*flock),
        ensures
            r == self.spec_update(*flock),
            r.valid(),
    ;
}

} // verus!
