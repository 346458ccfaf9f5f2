//! The flock: the owning collection of agents plus the shared
//! interaction-radius configuration, and the one-step update across all of
//! them -- sequential or parallel, with the same pinned result either way.

use vstd::prelude::*;

use crate::boids::Boid;
use crate::fixed::{LIMIT, POS_MAX};
use crate::vector::Vector3;

verus! {

/// A flock of agents. The order of `boids` carries no simulation meaning but
/// is preserved across an update, so a host's identity-by-index mapping
/// stays stable. `parallel` selects the scheduling strategy for the update;
/// it never changes the result.
#[derive(Clone, Debug)]
pub struct Flock<T> {
    pub boids: Vec<T>,
    pub goal_separation: i64,
    pub goal_alignment: i64,
    pub goal_cohesion: i64,
    pub target: Option<Vector3>,
    pub parallel: bool,
}

/// The flock's configuration within range: non-negative bounded radii and,
/// when set, a target point inside the simulation box.
pub open spec fn flock_config_ok<T>(f: Flock<T>) -> bool {
    &&& 0 <= f.goal_separation <= LIMIT
    &&& 0 <= f.goal_alignment <= LIMIT
    &&& 0 <= f.goal_cohesion <= LIMIT
    &&& match f.target {
        Some(t) => t@.in_box(POS_MAX as int),
        None => true,
    }
}

/// Every agent of the flock valid and inside the simulation box.
pub open spec fn flock_boids_ok<T: Boid>(f: Flock<T>) -> bool {
    forall|i: int|
        0 <= i < f.boids@.len() ==> (#[trigger] f.boids@[i]).valid() && f.boids@[i].in_bounds()
}

/// The precondition of one update step.
pub open spec fn flock_ok<T: Boid>(f: Flock<T>) -> bool {
    flock_config_ok(f) && flock_boids_ok(f)
}

impl<T: Boid + Send + Sync> Flock<T> {
    /// Update all boids in the flock: every agent's next state is computed
    /// from the one consistent snapshot taken at the start of the step, and
    /// the results replace the population only after all are computed. The
    /// outcome is pinned agent by agent, whether the step ran sequentially
    /// or in parallel.
    pub fn update(&mut self)
        requires
            forall|i: int|
                0 <= i < old(self).boids@.len() ==> (#[trigger] old(self).boids@[i]).ready(
                    *old(self),
                ),
        ensures
            final(self).boids@.len() == old(self).boids@.len(),
            forall|i: int|
                0 <= i < old(self).boids@.len() ==> final(self).boids@[i] == (#[trigger] old(
                    self,
                ).boids@[i]).spec_update(*old(self)),
            forall|i: int|
                0 <= i < old(self).boids@.len() ==> (#[trigger] final(self).boids@[i]).valid(),
            final(self).goal_separation == old(self).goal_separation,
            final(self).goal_alignment == old(self).goal_alignment,
            final(self).goal_cohesion == old(self).goal_cohesion,
            final(self).target == old(self).target,
            final(self).parallel == old(self).parallel,
    {
        let new_boids = crate::iter::maybe_scope(self.parallel, self);
        self.boids = new_boids;
    }

    /// Set or clear the point the flock steers toward.
    pub fn set_target(&mut self, target: Option<Vector3>)
        requires
            match target {
                Some(t) => t@.in_box(POS_MAX as int),
                None => true,
            },
        ensures
            final(self).target == target,
            final(self).boids == old(self).boids,
            final(self).goal_separation == old(self).goal_separation,
            final(self).goal_alignment == old(self).goal_alignment,
            final(self).goal_cohesion == old(self).goal_cohesion,
            final(self).parallel == old(self).parallel,
    {
        self.target = target;
    }
}

impl<T> Default for Flock<T> {
    /// An empty flock with the reference radii: separation 25, alignment 50,
    /// cohesion 50 spatial units, no target, sequential scheduling.
    fn default() -> (r: Flock<T>)
        ensures
            r.boids@.len() == 0,
            r.goal_separation == 250_000,
            r.goal_alignment == 500_000,
            r.goal_cohesion == 500_000,
            r.target is None,
            r.parallel == false,
    {
        Flock {
            boids: Vec::new(),
            goal_separation: 250_000,
            goal_alignment: 500_000,
            goal_cohesion: 500_000,
            target: None,
            parallel: false,
        }
    }
}

} // verus!
