//! A boid living in space. Its stored state is already the canonical
//! three-dimensional representation, so every conversion is the identity and
//! forces integrate without projection.

use vstd::prelude::*;

use crate::boids::steer::{
    align_kernel, cohesion_kernel, seek_kernel, separate_kernel, spec_align, spec_cohesion,
    spec_seek, spec_separate, states_bounded, weighted, AgentState,
};
use crate::boids::{weights_ok, Boid, BoidWeights};
use crate::fixed::{LIMIT, POS_MAX, SCALE};
use crate::flock::Flock;
use crate::trig::{cos_fix, sin_fix, spec_cos, spec_sin, TAU_FIX};
use crate::vector::{lemma_comp_box, lemma_norm2_box, Vector3, V3};

verus! {

/// A Boid in 3 dimensions.
#[derive(Clone, Copy, Debug, PartialEq, Eq, Structural)]
pub struct Boid3D {
    /// Boid position
    pub position: Vector3,
    /// Boid velocity
    pub velocity: Vector3,
    /// Boid acceleration
    pub acceleration: Vector3,
    /// Boid maximum speed
    pub max_speed: i64,
    /// Boid maximum force
    pub max_force: i64,
    /// Boid maximum turn rate
    pub r: i64,
    /// Boid weights
    pub weights: BoidWeights,
}

/// The snapshot a spatial agent contributes to the force model: its own
/// state, unchanged.
pub open spec fn state_of(b: Boid3D) -> AgentState {
    AgentState { position: b.position, velocity: b.velocity }
}

/// The whole flock's snapshot, in order.
pub open spec fn states_of(boids: Seq<Boid3D>) -> Seq<AgentState> {
    boids.map_values(|b: Boid3D| state_of(b))
}

/// A valid agent's velocity lies inside the speed box.
pub proof fn lemma_velocity_box(b: Boid3D)
    requires
        b.valid(),
    ensures
        b.velocity@.in_box(LIMIT as int),
{
    assert((b.max_speed as int) * (b.max_speed as int) <= (LIMIT as int) * (LIMIT as int))
        by (nonlinear_arith)
        requires
            0 <= b.max_speed <= LIMIT,
    ;
    lemma_comp_box(b.velocity@, LIMIT as int);
}

/// A population of valid, in-bounds agents yields a snapshot within the
/// simulation bounds.
pub proof fn lemma_states_bounded(boids: Seq<Boid3D>)
    requires
        forall|i: int|
            0 <= i < boids.len() ==> (#[trigger] boids[i]).valid() && boids[i].in_bounds(),
    ensures
        states_bounded(states_of(boids)),
{
    assert forall|i: int|
        0 <= i < states_of(boids).len() implies (#[trigger] states_of(boids)[i]).position@.in_box(
        POS_MAX as int,
    ) && states_of(boids)[i].velocity@.in_box(LIMIT as int) by {
        let b = boids[i];
        assert(states_of(boids)[i] == state_of(b));
        lemma_velocity_box(b);
    }
}

/// The flock snapshot as a vector of canonical agent states.
fn flock_states(flock: &Flock<Boid3D>) -> (r: Vec<AgentState>)
    requires
        forall|i: int|
            0 <= i < flock.boids@.len() ==> (#[trigger] flock.boids@[i]).valid()
                && flock.boids@[i].in_bounds(),
    ensures
        r@ == states_of(flock.boids@),
        states_bounded(r@),
{
    let mut out: Vec<AgentState> = Vec::new();
    let mut i: usize = 0;
    while i < flock.boids.len()
        invariant
            i <= flock.boids@.len(),
            out@.len() == i as int,
            forall|j: int| 0 <= j < i as int ==> (#[trigger] out@[j]) == state_of(flock.boids@[j]),
        decreases flock.boids@.len() - i,
    {
        let b = flock.boids[i];
        out.push(AgentState { position: b.position, velocity: b.velocity });
        i = i + 1;
    }
    proof {
        assert(out@ =~= states_of(flock.boids@));
        lemma_states_bounded(flock.boids@);
    }
    out
}

impl Boid3D {
    /// Create a new Boid3D from a position and a fixed-point angle on one
    /// turn: a unit-speed heading of (cos, sin, 0) in the xy plane, the
    /// reference limits and the default weights.
    pub fn new_with_angle(position: Vector3, angle: i64) -> (b: Boid3D)
        requires
            position@.in_box(POS_MAX as int),
            0 <= angle < TAU_FIX,
        ensures
            b.position == position,
            b.velocity@.x == spec_cos(angle as int),
            b.velocity@.y == spec_sin(angle as int),
            b.velocity@.z == 0,
            b.acceleration == (Vector3 { x: 0, y: 0, z: 0 }),
            b.max_speed == 2 * SCALE,
            b.max_force == 300,
            b.r == 2 * SCALE,
            b.weights == BoidWeights::spec_default(),
            b.valid(),
            b.in_bounds(),
    {
        let vx = cos_fix(angle);
        let vy = sin_fix(angle);
        let b = Boid3D {
            position,
            velocity: Vector3 { x: vx, y: vy, z: 0 },
            acceleration: Vector3 { x: 0, y: 0, z: 0 },
            max_speed: 2 * SCALE,
            max_force: 300,
            r: 2 * SCALE,
            weights: BoidWeights::default(),
        };
        proof {
            lemma_norm2_box(b.velocity@, SCALE as int);
        }
        b
    }

    /// Create a new Boid3D from a position and a uniformly random heading
    /// angle in the xy plane.
    pub fn new(position: Vector3) -> (b: Boid3D)
        requires
            position@.in_box(POS_MAX as int),
        ensures
            b.position == position,
            b.acceleration == (Vector3 { x: 0, y: 0, z: 0 }),
            b.max_speed == 2 * SCALE,
            b.max_force == 300,
            b.r == 2 * SCALE,
            b.weights == BoidWeights::spec_default(),
            b.valid(),
            b.in_bounds(),
            exists|a: int|
                0 <= a < TAU_FIX && b.velocity@.x == spec_cos(a) && b.velocity@.y == spec_sin(a)
                    && b.velocity@.z == 0,
    {
        let angle = crate::boids::boid2d::random_angle();
        let b = Self::new_with_angle(position, angle);
        proof {
            assert(0 <= (angle as int) < TAU_FIX && b.velocity@.x == spec_cos(angle as int)
                && b.velocity@.y == spec_sin(angle as int));
        }
        b
    }

    /// The total weighted force one tick applies, as for the planar agent.
    pub open spec fn spec_total_force(&self, flock: Flock<Boid3D>) -> V3 {
        let base = self.spec_separate(flock).scaled(
            self.weights.separation as int,
            SCALE as int,
        ).add3(self.spec_align(flock).scaled(self.weights.alignment as int, SCALE as int)).add3(
            self.spec_cohesion(flock).scaled(self.weights.cohesion as int, SCALE as int),
        );
        match flock.target {
            Some(t) => base.add3(
                spec_seek(
                    t@,
                    self.spec_position(),
                    self.spec_velocity(),
                    self.spec_max_speed(),
                    self.spec_max_force(),
                ).scaled(self.weights.targeting as int, SCALE as int),
            ),
            None => base,
        }
    }
}

/// Every valid, in-bounds agent of a well-formed flock is ready to compute
/// forces against it.
pub proof fn lemma_flock_ready(f: Flock<Boid3D>)
    requires
        crate::flock::flock_ok(f),
    ensures
        forall|i: int| 0 <= i < f.boids@.len() ==> (#[trigger] f.boids@[i]).ready(f),
{
}

/// Speed bound: whatever force is integrated -- of any magnitude -- the
/// resulting agent's speed is at most `max_speed`.
pub proof fn lemma_speed_bound(b: Boid3D, force: V3)
    requires
        0 <= b.max_speed,
    ensures
        b.spec_with_force(force).spec_velocity().norm2() <= b.spec_max_speed()
            * b.spec_max_speed(),
{
    let summed = V3 {
        x: b.velocity@.x + force.x,
        y: b.velocity@.y + force.y,
        z: b.velocity@.z + force.z,
    };
    let nv = summed.limited(b.max_speed as int);
    crate::vector::lemma_limited(summed, b.max_speed as int);
    assert(b.spec_with_force(force).spec_velocity() == nv);
}

/// Speed bound after one full tick, whatever the flock around the agent.
pub proof fn lemma_update_speed_bound(b: Boid3D, flock: Flock<Boid3D>)
    requires
        0 <= b.max_speed,
    ensures
        b.spec_update(flock).spec_velocity().norm2() <= b.spec_max_speed() * b.spec_max_speed(),
{
    lemma_speed_bound(b, b.spec_total_force(flock));
}

/// No-neighbour zero force: an agent with no neighbour inside any of the
/// three radii feels zero separation, alignment and cohesion, and one tick
/// moves it by exactly its clamped velocity.
pub proof fn lemma_isolated_update(b: Boid3D, flock: Flock<Boid3D>)
    requires
        b.valid(),
        b.in_bounds(),
        crate::boids::steer::neighbor_count(
            b.spec_position(),
            states_of(flock.boids@),
            flock.goal_separation as int,
        ) == 0,
        crate::boids::steer::neighbor_count(
            b.spec_position(),
            states_of(flock.boids@),
            flock.goal_alignment as int,
        ) == 0,
        crate::boids::steer::neighbor_count(
            b.spec_position(),
            states_of(flock.boids@),
            flock.goal_cohesion as int,
        ) == 0,
        flock.target is None,
    ensures
        b.spec_separate(flock) == V3::zero(),
        b.spec_align(flock) == V3::zero(),
        b.spec_cohesion(flock) == V3::zero(),
        b.spec_update(flock) == b.spec_with_force(V3::zero()),
        b.spec_update(flock).position@.x == b.position@.x + b.velocity@.limited(
            b.spec_max_speed(),
        ).x,
        b.spec_update(flock).position@.y == b.position@.y + b.velocity@.limited(
            b.spec_max_speed(),
        ).y,
        b.spec_update(flock).position@.z == b.position@.z + b.velocity@.limited(
            b.spec_max_speed(),
        ).z,
        b.spec_update(flock).velocity@ == b.velocity@.limited(b.spec_max_speed()),
{
    crate::boids::steer::lemma_no_neighbor_zero_force(
        b.spec_position(),
        b.spec_velocity(),
        b.spec_max_speed(),
        b.spec_max_force(),
        states_of(flock.boids@),
        flock.goal_separation as int,
    );
    crate::boids::steer::lemma_no_neighbor_zero_force(
        b.spec_position(),
        b.spec_velocity(),
        b.spec_max_speed(),
        b.spec_max_force(),
        states_of(flock.boids@),
        flock.goal_alignment as int,
    );
    crate::boids::steer::lemma_no_neighbor_zero_force(
        b.spec_position(),
        b.spec_velocity(),
        b.spec_max_speed(),
        b.spec_max_force(),
        states_of(flock.boids@),
        flock.goal_cohesion as int,
    );
    crate::vector::lemma_zero_vec(b.weights.separation as int, SCALE as int);
    crate::vector::lemma_zero_vec(b.weights.alignment as int, SCALE as int);
    crate::vector::lemma_zero_vec(b.weights.cohesion as int, SCALE as int);
    assert(b.spec_total_force(flock) == V3::zero());
    let summed = V3 {
        x: b.velocity@.x + 0,
        y: b.velocity@.y + 0,
        z: b.velocity@.z + 0,
    };
    assert(summed == b.velocity@);
    let nv = summed.limited(b.max_speed as int);
    crate::vector::lemma_limited(summed, b.max_speed as int);
    assert(b.spec_with_force(V3::zero()).velocity@ == nv);
}

impl Boid for Boid3D {
    open spec fn valid(&self) -> bool {
        &&& 0 <= self.max_speed <= LIMIT
        &&& 0 <= self.max_force <= LIMIT
        &&& 0 <= self.r <= LIMIT
        &&& weights_ok(self.weights)
        &&& self.velocity@.norm2() <= (self.max_speed as int) * (self.max_speed as int)
    }

    open spec fn in_bounds(&self) -> bool {
        self.position@.in_box(POS_MAX as int)
    }

    open spec fn ready(&self, flock: Flock<Boid3D>) -> bool {
        &&& self.valid()
        &&& self.in_bounds()
        &&& crate::flock::flock_config_ok(flock)
        &&& forall|i: int|
            0 <= i < flock.boids@.len() ==> (#[trigger] flock.boids@[i]).valid()
                && flock.boids@[i].in_bounds()
    }

    open spec fn spec_position(&self) -> V3 {
        self.position@
    }

    open spec fn spec_velocity(&self) -> V3 {
        self.velocity@
    }

    open spec fn spec_acceleration(&self) -> V3 {
        self.acceleration@
    }

    open spec fn spec_weights(&self) -> BoidWeights {
        self.weights
    }

    open spec fn spec_max_speed(&self) -> int {
        self.max_speed as int
    }

    open spec fn spec_max_force(&self) -> int {
        self.max_force as int
    }

    open spec fn spec_separate(&self, flock: Flock<Boid3D>) -> V3 {
        spec_separate(
            self.position@,
            self.velocity@,
            self.max_speed as int,
            self.max_force as int,
            states_of(flock.boids@),
            flock.goal_separation as int,
        )
    }

    open spec fn spec_align(&self, flock: Flock<Boid3D>) -> V3 {
        spec_align(
            self.position@,
            self.velocity@,
            self.max_speed as int,
            self.max_force as int,
            states_of(flock.boids@),
            flock.goal_alignment as int,
        )
    }

    open spec fn spec_cohesion(&self, flock: Flock<Boid3D>) -> V3 {
        spec_cohesion(
            self.position@,
            self.velocity@,
            self.max_speed as int,
            self.max_force as int,
            states_of(flock.boids@),
            flock.goal_cohesion as int,
        )
    }

    open spec fn spec_with_force(&self, force: V3) -> Boid3D {
        let nv = (V3 {
            x: self.velocity@.x + force.x,
            y: self.velocity@.y + force.y,
            z: self.velocity@.z + force.z,
        }).limited(self.max_speed as int);
        Boid3D {
            position: Vector3 {
                x: (self.position@.x + nv.x) as i64,
                y: (self.position@.y + nv.y) as i64,
                z: (self.position@.z + nv.z) as i64,
            },
            velocity: Vector3 { x: nv.x as i64, y: nv.y as i64, z: nv.z as i64 },
            acceleration: Vector3 { x: 0, y: 0, z: 0 },
            max_speed: self.max_speed,
            max_force: self.max_force,
            r: self.r,
            weights: self.weights,
        }
    }

    open spec fn spec_update(&self, flock: Flock<Boid3D>) -> Boid3D {
        self.spec_with_force(self.spec_total_force(flock))
    }

    fn position(&self) -> (r: Vector3) {
        self.position
    }

    fn velocity(&self) -> (r: Vector3) {
        self.velocity
    }

    fn acceleration(&self) -> (r: Vector3) {
        self.acceleration
    }

    fn separate(&self, flock: &Flock<Boid3D>) -> (r: Vector3) {
        let states = flock_states(flock);
        proof {
            lemma_velocity_box(*self);
        }
        separate_kernel(
            &self.position,
            &self.velocity,
            self.max_speed,
            self.max_force,
            &states,
            flock.goal_separation,
        )
    }

    fn align(&self, flock: &Flock<Boid3D>) -> (r: Vector3) {
        let states = flock_states(flock);
        proof {
            lemma_velocity_box(*self);
        }
        align_kernel(
            &self.position,
            &self.velocity,
            self.max_speed,
            self.max_force,
            &states,
            flock.goal_alignment,
        )
    }

    fn cohesion(&self, flock: &Flock<Boid3D>) -> (r: Vector3) {
        let states = flock_states(flock);
        proof {
            lemma_velocity_box(*self);
        }
        cohesion_kernel(
            &self.position,
            &self.velocity,
            self.max_speed,
            self.max_force,
            &states,
            flock.goal_cohesion,
        )
    }

    fn set_weights(&mut self, weights: BoidWeights) {
        self.weights = weights;
    }

    fn get_weights(&self) -> (r: BoidWeights) {
        self.weights
    }

    fn with_force(&self, force: Vector3) -> (r: Boid3D) {
        proof {
            lemma_velocity_box(*self);
        }
        let fx = self.velocity.x as i128 + force.x as i128;
        let fy = self.velocity.y as i128 + force.y as i128;
        let fz = self.velocity.z as i128 + force.z as i128;
        let summed = Vector3 { x: fx as i64, y: fy as i64, z: fz as i64 };
        let nv = crate::boids::limits::limit_magnitude_v3(summed, self.max_speed);
        Boid3D {
            position: Vector3 {
                x: self.position.x + nv.x,
                y: self.position.y + nv.y,
                z: self.position.z + nv.z,
            },
            velocity: nv,
            acceleration: Vector3 { x: 0, y: 0, z: 0 },
            max_speed: self.max_speed,
            max_force: self.max_force,
            r: self.r,
            weights: self.weights,
        }
    }

    fn update(&self, flock: &Flock<Boid3D>) -> (r: Boid3D) {
        let sep = self.separate(flock);
        let ali = self.align(flock);
        let coh = self.cohesion(flock);
        let wsep = weighted(&sep, self.weights.separation);
        let wali = weighted(&ali, self.weights.alignment);
        let wcoh = weighted(&coh, self.weights.cohesion);
        let base = Vector3 {
            x: wsep.x + wali.x + wcoh.x,
            y: wsep.y + wali.y + wcoh.y,
            z: wsep.z + wali.z + wcoh.z,
        };
        let force = match flock.target {
            Some(t) => {
                proof {
                    lemma_velocity_box(*self);
                }
                let seek = seek_kernel(
                    &t,
                    &self.position,
                    &self.velocity,
                    self.max_speed,
                    self.max_force,
                );
                let wseek = weighted(&seek, self.weights.targeting);
                Vector3 { x: base.x + wseek.x, y: base.y + wseek.y, z: base.z + wseek.z }
            },
            None => base,
        };
        proof {
            assert(force@ == self.spec_total_force(*flock));
        }
        self.with_force(force)
    }
}

} // verus!
