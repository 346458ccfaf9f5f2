//! A boid living in the plane. It stores planar state, presents the
//! canonical three-dimensional view with a zero z component, computes its
//! forces through the shared kernels, and projects every force back onto the
//! plane before integrating it.

use vstd::prelude::*;

use rand::Rng;

use crate::boids::steer::{
    align_kernel, cohesion_kernel, seek_kernel, separate_kernel, spec_align, spec_cohesion,
    spec_seek, spec_separate, states_bounded, weighted, AgentState,
};
use crate::boids::{weights_ok, Boid, BoidWeights};
use crate::fixed::{LIMIT, POS_MAX, SCALE};
use crate::flock::{flock_ok, Flock};
use crate::trig::{cos_fix, sin_fix, spec_cos, spec_sin, TAU_FIX};
use crate::vector::{lemma_comp_box, lemma_limited_z0, lemma_norm2_box, Vector2, Vector3, V3};

verus! {

/// A Boid in 2 dimensions.
#[derive(Clone, Copy, Debug, PartialEq, Eq, Structural)]
pub struct Boid2D {
    /// Boid position
    pub position: Vector2,
    /// Boid velocity
    pub velocity: Vector2,
    /// Boid acceleration
    pub acceleration: Vector2,
    /// Boid maximum speed
    pub max_speed: i64,
    /// Boid maximum force
    pub max_force: i64,
    /// Boid maximum turn rate
    pub r: i64,
    /// Boid weights
    pub weights: BoidWeights,
}

/// The snapshot a planar agent contributes to the force model: its state
/// lifted to the canonical three dimensions.
pub open spec fn state_of(b: Boid2D) -> AgentState {
    AgentState {
        position: Vector3 { x: b.position.x, y: b.position.y, z: 0 },
        velocity: Vector3 { x: b.velocity.x, y: b.velocity.y, z: 0 },
    }
}

/// The whole flock's snapshot, in order.
pub open spec fn states_of(boids: Seq<Boid2D>) -> Seq<AgentState> {
    boids.map_values(|b: Boid2D| state_of(b))
}

/// A valid agent's canonical velocity lies inside the speed box.
pub proof fn lemma_velocity_box(b: Boid2D)
    requires
        b.valid(),
    ensures
        b.spec_velocity().in_box(LIMIT as int),
{
    assert((b.max_speed as int) * (b.max_speed as int) <= (LIMIT as int) * (LIMIT as int))
        by (nonlinear_arith)
        requires
            0 <= b.max_speed <= LIMIT,
    ;
    lemma_comp_box(b.spec_velocity(), LIMIT as int);
}

/// A population of valid, in-bounds agents yields a snapshot within the
/// simulation bounds.
pub proof fn lemma_states_bounded(boids: Seq<Boid2D>)
    requires
        forall|i: int|
            0 <= i < boids.len() ==> (#[trigger] boids[i]).valid() && boids[i].in_bounds(),
    ensures
        states_bounded(states_of(boids)),
{
    assert forall|i: int|
        0 <= i < states_of(boids).len() implies (#[trigger] states_of(boids)[i]).position@.in_box(
        POS_MAX as int,
    ) && states_of(boids)[i].velocity@.in_box(LIMIT as int) by {
        let b = boids[i];
        assert(states_of(boids)[i] == state_of(b));
        lemma_velocity_box(b);
        assert(state_of(b).velocity@ == b.spec_velocity());
        assert(state_of(b).position@ == b.spec_position());
    }
}

/// The flock snapshot as a vector of canonical agent states.
fn flock_states(flock: &Flock<Boid2D>) -> (r: Vec<AgentState>)
    requires
        forall|i: int|
            0 <= i < flock.boids@.len() ==> (#[trigger] flock.boids@[i]).valid()
                && flock.boids@[i].in_bounds(),
    ensures
        r@ == states_of(flock.boids@),
        states_bounded(r@),
{
    let mut out: Vec<AgentState> = Vec::new();
    let mut i: usize = 0;
    while i < flock.boids.len()
        invariant
            i <= flock.boids@.len(),
            out@.len() == i as int,
            forall|j: int| 0 <= j < i as int ==> (#[trigger] out@[j]) == state_of(flock.boids@[j]),
        decreases flock.boids@.len() - i,
    {
        let b = flock.boids[i];
        out.push(
            AgentState {
                position: Vector3 { x: b.position.x, y: b.position.y, z: 0 },
                velocity: Vector3 { x: b.velocity.x, y: b.velocity.y, z: 0 },
            },
        );
        i = i + 1;
    }
    proof {
        assert(out@ =~= states_of(flock.boids@));
        lemma_states_bounded(flock.boids@);
    }
    out
}

/// Relies on `rand::thread_rng` with `Rng::gen_range` on a half-open `i64`
/// range: it returns a uniformly distributed value inside the range and
/// panics only when the range is empty, which the precondition excludes.
#[verifier::external_body]
fn random_in_range(lo: i64, hi: i64) -> (r: i64)
    requires
        lo < hi,
    ensures
        lo <= r < hi,
{
    rand::thread_rng().gen_range(lo..hi)
}

/// A uniformly random heading angle on one turn.
pub(crate) fn random_angle() -> (r: i64)
    ensures
        0 <= r < TAU_FIX,
{
    random_in_range(0, TAU_FIX)
}

impl Boid2D {
    /// Create a new Boid2D from a position and a fixed-point angle on one
    /// turn: a unit-speed heading of (cos, sin), the reference limits
    /// (maximum speed 2, maximum force 0.03, turn rate 2) and the default
    /// weights.
    pub fn new_with_angle(position: Vector2, angle: i64) -> (b: Boid2D)
        requires
            position@.in_box(POS_MAX as int),
            0 <= angle < TAU_FIX,
        ensures
            b.position == position,
            b.velocity@.x == spec_cos(angle as int),
            b.velocity@.y == spec_sin(angle as int),
            b.acceleration == (Vector2 { x: 0, y: 0 }),
            b.max_speed == 2 * SCALE,
            b.max_force == 300,
            b.r == 2 * SCALE,
            b.weights == BoidWeights::spec_default(),
            b.valid(),
            b.in_bounds(),
    {
        let vx = cos_fix(angle);
        let vy = sin_fix(angle);
        let b = Boid2D {
            position,
            velocity: Vector2 { x: vx, y: vy },
            acceleration: Vector2 { x: 0, y: 0 },
            max_speed: 2 * SCALE,
            max_force: 300,
            r: 2 * SCALE,
            weights: BoidWeights::default(),
        };
        proof {
            lemma_norm2_box(b.spec_velocity(), SCALE as int);
        }
        b
    }

    /// Create a new Boid2D from a position and a uniformly random heading
    /// angle on one turn.
    pub fn new(position: Vector2) -> (b: Boid2D)
        requires
            position@.in_box(POS_MAX as int),
        ensures
            b.position == position,
            b.acceleration == (Vector2 { x: 0, y: 0 }),
            b.max_speed == 2 * SCALE,
            b.max_force == 300,
            b.r == 2 * SCALE,
            b.weights == BoidWeights::spec_default(),
            b.valid(),
            b.in_bounds(),
            exists|a: int|
                0 <= a < TAU_FIX && b.velocity@.x == spec_cos(a) && b.velocity@.y == spec_sin(a),
    {
        let angle = random_angle();
        let b = Self::new_with_angle(position, angle);
        proof {
            assert(0 <= (angle as int) < TAU_FIX && b.velocity@.x == spec_cos(angle as int)
                && b.velocity@.y == spec_sin(angle as int));
        }
        b
    }

    /// The total weighted force one tick applies: the three steering
    /// behaviours scaled by their weights, plus the weighted target-seeking
    /// term when the flock has a target.
    pub open spec fn spec_total_force(&self, flock: Flock<Boid2D>) -> V3 {
        let base = self.spec_separate(flock).scaled(
            self.weights.separation as int,
            SCALE as int,
        ).add3(self.spec_align(flock).scaled(self.weights.alignment as int, SCALE as int)).add3(
            self.spec_cohesion(flock).scaled(self.weights.cohesion as int, SCALE as int),
        );
        match flock.target {
            Some(t) => base.add3(
                spec_seek(
                    t@,
                    self.spec_position(),
                    self.spec_velocity(),
                    self.spec_max_speed(),
                    self.spec_max_force(),
                ).scaled(self.weights.targeting as int, SCALE as int),
            ),
            None => base,
        }
    }
}

/// Every valid, in-bounds agent of a well-formed flock is ready to compute
/// forces against it.
pub proof fn lemma_flock_ready(f: Flock<Boid2D>)
    requires
        flock_ok(f),
    ensures
        forall|i: int| 0 <= i < f.boids@.len() ==> (#[trigger] f.boids@[i]).ready(f),
{
}

/// Speed bound: whatever force is integrated -- of any magnitude -- the
/// resulting agent's speed is at most `max_speed`.
pub proof fn lemma_speed_bound(b: Boid2D, force: V3)
    requires
        0 <= b.max_speed,
    ensures
        b.spec_with_force(force).spec_velocity().norm2() <= b.spec_max_speed()
            * b.spec_max_speed(),
{
    let summed = V3 { x: b.velocity@.x + force.x, y: b.velocity@.y + force.y, z: 0 };
    let nv = summed.limited(b.max_speed as int);
    crate::vector::lemma_limited(summed, b.max_speed as int);
    crate::vector::lemma_limited_z0(summed, b.max_speed as int);
    assert(b.spec_with_force(force).spec_velocity() == nv);
}

/// Speed bound after one full tick: the updated agent's speed is at most
/// `max_speed`, whatever the flock around it.
pub proof fn lemma_update_speed_bound(b: Boid2D, flock: Flock<Boid2D>)
    requires
        0 <= b.max_speed,
    ensures
        b.spec_update(flock).spec_velocity().norm2() <= b.spec_max_speed() * b.spec_max_speed(),
{
    lemma_speed_bound(b, b.spec_total_force(flock));
}

/// No-neighbour zero force: an agent with no neighbour inside any of the
/// three radii feels zero separation, alignment and cohesion, and one tick
/// moves it by exactly its clamped velocity.
pub proof fn lemma_isolated_update(b: Boid2D, flock: Flock<Boid2D>)
    requires
        b.valid(),
        b.in_bounds(),
        crate::boids::steer::neighbor_count(
            b.spec_position(),
            states_of(flock.boids@),
            flock.goal_separation as int,
        ) == 0,
        crate::boids::steer::neighbor_count(
            b.spec_position(),
            states_of(flock.boids@),
            flock.goal_alignment as int,
        ) == 0,
        crate::boids::steer::neighbor_count(
            b.spec_position(),
            states_of(flock.boids@),
            flock.goal_cohesion as int,
        ) == 0,
        flock.target is None,
    ensures
        b.spec_separate(flock) == V3::zero(),
        b.spec_align(flock) == V3::zero(),
        b.spec_cohesion(flock) == V3::zero(),
        b.spec_update(flock) == b.spec_with_force(V3::zero()),
        b.spec_update(flock).position@.x == b.position@.x + b.spec_velocity().limited(
            b.spec_max_speed(),
        ).x,
        b.spec_update(flock).position@.y == b.position@.y + b.spec_velocity().limited(
            b.spec_max_speed(),
        ).y,
        b.spec_update(flock).velocity@.to3() == b.spec_velocity().limited(b.spec_max_speed()),
{
    crate::boids::steer::lemma_no_neighbor_zero_force(
        b.spec_position(),
        b.spec_velocity(),
        b.spec_max_speed(),
        b.spec_max_force(),
        states_of(flock.boids@),
        flock.goal_separation as int,
    );
    crate::boids::steer::lemma_no_neighbor_zero_force(
        b.spec_position(),
        b.spec_velocity(),
        b.spec_max_speed(),
        b.spec_max_force(),
        states_of(flock.boids@),
        flock.goal_alignment as int,
    );
    crate::boids::steer::lemma_no_neighbor_zero_force(
        b.spec_position(),
        b.spec_velocity(),
        b.spec_max_speed(),
        b.spec_max_force(),
        states_of(flock.boids@),
        flock.goal_cohesion as int,
    );
    crate::vector::lemma_zero_vec(b.weights.separation as int, SCALE as int);
    crate::vector::lemma_zero_vec(b.weights.alignment as int, SCALE as int);
    crate::vector::lemma_zero_vec(b.weights.cohesion as int, SCALE as int);
    assert(b.spec_total_force(flock) == V3::zero());
    let summed = V3 { x: b.velocity@.x + 0, y: b.velocity@.y + 0, z: 0 };
    assert(summed == b.spec_velocity());
    let nv = summed.limited(b.max_speed as int);
    crate::vector::lemma_limited(summed, b.max_speed as int);
    crate::vector::lemma_limited_z0(summed, b.max_speed as int);
    assert(b.spec_with_force(V3::zero()).velocity@.to3() == nv);
}

/// Planar agents never accumulate motion out of the plane: after any tick
/// the canonical views of position, velocity and acceleration all have a
/// zero z component.
pub proof fn lemma_planar_motion(b: Boid2D, flock: Flock<Boid2D>)
    ensures
        b.spec_update(flock).spec_position().z == 0,
        b.spec_update(flock).spec_velocity().z == 0,
        b.spec_update(flock).spec_acceleration().z == 0,
{
}

impl Boid for Boid2D {
    open spec fn valid(&self) -> bool {
        &&& 0 <= self.max_speed <= LIMIT
        &&& 0 <= self.max_force <= LIMIT
        &&& 0 <= self.r <= LIMIT
        &&& weights_ok(self.weights)
        &&& self.velocity@.to3().norm2() <= (self.max_speed as int) * (self.max_speed as int)
    }

    open spec fn in_bounds(&self) -> bool {
        self.position@.in_box(POS_MAX as int)
    }

    open spec fn ready(&self, flock: Flock<Boid2D>) -> bool {
        &&& self.valid()
        &&& self.in_bounds()
        &&& crate::flock::flock_config_ok(flock)
        &&& forall|i: int|
            0 <= i < flock.boids@.len() ==> (#[trigger] flock.boids@[i]).valid()
                && flock.boids@[i].in_bounds()
    }

    open spec fn spec_position(&self) -> V3 {
        self.position@.to3()
    }

    open spec fn spec_velocity(&self) -> V3 {
        self.velocity@.to3()
    }

    open spec fn spec_acceleration(&self) -> V3 {
        self.acceleration@.to3()
    }

    open spec fn spec_weights(&self) -> BoidWeights {
        self.weights
    }

    open spec fn spec_max_speed(&self) -> int {
        self.max_speed as int
    }

    open spec fn spec_max_force(&self) -> int {
        self.max_force as int
    }

    open spec fn spec_separate(&self, flock: Flock<Boid2D>) -> V3 {
        spec_separate(
            self.spec_position(),
            self.spec_velocity(),
            self.spec_max_speed(),
            self.spec_max_force(),
            states_of(flock.boids@),
            flock.goal_separation as int,
        )
    }

    open spec fn spec_align(&self, flock: Flock<Boid2D>) -> V3 {
        spec_align(
            self.spec_position(),
            self.spec_velocity(),
            self.spec_max_speed(),
            self.spec_max_force(),
            states_of(flock.boids@),
            flock.goal_alignment as int,
        )
    }

    open spec fn spec_cohesion(&self, flock: Flock<Boid2D>) -> V3 {
        spec_cohesion(
            self.spec_position(),
            self.spec_velocity(),
            self.spec_max_speed(),
            self.spec_max_force(),
            states_of(flock.boids@),
            flock.goal_cohesion as int,
        )
    }

    open spec fn spec_with_force(&self, force: V3) -> Boid2D {
        let nv = (V3 {
            x: self.velocity@.x + force.x,
            y: self.velocity@.y + force.y,
            z: 0,
        }).limited(self.max_speed as int);
        Boid2D {
            position: Vector2 {
                x: (self.position@.x + nv.x) as i64,
                y: (self.position@.y + nv.y) as i64,
            },
            velocity: Vector2 { x: nv.x as i64, y: nv.y as i64 },
            acceleration: Vector2 { x: 0, y: 0 },
            max_speed: self.max_speed,
            max_force: self.max_force,
            r: self.r,
            weights: self.weights,
        }
    }

    open spec fn spec_update(&self, flock: Flock<Boid2D>) -> Boid2D {
        self.spec_with_force(self.spec_total_force(flock))
    }

    fn position(&self) -> (r: Vector3) {
        Vector3 { x: self.position.x, y: self.position.y, z: 0 }
    }

    fn velocity(&self) -> (r: Vector3) {
        Vector3 { x: self.velocity.x, y: self.velocity.y, z: 0 }
    }

    fn acceleration(&self) -> (r: Vector3) {
        Vector3 { x: self.acceleration.x, y: self.acceleration.y, z: 0 }
    }

    fn separate(&self, flock: &Flock<Boid2D>) -> (r: Vector3) {
        let states = flock_states(flock);
        let p3 = Vector3 { x: self.position.x, y: self.position.y, z: 0 };
        let v3 = Vector3 { x: self.velocity.x, y: self.velocity.y, z: 0 };
        proof {
            lemma_velocity_box(*self);
        }
        separate_kernel(&p3, &v3, self.max_speed, self.max_force, &states, flock.goal_separation)
    }

    fn align(&self, flock: &Flock<Boid2D>) -> (r: Vector3) {
        let states = flock_states(flock);
        let p3 = Vector3 { x: self.position.x, y: self.position.y, z: 0 };
        let v3 = Vector3 { x: self.velocity.x, y: self.velocity.y, z: 0 };
        proof {
            lemma_velocity_box(*self);
        }
        align_kernel(&p3, &v3, self.max_speed, self.max_force, &states, flock.goal_alignment)
    }

    fn cohesion(&self, flock: &Flock<Boid2D>) -> (r: Vector3) {
        let states = flock_states(flock);
        let p3 = Vector3 { x: self.position.x, y: self.position.y, z: 0 };
        let v3 = Vector3 { x: self.velocity.x, y: self.velocity.y, z: 0 };
        proof {
            lemma_velocity_box(*self);
        }
        cohesion_kernel(&p3, &v3, self.max_speed, self.max_force, &states, flock.goal_cohesion)
    }

    fn set_weights(&mut self, weights: BoidWeights) {
        self.weights = weights;
    }

    fn get_weights(&self) -> (r: BoidWeights) {
        self.weights
    }

    fn with_force(&self, force: Vector3) -> (r: Boid2D) {
        proof {
            lemma_velocity_box(*self);
        }
        let fx = self.velocity.x as i128 + force.x as i128;
        let fy = self.velocity.y as i128 + force.y as i128;
        let summed = Vector3 { x: fx as i64, y: fy as i64, z: 0 };
        let nv = crate::boids::limits::limit_magnitude_v3(summed, self.max_speed);
        proof {
            lemma_limited_z0(summed@, self.max_speed as int);
        }
        Boid2D {
            position: Vector2 {
                x: self.position.x + nv.x,
                y: self.position.y + nv.y,
            },
            velocity: Vector2 { x: nv.x, y: nv.y },
            acceleration: Vector2 { x: 0, y: 0 },
            max_speed: self.max_speed,
            max_force: self.max_force,
            r: self.r,
            weights: self.weights,
        }
    }

    fn update(&self, flock: &Flock<Boid2D>) -> (r: Boid2D) {
        let sep = self.separate(flock);
        let ali = self.align(flock);
        let coh = self.cohesion(flock);
        let wsep = weighted(&sep, self.weights.separation);
        let wali = weighted(&ali, self.weights.alignment);
        let wcoh = weighted(&coh, self.weights.cohesion);
        let base = Vector3 {
            x: wsep.x + wali.x + wcoh.x,
            y: wsep.y + wali.y + wcoh.y,
            z: wsep.z + wali.z + wcoh.z,
        };
        let force = match flock.target {
            Some(t) => {
                let p3 = Vector3 { x: self.position.x, y: self.position.y, z: 0 };
                let v3 = Vector3 { x: self.velocity.x, y: self.velocity.y, z: 0 };
                proof {
                    lemma_velocity_box(*self);
                }
                let seek = seek_kernel(&t, &p3, &v3, self.max_speed, self.max_force);
                let wseek = weighted(&seek, self.weights.targeting);
                Vector3 { x: base.x + wseek.x, y: base.y + wseek.y, z: base.z + wseek.z }
            },
            None => base,
        };
        proof {
            assert(force@ == self.spec_total_force(*flock));
        }
        self.with_force(force)
    }
}

} // verus!
