//! Flock-level behaviour: the one-step update, its scheduling strategies,
//! target seeking, configuration, and the spatial agent kind.

use boids::boids::boid2d::Boid2D;
use boids::boids::boid3d::Boid3D;
use boids::boids::{Boid, BoidWeights};
use boids::fixed::SCALE;
use boids::flock::Flock;
use boids::iter::maybe_scope;
use boids::trig::{HALF_PI_FIX, TAU_FIX};
use boids::vector::{Vector2, Vector3};

fn flock2d(agents: Vec<Boid2D>) -> Flock<Boid2D> {
    let mut f: Flock<Boid2D> = Flock::default();
    f.boids = agents;
    f
}

fn line_flock(n: i64) -> Flock<Boid2D> {
    let mut agents = Vec::new();
    let mut i: i64 = 0;
    while i < n {
        let angle = (i * 7_919) % TAU_FIX;
        agents.push(Boid2D::new_with_angle(
            Vector2 { x: i * 3 * SCALE, y: (i % 5) * 2 * SCALE },
            angle,
        ));
        i += 1;
    }
    flock2d(agents)
}

#[test]
fn default_flock_configuration() {
    let f: Flock<Boid2D> = Flock::default();
    assert_eq!(f.boids.len(), 0);
    assert_eq!(f.goal_separation, 25 * SCALE);
    assert_eq!(f.goal_alignment, 50 * SCALE);
    assert_eq!(f.goal_cohesion, 50 * SCALE);
    assert!(f.target.is_none());
    assert!(!f.parallel);
}

#[test]
fn default_weights_reference_values() {
    let w = BoidWeights::default();
    assert_eq!(w.alignment, 15_000);
    assert_eq!(w.cohesion, 10_000);
    assert_eq!(w.separation, 10_000);
    assert_eq!(w.targeting, 3);
}

#[test]
fn new_with_angle_reference_agent() {
    let b = Boid2D::new_with_angle(Vector2 { x: 42, y: -7 }, 0);
    assert_eq!(b.position, Vector2 { x: 42, y: -7 });
    assert_eq!(b.velocity, Vector2 { x: SCALE, y: 0 });
    assert_eq!(b.acceleration, Vector2 { x: 0, y: 0 });
    assert_eq!(b.max_speed, 2 * SCALE);
    assert_eq!(b.max_force, 300);
    assert_eq!(b.r, 2 * SCALE);
    assert_eq!(b.weights, BoidWeights::default());
}

#[test]
fn new_random_heading_is_unit_speed() {
    let b = Boid2D::new(Vector2 { x: 0, y: 0 });
    let n = b.velocity.x * b.velocity.x + b.velocity.y * b.velocity.y;
    assert!(n >= 99 * SCALE * SCALE / 100);
    assert!(n <= 101 * SCALE * SCALE / 100);
}

#[test]
fn accessors_give_canonical_views() {
    let b = Boid2D::new_with_angle(Vector2 { x: 5, y: 6 }, 0);
    assert_eq!(b.position(), Vector3 { x: 5, y: 6, z: 0 });
    assert_eq!(b.velocity(), Vector3 { x: SCALE, y: 0, z: 0 });
    assert_eq!(b.acceleration(), Vector3 { x: 0, y: 0, z: 0 });
}

#[test]
fn set_weights_round_trip() {
    let mut b = Boid2D::new_with_angle(Vector2 { x: 0, y: 0 }, 0);
    let w = BoidWeights { alignment: 1, cohesion: 2, separation: 3, targeting: 4 };
    b.set_weights(w);
    assert_eq!(b.get_weights(), w);
    assert_eq!(b.velocity, Vector2 { x: SCALE, y: 0 });
}

#[test]
fn update_reads_one_snapshot() {
    // Each agent's next state equals its own update against the pre-step
    // flock: no agent observes another's post-update state.
    let flock = line_flock(6);
    let expected: Vec<Boid2D> = flock.boids.iter().map(|b| b.update(&flock)).collect();
    let mut stepped = flock.clone();
    stepped.update();
    assert_eq!(stepped.boids, expected);
    assert_eq!(stepped.goal_separation, flock.goal_separation);
}

#[test]
fn parallel_and_sequential_updates_agree() {
    let flock = line_flock(12);
    let mut sequential = flock.clone();
    sequential.parallel = false;
    let mut parallel = flock.clone();
    parallel.parallel = true;
    sequential.update();
    parallel.update();
    assert_eq!(sequential.boids, parallel.boids);
}

#[test]
fn maybe_scope_schedules_agree() {
    let flock = line_flock(9);
    let seq = maybe_scope(false, &flock);
    let par = maybe_scope(true, &flock);
    assert_eq!(seq, par);
    assert_eq!(seq.len(), flock.boids.len());
}

#[test]
fn update_preserves_population_and_order() {
    let flock = line_flock(5);
    let mut stepped = flock.clone();
    stepped.update();
    assert_eq!(stepped.boids.len(), 5);
    // Identity by index: each agent keeps its own configuration.
    for (a, b) in flock.boids.iter().zip(stepped.boids.iter()) {
        assert_eq!(a.max_speed, b.max_speed);
        assert_eq!(a.weights, b.weights);
    }
}

#[test]
fn empty_flock_update_is_a_no_op() {
    let mut f: Flock<Boid2D> = Flock::default();
    f.update();
    assert_eq!(f.boids.len(), 0);
    f.parallel = true;
    f.update();
    assert_eq!(f.boids.len(), 0);
}

#[test]
fn zero_radii_mean_no_neighbours() {
    let a = Boid2D::new_with_angle(Vector2 { x: 0, y: 0 }, 0);
    let b = Boid2D::new_with_angle(Vector2 { x: 1, y: 0 }, 0);
    let mut f = flock2d(vec![a, b]);
    f.goal_separation = 0;
    f.goal_alignment = 0;
    f.goal_cohesion = 0;
    let zero = Vector3 { x: 0, y: 0, z: 0 };
    assert_eq!(a.separate(&f), zero);
    assert_eq!(a.align(&f), zero);
    assert_eq!(a.cohesion(&f), zero);
}

#[test]
fn target_seeking_pulls_toward_target() {
    let mut b = Boid2D::new_with_angle(Vector2 { x: 0, y: 0 }, 0);
    // Give the target term full weight so the pull is visible at this scale.
    b.set_weights(BoidWeights { targeting: SCALE, ..BoidWeights::default() });
    let mut flock = flock2d(vec![b]);
    flock.set_target(Some(Vector3 { x: 0, y: 10 * SCALE, z: 0 }));
    assert_eq!(flock.target, Some(Vector3 { x: 0, y: 10 * SCALE, z: 0 }));
    flock.update();
    // The agent, previously heading straight +x, gains +y velocity.
    assert!(flock.boids[0].velocity.y > 0);
    // Clearing the target works.
    flock.set_target(None);
    assert!(flock.target.is_none());
}

#[test]
fn two_agents_one_tick_exact() {
    // The symmetric two-agent scenario, run through a full tick: every
    // intermediate fixed-point division is exact here, so the next states
    // are pinned to the digit.
    let left = Boid2D::new_with_angle(Vector2 { x: 0, y: 0 }, 0);
    let right = Boid2D::new_with_angle(Vector2 { x: 10 * SCALE, y: 0 }, 0);
    let mut flock = flock2d(vec![left, right]);
    flock.update();
    // Separation -300/+300, alignment +450 (weight 1.5), cohesion +300/-300:
    // both agents gain +450 velocity along x.
    assert_eq!(flock.boids[0].velocity, Vector2 { x: 10_450, y: 0 });
    assert_eq!(flock.boids[1].velocity, Vector2 { x: 10_450, y: 0 });
    assert_eq!(flock.boids[0].position, Vector2 { x: 10_450, y: 0 });
    assert_eq!(flock.boids[1].position, Vector2 { x: 10 * SCALE + 10_450, y: 0 });
    assert_eq!(flock.boids[0].acceleration, Vector2 { x: 0, y: 0 });
}

#[test]
fn boid3d_random_heading_is_unit_speed() {
    let b = Boid3D::new(Vector3 { x: 0, y: 0, z: 0 });
    assert_eq!(b.velocity.z, 0);
    let n = b.velocity.x * b.velocity.x + b.velocity.y * b.velocity.y;
    assert!(n >= 99 * SCALE * SCALE / 100);
    assert!(n <= 101 * SCALE * SCALE / 100);
}

#[test]
fn boid3d_reference_agent() {
    let b = Boid3D::new_with_angle(Vector3 { x: 1, y: 2, z: 3 }, 0);
    assert_eq!(b.position, Vector3 { x: 1, y: 2, z: 3 });
    assert_eq!(b.velocity, Vector3 { x: SCALE, y: 0, z: 0 });
    assert_eq!(b.max_speed, 2 * SCALE);
    assert_eq!(b.max_force, 300);
}

#[test]
fn boid3d_separation_symmetry_along_z() {
    let low = Boid3D::new_with_angle(Vector3 { x: 0, y: 0, z: 0 }, 0);
    let high = Boid3D::new_with_angle(Vector3 { x: 0, y: 0, z: 10 * SCALE }, 0);
    let mut f: Flock<Boid3D> = Flock {
        boids: vec![low, high],
        goal_separation: 25 * SCALE,
        goal_alignment: 50 * SCALE,
        goal_cohesion: 50 * SCALE,
        target: None,
        parallel: false,
    };
    let fl = low.separate(&f);
    let fh = high.separate(&f);
    assert!(fl.z < 0);
    assert!(fh.z > 0);
    assert_eq!(fl.z, -fh.z);
    f.update();
    assert_eq!(f.boids.len(), 2);
}

#[test]
fn boid3d_speed_bounded_after_any_force() {
    let b = Boid3D::new_with_angle(Vector3 { x: 0, y: 0, z: 0 }, 0);
    let pushed = b.with_force(Vector3 { x: 0, y: 0, z: 1_000_000_000 });
    let v = pushed.velocity;
    let n = v.x * v.x + v.y * v.y + v.z * v.z;
    assert!(n <= b.max_speed * b.max_speed);
    assert!(v.z > 0);
}

#[test]
fn planar_agent_never_gains_z_motion() {
    let mut flock = line_flock(4);
    let mut i: i64 = 0;
    while i < 3 {
        flock.update();
        for b in &flock.boids {
            assert_eq!(b.position().z, 0);
            assert_eq!(b.velocity().z, 0);
            assert_eq!(b.acceleration().z, 0);
        }
        i += 1;
    }
}
