//! Concrete checks of the numeric primitives and the per-agent forces.

use boids::boids::boid2d::Boid2D;
use boids::boids::convert::LossyConvert;
use boids::boids::limits::{limit_magnitude_v2, limit_magnitude_v3};
use boids::boids::Boid;
use boids::fixed::{div_trunc, isqrt_ceil, SCALE};
use boids::flock::Flock;
use boids::trig::{cos_fix, sin_fix, HALF_PI_FIX, PI_FIX, TAU_FIX};
use boids::vector::{Vector2, Vector3};

fn flock2d(agents: Vec<Boid2D>) -> Flock<Boid2D> {
    let mut f: Flock<Boid2D> = Flock::default();
    f.boids = agents;
    f
}

#[test]
fn isqrt_ceil_small_values() {
    assert_eq!(isqrt_ceil(0), 0);
    assert_eq!(isqrt_ceil(1), 1);
    assert_eq!(isqrt_ceil(2), 2);
    assert_eq!(isqrt_ceil(4), 2);
    assert_eq!(isqrt_ceil(5), 3);
    assert_eq!(isqrt_ceil(49), 7);
    assert_eq!(isqrt_ceil(50), 8);
    assert_eq!(isqrt_ceil(2_500_000_000), 50_000);
}

#[test]
fn div_trunc_rounds_toward_zero() {
    assert_eq!(div_trunc(7, 2), 3);
    assert_eq!(div_trunc(-7, 2), -3);
    assert_eq!(div_trunc(1, 3), 0);
    assert_eq!(div_trunc(-1, 3), 0);
}

#[test]
fn limit_magnitude_v3_under_bound_unchanged() {
    let v = Vector3 { x: 3_000, y: 4_000, z: 0 };
    let r = limit_magnitude_v3(v, 20_000);
    assert_eq!(r, v);
}

#[test]
fn limit_magnitude_v3_rescales_exactly() {
    // A 3-4-5 triangle: magnitude 50_000, clamped to 20_000.
    let v = Vector3 { x: 30_000, y: 40_000, z: 0 };
    let r = limit_magnitude_v3(v, 20_000);
    assert_eq!(r, Vector3 { x: 12_000, y: 16_000, z: 0 });
}

#[test]
fn limit_magnitude_v2_matches_v3() {
    let v = Vector2 { x: 30_000, y: 40_000 };
    let r = limit_magnitude_v2(v, 20_000);
    assert_eq!(r, Vector2 { x: 12_000, y: 16_000 });
}

#[test]
fn trig_exact_at_quadrants() {
    assert_eq!(sin_fix(0), 0);
    assert_eq!(sin_fix(HALF_PI_FIX), SCALE);
    assert_eq!(sin_fix(PI_FIX), 0);
    assert_eq!(cos_fix(0), SCALE);
    assert_eq!(cos_fix(PI_FIX), -SCALE);
}

#[test]
fn trig_stays_within_unit() {
    let mut a: i64 = 0;
    while a < TAU_FIX {
        let s = sin_fix(a);
        let c = cos_fix(a);
        assert!(-SCALE <= s && s <= SCALE);
        assert!(-SCALE <= c && c <= SCALE);
        // The approximation keeps the heading close to unit speed.
        let n = s * s + c * c;
        assert!(n >= 99 * SCALE * SCALE / 100);
        assert!(n <= 101 * SCALE * SCALE / 100);
        a += 97;
    }
}

#[test]
fn lossy_round_trip_preserves_xy() {
    let v = Vector3 { x: 123, y: -456, z: 789 };
    let p: Vector2 = v.lossy_convert();
    assert_eq!(p, Vector2 { x: 123, y: -456 });
    let back: Vector3 = p.lossy_convert();
    assert_eq!(back, Vector3 { x: 123, y: -456, z: 0 });
}

#[test]
fn isolated_agent_feels_no_force() {
    let b = Boid2D::new_with_angle(Vector2 { x: 0, y: 0 }, 0);
    let flock = flock2d(vec![b]);
    let zero = Vector3 { x: 0, y: 0, z: 0 };
    assert_eq!(b.separate(&flock), zero);
    assert_eq!(b.align(&flock), zero);
    assert_eq!(b.cohesion(&flock), zero);
    // One tick moves it by exactly its (unclamped) unit velocity.
    let next = b.update(&flock);
    assert_eq!(next.position, Vector2 { x: SCALE, y: 0 });
    assert_eq!(next.velocity, b.velocity);
    assert_eq!(next.acceleration, Vector2 { x: 0, y: 0 });
}

#[test]
fn coincident_agents_exclude_each_other() {
    // Two agents at the identical position are at distance zero, which the
    // strictly-positive distance guard excludes: no separation force.
    let a = Boid2D::new_with_angle(Vector2 { x: 5_000, y: 5_000 }, 0);
    let b = Boid2D::new_with_angle(Vector2 { x: 5_000, y: 5_000 }, HALF_PI_FIX);
    let flock = flock2d(vec![a, b]);
    let zero = Vector3 { x: 0, y: 0, z: 0 };
    assert_eq!(a.separate(&flock), zero);
    assert_eq!(b.separate(&flock), zero);
    assert_eq!(a.align(&flock), zero);
    assert_eq!(a.cohesion(&flock), zero);
}

#[test]
fn separation_symmetry_two_agents() {
    // Two agents ten units apart, both heading +x, separation radius 25
    // units: the left agent is pushed in -x, the right in +x, with equal
    // magnitude.
    let left = Boid2D::new_with_angle(Vector2 { x: 0, y: 0 }, 0);
    let right = Boid2D::new_with_angle(Vector2 { x: 10 * SCALE, y: 0 }, 0);
    let flock = flock2d(vec![left, right]);
    assert_eq!(flock.goal_separation, 25 * SCALE);
    let fl = left.separate(&flock);
    let fr = right.separate(&flock);
    assert!(fl.x < 0);
    assert!(fr.x > 0);
    assert_eq!(fl.x, -fr.x);
    assert_eq!(fl.y, 0);
    assert_eq!(fr.y, 0);
    assert_eq!(fl.z, 0);
    assert_eq!(fr.z, 0);
    // The exact fixed-point value: clamped onto the max_force bound.
    assert_eq!(fl, Vector3 { x: -300, y: 0, z: 0 });
}

#[test]
fn separation_force_within_max_force() {
    // Agents extremely close together: the raw repulsion is huge, the
    // returned steering force still respects max_force.
    let a = Boid2D::new_with_angle(Vector2 { x: 0, y: 0 }, 0);
    let b = Boid2D::new_with_angle(Vector2 { x: 1, y: 0 }, 0);
    let flock = flock2d(vec![a, b]);
    let f = a.separate(&flock);
    let n = f.x * f.x + f.y * f.y + f.z * f.z;
    assert!(n <= a.max_force * a.max_force);
    assert!(n > 0);
}

#[test]
fn alignment_and_cohesion_within_max_force() {
    let a = Boid2D::new_with_angle(Vector2 { x: 0, y: 0 }, 0);
    let b = Boid2D::new_with_angle(Vector2 { x: 30 * SCALE, y: 0 }, HALF_PI_FIX);
    let flock = flock2d(vec![a, b]);
    for f in [a.align(&flock), a.cohesion(&flock)] {
        let n = f.x * f.x + f.y * f.y + f.z * f.z;
        assert!(n <= a.max_force * a.max_force);
    }
    // b sits beyond the separation radius (30 > 25) but inside alignment
    // and cohesion range (30 < 50): those two forces are non-zero.
    let zero = Vector3 { x: 0, y: 0, z: 0 };
    assert_eq!(a.separate(&flock), zero);
    assert_ne!(a.align(&flock), zero);
    assert_ne!(a.cohesion(&flock), zero);
}

#[test]
fn speed_bounded_after_any_force() {
    // An enormous force: the updated velocity is clamped exactly onto the
    // max_speed circle.
    let b = Boid2D::new_with_angle(Vector2 { x: 0, y: 0 }, 0);
    let pushed = b.with_force(Vector3 { x: 1_000_000_000, y: 0, z: 0 });
    assert_eq!(pushed.velocity, Vector2 { x: b.max_speed, y: 0 });
    let n = pushed.velocity.x * pushed.velocity.x + pushed.velocity.y * pushed.velocity.y;
    assert!(n <= b.max_speed * b.max_speed);
    // The receiver is unchanged: with_force returns a new agent.
    assert_eq!(b.velocity, Vector2 { x: SCALE, y: 0 });
}

#[test]
fn with_force_integrates_and_resets() {
    let b = Boid2D::new_with_angle(Vector2 { x: 0, y: 0 }, 0);
    // A small force: velocity (1, 0) plus (0, 0.03) stays under max_speed 2.
    let next = b.with_force(Vector3 { x: 0, y: 300, z: 0 });
    assert_eq!(next.velocity, Vector2 { x: SCALE, y: 300 });
    assert_eq!(next.position, Vector2 { x: SCALE, y: 300 });
    assert_eq!(next.acceleration, Vector2 { x: 0, y: 0 });
    assert_eq!(next.max_speed, b.max_speed);
    assert_eq!(next.weights, b.weights);
}
