//! The force model, written once against the canonical three-dimensional
//! vector: neighbourhood folds over a frozen snapshot of the flock, the
//! Reynolds steer-toward-desired-velocity pattern, and the executable kernels
//! every agent kind calls.

use vstd::prelude::*;
use crate::fixed::{div_trunc, isqrt_ceil, tdiv, DIR_MAX, LIMIT, POS_MAX, SCALE, VEC_MAX};
use crate::vector::{
    lemma_averaged_box, lemma_mag_ceil, lemma_norm2_comp, lemma_scaled_box,
    lemma_scaled_ratio_box, lemma_unit_box, norm2_wide, Vector3, V3,
};
use crate::boids::limits::limit_magnitude_v3;

verus! {

/// One agent as the force model reads it: the immutable snapshot of its
/// canonical position and velocity taken at the start of a tick.
#[derive(Clone, Copy, Debug, PartialEq, Eq, Structural)]
pub struct AgentState {
    pub position: Vector3,
    pub velocity: Vector3,
}

/// Every snapshot within the simulation's coordinate and speed bounds.
pub open spec fn states_bounded(others: Seq<AgentState>) -> bool {
    forall|i: int|
        0 <= i < others.len() ==> (#[trigger] others[i]).position@.in_box(POS_MAX as int)
            && others[i].velocity@.in_box(LIMIT as int)
}

/// The agent at `q` is a neighbour of the agent at `p` within `radius`:
/// strictly positive distance (an agent never counts itself, nor any agent at
/// exactly its own position) and strictly inside the radius. Compared on
/// squared magnitudes, which is exact.
pub open spec fn is_neighbor(p: V3, q: V3, radius: int) -> bool {
    let d2 = p.sub3(q).norm2();
    0 < d2 && d2 < radius * radius
}

/// Separation contribution of one neighbour at `q`: the unit vector pointing
/// away from it, divided by the fixed-point distance.
pub open spec fn sep_term(p: V3, q: V3) -> V3 {
    let diff = p.sub3(q);
    diff.unit().scaled(SCALE as int, diff.mag_ceil())
}

/// Number of neighbours of `p` within `radius` in the snapshot.
pub open spec fn neighbor_count(p: V3, others: Seq<AgentState>, radius: int) -> int
    decreases others.len(),
{
    if others.len() == 0 {
        0
    } else {
        neighbor_count(p, others.drop_last(), radius) + if is_neighbor(
            p,
            others.last().position@,
            radius,
        ) {
            1int
        } else {
            0int
        }
    }
}

/// Accumulated separation contributions of all neighbours.
pub open spec fn sep_sum(p: V3, others: Seq<AgentState>, radius: int) -> V3
    decreases others.len(),
{
    if others.len() == 0 {
        V3::zero()
    } else {
        let rest = sep_sum(p, others.drop_last(), radius);
        if is_neighbor(p, others.last().position@, radius) {
            rest.add3(sep_term(p, others.last().position@))
        } else {
            rest
        }
    }
}

/// Accumulated velocities of all neighbours.
pub open spec fn align_sum(p: V3, others: Seq<AgentState>, radius: int) -> V3
    decreases others.len(),
{
    if others.len() == 0 {
        V3::zero()
    } else {
        let rest = align_sum(p, others.drop_last(), radius);
        if is_neighbor(p, others.last().position@, radius) {
            rest.add3(others.last().velocity@)
        } else {
            rest
        }
    }
}

/// Accumulated positions of all neighbours.
pub open spec fn coh_sum(p: V3, others: Seq<AgentState>, radius: int) -> V3
    decreases others.len(),
{
    if others.len() == 0 {
        V3::zero()
    } else {
        let rest = coh_sum(p, others.drop_last(), radius);
        if is_neighbor(p, others.last().position@, radius) {
            rest.add3(others.last().position@)
        } else {
            rest
        }
    }
}

/// Reynolds steering toward a desired direction: rescale the direction to a
/// desired velocity of magnitude `max_speed`, subtract the current velocity,
/// and clamp the result to `max_force`. Meaningful when `dir` is non-zero.
pub open spec fn spec_steer(dir: V3, vel: V3, max_speed: int, max_force: int) -> V3 {
    dir.unit().scaled(max_speed, SCALE as int).sub3(vel).limited(max_force)
}

/// The separation force: average the per-neighbour repulsions (left as the
/// zero-initialised accumulator when there are none), then steer toward that
/// direction if it is non-zero.
pub open spec fn spec_separate(
    p: V3,
    vel: V3,
    max_speed: int,
    max_force: int,
    others: Seq<AgentState>,
    radius: int,
) -> V3 {
    let c = neighbor_count(p, others, radius);
    let sum = sep_sum(p, others, radius);
    let steer = if c > 0 {
        sum.averaged(c)
    } else {
        sum
    };
    if steer.norm2() > 0 {
        spec_steer(steer, vel, max_speed, max_force)
    } else {
        steer
    }
}

/// The alignment force: steer toward the neighbours' average velocity, or the
/// zero vector when there is no neighbour (or the average itself is zero).
pub open spec fn spec_align(
    p: V3,
    vel: V3,
    max_speed: int,
    max_force: int,
    others: Seq<AgentState>,
    radius: int,
) -> V3 {
    let c = neighbor_count(p, others, radius);
    if c > 0 {
        let avg = align_sum(p, others, radius).averaged(c);
        if avg.norm2() > 0 {
            spec_steer(avg, vel, max_speed, max_force)
        } else {
            V3::zero()
        }
    } else {
        V3::zero()
    }
}

/// The cohesion force: steer toward the neighbours' centre of mass, or the
/// zero vector when there is no neighbour (or the agent already sits at that
/// centre).
pub open spec fn spec_cohesion(
    p: V3,
    vel: V3,
    max_speed: int,
    max_force: int,
    others: Seq<AgentState>,
    radius: int,
) -> V3 {
    let c = neighbor_count(p, others, radius);
    if c > 0 {
        let dir = coh_sum(p, others, radius).averaged(c).sub3(p);
        if dir.norm2() > 0 {
            spec_steer(dir, vel, max_speed, max_force)
        } else {
            V3::zero()
        }
    } else {
        V3::zero()
    }
}

/// The target-seeking force: steer toward a fixed point, or the zero vector
/// when the agent already sits on it.
pub open spec fn spec_seek(
    target: V3,
    p: V3,
    vel: V3,
    max_speed: int,
    max_force: int,
) -> V3 {
    let dir = target.sub3(p);
    if dir.norm2() > 0 {
        spec_steer(dir, vel, max_speed, max_force)
    } else {
        V3::zero()
    }
}

/// One separation contribution lies inside the `SCALE * SCALE` box.
pub proof fn lemma_sep_term_box(p: V3, q: V3)
    requires
        p.sub3(q).norm2() > 0,
    ensures
        sep_term(p, q).in_box(100_000_000),
{
    let diff = p.sub3(q);
    lemma_mag_ceil(diff);
    lemma_unit_box(diff);
    lemma_scaled_ratio_box(diff.unit(), SCALE as int, diff.mag_ceil(), SCALE as int);
    vstd::arithmetic::div_mod::lemma_div_nonincreasing(
        SCALE as int * SCALE as int,
        diff.mag_ceil(),
    );
}

/// The neighbour count is between zero and the snapshot's length, and the
/// separation accumulator stays inside `count` times the one-term box.
pub proof fn lemma_sep_sum_box(p: V3, others: Seq<AgentState>, radius: int)
    ensures
        0 <= neighbor_count(p, others, radius) <= others.len(),
        sep_sum(p, others, radius).in_box(neighbor_count(p, others, radius) * 100_000_000),
    decreases others.len(),
{
    if others.len() > 0 {
        lemma_sep_sum_box(p, others.drop_last(), radius);
        if is_neighbor(p, others.last().position@, radius) {
            lemma_sep_term_box(p, others.last().position@);
        }
    }
}

/// The alignment accumulator stays inside `count` times the speed box.
pub proof fn lemma_align_sum_box(p: V3, others: Seq<AgentState>, radius: int)
    requires
        states_bounded(others),
    ensures
        align_sum(p, others, radius).in_box(neighbor_count(p, others, radius) * (LIMIT as int)),
    decreases others.len(),
{
    if others.len() > 0 {
        assert(states_bounded(others.drop_last())) by {
            assert(forall|i: int|
                0 <= i < others.drop_last().len() ==> others.drop_last()[i] == others[i]);
        }
        lemma_sep_sum_box(p, others.drop_last(), radius);
        lemma_align_sum_box(p, others.drop_last(), radius);
        assert(others[others.len() - 1] == others.last());
    }
}

/// The cohesion accumulator stays inside `count` times the position box.
pub proof fn lemma_coh_sum_box(p: V3, others: Seq<AgentState>, radius: int)
    requires
        states_bounded(others),
    ensures
        coh_sum(p, others, radius).in_box(neighbor_count(p, others, radius) * (POS_MAX as int)),
    decreases others.len(),
{
    if others.len() > 0 {
        assert(states_bounded(others.drop_last())) by {
            assert(forall|i: int|
                0 <= i < others.drop_last().len() ==> others.drop_last()[i] == others[i]);
        }
        lemma_sep_sum_box(p, others.drop_last(), radius);
        lemma_coh_sum_box(p, others.drop_last(), radius);
        assert(others[others.len() - 1] == others.last());
    }
}

/// An agent is never its own neighbour: the distance guard is strictly
/// positive, so a point at an agent's exact position -- itself included,
/// even at distance zero -- contributes to no force.
pub proof fn lemma_self_exclusion(p: V3, q: V3, radius: int)
    requires
        p == q,
    ensures
        !is_neighbor(p, q, radius),
{
    assert(p.sub3(q) == V3::zero());
    crate::vector::lemma_zero_vec(1, 1);
}

/// Adding an agent's own state to the snapshot changes nothing: its
/// neighbour count and all three force accumulators are unchanged.
pub proof fn lemma_self_not_counted(p: V3, others: Seq<AgentState>, radius: int, s: AgentState)
    requires
        s.position@ == p,
    ensures
        neighbor_count(p, others.push(s), radius) == neighbor_count(p, others, radius),
        sep_sum(p, others.push(s), radius) == sep_sum(p, others, radius),
        align_sum(p, others.push(s), radius) == align_sum(p, others, radius),
        coh_sum(p, others.push(s), radius) == coh_sum(p, others, radius),
{
    lemma_self_exclusion(p, s.position@, radius);
    assert(others.push(s).drop_last() =~= others);
    assert(others.push(s).last() == s);
}

/// With no neighbour inside the radius, each of the three steering forces is
/// the zero vector: the averaging guard leaves the zero-initialised
/// accumulator, and the steering guard never fires on it.
pub proof fn lemma_no_neighbor_zero_force(
    p: V3,
    vel: V3,
    max_speed: int,
    max_force: int,
    others: Seq<AgentState>,
    radius: int,
)
    requires
        neighbor_count(p, others, radius) == 0,
    ensures
        spec_separate(p, vel, max_speed, max_force, others, radius) == V3::zero(),
        spec_align(p, vel, max_speed, max_force, others, radius) == V3::zero(),
        spec_cohesion(p, vel, max_speed, max_force, others, radius) == V3::zero(),
{
    lemma_sep_sum_box(p, others, radius);
    assert(sep_sum(p, others, radius) == V3::zero());
    crate::vector::lemma_zero_vec(1, 1);
}

/// A steering force scaled by a fixed-point weight: each component becomes
/// `component * weight / SCALE`, staying within `LIMIT * LIMIT / SCALE`.
pub fn weighted(v: &Vector3, w: i64) -> (r: Vector3)
    requires
        v@.in_box(LIMIT as int),
        0 <= w <= LIMIT,
    ensures
        r@ == v@.scaled(w as int, SCALE as int),
        r@.in_box(100_000_000_000_000),
{
    proof {
        lemma_scaled_ratio_box(v@, w as int, SCALE as int, LIMIT as int);
        assert((LIMIT as int) * (w as int) <= (LIMIT as int) * (LIMIT as int)) by (nonlinear_arith)
            requires
                0 <= w <= LIMIT,
        ;
        vstd::arithmetic::div_mod::lemma_div_is_ordered(
            (LIMIT as int) * (w as int),
            (LIMIT as int) * (LIMIT as int),
            SCALE as int,
        );
        assert((v@.x) * (w as int) <= (LIMIT as int) * (LIMIT as int) && (v@.x) * (w as int) >= -(
        (LIMIT as int) * (LIMIT as int))) by (nonlinear_arith)
            requires
                -(LIMIT as int) <= v@.x <= LIMIT as int,
                0 <= w <= LIMIT,
        ;
        assert((v@.y) * (w as int) <= (LIMIT as int) * (LIMIT as int) && (v@.y) * (w as int) >= -(
        (LIMIT as int) * (LIMIT as int))) by (nonlinear_arith)
            requires
                -(LIMIT as int) <= v@.y <= LIMIT as int,
                0 <= w <= LIMIT,
        ;
        assert((v@.z) * (w as int) <= (LIMIT as int) * (LIMIT as int) && (v@.z) * (w as int) >= -(
        (LIMIT as int) * (LIMIT as int))) by (nonlinear_arith)
            requires
                -(LIMIT as int) <= v@.z <= LIMIT as int,
                0 <= w <= LIMIT,
        ;
    }
    let x = div_trunc((v.x as i128) * (w as i128), SCALE as i128);
    let y = div_trunc((v.y as i128) * (w as i128), SCALE as i128);
    let z = div_trunc((v.z as i128) * (w as i128), SCALE as i128);
    Vector3 { x: x as i64, y: y as i64, z: z as i64 }
}

/// Steer toward `dir`: the executable Reynolds pattern, with the returned
/// force proved to stay within `max_force`.
pub fn steer_toward(dir: &Vector3, velocity: &Vector3, max_speed: i64, max_force: i64) -> (r:
    Vector3)
    requires
        dir@.norm2() > 0,
        dir@.in_box(DIR_MAX as int),
        velocity@.in_box(LIMIT as int),
        0 <= max_speed <= LIMIT,
        0 <= max_force <= LIMIT,
    ensures
        r@ == spec_steer(dir@, velocity@, max_speed as int, max_force as int),
        r@.norm2() <= max_force * max_force,
        r@.in_box(max_force as int),
{
    let n = norm2_wide(dir);
    proof {
        lemma_mag_ceil(dir@);
        lemma_unit_box(dir@);
        assert((dir@.x) * (SCALE as int) <= (VEC_MAX as int) * (SCALE as int) && (dir@.x) * (
        SCALE as int) >= -((VEC_MAX as int) * (SCALE as int))) by (nonlinear_arith)
            requires
                -(VEC_MAX as int) <= dir@.x <= VEC_MAX as int,
        ;
        assert((dir@.y) * (SCALE as int) <= (VEC_MAX as int) * (SCALE as int) && (dir@.y) * (
        SCALE as int) >= -((VEC_MAX as int) * (SCALE as int))) by (nonlinear_arith)
            requires
                -(VEC_MAX as int) <= dir@.y <= VEC_MAX as int,
        ;
        assert((dir@.z) * (SCALE as int) <= (VEC_MAX as int) * (SCALE as int) && (dir@.z) * (
        SCALE as int) >= -((VEC_MAX as int) * (SCALE as int))) by (nonlinear_arith)
            requires
                -(VEC_MAX as int) <= dir@.z <= VEC_MAX as int,
        ;
    }
    let d = isqrt_ceil(n as u128) as i128;
    let ux = div_trunc((dir.x as i128) * (SCALE as i128), d);
    let uy = div_trunc((dir.y as i128) * (SCALE as i128), d);
    let uz = div_trunc((dir.z as i128) * (SCALE as i128), d);
    proof {
        assert(dir@.unit() == (V3 {
            x: tdiv(dir@.x * (SCALE as int), dir@.mag_ceil()),
            y: tdiv(dir@.y * (SCALE as int), dir@.mag_ceil()),
            z: tdiv(dir@.z * (SCALE as int), dir@.mag_ceil()),
        }));
        lemma_scaled_box(dir@.unit(), max_speed as int, SCALE as int);
    }
    let dx = div_trunc(ux * (max_speed as i128), SCALE as i128);
    let dy = div_trunc(uy * (max_speed as i128), SCALE as i128);
    let dz = div_trunc(uz * (max_speed as i128), SCALE as i128);
    let sv = Vector3 {
        x: (dx - velocity.x as i128) as i64,
        y: (dy - velocity.y as i128) as i64,
        z: (dz - velocity.z as i128) as i64,
    };
    limit_magnitude_v3(sv, max_force)
}

/// The separation force for the agent at `position`: scan the snapshot for
/// strictly closer-than-`radius` agents at a strictly positive distance,
/// average the unit repulsions weighted by inverse distance, and steer toward
/// the result when it is non-zero.
pub fn separate_kernel(
    position: &Vector3,
    velocity: &Vector3,
    max_speed: i64,
    max_force: i64,
    others: &Vec<AgentState>,
    radius: i64,
) -> (r: Vector3)
    requires
        position@.in_box(POS_MAX as int),
        velocity@.in_box(LIMIT as int),
        0 <= max_speed <= LIMIT,
        0 <= max_force <= LIMIT,
        0 <= radius <= LIMIT,
        states_bounded(others@),
    ensures
        r@ == spec_separate(
            position@,
            velocity@,
            max_speed as int,
            max_force as int,
            others@,
            radius as int,
        ),
        r@.norm2() <= max_force * max_force,
        r@.in_box(max_force as int),
{
    let mut sx: i128 = 0;
    let mut sy: i128 = 0;
    let mut sz: i128 = 0;
    let mut count: usize = 0;
    let mut i: usize = 0;
    proof {
        assert(others@.take(0) =~= Seq::<AgentState>::empty());
    }
    while i < others.len()
        invariant
            i <= others@.len(),
            others@.len() == others.len(),
            position@.in_box(POS_MAX as int),
            velocity@.in_box(LIMIT as int),
            0 <= max_speed <= LIMIT,
            0 <= max_force <= LIMIT,
            0 <= radius <= LIMIT,
            states_bounded(others@),
            count == neighbor_count(position@, others@.take(i as int), radius as int),
            sx == sep_sum(position@, others@.take(i as int), radius as int).x,
            sy == sep_sum(position@, others@.take(i as int), radius as int).y,
            sz == sep_sum(position@, others@.take(i as int), radius as int).z,
        decreases others@.len() - i,
    {
        proof {
            lemma_sep_sum_box(position@, others@.take(i as int), radius as int);
            assert(others@[i as int].position@.in_box(POS_MAX as int));
        }
        let b = others[i];
        let diff = Vector3 {
            x: position.x - b.position.x,
            y: position.y - b.position.y,
            z: position.z - b.position.z,
        };
        let n2 = norm2_wide(&diff);
        proof {
            assert((radius as int) * (radius as int) <= (LIMIT as int) * (LIMIT as int))
                by (nonlinear_arith)
                requires
                    0 <= radius <= LIMIT,
            ;
        }
        let r2 = (radius as i128) * (radius as i128);
        if n2 > 0 && n2 < r2 {
            proof {
                lemma_mag_ceil(diff@);
                lemma_unit_box(diff@);
                lemma_sep_term_box(position@, b.position@);
                assert(diff@ == position@.sub3(b.position@));
            }
            let d = isqrt_ceil(n2 as u128) as i128;
            let ux = div_trunc((diff.x as i128) * (SCALE as i128), d);
            let uy = div_trunc((diff.y as i128) * (SCALE as i128), d);
            let uz = div_trunc((diff.z as i128) * (SCALE as i128), d);
            proof {
                assert(diff@.unit() == (V3 {
                    x: tdiv(diff@.x * (SCALE as int), diff@.mag_ceil()),
                    y: tdiv(diff@.y * (SCALE as int), diff@.mag_ceil()),
                    z: tdiv(diff@.z * (SCALE as int), diff@.mag_ceil()),
                }));
            }
            let tx = div_trunc(ux * (SCALE as i128), d);
            let ty = div_trunc(uy * (SCALE as i128), d);
            let tz = div_trunc(uz * (SCALE as i128), d);
            proof {
                assert(sep_term(position@, b.position@) == (V3 {
                    x: tdiv(diff@.unit().x * (SCALE as int), diff@.mag_ceil()),
                    y: tdiv(diff@.unit().y * (SCALE as int), diff@.mag_ceil()),
                    z: tdiv(diff@.unit().z * (SCALE as int), diff@.mag_ceil()),
                }));
            }
            sx = sx + tx;
            sy = sy + ty;
            sz = sz + tz;
            count = count + 1;
        }
        proof {
            assert(others@.take(i as int + 1).drop_last() =~= others@.take(i as int));
            assert(others@.take(i as int + 1).last() == others@[i as int]);
        }
        i = i + 1;
    }
    proof {
        assert(others@.take(others@.len() as int) =~= others@);
        lemma_sep_sum_box(position@, others@, radius as int);
    }
    let steer: Vector3;
    if count > 0 {
        proof {
            lemma_averaged_box(
                sep_sum(position@, others@, radius as int),
                count as int,
                100_000_000,
            );
        }
        let ax = div_trunc(sx, count as i128);
        let ay = div_trunc(sy, count as i128);
        let az = div_trunc(sz, count as i128);
        steer = Vector3 { x: ax as i64, y: ay as i64, z: az as i64 };
    } else {
        steer = Vector3 { x: sx as i64, y: sy as i64, z: sz as i64 };
    }
    let n2s = norm2_wide(&steer);
    if n2s > 0 {
        steer_toward(&steer, velocity, max_speed, max_force)
    } else {
        proof {
            assert((max_force as int) * (max_force as int) >= 0) by (nonlinear_arith);
            lemma_norm2_comp(steer@);
        }
        steer
    }
}

/// The alignment force for the agent at `position`: the neighbours' average
/// velocity steered toward, or the zero vector with no neighbour.
pub fn align_kernel(
    position: &Vector3,
    velocity: &Vector3,
    max_speed: i64,
    max_force: i64,
    others: &Vec<AgentState>,
    radius: i64,
) -> (r: Vector3)
    requires
        position@.in_box(POS_MAX as int),
        velocity@.in_box(LIMIT as int),
        0 <= max_speed <= LIMIT,
        0 <= max_force <= LIMIT,
        0 <= radius <= LIMIT,
        states_bounded(others@),
    ensures
        r@ == spec_align(
            position@,
            velocity@,
            max_speed as int,
            max_force as int,
            others@,
            radius as int,
        ),
        r@.norm2() <= max_force * max_force,
        r@.in_box(max_force as int),
{
    let mut sx: i128 = 0;
    let mut sy: i128 = 0;
    let mut sz: i128 = 0;
    let mut count: usize = 0;
    let mut i: usize = 0;
    proof {
        assert(others@.take(0) =~= Seq::<AgentState>::empty());
    }
    while i < others.len()
        invariant
            i <= others@.len(),
            others@.len() == others.len(),
            position@.in_box(POS_MAX as int),
            velocity@.in_box(LIMIT as int),
            0 <= max_speed <= LIMIT,
            0 <= max_force <= LIMIT,
            0 <= radius <= LIMIT,
            states_bounded(others@),
            count == neighbor_count(position@, others@.take(i as int), radius as int),
            sx == align_sum(position@, others@.take(i as int), radius as int).x,
            sy == align_sum(position@, others@.take(i as int), radius as int).y,
            sz == align_sum(position@, others@.take(i as int), radius as int).z,
        decreases others@.len() - i,
    {
        proof {
            assert(states_bounded(others@.take(i as int))) by {
                assert(forall|j: int|
                    0 <= j < others@.take(i as int).len() ==> others@.take(i as int)[j]
                        == others@[j]);
            }
            lemma_sep_sum_box(position@, others@.take(i as int), radius as int);
            lemma_align_sum_box(position@, others@.take(i as int), radius as int);
            assert(others@[i as int].position@.in_box(POS_MAX as int));
            assert(others@[i as int].velocity@.in_box(LIMIT as int));
        }
        let b = others[i];
        let diff = Vector3 {
            x: position.x - b.position.x,
            y: position.y - b.position.y,
            z: position.z - b.position.z,
        };
        let n2 = norm2_wide(&diff);
        proof {
            assert((radius as int) * (radius as int) <= (LIMIT as int) * (LIMIT as int))
                by (nonlinear_arith)
                requires
                    0 <= radius <= LIMIT,
            ;
            assert(diff@ == position@.sub3(b.position@));
        }
        let r2 = (radius as i128) * (radius as i128);
        if n2 > 0 && n2 < r2 {
            sx = sx + b.velocity.x as i128;
            sy = sy + b.velocity.y as i128;
            sz = sz + b.velocity.z as i128;
            count = count + 1;
        }
        proof {
            assert(others@.take(i as int + 1).drop_last() =~= others@.take(i as int));
            assert(others@.take(i as int + 1).last() == others@[i as int]);
        }
        i = i + 1;
    }
    proof {
        assert(others@.take(others@.len() as int) =~= others@);
        lemma_sep_sum_box(position@, others@, radius as int);
        lemma_align_sum_box(position@, others@, radius as int);
        assert((max_force as int) * (max_force as int) >= 0) by (nonlinear_arith);
    }
    if count > 0 {
        proof {
            lemma_averaged_box(
                align_sum(position@, others@, radius as int),
                count as int,
                LIMIT as int,
            );
        }
        let ax = div_trunc(sx, count as i128);
        let ay = div_trunc(sy, count as i128);
        let az = div_trunc(sz, count as i128);
        let avg = Vector3 { x: ax as i64, y: ay as i64, z: az as i64 };
        let n2a = norm2_wide(&avg);
        if n2a > 0 {
            steer_toward(&avg, velocity, max_speed, max_force)
        } else {
            Vector3 { x: 0, y: 0, z: 0 }
        }
    } else {
        Vector3 { x: 0, y: 0, z: 0 }
    }
}

/// The cohesion force for the agent at `position`: steer toward the
/// neighbours' centre of mass, or the zero vector with no neighbour.
pub fn cohesion_kernel(
    position: &Vector3,
    velocity: &Vector3,
    max_speed: i64,
    max_force: i64,
    others: &Vec<AgentState>,
    radius: i64,
) -> (r: Vector3)
    requires
        position@.in_box(POS_MAX as int),
        velocity@.in_box(LIMIT as int),
        0 <= max_speed <= LIMIT,
        0 <= max_force <= LIMIT,
        0 <= radius <= LIMIT,
        states_bounded(others@),
    ensures
        r@ == spec_cohesion(
            position@,
            velocity@,
            max_speed as int,
            max_force as int,
            others@,
            radius as int,
        ),
        r@.norm2() <= max_force * max_force,
        r@.in_box(max_force as int),
{
    let mut sx: i128 = 0;
    let mut sy: i128 = 0;
    let mut sz: i128 = 0;
    let mut count: usize = 0;
    let mut i: usize = 0;
    proof {
        assert(others@.take(0) =~= Seq::<AgentState>::empty());
    }
    while i < others.len()
        invariant
            i <= others@.len(),
            others@.len() == others.len(),
            position@.in_box(POS_MAX as int),
            velocity@.in_box(LIMIT as int),
            0 <= max_speed <= LIMIT,
            0 <= max_force <= LIMIT,
            0 <= radius <= LIMIT,
            states_bounded(others@),
            count == neighbor_count(position@, others@.take(i as int), radius as int),
            sx == coh_sum(position@, others@.take(i as int), radius as int).x,
            sy == coh_sum(position@, others@.take(i as int), radius as int).y,
            sz == coh_sum(position@, others@.take(i as int), radius as int).z,
        decreases others@.len() - i,
    {
        proof {
            assert(states_bounded(others@.take(i as int))) by {
                assert(forall|j: int|
                    0 <= j < others@.take(i as int).len() ==> others@.take(i as int)[j]
                        == others@[j]);
            }
            lemma_sep_sum_box(position@, others@.take(i as int), radius as int);
            lemma_coh_sum_box(position@, others@.take(i as int), radius as int);
            assert(others@[i as int].position@.in_box(POS_MAX as int));
        }
        let b = others[i];
        let diff = Vector3 {
            x: position.x - b.position.x,
            y: position.y - b.position.y,
            z: position.z - b.position.z,
        };
        let n2 = norm2_wide(&diff);
        proof {
            assert((radius as int) * (radius as int) <= (LIMIT as int) * (LIMIT as int))
                by (nonlinear_arith)
                requires
                    0 <= radius <= LIMIT,
            ;
            assert(diff@ == position@.sub3(b.position@));
        }
        let r2 = (radius as i128) * (radius as i128);
        if n2 > 0 && n2 < r2 {
            sx = sx + b.position.x as i128;
            sy = sy + b.position.y as i128;
            sz = sz + b.position.z as i128;
            count = count + 1;
        }
        proof {
            assert(others@.take(i as int + 1).drop_last() =~= others@.take(i as int));
            assert(others@.take(i as int + 1).last() == others@[i as int]);
        }
        i = i + 1;
    }
    proof {
        assert(others@.take(others@.len() as int) =~= others@);
        lemma_sep_sum_box(position@, others@, radius as int);
        lemma_coh_sum_box(position@, others@, radius as int);
        assert((max_force as int) * (max_force as int) >= 0) by (nonlinear_arith);
    }
    if count > 0 {
        proof {
            lemma_averaged_box(
                coh_sum(position@, others@, radius as int),
                count as int,
                POS_MAX as int,
            );
        }
        let ax = div_trunc(sx, count as i128);
        let ay = div_trunc(sy, count as i128);
        let az = div_trunc(sz, count as i128);
        let dir = Vector3 {
            x: (ax - position.x as i128) as i64,
            y: (ay - position.y as i128) as i64,
            z: (az - position.z as i128) as i64,
        };
        let n2d = norm2_wide(&dir);
        if n2d > 0 {
            steer_toward(&dir, velocity, max_speed, max_force)
        } else {
            Vector3 { x: 0, y: 0, z: 0 }
        }
    } else {
        Vector3 { x: 0, y: 0, z: 0 }
    }
}

/// The target-seeking force: steer toward a fixed target point, or the zero
/// vector when the agent already sits on it.
pub fn seek_kernel(
    target: &Vector3,
    position: &Vector3,
    velocity: &Vector3,
    max_speed: i64,
    max_force: i64,
) -> (r: Vector3)
    requires
        target@.in_box(POS_MAX as int),
        position@.in_box(POS_MAX as int),
        velocity@.in_box(LIMIT as int),
        0 <= max_speed <= LIMIT,
        0 <= max_force <= LIMIT,
    ensures
        r@ == spec_seek(target@, position@, velocity@, max_speed as int, max_force as int),
        r@.norm2() <= max_force * max_force,
        r@.in_box(max_force as int),
{
    let dir = Vector3 {
        x: target.x - position.x,
        y: target.y - position.y,
        z: target.z - position.z,
    };
    proof {
        assert(dir@ == target@.sub3(position@));
        assert((max_force as int) * (max_force as int) >= 0) by (nonlinear_arith);
    }
    let n2 = norm2_wide(&dir);
    if n2 > 0 {
        steer_toward(&dir, velocity, max_speed, max_force)
    } else {
        Vector3 { x: 0, y: 0, z: 0 }
    }
}

} // verus!
