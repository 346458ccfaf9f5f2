//! The scheduling shim: run one tick's per-agent computations either
//! sequentially or inside a parallel work-stealing scope. Each agent's next
//! state depends only on the frozen snapshot, never on a sibling's result,
//! so the two schedules are proved (sequential) and trusted (parallel) to
//! produce exactly the same agents.

use vstd::prelude::*;

use rayon::iter::{IntoParallelRefIterator, ParallelIterator};

use crate::boids::Boid;
use crate::flock::Flock;

verus! {

/// Run this tick's per-agent updates, optionally inside a parallel scope.
/// Whichever schedule runs, the result is the same: agent `i` of the result
/// is exactly `spec_update` of agent `i` of the snapshot.
pub fn maybe_scope<T: Boid + Send + Sync>(parallel: bool, flock: &Flock<T>) -> (r: Vec<T>)
    requires
        forall|i: int|
            0 <= i < flock.boids@.len() ==> (#[trigger] flock.boids@[i]).ready(*flock),
    ensures
        r@.len() == flock.boids@.len(),
        forall|i: int|
            0 <= i < flock.boids@.len() ==> r@[i] == (#[trigger] flock.boids@[i]).spec_update(
                *flock,
            ),
        forall|i: int| 0 <= i < flock.boids@.len() ==> (#[trigger] r@[i]).valid(),
{
    if parallel {
        update_all_parallel(flock)
    } else {
        update_all_sequential(flock)
    }
}

/// The sequential schedule: a plain verified loop over the snapshot.
fn update_all_sequential<T: Boid>(flock: &Flock<T>) -> (r: Vec<T>)
    requires
        forall|i: int|
            0 <= i < flock.boids@.len() ==> (#[trigger] flock.boids@[i]).ready(*flock),
    ensures
        r@.len() == flock.boids@.len(),
        forall|i: int|
            0 <= i < flock.boids@.len() ==> r@[i] == (#[trigger] flock.boids@[i]).spec_update(
                *flock,
            ),
        forall|i: int| 0 <= i < flock.boids@.len() ==> (#[trigger] r@[i]).valid(),
{
    let mut out: Vec<T> = Vec::new();
    let mut i: usize = 0;
    while i < flock.boids.len()
        invariant
            forall|j: int|
                0 <= j < flock.boids@.len() ==> (#[trigger] flock.boids@[j]).ready(*flock),
            i <= flock.boids@.len(),
            out@.len() == i as int,
            forall|j: int|
                0 <= j < i as int ==> out@[j] == (#[trigger] flock.boids@[j]).spec_update(*flock),
            forall|j: int| 0 <= j < i as int ==> (#[trigger] out@[j]).valid(),
        decreases flock.boids@.len() - i,
    {
        let next = flock.boids[i].update(flock);
        out.push(next);
        i = i + 1;
    }
    out
}

/// The parallel schedule. Relies on rayon's `par_iter().map(..).collect()`
/// over an indexed parallel iterator: it applies the closure to every
/// element and collects the results in the source's order, so element `i` of
/// the result is `update` of element `i` of the snapshot -- whose verified
/// contract pins it to `spec_update` against the shared frozen snapshot.
#[verifier::external_body]
fn update_all_parallel<T: Boid + Send + Sync>(flock: &Flock<T>) -> (r: Vec<T>)
    requires
        forall|i: int|
            0 <= i < flock.boids@.len() ==> (#[trigger] flock.boids@[i]).ready(*flock),
    ensures
        r@.len() == flock.boids@.len(),
        forall|i: int|
            0 <= i < flock.boids@.len() ==> r@[i] == (#[trigger] flock.boids@[i]).spec_update(
                *flock,
            ),
        forall|i: int| 0 <= i < flock.boids@.len() ==> (#[trigger] r@[i]).valid(),
{
    flock.boids.par_iter().map(|boid| boid.update(flock)).collect()
}

} // verus!
