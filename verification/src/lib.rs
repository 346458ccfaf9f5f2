//! A flocking-behaviour simulation library implementing Craig Reynolds' boids
//! model: a population of autonomous agents that move according to
//! locally-computed steering forces (separation, alignment, cohesion and
//! optional target-seeking), producing emergent group motion without central
//! coordination.
//!
//! All simulation arithmetic is fixed-point: a scalar is an `i64` holding
//! `SCALE` (10000) times its mathematical value, so one spatial unit is
//! `SCALE` and magnitudes are exact integers. Every numeric step (division,
//! square root, clamping) has a precise contract, and the per-tick update is
//! proved to keep each agent's speed within its `max_speed` bound.

pub mod boids;
pub mod fixed;
pub mod flock;
pub mod iter;
pub mod trig;
pub mod vector;

pub use boids::boid2d::Boid2D;
pub use boids::boid3d::Boid3D;
pub use boids::{Boid, BoidWeights};
pub use flock::Flock;
