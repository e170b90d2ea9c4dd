//! A verified core for a small real-time 2D arena simulation.
//!
//! One player-controlled entity and a fixed set of autonomous enemies move
//! inside a rectangular arena. Each frame the simulation integrates every
//! entity's position, clamps it back into the arena, and, for enemies that
//! hit a wall, mirrors the crossing component of the direction, blends in a
//! small random perturbation, and renormalizes.
//!
//! All coordinates are fixed-point: an `i64` counts milli-units, so one
//! world unit is `SCALE` steps. Randomness enters only through a thin
//! wrapper over an outside generator; everything computed from the drawn
//! values is verified.

use vstd::prelude::*;

pub mod vecfx;
pub mod rng;
pub mod entities;
pub mod motion;
pub mod bounce;
pub mod world;

verus! {

/// Fixed-point scale: one world unit is `SCALE` coordinate steps.
pub const SCALE: i64 = 1000;

/// Tolerance on the squared norm of a unit direction, in scaled units:
/// integer normalization leaves the squared norm within this distance of
/// `SCALE * SCALE`.
pub const UNIT_SLACK: i64 = 4 * SCALE + 4;

/// Smallest squared norm that `normalize` accepts: half a unit, squared.
pub const MIN_NORM_SQ: i64 = 250_000;

/// Largest component magnitude that `normalize` accepts.
pub const NORM_INPUT_LIMIT: i64 = 2_000_000;

/// Player speed in world units per second.
pub const PLAYER_SPEED: i64 = 500;

/// Player radius in scaled units (32 world units).
pub const PLAYER_RADIUS: i64 = 32 * SCALE;

/// Number of autonomous enemies spawned at startup.
pub const NUMBER_OF_ENEMIES: usize = 7;

/// Enemy speed in world units per second.
pub const ENEMY_SPEED: i64 = 300;

/// Enemy radius in scaled units (32 world units).
pub const ENEMY_RADIUS: i64 = 32 * SCALE;

/// Weight of the random perturbation blended into a reflected direction,
/// in scaled units: 50 / SCALE = 0.05 of a unit vector.
pub const BOUNCE_RANDOMNESS: i64 = 50;

/// Largest elapsed time accepted for one tick, in scaled seconds
/// (about 17 minutes).
pub const DT_LIMIT: i64 = 1_048_576;

/// Largest coordinate magnitude the integrator accepts, in scaled units.
pub const COORD_LIMIT: i64 = 4_000_000_000_000;

} // verus!
