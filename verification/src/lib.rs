//! Arena combat simulation core.
//!
//! A tick-driven, single-threaded simulation of a top-down arena: one player,
//! spawned hostiles (enemies and bosses) with per-archetype movement and attack
//! behaviour, projectiles, and a collectible pickup. All geometry is carried in
//! fixed-point milli-units (1000 = one world unit), so every rule of the
//! simulation is stated and proved over plain integers.

use vstd::prelude::*;

pub mod timer;
pub mod vecmath;
pub mod health;
pub mod rng;
pub mod archetype;
pub mod combat;
pub mod projectile;
pub mod pickup;
pub mod hostile;
pub mod player;
pub mod world;

verus! {

/// Upper bound on the elapsed time handed to one tick, in milliseconds.
pub const TICK_DELTA_MAX_MS: u64 = 10_000;

} // verus!
