//! Per-frame simulation core of a 2D arcade shooter.
//!
//! The core advances enemy behavior, partitions entities spatially for
//! proximity queries, and resolves collisions between projectiles, enemies,
//! the player ship, modules, and pickups.  All scalars are fixed-point
//! integers in milli-units (one world unit is 1000), so every step of the
//! simulation is exact, deterministic, and verified.  The host converts its
//! native representation at the boundary and injects a seedable random
//! source, so two runs over the same inputs and seeds agree bit for bit.

pub mod collision;
pub mod enemy_ai;
pub mod fixed;
pub mod grid;
pub mod laws;
pub mod module_ai;
pub mod particles;
pub mod rng;
pub mod types;

use vstd::prelude::*;

verus! {

} // verus!
