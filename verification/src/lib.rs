//! Verified simulation core for a top-down arcade shooter.
//!
//! All quantities are fixed-point integers: a world unit is `SCALE`
//! fixed-point steps, so `1.5` world units is the integer `1500`.
use vstd::prelude::*;

pub mod angle;
pub mod collision;
pub mod entities;
pub mod fixed;
pub mod geometry;
pub mod rng;
pub mod sim;
pub mod spawner;

verus! {

/// Fixed-point scale: the number of integer steps in one world unit.
pub const SCALE: i64 = 1000;

/// Acceleration applied to the player's velocity each frame the target
/// direction is active, in fixed-point world units.
pub const ACCELERATION: i64 = 500;

/// Largest magnitude either velocity component may reach.
pub const MAX_SPEED: i64 = 8000;

/// Per-frame decelerating step applied to the velocity while the target
/// direction is inside the dead zone.
pub const FRICTION: i64 = 200;

/// Time between spawn waves, in fixed-point time units.
pub const ENEMY_SPAWN_INTERVAL: i64 = 2000;

/// Width of the player's hitbox.
pub const PLAYER_WIDTH: i64 = 50_000;

/// Height of the player's hitbox.
pub const PLAYER_HEIGHT: i64 = 50_000;

/// Least distance from the player at which an enemy may spawn.
pub const SAFE_DISTANCE: i64 = 100_000;

/// Padding around the viewport within which spawn candidates are drawn.
pub const SPAWN_MARGIN: i64 = 100_000;

/// Width of a spawned enemy.
pub const ENEMY_WIDTH: i64 = 40_000;

/// Height of a spawned enemy.
pub const ENEMY_HEIGHT: i64 = 40_000;

/// Homing speed of a spawned enemy, per time unit.
pub const ENEMY_SPEED: i64 = 100_000;

/// Radius of a bullet, for drawing.
pub const BULLET_RADIUS: i64 = 5_000;

/// Flight speed of a bullet, per time unit.
pub const BULLET_SPEED: i64 = 500_000;

/// Largest world-coordinate magnitude the simulation accepts; far
/// beyond any reachable session, it keeps every intermediate product
/// inside the machine integers.
pub const COORD_LIMIT: i64 = 2_000_000_000_000;

/// Largest frame time accepted, ten time units.
pub const DT_LIMIT: i64 = 10_000;

/// Largest entity speed accepted.
pub const SPEED_LIMIT: i64 = 1_000_000;

/// Largest entity extent accepted.
pub const SIZE_LIMIT: i64 = 1_000_000;

/// Largest viewport extent accepted.
pub const VIEW_LIMIT: i64 = 100_000_000;

/// Largest elapsed-time value accepted.
pub const TIME_LIMIT: i64 = 1_000_000_000_000;

/// Largest distance an entity can travel in one frame:
/// `SPEED_LIMIT * DT_LIMIT / SCALE`.
pub const MOVE_LIMIT: i64 = 10_000_000;

/// Largest world-offset magnitude the simulation accepts; it leaves
/// room under `COORD_LIMIT` for a whole viewport and the spawn margin.
pub const OFFSET_LIMIT: i64 = 1_000_000_000_000;

} // verus!
