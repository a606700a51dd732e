//! The fixed constants of the game rules.

use vstd::prelude::*;

verus! {

/// Weight of a freshly spawned player.
pub const STARTING_WEIGHT: u64 = 15;

/// Smallest obstacle weight the spawner draws (inclusive).
pub const WEIGHT_MIN: u64 = 1;

/// End of the spawner's weight range (exclusive): weights lie in
/// `[WEIGHT_MIN, WEIGHT_LIMIT)`.
pub const WEIGHT_LIMIT: u64 = 100;

/// Largest weight gain a single absorption can yield: the ceiling of the
/// largest drawable weight divided by five.
pub const MAX_GROWTH_PER_ABSORPTION: u64 = 20;

/// Speed (world units per second) given to a spawned obstacle.
pub const OBSTACLE_SPEED: i64 = 100;

/// The spawn timer's repeating interval, in milliseconds.
pub const SPAWN_INTERVAL_MS: u64 = 500;

/// A wall-bounce sound fires only when the debounce counter strictly
/// exceeds this many milliseconds.
pub const DEBOUNCE_MIN_MS: u64 = 500;

/// Ceiling at which the debounce counter stops growing; far above
/// `DEBOUNCE_MIN_MS`, so eligibility is unaffected.
pub const DEBOUNCE_CAP_MS: u64 = 1_000_000;

/// A wall bounce qualifies for a sound only when the player's speed
/// strictly exceeds this (world units per second).
pub const BOUNCE_SPEED_THRESHOLD: i64 = 50;

/// Horizontal speed constant of the movement controller
/// (world units per second, scaled by the tick's delta time).
pub const MOVE_SPEED: i64 = 10_000;

/// Largest tick delta the simulation accepts, in milliseconds; a machine
/// limit that keeps every timer and velocity product within its type.
pub const MAX_TICK_MS: u64 = 10_000;

/// Initial gravity vector: straight down.
pub const GRAVITY_X: i64 = 0;
/// Initial gravity vector: straight down.
pub const GRAVITY_Y: i64 = -1000;

} // verus!
