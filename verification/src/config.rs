//! Fixed configuration of the simulation core.
//!
//! All lengths are in milli-units (one thousandth of a world unit), all
//! times in milliseconds, velocities in milli-units per second and the
//! gravitational acceleration in milli-units per second squared.

use vstd::prelude::*;

verus! {

/// Milliseconds per second; also the scaling factor between a velocity
/// (per second) and the time step (milliseconds).
pub const MILLIS_PER_SECOND: i64 = 1000;

/// Downward acceleration applied to the actor's vertical velocity.
pub const GRAVITY: i64 = -350_000;

/// Vertical velocity set by a flap input.
pub const FLAP_SPEED: i64 = 150_000;

/// Horizontal scroll velocity of every obstacle.
pub const SCROLL_SPEED: i64 = -100_000;

/// Period of the repeating obstacle spawn timer, in milliseconds.
pub const SPAWN_INTERVAL_MS: i64 = 2_000;

/// Vertical size of the gap between the two obstacles of a pair.
pub const GAP_SIZE: i64 = 100_000;

/// Visual width and height of one obstacle.
pub const OBSTACLE_WIDTH: i64 = 50_000;
pub const OBSTACLE_HEIGHT: i64 = 600_000;

/// Inset subtracted from the visual half-extents of an obstacle so that
/// collision is slightly more forgiving than the visual bounds.
pub const COLLIDER_INSET: i64 = 5_000;

/// Collision half-extents of an obstacle: half the visual size, shrunk
/// by the inset.
pub const OBSTACLE_HALF_W: i64 = 20_000;
pub const OBSTACLE_HALF_H: i64 = 295_000;

/// Vertical offset of an obstacle's center from the gap center: half the
/// gap plus half the obstacle height.
pub const OBSTACLE_OFFSET: i64 = 350_000;

/// Horizontal coordinate at which a new obstacle pair is created,
/// off the right edge of the play area.
pub const SPAWN_X: i64 = 500_000;

/// Remaining lifetime given to a newly created obstacle, in milliseconds.
pub const OBSTACLE_LIFETIME_MS: i64 = 10_000;

/// The randomized gap center is drawn uniformly from
/// [-GAP_CENTER_RANGE, GAP_CENTER_RANGE].
pub const GAP_CENTER_RANGE: i64 = 130_000;

/// Vertical play-area bounds; leaving them ends the run.
pub const TOP_BOUND: i64 = 300_000;
pub const BOTTOM_BOUND: i64 = -300_000;

/// Collision half-extents of the actor.
pub const ACTOR_HALF: i64 = 16_000;

/// Machine limits: the widest values for which every arithmetic step of a
/// tick provably stays inside `i64`. They are far beyond anything a real
/// run reaches; callers check them with [`crate::sim::Sim::fits_ok`]
/// before each tick.
pub const POS_LIMIT: i64 = 1_000_000_000_000;
pub const VEL_LIMIT: i64 = 1_000_000_000;
pub const TIME_LIMIT: i64 = 1_000_000;
pub const GRAV_LIMIT: i64 = 1_000_000;
pub const SCORE_LIMIT: i64 = 1_000_000_000_000;
pub const GEN_LIMIT: u64 = 1_000_000_000_000_000_000;
pub const LEN_LIMIT: usize = 1_000_000;

/// Loose bounds that hold of every intermediate value within one tick
/// whenever the strict limits above hold at its start.
pub const VEL_LOOSE: i64 = 2_000_000_000;
pub const POS_LOOSE: i64 = 3_000_000_000_000;

} // verus!
