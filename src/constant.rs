use vstd::prelude::*;

verus! {

/// Lanes on each side of the centre lane: lanes run from `-BOARD_COUNT_X`
/// to `BOARD_COUNT_X`.
pub const BOARD_COUNT_X: i32 = 1;

/// Number of lanes (bricks across one row).
pub const BOARD_COUNT: i32 = 2 * BOARD_COUNT_X + 1;

/// Number of rows of bricks in the pool.
pub const BOARD_COUNT_Z: i64 = 48;

/// Rows of bricks laid behind the start line (at positive z).
pub const BOARD_ROWS_BEHIND: i64 = 8;

/// How far (nm) a brick may lie behind the knight before it is recycled: 8 m.
pub const BOARD_Z_OFFSET: i64 = 8_000_000_000;

/// Height jitter of a brick (nm): heights are drawn from
/// `[-2 * BOARD_HEIGHT_RANDOM, 0)`; 0.1 m.
pub const BOARD_HEIGHT_RANDOM: i64 = 100_000_000;

/// Chance that a brick carries a barrier: one in ten.
pub const BARRIER_NUMERATOR: u32 = 1;

pub const BARRIER_DENOMINATOR: u32 = 10;

/// Time (ms) a lane change takes: 0.1 s.
pub const MOVING_H_TIME: i64 = 100;

/// Forward running speed of the knight (nm/ms): 6 m/s, toward negative z.
pub const RUNNING_SPEED: i64 = 6_000_000;

/// Size of a brick, which is also the width of a lane (nm): 2 m.
pub const BOARD_SIZE: i64 = 2_000_000_000;

/// Lateral speed during a lane change (nm/ms): one lane (`BOARD_SIZE`) per
/// `MOVING_H_TIME`, 20 m/s.
pub const MOVING_SPEED_H: i64 = 20_000_000;

/// Height of a barrier above its brick (nm): 1.8 m.
pub const PLAYER_Y: i64 = 1_800_000_000;

/// Gravity (nm/ms²): -9.81 m/s².
pub const GRAVITY: i64 = -9_810;

/// Mass of the knight's character controller, which scales gravity.
pub const KNIGHT_MASS: i64 = 5;

/// Upward launch speed of a jump (nm/ms): 20 m/s.
pub const JUMP_SPEED: i64 = 20_000_000;

/// Grace window (ms) after the last grounded tick in which a jump still
/// registers: 0.5 s.
pub const GROUND_CHECKER_TIMER: i64 = 500;

/// Largest speed (nm/ms) the knight's vertical speed may reach, and the bound
/// on every configured speed: 1e12 nm/ms.
pub const SPEED_LIMIT: i64 = 1_000_000_000_000;

/// Largest time step (ms) of one tick: 1000 s.
pub const MAX_STEP: i64 = 1_000_000;

/// Bound on the magnitude of a configured acceleration (nm/ms²).
pub const ACCEL_LIMIT: i64 = 1_000_000;

/// Bound on the configured mass.
pub const MASS_LIMIT: i64 = 1_000;

/// Bound on the lane half-count.
pub const LANE_LIMIT: i32 = 1_000;

/// Bound on configured lengths (nm): 1 km.
pub const LENGTH_LIMIT: i64 = 1_000_000_000_000;

/// Bound on configured durations (ms).
pub const DURATION_LIMIT: i64 = 1_000_000_000;

/// Bound on the number of rows in the pool.
pub const ROW_LIMIT: i64 = 100_000;

/// Bound on the magnitude of a world coordinate (nm) that the track reads.
pub const WORLD_LIMIT: i64 = 4_000_000_000_000_000_000;

} // verus!
