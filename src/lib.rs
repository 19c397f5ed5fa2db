//! Lane-based endless runner core: the knight's lane state machine, the
//! recycled pool of track bricks, and the small decisions around them.
//!
//! All quantities are integers in fixed units: lengths in nanometres, times
//! in milliseconds, speeds in nanometres per millisecond and accelerations in
//! nanometres per square millisecond.

pub mod board;
pub mod constant;
pub mod ecs_close;
pub mod player;
