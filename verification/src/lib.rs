//! Focus-based volume ducking: when a window loses input focus, the engine
//! lowers ("ducks") that application's audio volume, and restores it when the
//! application regains focus. Volumes are handled as integer thousandths of
//! full scale, so `1000` is full volume and `100` is the default ducked level.

pub mod config;
pub mod engine;
pub mod laws;
pub mod memory;
pub mod targets;
pub mod text;

use vstd::prelude::*;

verus! {

/// Full volume, in thousandths of the normalized scale.
pub const FULL_VOLUME: u32 = 1000;

} // verus!
