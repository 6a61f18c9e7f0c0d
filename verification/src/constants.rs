//! Tick counts of the stage machine and of ghost revival (the game runs at 60 ticks per second).

use vstd::prelude::*;

verus! {

/// Ticks of the text-only opening (READY! and PLAYER ONE, characters hidden).
pub const STARTUP_FRAMES: u32 = 120;

/// Ticks the characters stand visible before play starts.
pub const CHARACTERS_VISIBLE_TICKS: u32 = 60;

/// Ticks the board stays empty after the death animation.
pub const DEATH_HIDDEN_TICKS: u32 = 60;

/// Ticks play freezes after a ghost is eaten, showing its score.
pub const GHOST_EATEN_PAUSE_TICKS: u32 = 30;

/// Ticks an eaten ghost spends reviving in the house before it may leave again.
pub const GHOST_REVIVE_TICKS: u32 = 60;

} // verus!
