//! Commands and events exchanged between input handling and the game rules.

use vstd::prelude::*;

use crate::direction::Direction;

verus! {

/// A command the player (or the demo AI) issues.
#[derive(Debug, Clone, Copy, PartialEq, Eq, Structural)]
pub enum GameCommand {
    MovePlayer(Direction),
    Exit,
    TogglePause,
    ToggleDebug,
    MuteAudio,
    ResetLevel,
    SingleTick,
    ToggleFullscreen,
}

/// An event of one frame.
#[derive(Debug, Clone, Copy, PartialEq, Eq, Structural)]
pub enum GameEvent {
    Command(GameCommand),
}

} // verus!
