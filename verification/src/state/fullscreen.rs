//! The fullscreen toggle.

use vstd::prelude::*;

use crate::events::{GameCommand, GameEvent};

verus! {

/// How the window fills the screen.
#[derive(Debug, Clone, Copy, PartialEq, Eq, Structural)]
pub enum FullscreenMode {
    /// A normal window.
    Off,
    /// Exclusive fullscreen.
    True,
    /// Borderless fullscreen at the desktop resolution.
    Desktop,
}

/// The mode a toggle asks for: a window goes borderless fullscreen, and any
/// fullscreen goes back to a window.
pub fn fullscreen_target(current: FullscreenMode) -> (r: FullscreenMode)
    ensures
        r == (if current == FullscreenMode::Off { FullscreenMode::Desktop } else { FullscreenMode::Off }),
{
    match current {
        FullscreenMode::Off => FullscreenMode::Desktop,
        _ => FullscreenMode::Off,
    }
}

/// Number of fullscreen toggles among the events.
pub open spec fn spec_toggle_count(events: Seq<GameEvent>) -> nat
    decreases events.len(),
{
    if events.len() == 0 {
        0
    } else {
        spec_toggle_count(events.drop_last()) + if events.last() == GameEvent::Command(GameCommand::ToggleFullscreen) {
            1nat
        } else {
            0nat
        }
    }
}

/// The fullscreen toggles among a frame's events, each to be applied in turn
/// with `fullscreen_target` on the window's mode at that moment.
pub fn handle_fullscreen_command(events: &Vec<GameEvent>) -> (toggles: usize)
    ensures
        toggles == spec_toggle_count(events@),
{
    let mut n: usize = 0;
    let mut i: usize = 0;
    while i < events.len()
        invariant
            0 <= i <= events.len(),
            n == spec_toggle_count(events@.subrange(0, i as int)),
            n <= i,
        decreases events.len() - i,
    {
        proof {
            assert(events@.subrange(0, i + 1).drop_last() =~= events@.subrange(0, i as int));
            assert(events@.subrange(0, i + 1).last() == events@[i as int]);
        }
        if let GameEvent::Command(GameCommand::ToggleFullscreen) = events[i] {
            n = n + 1;
        }
        i = i + 1;
    }
    proof {
        assert(events@.subrange(0, events.len() as int) =~= events@);
    }
    n
}

/// Toggling twice returns to where it started, from a window or borderless
/// fullscreen.
pub proof fn lemma_toggle_twice(m: FullscreenMode)
    requires
        m != FullscreenMode::True,
    ensures
        ({
            let once = if m == FullscreenMode::Off { FullscreenMode::Desktop } else { FullscreenMode::Off };
            (if once == FullscreenMode::Off { FullscreenMode::Desktop } else { FullscreenMode::Off }) == m
        }),
{
}

} // verus!
