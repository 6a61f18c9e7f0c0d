//! Gameplay state: pause, lives, the per-game session and the stage machine.

use vstd::prelude::*;

pub mod fullscreen;
pub mod pause;
pub mod resources;
pub mod session;
pub mod stage;

verus! {

/// Whether two values differ only in ways not worth reporting.
pub trait TooSimilar {
    /// True when `self` and `other` are the same kind of value with no
    /// noteworthy difference.
    fn too_similar(&self, other: &Self) -> bool;
}

} // verus!
