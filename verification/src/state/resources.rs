//! Small gameplay resources: lives, intro flag and the player's animations.

use vstd::prelude::*;

verus! {

/// Number of lives a game starts with.
pub const STARTING_LIVES: u8 = 3;

/// The player's animation set.
#[derive(Clone)]
pub struct PlayerAnimation<A>(pub A);

/// The player's death animation.
#[derive(Clone)]
pub struct PlayerDeathAnimation<A>(pub A);

/// Whether the opening jingle has played for the current startup sequence.
#[derive(Debug, Default, Clone, Copy)]
pub struct IntroPlayed(pub bool);

/// The number of lives the player has left.
#[derive(Debug, Clone, Copy, PartialEq, Eq, Structural)]
pub struct PlayerLives(u8);

impl PlayerLives {
    /// Lives left.
    pub closed spec fn count(self) -> u8 {
        self.0
    }

    /// Lives left.
    pub fn remaining(&self) -> (r: u8)
        ensures
            r == self.count(),
    {
        self.0
    }

    /// Whether any life is left.
    pub fn is_alive(&self) -> (r: bool)
        ensures
            r == (self.count() > 0),
    {
        self.0 > 0
    }

    /// Consumes one life, stopping at zero.
    pub fn lose_life(&mut self)
        ensures
            final(self).count() == (if old(self).count() > 0 {
                (old(self).count() - 1) as u8
            } else {
                0u8
            }),
    {
        if self.0 > 0 {
            self.0 = self.0 - 1;
        }
    }
}

impl Default for PlayerLives {
    fn default() -> (r: Self)
        ensures
            r.count() == STARTING_LIVES,
    {
        PlayerLives(STARTING_LIVES)
    }
}

} // verus!
