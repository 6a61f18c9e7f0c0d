//! Per-game session state.

use vstd::prelude::*;

use super::resources::PlayerLives;
use super::stage::GameStage;

verus! {

/// The player's score.
#[derive(Debug, Default, Clone, Copy, PartialEq, Eq, Structural)]
pub struct ScoreResource(pub u32);

impl ScoreResource {
    /// The score.
    pub fn value(&self) -> (r: u32)
        ensures
            r == self.0,
    {
        self.0
    }
}

/// How many pellets Pac-Man has eaten this level.
#[derive(Debug, Default, Clone, Copy, PartialEq, Eq, Structural)]
pub struct PelletCount(pub u32);

impl PelletCount {
    /// Pellets eaten.
    pub fn count(&self) -> (r: u32)
        ensures
            r == self.0,
    {
        self.0
    }
}

/// Everything that belongs to one play-through.
#[derive(Debug)]
pub struct Session {
    /// Current level.
    pub level: u8,
    pub score: ScoreResource,
    pub lives: PlayerLives,
    pub pellets: PelletCount,
    /// Whether the opening jingle has played for the current startup sequence.
    pub intro_played: bool,
    /// Ghosts eaten during the current fright period.
    pub ghost_eaten_chain: u8,
    /// Current stage of the gameplay machine; writers go through `set_stage`.
    pub stage: GameStage,
}

impl Session {
    /// The current stage.
    pub open spec fn spec_stage(self) -> GameStage {
        self.stage
    }

    /// A fresh session at `level`: no score, three lives, no pellets, the opening stage.
    pub fn new(level: u8) -> (r: Self)
        ensures
            r.level == level,
            r.score == ScoreResource(0),
            r.lives.count() == super::resources::STARTING_LIVES,
            r.pellets == PelletCount(0),
            !r.intro_played,
            r.ghost_eaten_chain == 0,
            r.spec_stage() == GameStage::spec_initial(),
    {
        Session {
            level,
            score: ScoreResource(0),
            lives: PlayerLives::default(),
            pellets: PelletCount(0),
            intro_played: false,
            ghost_eaten_chain: 0,
            stage: GameStage::initial(),
        }
    }

    /// The current stage.
    pub fn stage(&self) -> (r: GameStage)
        ensures
            r == self.spec_stage(),
    {
        self.stage
    }

    /// Moves the gameplay machine to `stage`; nothing else changes.
    pub fn set_stage(&mut self, stage: GameStage)
        ensures
            final(self).spec_stage() == stage,
            final(self).level == old(self).level,
            final(self).score == old(self).score,
            final(self).lives == old(self).lives,
            final(self).pellets == old(self).pellets,
            final(self).intro_played == old(self).intro_played,
            final(self).ghost_eaten_chain == old(self).ghost_eaten_chain,
    {
        self.stage = stage;
    }
}

impl Default for Session {
    fn default() -> (r: Self)
        ensures
            r.level == 1,
            r.spec_stage() == GameStage::spec_initial(),
    {
        Session::new(1)
    }
}

} // verus!
