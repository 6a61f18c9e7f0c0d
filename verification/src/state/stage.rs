//! The gameplay stage machine: the opening sequence, play, the pause after a
//! ghost is eaten, the death sequence and game over.
//!
//! A tick of the machine is a function from the session to the next session plus
//! the list of effects the caller applies to the world (freezing, revealing,
//! resetting actors, sounds).

use vstd::prelude::*;

use super::resources::PlayerLives;
use super::session::Session;
use super::TooSimilar;
use crate::audio::Sound;
use crate::constants::{CHARACTERS_VISIBLE_TICKS, DEATH_HIDDEN_TICKS, GHOST_EATEN_PAUSE_TICKS, STARTUP_FRAMES};
use crate::ghost::GhostType;

verus! {

/// Identifier of a graph node of the maze.
pub type NodeId = u16;

/// Identifier of a world entity, as its raw bits.
pub type EntityId = u64;

/// The two steps of the opening sequence.
#[derive(Debug, PartialEq, Eq, Clone, Copy, Structural)]
pub enum StartupSequence {
    /// READY! and PLAYER ONE shown, characters hidden.
    TextOnly { remaining_ticks: u32 },
    /// READY! shown with the characters visible.
    CharactersVisible { remaining_ticks: u32 },
}

/// The three steps of the death sequence.
#[derive(Debug, PartialEq, Eq, Clone, Copy, Structural)]
pub enum DyingSequence {
    /// Everything frozen for a moment.
    Frozen { remaining_ticks: u32 },
    /// Pac-Man's death animation plays.
    Animating { remaining_ticks: u32 },
    /// The board is empty before the next round.
    Hidden { remaining_ticks: u32 },
}

/// The stage of a game.
#[derive(Debug, PartialEq, Eq, Clone, Copy, Structural)]
pub enum GameStage {
    Starting(StartupSequence),
    /// Normal play.
    Playing,
    /// Short freeze after Pac-Man eats a ghost.
    GhostEatenPause { remaining_ticks: u32, ghost_entity: EntityId, ghost_type: GhostType, node: NodeId },
    /// The death sequence.
    PlayerDying(DyingSequence),
    /// The game has ended.
    GameOver,
}

/// A change to the world that entering a stage asks for.
#[derive(Debug, PartialEq, Eq, Clone, Copy, Structural)]
pub enum StageEffect {
    /// Play a sound.
    PlaySound(Sound),
    /// Make the player and every ghost visible.
    RevealActors,
    /// Freeze the player and every ghost.
    FreezeActors,
    /// Unfreeze the player and every ghost.
    UnfreezeActors,
    /// Hide every ghost.
    HideGhosts,
    /// Swap the player's animation for the death animation.
    StartPlayerDeathAnimation,
    /// Freeze the blinking energizers and force them visible.
    FreezeBlinkingVisible,
    /// Freeze the blinking energizers.
    FreezeBlinking,
    /// Unfreeze the blinking energizers.
    UnfreezeBlinking,
    /// Remove any fruit from the board.
    DespawnFruit,
    /// Return the player to its start, frozen and hidden.
    ResetPlayerToStart,
    /// Return every ghost to its start and initial state, frozen and hidden.
    ResetGhostsToStart,
    /// The eaten ghost comes back as eyes heading home.
    GhostReturnsAsEyes(EntityId),
    /// Freeze the player.
    FreezePlayer,
    /// Hide the player.
    HidePlayer,
    /// Freeze one ghost.
    FreezeGhost(EntityId),
    /// Hide one ghost.
    HideGhost(EntityId),
    /// Freeze every ghost that is not returning as eyes.
    FreezeGhostsExceptEyes,
    /// Show a bonus score at a node for some ticks.
    SpawnBonus { node: NodeId, value: u32, ttl: u32 },
}

impl GameStage {
    /// The stage a fresh session begins in.
    pub open spec fn spec_initial() -> GameStage {
        GameStage::Starting(StartupSequence::TextOnly { remaining_ticks: STARTUP_FRAMES })
    }

    /// The stage a fresh session begins in: the opening text.
    pub fn initial() -> (r: GameStage)
        ensures
            r == Self::spec_initial(),
    {
        GameStage::Starting(StartupSequence::TextOnly { remaining_ticks: STARTUP_FRAMES })
    }
}

impl Default for GameStage {
    fn default() -> (r: GameStage)
        ensures
            r == GameStage::Playing,
    {
        GameStage::Playing
    }
}

/// Ticks the death animation lasts: frames times ticks per frame, truncated to `u32`.
pub open spec fn spec_death_animation_ticks(frame_count: usize, frame_duration: u16) -> u32 {
    (frame_count * frame_duration) as u32
}

/// Ticks the death animation lasts.
pub fn death_animation_ticks(frame_count: usize, frame_duration: u16) -> (r: u32)
    requires
        frame_count * frame_duration <= usize::MAX,
    ensures
        r == spec_death_animation_ticks(frame_count, frame_duration),
{
    (frame_count * frame_duration as usize) as u32
}

/// The stage after one tick, given the lives left before the tick and the length
/// of the death animation.
pub open spec fn spec_next_stage(stage: GameStage, lives: u8, death_ticks: u32) -> GameStage {
    match stage {
        GameStage::Playing => GameStage::Playing,
        GameStage::GameOver => GameStage::GameOver,
        GameStage::GhostEatenPause { remaining_ticks, ghost_entity, ghost_type, node } => {
            if remaining_ticks > 0 {
                GameStage::GhostEatenPause {
                    remaining_ticks: (remaining_ticks - 1) as u32,
                    ghost_entity,
                    ghost_type,
                    node,
                }
            } else {
                GameStage::Playing
            }
        },
        GameStage::Starting(StartupSequence::TextOnly { remaining_ticks }) => {
            if remaining_ticks > 0 {
                GameStage::Starting(
                    StartupSequence::TextOnly { remaining_ticks: (remaining_ticks - 1) as u32 },
                )
            } else {
                GameStage::Starting(
                    StartupSequence::CharactersVisible { remaining_ticks: CHARACTERS_VISIBLE_TICKS },
                )
            }
        },
        GameStage::Starting(StartupSequence::CharactersVisible { remaining_ticks }) => {
            if remaining_ticks > 0 {
                GameStage::Starting(
                    StartupSequence::CharactersVisible {
                        remaining_ticks: (remaining_ticks - 1) as u32,
                    },
                )
            } else {
                GameStage::Playing
            }
        },
        GameStage::PlayerDying(DyingSequence::Frozen { remaining_ticks }) => {
            if remaining_ticks > 0 {
                GameStage::PlayerDying(
                    DyingSequence::Frozen { remaining_ticks: (remaining_ticks - 1) as u32 },
                )
            } else {
                GameStage::PlayerDying(DyingSequence::Animating { remaining_ticks: death_ticks })
            }
        },
        GameStage::PlayerDying(DyingSequence::Animating { remaining_ticks }) => {
            if remaining_ticks > 0 {
                GameStage::PlayerDying(
                    DyingSequence::Animating { remaining_ticks: (remaining_ticks - 1) as u32 },
                )
            } else {
                GameStage::PlayerDying(DyingSequence::Hidden { remaining_ticks: DEATH_HIDDEN_TICKS })
            }
        },
        GameStage::PlayerDying(DyingSequence::Hidden { remaining_ticks }) => {
            if remaining_ticks > 0 {
                GameStage::PlayerDying(
                    DyingSequence::Hidden { remaining_ticks: (remaining_ticks - 1) as u32 },
                )
            } else if lives > 1 {
                GameStage::Starting(
                    StartupSequence::CharactersVisible { remaining_ticks: CHARACTERS_VISIBLE_TICKS },
                )
            } else {
                GameStage::GameOver
            }
        },
    }
}

/// Whether this tick ends the death sequence and so costs a life.
pub open spec fn spec_costs_life(stage: GameStage) -> bool {
    stage == GameStage::PlayerDying(DyingSequence::Hidden { remaining_ticks: 0 })
}

/// The effects of entering `new` from `old`.
pub open spec fn spec_on_enter(new: GameStage, old: GameStage) -> Seq<StageEffect> {
    match new {
        GameStage::Starting(StartupSequence::TextOnly { .. }) => seq![],
        GameStage::Starting(StartupSequence::CharactersVisible { .. }) => seq![
            StageEffect::RevealActors,
        ],
        GameStage::Playing => match old {
            GameStage::GhostEatenPause { ghost_entity, .. } => seq![
                StageEffect::UnfreezeActors,
                StageEffect::RevealActors,
                StageEffect::GhostReturnsAsEyes(ghost_entity),
            ],
            GameStage::Starting(StartupSequence::CharactersVisible { .. }) => seq![
                StageEffect::UnfreezeActors,
                StageEffect::UnfreezeBlinking,
            ],
            _ => seq![],
        },
        GameStage::GhostEatenPause { .. } => seq![],
        GameStage::PlayerDying(DyingSequence::Frozen { .. }) => seq![StageEffect::FreezeActors],
        GameStage::PlayerDying(DyingSequence::Animating { .. }) => seq![
            StageEffect::HideGhosts,
            StageEffect::StartPlayerDeathAnimation,
            StageEffect::PlaySound(Sound::PacmanDeath),
        ],
        GameStage::PlayerDying(DyingSequence::Hidden { .. }) => seq![
            StageEffect::FreezeBlinkingVisible,
            StageEffect::DespawnFruit,
            StageEffect::ResetPlayerToStart,
            StageEffect::ResetGhostsToStart,
        ],
        GameStage::GameOver => seq![StageEffect::FreezeBlinking],
    }
}

/// Whether entering `new` from `old` re-arms the opening jingle.
pub open spec fn spec_rearms_intro(new: GameStage, old: GameStage) -> bool {
    new == GameStage::Playing && (old matches GameStage::Starting(
        StartupSequence::CharactersVisible { .. },
    ))
}

/// Whether this tick plays the opening jingle.
pub open spec fn spec_plays_intro(stage: GameStage, intro_played: bool) -> bool {
    !intro_played && (stage matches GameStage::Starting(StartupSequence::TextOnly { .. }))
}

/// The effects of one tick from `stage`.
pub open spec fn spec_tick_effects(
    stage: GameStage,
    intro_played: bool,
    lives: u8,
    death_ticks: u32,
) -> Seq<StageEffect> {
    let new = spec_next_stage(stage, lives, death_ticks);
    (if spec_plays_intro(stage, intro_played) {
        seq![StageEffect::PlaySound(Sound::Beginning)]
    } else {
        seq![]
    }) + (if new != stage {
        spec_on_enter(new, stage)
    } else {
        seq![]
    })
}

/// Appends the effects of entering `new` from `left`.
fn on_enter(new: GameStage, left: GameStage, effects: &mut Vec<StageEffect>)
    ensures
        final(effects)@ == old(effects)@ + spec_on_enter(new, left),
{
    match new {
        GameStage::Starting(StartupSequence::TextOnly { .. }) => {},
        GameStage::Starting(StartupSequence::CharactersVisible { .. }) => {
            effects.push(StageEffect::RevealActors);
        },
        GameStage::Playing => match left {
            GameStage::GhostEatenPause { ghost_entity, .. } => {
                effects.push(StageEffect::UnfreezeActors);
                effects.push(StageEffect::RevealActors);
                effects.push(StageEffect::GhostReturnsAsEyes(ghost_entity));
            },
            GameStage::Starting(StartupSequence::CharactersVisible { .. }) => {
                effects.push(StageEffect::UnfreezeActors);
                effects.push(StageEffect::UnfreezeBlinking);
            },
            _ => {},
        },
        GameStage::GhostEatenPause { .. } => {},
        GameStage::PlayerDying(DyingSequence::Frozen { .. }) => {
            effects.push(StageEffect::FreezeActors);
        },
        GameStage::PlayerDying(DyingSequence::Animating { .. }) => {
            effects.push(StageEffect::HideGhosts);
            effects.push(StageEffect::StartPlayerDeathAnimation);
            effects.push(StageEffect::PlaySound(Sound::PacmanDeath));
        },
        GameStage::PlayerDying(DyingSequence::Hidden { .. }) => {
            effects.push(StageEffect::FreezeBlinkingVisible);
            effects.push(StageEffect::DespawnFruit);
            effects.push(StageEffect::ResetPlayerToStart);
            effects.push(StageEffect::ResetGhostsToStart);
        },
        GameStage::GameOver => {
            effects.push(StageEffect::FreezeBlinking);
        },
    }
}

/// The stage after one tick.
fn next_stage(stage: GameStage, lives: &mut PlayerLives, death_ticks: u32) -> (r: GameStage)
    ensures
        r == spec_next_stage(stage, old(lives).count(), death_ticks),
        final(lives).count() == (if spec_costs_life(stage) && old(lives).count() > 0 {
            (old(lives).count() - 1) as u8
        } else {
            old(lives).count()
        }),
{
    match stage {
        GameStage::Playing => GameStage::Playing,
        GameStage::GameOver => GameStage::GameOver,
        GameStage::GhostEatenPause { remaining_ticks, ghost_entity, ghost_type, node } => {
            if remaining_ticks > 0 {
                GameStage::GhostEatenPause {
                    remaining_ticks: remaining_ticks - 1,
                    ghost_entity,
                    ghost_type,
                    node,
                }
            } else {
                GameStage::Playing
            }
        },
        GameStage::Starting(StartupSequence::TextOnly { remaining_ticks }) => {
            if remaining_ticks > 0 {
                GameStage::Starting(StartupSequence::TextOnly { remaining_ticks: remaining_ticks - 1 })
            } else {
                GameStage::Starting(
                    StartupSequence::CharactersVisible { remaining_ticks: CHARACTERS_VISIBLE_TICKS },
                )
            }
        },
        GameStage::Starting(StartupSequence::CharactersVisible { remaining_ticks }) => {
            if remaining_ticks > 0 {
                GameStage::Starting(
                    StartupSequence::CharactersVisible { remaining_ticks: remaining_ticks - 1 },
                )
            } else {
                GameStage::Playing
            }
        },
        GameStage::PlayerDying(DyingSequence::Frozen { remaining_ticks }) => {
            if remaining_ticks > 0 {
                GameStage::PlayerDying(DyingSequence::Frozen { remaining_ticks: remaining_ticks - 1 })
            } else {
                GameStage::PlayerDying(DyingSequence::Animating { remaining_ticks: death_ticks })
            }
        },
        GameStage::PlayerDying(DyingSequence::Animating { remaining_ticks }) => {
            if remaining_ticks > 0 {
                GameStage::PlayerDying(
                    DyingSequence::Animating { remaining_ticks: remaining_ticks - 1 },
                )
            } else {
                GameStage::PlayerDying(DyingSequence::Hidden { remaining_ticks: DEATH_HIDDEN_TICKS })
            }
        },
        GameStage::PlayerDying(DyingSequence::Hidden { remaining_ticks }) => {
            if remaining_ticks > 0 {
                GameStage::PlayerDying(DyingSequence::Hidden { remaining_ticks: remaining_ticks - 1 })
            } else {
                lives.lose_life();
                if lives.is_alive() {
                    GameStage::Starting(
                        StartupSequence::CharactersVisible {
                            remaining_ticks: CHARACTERS_VISIBLE_TICKS,
                        },
                    )
                } else {
                    GameStage::GameOver
                }
            }
        },
    }
}

/// Advances the gameplay machine one tick and returns the effects to apply to
/// the world, in order. The stage moves to `spec_next_stage`; a life is lost when
/// the death sequence ends; the opening jingle is requested once per opening and
/// re-armed when play begins after it.
pub fn stage_system(session: &mut Session, death_ticks: u32) -> (effects: Vec<StageEffect>)
    ensures
        final(session).spec_stage() == spec_next_stage(
            old(session).spec_stage(),
            old(session).lives.count(),
            death_ticks,
        ),
        effects@ == spec_tick_effects(
            old(session).spec_stage(),
            old(session).intro_played,
            old(session).lives.count(),
            death_ticks,
        ),
        final(session).lives.count() == (if spec_costs_life(old(session).spec_stage())
            && old(session).lives.count() > 0 {
            (old(session).lives.count() - 1) as u8
        } else {
            old(session).lives.count()
        }),
        final(session).intro_played == (if spec_rearms_intro(
            final(session).spec_stage(),
            old(session).spec_stage(),
        ) {
            false
        } else {
            old(session).intro_played || spec_plays_intro(
                old(session).spec_stage(),
                old(session).intro_played,
            )
        }),
        final(session).level == old(session).level,
        final(session).score == old(session).score,
        final(session).pellets == old(session).pellets,
        final(session).ghost_eaten_chain == old(session).ghost_eaten_chain,
{
    let old_stage = session.stage();
    let mut effects: Vec<StageEffect> = Vec::new();
    if let GameStage::Starting(StartupSequence::TextOnly { .. }) = old_stage {
        if !session.intro_played {
            effects.push(StageEffect::PlaySound(Sound::Beginning));
            session.intro_played = true;
        }
    }
    let new_stage = next_stage(old_stage, &mut session.lives, death_ticks);
    if old_stage == new_stage {
        return effects;
    }
    on_enter(new_stage, old_stage, &mut effects);
    if let GameStage::Playing = new_stage {
        if let GameStage::Starting(StartupSequence::CharactersVisible { .. }) = old_stage {
            session.intro_played = false;
        }
    }
    session.set_stage(new_stage);
    effects
}

/// Enters the pause after Pac-Man eats a ghost worth `value` points at `node`.
/// Only live play can be interrupted this way; from any other stage nothing
/// happens and no effect is returned.
pub fn enter_ghost_eaten_pause(
    session: &mut Session,
    ghost_entity: EntityId,
    ghost_type: GhostType,
    node: NodeId,
    value: u32,
) -> (effects: Vec<StageEffect>)
    ensures
        if old(session).spec_stage() == GameStage::Playing {
            &&& final(session).spec_stage() == (GameStage::GhostEatenPause {
                remaining_ticks: GHOST_EATEN_PAUSE_TICKS,
                ghost_entity,
                ghost_type,
                node,
            })
            &&& effects@ == seq![
                StageEffect::FreezePlayer,
                StageEffect::FreezeGhost(ghost_entity),
                StageEffect::FreezeGhostsExceptEyes,
                StageEffect::HidePlayer,
                StageEffect::HideGhost(ghost_entity),
                StageEffect::SpawnBonus { node, value, ttl: GHOST_EATEN_PAUSE_TICKS },
            ]
        } else {
            final(session).spec_stage() == old(session).spec_stage() && effects@ == Seq::<
                StageEffect,
            >::empty()
        },
        final(session).level == old(session).level,
        final(session).score == old(session).score,
        final(session).lives == old(session).lives,
        final(session).pellets == old(session).pellets,
        final(session).intro_played == old(session).intro_played,
        final(session).ghost_eaten_chain == old(session).ghost_eaten_chain,
{
    let mut effects: Vec<StageEffect> = Vec::new();
    match session.stage() {
        GameStage::Playing => {},
        _ => {
            return effects;
        },
    }
    effects.push(StageEffect::FreezePlayer);
    effects.push(StageEffect::FreezeGhost(ghost_entity));
    effects.push(StageEffect::FreezeGhostsExceptEyes);
    effects.push(StageEffect::HidePlayer);
    effects.push(StageEffect::HideGhost(ghost_entity));
    effects.push(StageEffect::SpawnBonus { node, value, ttl: GHOST_EATEN_PAUSE_TICKS });
    session.set_stage(
        GameStage::GhostEatenPause {
            remaining_ticks: GHOST_EATEN_PAUSE_TICKS,
            ghost_entity,
            ghost_type,
            node,
        },
    );
    effects
}

/// Drops any entity id the stage holds before the gameplay scene is torn down:
/// a pending ghost-eaten pause falls back to the opening stage.
pub fn clear_dangling_stage(session: &mut Session)
    ensures
        final(session).spec_stage() == (if old(session).spec_stage() is GhostEatenPause {
            GameStage::spec_initial()
        } else {
            old(session).spec_stage()
        }),
        final(session).lives == old(session).lives,
        final(session).intro_played == old(session).intro_played,
{
    if let GameStage::GhostEatenPause { .. } = session.stage() {
        session.set_stage(GameStage::initial());
    }
}

/// Whether two stages differ only in their countdowns.
pub open spec fn spec_too_similar(a: GameStage, b: GameStage) -> bool {
    match (a, b) {
        (GameStage::Playing, GameStage::Playing) => true,
        (GameStage::GameOver, GameStage::GameOver) => true,
        (GameStage::Starting(x), GameStage::Starting(y)) => spec_same_startup_step(x, y),
        (GameStage::PlayerDying(x), GameStage::PlayerDying(y)) => spec_same_dying_step(x, y),
        (
            GameStage::GhostEatenPause { ghost_entity: e1, ghost_type: t1, node: n1, .. },
            GameStage::GhostEatenPause { ghost_entity: e2, ghost_type: t2, node: n2, .. },
        ) => e1 == e2 && t1 == t2 && n1 == n2,
        _ => false,
    }
}

/// Whether two opening steps are the same step.
pub open spec fn spec_same_startup_step(a: StartupSequence, b: StartupSequence) -> bool {
    (a is TextOnly && b is TextOnly) || (a is CharactersVisible && b is CharactersVisible)
}

/// Whether two death steps are the same step.
pub open spec fn spec_same_dying_step(a: DyingSequence, b: DyingSequence) -> bool {
    (a is Frozen && b is Frozen) || (a is Animating && b is Animating) || (a is Hidden
        && b is Hidden)
}

impl TooSimilar for StartupSequence {
    fn too_similar(&self, other: &Self) -> (r: bool)
        ensures
            r == spec_same_startup_step(*self, *other),
    {
        match (self, other) {
            (StartupSequence::TextOnly { .. }, StartupSequence::TextOnly { .. }) => true,
            (
                StartupSequence::CharactersVisible { .. },
                StartupSequence::CharactersVisible { .. },
            ) => true,
            _ => false,
        }
    }
}

impl TooSimilar for DyingSequence {
    fn too_similar(&self, other: &Self) -> (r: bool)
        ensures
            r == spec_same_dying_step(*self, *other),
    {
        match (self, other) {
            (DyingSequence::Frozen { .. }, DyingSequence::Frozen { .. }) => true,
            (DyingSequence::Animating { .. }, DyingSequence::Animating { .. }) => true,
            (DyingSequence::Hidden { .. }, DyingSequence::Hidden { .. }) => true,
            _ => false,
        }
    }
}

impl TooSimilar for GameStage {
    fn too_similar(&self, other: &Self) -> (r: bool)
        ensures
            r == spec_too_similar(*self, *other),
    {
        match (self, other) {
            (GameStage::Playing, GameStage::Playing) => true,
            (GameStage::GameOver, GameStage::GameOver) => true,
            (GameStage::Starting(x), GameStage::Starting(y)) => x.too_similar(y),
            (GameStage::PlayerDying(x), GameStage::PlayerDying(y)) => x.too_similar(y),
            (
                GameStage::GhostEatenPause { ghost_entity: e1, ghost_type: t1, node: n1, .. },
                GameStage::GhostEatenPause { ghost_entity: e2, ghost_type: t2, node: n2, .. },
            ) => *e1 == *e2 && *t1 == *t2 && *n1 == *n2,
            _ => false,
        }
    }
}

/// The stage after `n` ticks with the lives held fixed (no death sequence ends
/// on the way).
pub open spec fn spec_run(stage: GameStage, lives: u8, death_ticks: u32, n: nat) -> GameStage
    decreases n,
{
    if n == 0 {
        stage
    } else {
        spec_run(spec_next_stage(stage, lives, death_ticks), lives, death_ticks, (n - 1) as nat)
    }
}

proof fn lemma_run_split(stage: GameStage, lives: u8, death_ticks: u32, a: nat, b: nat)
    ensures
        spec_run(stage, lives, death_ticks, a + b) == spec_run(spec_run(stage, lives, death_ticks, a), lives, death_ticks, b),
    decreases a,
{
    if a > 0 {
        lemma_run_split(spec_next_stage(stage, lives, death_ticks), lives, death_ticks, (a - 1) as nat, b);
        assert((a - 1) as nat + b == (a + b - 1) as nat);
    }
}

proof fn lemma_text_countdown(k: u32, lives: u8, death_ticks: u32, n: nat)
    requires
        n <= k,
    ensures
        spec_run(GameStage::Starting(StartupSequence::TextOnly { remaining_ticks: k }), lives, death_ticks, n)
            == GameStage::Starting(StartupSequence::TextOnly { remaining_ticks: (k - n) as u32 }),
    decreases n,
{
    if n > 0 {
        lemma_text_countdown((k - 1) as u32, lives, death_ticks, (n - 1) as nat);
    }
}

proof fn lemma_visible_countdown(k: u32, lives: u8, death_ticks: u32, n: nat)
    requires
        n <= k,
    ensures
        spec_run(GameStage::Starting(StartupSequence::CharactersVisible { remaining_ticks: k }), lives, death_ticks, n)
            == GameStage::Starting(StartupSequence::CharactersVisible { remaining_ticks: (k - n) as u32 }),
    decreases n,
{
    if n > 0 {
        lemma_visible_countdown((k - 1) as u32, lives, death_ticks, (n - 1) as nat);
    }
}

/// The opening of a game lasts `STARTUP_FRAMES + 1` ticks of text only, then
/// `CHARACTERS_VISIBLE_TICKS + 1` ticks with the characters shown; play starts
/// on the tick after, and not before.
pub proof fn lemma_opening_duration(lives: u8, death_ticks: u32)
    ensures
        spec_run(GameStage::spec_initial(), lives, death_ticks, (STARTUP_FRAMES + 1) as nat) == GameStage::Starting(
            StartupSequence::CharactersVisible { remaining_ticks: CHARACTERS_VISIBLE_TICKS },
        ),
        spec_run(
            GameStage::spec_initial(),
            lives,
            death_ticks,
            (STARTUP_FRAMES + CHARACTERS_VISIBLE_TICKS + 2) as nat,
        ) == GameStage::Playing,
        forall|n: nat|
            n < STARTUP_FRAMES + CHARACTERS_VISIBLE_TICKS + 2 ==> spec_run(
                GameStage::spec_initial(),
                lives,
                death_ticks,
                n,
            ) != GameStage::Playing,
{
    let init = GameStage::spec_initial();
    lemma_text_countdown(STARTUP_FRAMES, lives, death_ticks, STARTUP_FRAMES as nat);
    lemma_run_split(init, lives, death_ticks, STARTUP_FRAMES as nat, 1);
    let text0 = GameStage::Starting(StartupSequence::TextOnly { remaining_ticks: 0 });
    let visible = GameStage::Starting(StartupSequence::CharactersVisible { remaining_ticks: CHARACTERS_VISIBLE_TICKS });
    assert(spec_run(visible, lives, death_ticks, 0) == visible);
    assert(spec_run(text0, lives, death_ticks, 1) == spec_run(visible, lives, death_ticks, 0));
    lemma_visible_countdown(CHARACTERS_VISIBLE_TICKS, lives, death_ticks, CHARACTERS_VISIBLE_TICKS as nat);
    lemma_run_split(visible, lives, death_ticks, CHARACTERS_VISIBLE_TICKS as nat, 1);
    let visible0 = GameStage::Starting(StartupSequence::CharactersVisible { remaining_ticks: 0 });
    assert(spec_run(GameStage::Playing, lives, death_ticks, 0) == GameStage::Playing);
    assert(spec_run(visible0, lives, death_ticks, 1) == spec_run(GameStage::Playing, lives, death_ticks, 0));
    lemma_run_split(init, lives, death_ticks, (STARTUP_FRAMES + 1) as nat, (CHARACTERS_VISIBLE_TICKS + 1) as nat);
    assert forall|n: nat| n < STARTUP_FRAMES + CHARACTERS_VISIBLE_TICKS + 2 implies spec_run(
        init,
        lives,
        death_ticks,
        n,
    ) != GameStage::Playing by {
        if n <= STARTUP_FRAMES {
            lemma_text_countdown(STARTUP_FRAMES, lives, death_ticks, n);
        } else {
            let m = (n - STARTUP_FRAMES - 1) as nat;
            lemma_run_split(init, lives, death_ticks, (STARTUP_FRAMES + 1) as nat, m);
            assert((STARTUP_FRAMES + 1) as nat + m == n);
            lemma_visible_countdown(CHARACTERS_VISIBLE_TICKS, lives, death_ticks, m);
        }
    }
}

/// The game ends exactly when the death sequence ends on the last life; a game
/// that is over stays over.
pub proof fn lemma_game_over_iff_last_life(stage: GameStage, lives: u8, death_ticks: u32)
    ensures
        stage != GameStage::GameOver ==> (spec_next_stage(stage, lives, death_ticks) == GameStage::GameOver
            <==> (spec_costs_life(stage) && lives <= 1)),
        spec_next_stage(GameStage::GameOver, lives, death_ticks) == GameStage::GameOver,
        spec_tick_effects(GameStage::GameOver, false, lives, death_ticks) == Seq::<StageEffect>::empty(),
{
    assert(spec_tick_effects(GameStage::GameOver, false, lives, death_ticks) =~= Seq::<StageEffect>::empty());
}

/// A tick takes at most one life, and only the tick that ends the death
/// sequence takes one; lives never grow.
pub proof fn lemma_at_most_one_life_per_tick(stage: GameStage, lives: u8)
    ensures
        ({
            let after = if spec_costs_life(stage) && lives > 0 { (lives - 1) as u8 } else { lives };
            &&& after <= lives
            &&& lives - after <= 1
            &&& (after < lives <==> (spec_costs_life(stage) && lives > 0))
        }),
{
}

/// Live play continues undisturbed: a tick from play stays in play and asks
/// nothing of the world.
pub proof fn lemma_play_is_steady(intro_played: bool, lives: u8, death_ticks: u32)
    ensures
        spec_next_stage(GameStage::Playing, lives, death_ticks) == GameStage::Playing,
        spec_tick_effects(GameStage::Playing, intro_played, lives, death_ticks) == Seq::<StageEffect>::empty(),
{
    assert(spec_tick_effects(GameStage::Playing, intro_played, lives, death_ticks) =~= Seq::<StageEffect>::empty());
}

/// When the pause after eating a ghost ends, play resumes and the world is
/// asked to unfreeze and reveal the actors and to send that very ghost home as
/// eyes.
pub proof fn lemma_eaten_ghost_goes_home(
    remaining_ticks: u32,
    ghost_entity: EntityId,
    ghost_type: GhostType,
    node: NodeId,
    intro_played: bool,
    lives: u8,
    death_ticks: u32,
)
    ensures
        ({
            let s = GameStage::GhostEatenPause { remaining_ticks, ghost_entity, ghost_type, node };
            let effects = spec_tick_effects(s, intro_played, lives, death_ticks);
            &&& (spec_next_stage(s, lives, death_ticks) == GameStage::Playing <==> remaining_ticks == 0)
            &&& (remaining_ticks == 0 ==> effects.contains(StageEffect::GhostReturnsAsEyes(ghost_entity))
                && effects.contains(StageEffect::UnfreezeActors) && effects.contains(StageEffect::RevealActors))
            &&& (remaining_ticks > 0 ==> effects.len() == 0)
        }),
{
    let s = GameStage::GhostEatenPause { remaining_ticks, ghost_entity, ghost_type, node };
    let effects = spec_tick_effects(s, intro_played, lives, death_ticks);
    if remaining_ticks == 0 {
        assert(effects[2] == StageEffect::GhostReturnsAsEyes(ghost_entity));
        assert(effects[0] == StageEffect::UnfreezeActors);
        assert(effects[1] == StageEffect::RevealActors);
    }
}

/// The world effects of the death sequence and of the end: once the frozen
/// moment ends, ghosts vanish and Pac-Man's death plays with its sound; once the
/// animation ends, the board is reset for the next round; when the last life is
/// lost, the energizers stop blinking. The opening plays its jingle on its
/// first tick unless already played.
pub proof fn lemma_death_and_end_effects(intro_played: bool, lives: u8, death_ticks: u32)
    ensures
        ({
            let e = spec_tick_effects(
                GameStage::PlayerDying(DyingSequence::Frozen { remaining_ticks: 0 }),
                intro_played,
                lives,
                death_ticks,
            );
            &&& e.contains(StageEffect::HideGhosts)
            &&& e.contains(StageEffect::StartPlayerDeathAnimation)
            &&& e.contains(StageEffect::PlaySound(Sound::PacmanDeath))
        }),
        ({
            let e = spec_tick_effects(
                GameStage::PlayerDying(DyingSequence::Animating { remaining_ticks: 0 }),
                intro_played,
                lives,
                death_ticks,
            );
            &&& e.contains(StageEffect::ResetPlayerToStart)
            &&& e.contains(StageEffect::ResetGhostsToStart)
            &&& e.contains(StageEffect::DespawnFruit)
        }),
        lives <= 1 ==> spec_tick_effects(
            GameStage::PlayerDying(DyingSequence::Hidden { remaining_ticks: 0 }),
            intro_played,
            lives,
            death_ticks,
        ).contains(StageEffect::FreezeBlinking),
        forall|t: u32|
            #![trigger spec_tick_effects(GameStage::Starting(StartupSequence::TextOnly { remaining_ticks: t }), intro_played, lives, death_ticks)]
            spec_tick_effects(
                GameStage::Starting(StartupSequence::TextOnly { remaining_ticks: t }),
                intro_played,
                lives,
                death_ticks,
            ).contains(StageEffect::PlaySound(Sound::Beginning)) <==> !intro_played,
{
    let e1 = spec_tick_effects(
        GameStage::PlayerDying(DyingSequence::Frozen { remaining_ticks: 0 }),
        intro_played,
        lives,
        death_ticks,
    );
    assert(e1[0] == StageEffect::HideGhosts);
    assert(e1[1] == StageEffect::StartPlayerDeathAnimation);
    assert(e1[2] == StageEffect::PlaySound(Sound::PacmanDeath));
    let e2 = spec_tick_effects(
        GameStage::PlayerDying(DyingSequence::Animating { remaining_ticks: 0 }),
        intro_played,
        lives,
        death_ticks,
    );
    assert(e2[1] == StageEffect::DespawnFruit);
    assert(e2[2] == StageEffect::ResetPlayerToStart);
    assert(e2[3] == StageEffect::ResetGhostsToStart);
    if lives <= 1 {
        let e3 = spec_tick_effects(
            GameStage::PlayerDying(DyingSequence::Hidden { remaining_ticks: 0 }),
            intro_played,
            lives,
            death_ticks,
        );
        assert(e3[0] == StageEffect::FreezeBlinking);
    }
    assert forall|t: u32|
        spec_tick_effects(
            GameStage::Starting(StartupSequence::TextOnly { remaining_ticks: t }),
            intro_played,
            lives,
            death_ticks,
        ).contains(StageEffect::PlaySound(Sound::Beginning)) <==> !intro_played by {
        let s = GameStage::Starting(StartupSequence::TextOnly { remaining_ticks: t });
        let e = spec_tick_effects(s, intro_played, lives, death_ticks);
        if !intro_played {
            assert(e[0] == StageEffect::PlaySound(Sound::Beginning));
        } else {
            let n = spec_next_stage(s, lives, death_ticks);
            if e.contains(StageEffect::PlaySound(Sound::Beginning)) {
                let j = choose|j: int| 0 <= j < e.len() && e[j] == StageEffect::PlaySound(Sound::Beginning);
                assert(e == (if n != s { spec_on_enter(n, s) } else { Seq::<StageEffect>::empty() }));
            }
        }
    }
}

} // verus!
