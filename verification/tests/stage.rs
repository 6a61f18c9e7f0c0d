use pacman::audio::Sound;
use pacman::constants::{CHARACTERS_VISIBLE_TICKS, DEATH_HIDDEN_TICKS, STARTUP_FRAMES};
use pacman::state::session::Session;
use pacman::state::stage::{stage_system, DyingSequence, GameStage, StageEffect, StartupSequence};

#[test]
fn opening_lasts_its_two_countdowns() {
    let mut s = Session::new(1);
    let mut ticks = 0u32;
    while s.stage() != GameStage::Playing {
        stage_system(&mut s, 10);
        ticks += 1;
        assert!(ticks < 10_000);
    }
    assert_eq!(ticks, STARTUP_FRAMES + CHARACTERS_VISIBLE_TICKS + 2);
}

#[test]
fn opening_jingle_plays_once() {
    let mut s = Session::new(1);
    let first = stage_system(&mut s, 10);
    assert_eq!(first, vec![StageEffect::PlaySound(Sound::Beginning)]);
    let second = stage_system(&mut s, 10);
    assert!(second.is_empty());
}

#[test]
fn death_on_last_life_ends_the_game() {
    let mut s = Session::new(1);
    s.lives.lose_life();
    s.lives.lose_life();
    assert_eq!(s.lives.remaining(), 1);
    s.set_stage(GameStage::PlayerDying(DyingSequence::Hidden { remaining_ticks: 0 }));
    let effects = stage_system(&mut s, 10);
    assert_eq!(s.stage(), GameStage::GameOver);
    assert_eq!(s.lives.remaining(), 0);
    assert_eq!(effects, vec![StageEffect::FreezeBlinking]);
}

#[test]
fn death_with_lives_left_restarts_the_round() {
    let mut s = Session::new(1);
    s.set_stage(GameStage::PlayerDying(DyingSequence::Hidden { remaining_ticks: 0 }));
    stage_system(&mut s, 10);
    assert_eq!(s.lives.remaining(), 2);
    assert_eq!(
        s.stage(),
        GameStage::Starting(StartupSequence::CharactersVisible { remaining_ticks: CHARACTERS_VISIBLE_TICKS })
    );
}

#[test]
fn death_animation_leads_to_hidden_board() {
    let mut s = Session::new(1);
    s.set_stage(GameStage::PlayerDying(DyingSequence::Animating { remaining_ticks: 0 }));
    let effects = stage_system(&mut s, 10);
    assert_eq!(s.stage(), GameStage::PlayerDying(DyingSequence::Hidden { remaining_ticks: DEATH_HIDDEN_TICKS }));
    assert_eq!(
        effects,
        vec![
            StageEffect::FreezeBlinkingVisible,
            StageEffect::DespawnFruit,
            StageEffect::ResetPlayerToStart,
            StageEffect::ResetGhostsToStart
        ]
    );
}

#[test]
fn game_over_is_final() {
    let mut s = Session::new(1);
    s.set_stage(GameStage::GameOver);
    let effects = stage_system(&mut s, 10);
    assert_eq!(s.stage(), GameStage::GameOver);
    assert!(effects.is_empty());
}

#[test]
fn frozen_death_starts_the_animation() {
    let mut s = Session::new(1);
    s.set_stage(GameStage::PlayerDying(DyingSequence::Frozen { remaining_ticks: 0 }));
    let effects = stage_system(&mut s, 42);
    assert_eq!(s.stage(), GameStage::PlayerDying(DyingSequence::Animating { remaining_ticks: 42 }));
    assert_eq!(
        effects,
        vec![StageEffect::HideGhosts, StageEffect::StartPlayerDeathAnimation, StageEffect::PlaySound(Sound::PacmanDeath)]
    );
}
