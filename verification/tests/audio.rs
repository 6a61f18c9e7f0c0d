use pacman::audio::{all_sounds, audio_system, Audio, AudioEvent, MixerCommand, Sound, DEFAULT_VOLUME};

#[test]
fn all_sounds_lists_effects_then_wakas() {
    let s = all_sounds();
    assert_eq!(s.len(), 10);
    assert_eq!(s[0], Sound::PacmanDeath);
    assert_eq!(s[6], Sound::Waka(0));
    assert_eq!(s[9], Sound::Waka(3));
}

#[test]
fn waka_cycles_through_four_variants() {
    let mut a = Audio::from_loaded(all_sounds());
    let mut played = Vec::new();
    for _ in 0..5 {
        played.push(a.waka());
    }
    assert_eq!(
        played,
        vec![
            Some(MixerCommand::Play(Sound::Waka(0))),
            Some(MixerCommand::Play(Sound::Waka(1))),
            Some(MixerCommand::Play(Sound::Waka(2))),
            Some(MixerCommand::Play(Sound::Waka(3))),
            Some(MixerCommand::Play(Sound::Waka(0))),
        ]
    );
}

#[test]
fn mute_round_trip_restores_volume() {
    let mut a = Audio::from_loaded(vec![Sound::Fruit]);
    assert_eq!(a.set_mute(true), Some(MixerCommand::SetVolume(0)));
    assert!(a.is_muted());
    assert_eq!(a.play(Sound::Fruit), None);
    assert_eq!(a.set_mute(true), None);
    assert_eq!(a.set_mute(false), Some(MixerCommand::SetVolume(DEFAULT_VOLUME)));
    assert!(!a.status().muted && a.status().available && a.status().volume == DEFAULT_VOLUME);
    assert_eq!(a.play(Sound::Fruit), Some(MixerCommand::Play(Sound::Fruit)));
    assert_eq!(a.play(Sound::ExtraLife), None);
}

#[test]
fn nothing_loaded_means_disabled() {
    let mut a = Audio::from_loaded(Vec::new());
    assert!(a.is_disabled());
    assert_eq!(a.waka(), None);
    assert_eq!(a.stop_all(), None);
    // The preference is remembered though nothing reaches the mixer.
    assert_eq!(a.set_mute(true), None);
    assert!(a.is_muted());
    assert_eq!(a.set_mute(false), None);
    assert!(!a.is_muted());
    let mut d = Audio::disabled();
    assert!(d.is_disabled());
    assert_eq!(audio_system(&mut d, &vec![AudioEvent::ToggleMute, AudioEvent::Waka]), vec![]);
    assert!(d.is_muted());
}

#[test]
fn audio_system_applies_events_in_order() {
    let mut a = Audio::from_loaded(all_sounds());
    let cmds = audio_system(
        &mut a,
        &vec![AudioEvent::Waka, AudioEvent::Pause, AudioEvent::ToggleMute, AudioEvent::Waka, AudioEvent::ToggleMute, AudioEvent::StopAll],
    );
    assert_eq!(
        cmds,
        vec![
            MixerCommand::Play(Sound::Waka(0)),
            MixerCommand::PauseAll,
            MixerCommand::SetVolume(0),
            MixerCommand::SetVolume(DEFAULT_VOLUME),
            MixerCommand::HaltAll,
        ]
    );
    assert_eq!(a.status().next_waka, 1);
}
