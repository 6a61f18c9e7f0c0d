//! Sound identities and the audio state machine (enabled, muted, disabled,
//! and the cycling of the four eating sounds).

use vstd::prelude::*;

verus! {

/// Number of eating ("waka") sound variants.
pub const WAKA_SOUND_COUNT: u8 = 4;

/// Channel volume of enabled audio.
pub const DEFAULT_VOLUME: u8 = 32;

/// A sound effect.
#[derive(Debug, Clone, Copy, PartialEq, Eq, Hash, Structural)]
pub enum Sound {
    Waka(u8),
    PacmanDeath,
    ExtraLife,
    Fruit,
    EatGhost,
    Beginning,
    Intermission,
}

/// An audio request raised by the game rules.
#[derive(Debug, Clone, Copy, PartialEq, Eq, Structural)]
pub enum AudioEvent {
    /// Play a specific sound effect.
    PlaySound(Sound),
    /// Play the next eating sound of the cycle.
    Waka,
    /// Stop everything that plays.
    StopAll,
    /// Pause everything that plays.
    Pause,
    /// Resume paused sounds.
    Resume,
    /// Toggle mute.
    ToggleMute,
}

/// Every sound the game loads: the effects, then the eating variants in order.
pub open spec fn spec_all_sounds() -> Seq<Sound> {
    seq![
        Sound::PacmanDeath,
        Sound::ExtraLife,
        Sound::Fruit,
        Sound::EatGhost,
        Sound::Beginning,
        Sound::Intermission,
        Sound::Waka(0),
        Sound::Waka(1),
        Sound::Waka(2),
        Sound::Waka(3),
    ]
}

/// Every sound the game loads: the effects, then the eating variants in order.
pub fn all_sounds() -> (r: Vec<Sound>)
    ensures
        r@ == spec_all_sounds(),
{
    let mut sounds = vec![
        Sound::PacmanDeath,
        Sound::ExtraLife,
        Sound::Fruit,
        Sound::EatGhost,
        Sound::Beginning,
        Sound::Intermission,
    ];
    let mut i: u8 = 0;
    while i < WAKA_SOUND_COUNT
        invariant
            0 <= i <= WAKA_SOUND_COUNT,
            sounds@ == spec_all_sounds().subrange(0, 6 + i),
        decreases WAKA_SOUND_COUNT - i,
    {
        sounds.push(Sound::Waka(i));
        proof {
            assert(sounds@ =~= spec_all_sounds().subrange(0, 6 + i + 1));
        }
        i = i + 1;
    }
    proof {
        assert(spec_all_sounds().subrange(0, 10) =~= spec_all_sounds());
    }
    sounds
}

/// An operation on the mixer, over all its channels.
#[derive(Debug, Clone, Copy, PartialEq, Eq, Structural)]
pub enum MixerCommand {
    /// Play a sound once on a free channel.
    Play(Sound),
    /// Halt every channel.
    HaltAll,
    /// Pause every channel.
    PauseAll,
    /// Resume every channel.
    ResumeAll,
    /// Set the volume of every channel.
    SetVolume(u8),
}

/// The audio controller's state. Whether the mixer works and whether the user
/// muted it are kept apart: the mute preference is remembered even while audio
/// is disabled.
#[derive(Debug, Clone, Copy, PartialEq, Eq, Structural)]
pub struct AudioStatus {
    /// The device opened and some sound loaded.
    pub available: bool,
    /// The user's mute preference.
    pub muted: bool,
    /// Channel volume while not muted.
    pub volume: u8,
    /// The eating sound that comes next.
    pub next_waka: u8,
}

/// Whether sounds are played: audio works and is not muted.
pub open spec fn spec_audible(st: AudioStatus) -> bool {
    st.available && !st.muted
}

/// One audio request applied to a status, with the sounds that loaded: the new
/// status and the mixer operations it takes.
pub open spec fn spec_audio_step(loaded: Seq<Sound>, st: AudioStatus, e: AudioEvent) -> (AudioStatus, Seq<MixerCommand>) {
    match e {
        AudioEvent::Waka => if spec_audible(st) {
            (
                AudioStatus { next_waka: ((st.next_waka + 1) % (WAKA_SOUND_COUNT as int)) as u8, ..st },
                if loaded.contains(Sound::Waka(st.next_waka)) {
                    seq![MixerCommand::Play(Sound::Waka(st.next_waka))]
                } else {
                    seq![]
                },
            )
        } else {
            (st, seq![])
        },
        AudioEvent::PlaySound(sound) => (
            st,
            if spec_audible(st) && loaded.contains(sound) {
                seq![MixerCommand::Play(sound)]
            } else {
                seq![]
            },
        ),
        AudioEvent::StopAll => (st, if st.available { seq![MixerCommand::HaltAll] } else { seq![] }),
        AudioEvent::Pause => (st, if st.available { seq![MixerCommand::PauseAll] } else { seq![] }),
        AudioEvent::Resume => (st, if st.available { seq![MixerCommand::ResumeAll] } else { seq![] }),
        AudioEvent::ToggleMute => spec_set_mute(st, !st.muted),
    }
}

/// Setting the mute preference: a change is remembered whether or not audio
/// works; where it works, muting silences the channels and unmuting restores
/// the volume. Setting the preference it already has changes nothing.
pub open spec fn spec_set_mute(st: AudioStatus, mute: bool) -> (AudioStatus, Seq<MixerCommand>) {
    if mute == st.muted {
        (st, seq![])
    } else {
        (
            AudioStatus { muted: mute, ..st },
            if st.available {
                seq![MixerCommand::SetVolume(if mute { 0u8 } else { st.volume })]
            } else {
                seq![]
            },
        )
    }
}

/// A frame of audio requests applied in order.
pub open spec fn spec_audio_events(loaded: Seq<Sound>, st: AudioStatus, es: Seq<AudioEvent>) -> (AudioStatus, Seq<MixerCommand>)
    decreases es.len(),
{
    if es.len() == 0 {
        (st, seq![])
    } else {
        let (mid, first) = spec_audio_events(loaded, st, es.drop_last());
        let (last, more) = spec_audio_step(loaded, mid, es.last());
        (last, first + more)
    }
}

/// The operations held by an optional one.
pub open spec fn spec_cmds(c: Option<MixerCommand>) -> Seq<MixerCommand> {
    match c {
        Some(x) => seq![x],
        None => seq![],
    }
}

/// The audio controller: decides what the mixer does. Holds which sounds
/// loaded, the mute preference and the eating-sound cycle.
pub struct Audio {
    loaded: Vec<Sound>,
    status: AudioStatus,
}

impl Audio {
    /// The sounds that loaded.
    pub closed spec fn spec_loaded(self) -> Seq<Sound> {
        self.loaded@
    }

    /// The controller's status.
    pub closed spec fn spec_status(self) -> AudioStatus {
        self.status
    }

    #[verifier::type_invariant]
    spec fn inv(self) -> bool {
        self.status.next_waka < WAKA_SOUND_COUNT
    }

    /// A controller for audio that could not start: nothing ever plays, not
    /// muted.
    pub fn disabled() -> (r: Self)
        ensures
            r.spec_loaded() == Seq::<Sound>::empty(),
            r.spec_status() == (AudioStatus { available: false, muted: false, volume: DEFAULT_VOLUME, next_waka: 0 }),
    {
        Audio {
            loaded: Vec::new(),
            status: AudioStatus { available: false, muted: false, volume: DEFAULT_VOLUME, next_waka: 0 },
        }
    }

    /// A controller over the sounds that loaded, at the default volume and not
    /// muted: available unless none loaded.
    pub fn from_loaded(loaded: Vec<Sound>) -> (r: Self)
        ensures
            r.spec_loaded() == loaded@,
            r.spec_status() == (AudioStatus {
                available: loaded@.len() > 0,
                muted: false,
                volume: DEFAULT_VOLUME,
                next_waka: 0,
            }),
    {
        let available = loaded.len() > 0;
        Audio { loaded, status: AudioStatus { available, muted: false, volume: DEFAULT_VOLUME, next_waka: 0 } }
    }

    /// The controller's status.
    pub fn status(&self) -> (r: AudioStatus)
        ensures
            r == self.spec_status(),
            r.next_waka < WAKA_SOUND_COUNT,
    {
        proof {
            use_type_invariant(self);
        }
        self.status
    }

    fn is_loaded(&self, sound: Sound) -> (r: bool)
        ensures
            r == self.spec_loaded().contains(sound),
    {
        let mut i: usize = 0;
        while i < self.loaded.len()
            invariant
                0 <= i <= self.loaded.len(),
                forall|j: int| 0 <= j < i ==> self.loaded@[j] != sound,
            decreases self.loaded.len() - i,
        {
            if self.loaded[i] == sound {
                return true;
            }
            i = i + 1;
        }
        false
    }

    /// Plays the next of the four eating sounds, then moves the cycle on; does
    /// nothing while disabled or muted.
    pub fn waka(&mut self) -> (r: Option<MixerCommand>)
        ensures
            final(self).spec_loaded() == old(self).spec_loaded(),
            (final(self).spec_status(), spec_cmds(r)) == spec_audio_step(
                old(self).spec_loaded(),
                old(self).spec_status(),
                AudioEvent::Waka,
            ),
    {
        proof {
            use_type_invariant(&*self);
        }
        if !self.status.available || self.status.muted {
            return None;
        }
        let idx = self.status.next_waka;
        let r = if self.is_loaded(Sound::Waka(idx)) {
            Some(MixerCommand::Play(Sound::Waka(idx)))
        } else {
            None
        };
        self.status = AudioStatus { next_waka: (idx + 1) % WAKA_SOUND_COUNT, ..self.status };
        proof {
            assert(spec_cmds(r) =~= spec_audio_step(old(self).spec_loaded(), old(self).spec_status(), AudioEvent::Waka).1);
        }
        r
    }

    /// Plays a sound once, if audible and the sound loaded.
    pub fn play(&self, sound: Sound) -> (r: Option<MixerCommand>)
        ensures
            (self.spec_status(), spec_cmds(r)) == spec_audio_step(
                self.spec_loaded(),
                self.spec_status(),
                AudioEvent::PlaySound(sound),
            ),
    {
        let r = if self.status.available && !self.status.muted && self.is_loaded(sound) {
            Some(MixerCommand::Play(sound))
        } else {
            None
        };
        proof {
            assert(spec_cmds(r) =~= spec_audio_step(self.spec_loaded(), self.spec_status(), AudioEvent::PlaySound(sound)).1);
        }
        r
    }

    /// Halts every channel, unless disabled.
    pub fn stop_all(&self) -> (r: Option<MixerCommand>)
        ensures
            r == (if self.spec_status().available { Some(MixerCommand::HaltAll) } else { None }),
    {
        if self.status.available { Some(MixerCommand::HaltAll) } else { None }
    }

    /// Pauses every channel, unless disabled.
    pub fn pause_all(&self) -> (r: Option<MixerCommand>)
        ensures
            r == (if self.spec_status().available { Some(MixerCommand::PauseAll) } else { None }),
    {
        if self.status.available { Some(MixerCommand::PauseAll) } else { None }
    }

    /// Resumes every channel, unless disabled.
    pub fn resume_all(&self) -> (r: Option<MixerCommand>)
        ensures
            r == (if self.spec_status().available { Some(MixerCommand::ResumeAll) } else { None }),
    {
        if self.status.available { Some(MixerCommand::ResumeAll) } else { None }
    }

    /// Mutes or unmutes. The preference is kept even while audio is disabled;
    /// where audio works, the channel volume follows it.
    pub fn set_mute(&mut self, mute: bool) -> (r: Option<MixerCommand>)
        ensures
            final(self).spec_loaded() == old(self).spec_loaded(),
            (final(self).spec_status(), spec_cmds(r)) == spec_set_mute(old(self).spec_status(), mute),
    {
        proof {
            use_type_invariant(&*self);
        }
        if mute == self.status.muted {
            return None;
        }
        self.status = AudioStatus { muted: mute, ..self.status };
        let r = if self.status.available {
            Some(MixerCommand::SetVolume(if mute { 0 } else { self.status.volume }))
        } else {
            None
        };
        proof {
            assert(spec_cmds(r) =~= spec_set_mute(old(self).spec_status(), mute).1);
        }
        r
    }

    /// Whether the user muted audio (a preference kept even when audio is
    /// disabled).
    pub fn is_muted(&self) -> (r: bool)
        ensures
            r == self.spec_status().muted,
    {
        self.status.muted
    }

    /// Whether audio failed to start.
    pub fn is_disabled(&self) -> (r: bool)
        ensures
            r == !self.spec_status().available,
    {
        !self.status.available
    }
}

/// Applies a frame of audio requests in order and returns the mixer operations
/// they take.
pub fn audio_system(audio: &mut Audio, events: &Vec<AudioEvent>) -> (cmds: Vec<MixerCommand>)
    ensures
        final(audio).spec_loaded() == old(audio).spec_loaded(),
        (final(audio).spec_status(), cmds@) == spec_audio_events(
            old(audio).spec_loaded(),
            old(audio).spec_status(),
            events@,
        ),
{
    let mut cmds: Vec<MixerCommand> = Vec::new();
    let mut i: usize = 0;
    while i < events.len()
        invariant
            0 <= i <= events.len(),
            audio.spec_loaded() == old(audio).spec_loaded(),
            (audio.spec_status(), cmds@) == spec_audio_events(
                old(audio).spec_loaded(),
                old(audio).spec_status(),
                events@.subrange(0, i as int),
            ),
        decreases events.len() - i,
    {
        proof {
            assert(events@.subrange(0, i + 1).drop_last() =~= events@.subrange(0, i as int));
        }
        let ghost before = cmds@;
        let r = match events[i] {
            AudioEvent::Waka => audio.waka(),
            AudioEvent::PlaySound(sound) => audio.play(sound),
            AudioEvent::StopAll => audio.stop_all(),
            AudioEvent::Pause => audio.pause_all(),
            AudioEvent::Resume => audio.resume_all(),
            AudioEvent::ToggleMute => {
                let muted = !audio.is_muted();
                audio.set_mute(muted)
            },
        };
        if let Some(c) = r {
            cmds.push(c);
        }
        proof {
            assert(cmds@ =~= before + spec_cmds(r));
        }
        i = i + 1;
    }
    proof {
        assert(events@.subrange(0, events.len() as int) =~= events@);
    }
    cmds
}

/// Muting and then unmuting restores the controller, whether or not audio
/// works; where it works, the channels go silent and then back to the volume.
pub proof fn lemma_mute_roundtrip(st: AudioStatus)
    requires
        !st.muted,
    ensures
        spec_set_mute(st, true).0.muted,
        spec_set_mute(spec_set_mute(st, true).0, false).0 == st,
        st.available ==> spec_set_mute(st, true).1 == seq![MixerCommand::SetVolume(0)],
        st.available ==> spec_set_mute(spec_set_mute(st, true).0, false).1 == seq![MixerCommand::SetVolume(st.volume)],
{
}

/// Four eating sounds bring the cycle back to where it was.
pub proof fn lemma_waka_cycle(loaded: Seq<Sound>, st: AudioStatus)
    requires
        st.next_waka < WAKA_SOUND_COUNT,
    ensures
        ({
            let s1 = spec_audio_step(loaded, st, AudioEvent::Waka).0;
            let s2 = spec_audio_step(loaded, s1, AudioEvent::Waka).0;
            let s3 = spec_audio_step(loaded, s2, AudioEvent::Waka).0;
            spec_audio_step(loaded, s3, AudioEvent::Waka).0 == st
        }),
{
}

/// A disabled controller never drives the mixer, and changes nothing but the
/// mute preference, which it remembers.
pub proof fn lemma_disabled_is_silent(loaded: Seq<Sound>, st: AudioStatus, e: AudioEvent)
    requires
        !st.available,
    ensures
        spec_audio_step(loaded, st, e).1 == Seq::<MixerCommand>::empty(),
        spec_audio_step(loaded, st, e).0 == (AudioStatus { muted: spec_audio_step(loaded, st, e).0.muted, ..st }),
        e == AudioEvent::ToggleMute ==> spec_audio_step(loaded, st, e).0.muted == !st.muted,
{
    assert(spec_audio_step(loaded, st, e).1 =~= Seq::<MixerCommand>::empty());
}

} // verus!
