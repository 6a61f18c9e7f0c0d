//! Pausing and single-stepping.

use vstd::prelude::*;

use crate::audio::AudioEvent;
use crate::events::{GameCommand, GameEvent};

verus! {

/// Whether the game is paused, and for how many more ticks (`None`: until resumed).
#[derive(Debug, PartialEq, Eq, Clone, Copy, Structural)]
pub enum PauseState {
    Inactive,
    Active { remaining_ticks: Option<u32> },
}

impl Default for PauseState {
    fn default() -> (r: Self)
        ensures
            r == PauseState::Inactive,
    {
        PauseState::Inactive
    }
}

/// Whether the simulation is held: paused for good, or with ticks left.
pub open spec fn spec_active(s: PauseState) -> bool {
    match s {
        PauseState::Inactive => false,
        PauseState::Active { remaining_ticks: None } => true,
        PauseState::Active { remaining_ticks: Some(t) } => t >= 1,
    }
}

/// The pause state after one tick (a timed pause never holds zero ticks).
pub open spec fn spec_pause_tick(s: PauseState) -> PauseState {
    match s {
        PauseState::Active { remaining_ticks: Some(t) } => if t <= 1 {
            PauseState::Inactive
        } else {
            PauseState::Active { remaining_ticks: Some((t - 1) as u32) }
        },
        _ => s,
    }
}

/// The pause state and audio requests after handling `events` in order. A
/// single-step request while paused for good stops the handling of the frame.
pub open spec fn spec_pause_commands(s: PauseState, events: Seq<GameEvent>) -> (
    PauseState,
    Seq<AudioEvent>,
)
    decreases events.len(),
{
    if events.len() == 0 {
        (s, seq![])
    } else {
        let rest = events.drop_first();
        match events[0] {
            GameEvent::Command(GameCommand::TogglePause) => {
                let (next, sound) = match s {
                    PauseState::Active { .. } => (PauseState::Inactive, AudioEvent::Resume),
                    PauseState::Inactive => (
                        PauseState::Active { remaining_ticks: None },
                        AudioEvent::Pause,
                    ),
                };
                let (last, sounds) = spec_pause_commands(next, rest);
                (last, seq![sound] + sounds)
            },
            GameEvent::Command(GameCommand::SingleTick) => {
                if s == (PauseState::Active { remaining_ticks: None }) {
                    (s, seq![])
                } else {
                    let (last, sounds) = spec_pause_commands(
                        PauseState::Active { remaining_ticks: Some(1) },
                        rest,
                    );
                    (last, seq![AudioEvent::Resume] + sounds)
                }
            },
            _ => spec_pause_commands(s, rest),
        }
    }
}

impl PauseState {
    /// Whether the simulation is held this tick.
    pub fn active(&self) -> (r: bool)
        ensures
            r == spec_active(*self),
    {
        match self {
            PauseState::Inactive => false,
            PauseState::Active { remaining_ticks: None } => true,
            PauseState::Active { remaining_ticks: Some(t) } => *t >= 1,
        }
    }

    /// Counts down a timed pause. Returns true when the last tick of a timed
    /// pause ran out and the game became unpaused.
    pub fn tick(&mut self) -> (changed: bool)
        requires
            *old(self) != (PauseState::Active { remaining_ticks: Some(0) }),
        ensures
            *final(self) == spec_pause_tick(*old(self)),
            changed == (*old(self) == PauseState::Active { remaining_ticks: Some(1) }),
    {
        match *self {
            PauseState::Active { remaining_ticks: Some(t) } => {
                if t == 1 {
                    *self = PauseState::Inactive;
                    true
                } else {
                    *self = PauseState::Active { remaining_ticks: Some(t - 1) };
                    false
                }
            },
            _ => false,
        }
    }
}

/// Applies a frame's pause and single-step commands in order, returning the audio
/// requests they raise. Toggling pauses for good (and asks audio to pause) or
/// unpauses (and asks it to resume); single-stepping grants one tick unless the
/// game is paused for good, which ends the frame's handling.
pub fn handle_pause_command(state: &mut PauseState, events: &Vec<GameEvent>) -> (audio: Vec<
    AudioEvent,
>)
    ensures
        (*final(state), audio@) == spec_pause_commands(*old(state), events@),
{
    let mut audio: Vec<AudioEvent> = Vec::new();
    let mut i: usize = 0;
    proof {
        assert(events@.skip(0) =~= events@);
        let (last, sounds) = spec_pause_commands(*state, events@);
        assert(audio@ + sounds =~= sounds);
    }
    while i < events.len()
        invariant
            0 <= i <= events.len(),
            spec_pause_commands(*old(state), events@) == ({
                let (last, sounds) = spec_pause_commands(*state, events@.skip(i as int));
                (last, audio@ + sounds)
            }),
        decreases events.len() - i,
    {
        proof {
            assert(events@.skip(i as int).drop_first() =~= events@.skip(i + 1));
        }
        match events[i] {
            GameEvent::Command(GameCommand::TogglePause) => {
                match *state {
                    PauseState::Active { .. } => {
                        *state = PauseState::Inactive;
                        audio.push(AudioEvent::Resume);
                    },
                    PauseState::Inactive => {
                        *state = PauseState::Active { remaining_ticks: None };
                        audio.push(AudioEvent::Pause);
                    },
                }
            },
            GameEvent::Command(GameCommand::SingleTick) => {
                if let PauseState::Active { remaining_ticks: None } = *state {
                    proof {
                        assert(audio@ + Seq::<AudioEvent>::empty() =~= audio@);
                    }
                    return audio;
                }
                *state = PauseState::Active { remaining_ticks: Some(1) };
                audio.push(AudioEvent::Resume);
            },
            _ => {},
        }
        proof {
            assert forall|a: Seq<AudioEvent>, b: AudioEvent, c: Seq<AudioEvent>|
                #![trigger (a.push(b) + c)]
                a.push(b) + c =~= a + (seq![b] + c) by {}
        }
        i = i + 1;
    }
    proof {
        assert(events@.skip(i as int) =~= Seq::<GameEvent>::empty());
        assert(audio@ + Seq::<AudioEvent>::empty() =~= audio@);
    }
    audio
}

/// Counts a timed pause down; when it ends, audio is asked to pause again (the
/// single step is over).
pub fn manage_pause_state_system(state: &mut PauseState) -> (audio: Option<AudioEvent>)
    requires
        *old(state) != (PauseState::Active { remaining_ticks: Some(0) }),
    ensures
        *final(state) == spec_pause_tick(*old(state)),
        audio == (if *old(state) == (PauseState::Active { remaining_ticks: Some(1) }) {
            Some(AudioEvent::Pause)
        } else {
            None
        }),
{
    if state.tick() {
        Some(AudioEvent::Pause)
    } else {
        None
    }
}

/// A timed pause of one tick lets exactly one tick run, then the game is unpaused.
pub proof fn lemma_single_step_runs_once()
    ensures
        spec_active(PauseState::Active { remaining_ticks: Some(1) }),
        spec_pause_tick(PauseState::Active { remaining_ticks: Some(1) }) == PauseState::Inactive,
        !spec_active(PauseState::Inactive),
{
}

/// Toggling pause twice in one frame returns to the starting state, asking audio to
/// pause then resume (or resume then pause).
pub proof fn lemma_toggle_twice_restores(s: PauseState)
    requires
        s == PauseState::Inactive || s == (PauseState::Active { remaining_ticks: None }),
    ensures
        spec_pause_commands(
            s,
            seq![
                GameEvent::Command(GameCommand::TogglePause),
                GameEvent::Command(GameCommand::TogglePause),
            ],
        ).0 == s,
{
    let evs = seq![
        GameEvent::Command(GameCommand::TogglePause),
        GameEvent::Command(GameCommand::TogglePause),
    ];
    assert(evs.drop_first().drop_first() =~= Seq::<GameEvent>::empty());
    reveal_with_fuel(spec_pause_commands, 3);
}

/// A timed pause never holds zero ticks: neither commands nor ticks lead there
/// from a state that does not.
pub proof fn lemma_no_empty_timed_pause(s: PauseState, events: Seq<GameEvent>)
    requires
        s != (PauseState::Active { remaining_ticks: Some(0) }),
    ensures
        spec_pause_commands(s, events).0 != (PauseState::Active { remaining_ticks: Some(0) }),
        spec_pause_tick(s) != (PauseState::Active { remaining_ticks: Some(0) }),
    decreases events.len(),
{
    if events.len() > 0 {
        let rest = events.drop_first();
        match events[0] {
            GameEvent::Command(GameCommand::TogglePause) => {
                let next = match s {
                    PauseState::Active { .. } => PauseState::Inactive,
                    PauseState::Inactive => PauseState::Active { remaining_ticks: None },
                };
                lemma_no_empty_timed_pause(next, rest);
            },
            GameEvent::Command(GameCommand::SingleTick) => {
                if s != (PauseState::Active { remaining_ticks: None }) {
                    lemma_no_empty_timed_pause(PauseState::Active { remaining_ticks: Some(1) }, rest);
                }
            },
            _ => {
                lemma_no_empty_timed_pause(s, rest);
            },
        }
    }
}

/// The pause state after `k` ticks.
pub open spec fn spec_pause_ticks(s: PauseState, k: nat) -> PauseState
    decreases k,
{
    if k == 0 {
        s
    } else {
        spec_pause_tick(spec_pause_ticks(s, (k - 1) as nat))
    }
}

/// A timed pause of `n` ticks holds the game for exactly `n` ticks: after `k`
/// of them (`k < n`) it is still active with `n - k` left and the tick reported
/// no change; the `n`-th tick (the only one starting from one tick left)
/// unpauses, and later ticks leave the game unpaused.
pub proof fn lemma_timed_pause_runs_out(n: u32, k: nat)
    requires
        n >= 1,
    ensures
        ({
            let s = PauseState::Active { remaining_ticks: Some(n) };
            &&& (k < n ==> spec_pause_ticks(s, k) == PauseState::Active { remaining_ticks: Some((n - k) as u32) }
                && spec_active(spec_pause_ticks(s, k)))
            &&& (1 <= k <= n ==> ((spec_pause_ticks(s, (k - 1) as nat) == PauseState::Active {
                remaining_ticks: Some(1),
            }) <==> k == n))
            &&& (k >= n ==> spec_pause_ticks(s, k) == PauseState::Inactive)
        }),
    decreases k,
{
    if k > 0 {
        lemma_timed_pause_runs_out(n, (k - 1) as nat);
    }
}

} // verus!
