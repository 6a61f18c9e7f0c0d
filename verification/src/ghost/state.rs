//! Per-ghost state machine: in the house, leaving it, active (possibly
//! frightened), eyes heading home, reviving.

use vstd::prelude::*;

verus! {

/// Where in the house a ghost waits.
#[derive(Debug, Clone, Copy, PartialEq, Eq, Structural)]
pub enum HousePosition {
    Left,
    Center,
    Right,
}

/// Which way a waiting ghost bobs.
#[derive(Debug, Clone, Copy, PartialEq, Eq, Structural)]
pub enum BounceDirection {
    Up,
    Down,
}

/// The countdowns of a frightened ghost.
#[derive(Debug, Clone, Copy, PartialEq, Eq, Structural)]
pub struct FrightenedData {
    /// Ticks until the fright ends.
    pub remaining_ticks: u32,
    /// Whether the ghost flashes (fright about to end).
    pub flashing: bool,
    /// Ticks until flashing starts.
    pub flash_timer: u32,
}

/// The fright countdowns after one tick, and whether the fright ended.
pub open spec fn spec_fright_tick(f: FrightenedData) -> (FrightenedData, bool) {
    if f.remaining_ticks == 0 {
        (f, true)
    } else if f.flash_timer > 0 {
        (
            FrightenedData {
                remaining_ticks: (f.remaining_ticks - 1) as u32,
                flashing: f.flashing || f.flash_timer == 1,
                flash_timer: (f.flash_timer - 1) as u32,
            },
            false,
        )
    } else {
        (FrightenedData { remaining_ticks: (f.remaining_ticks - 1) as u32, ..f }, false)
    }
}

impl FrightenedData {
    /// A fright of `total_ticks` that starts flashing after `flash_start_ticks`.
    pub fn new(total_ticks: u32, flash_start_ticks: u32) -> (r: Self)
        ensures
            r == (FrightenedData {
                remaining_ticks: total_ticks,
                flashing: false,
                flash_timer: flash_start_ticks,
            }),
    {
        FrightenedData { remaining_ticks: total_ticks, flashing: false, flash_timer: flash_start_ticks }
    }

    /// Counts the fright down one tick; returns true when it had already run out.
    /// Flashing starts when the flash timer reaches zero.
    pub fn tick(&mut self) -> (ended: bool)
        ensures
            (*final(self), ended) == spec_fright_tick(*old(self)),
    {
        if self.remaining_ticks == 0 {
            return true;
        }
        self.remaining_ticks = self.remaining_ticks - 1;
        if self.flash_timer > 0 {
            self.flash_timer = self.flash_timer - 1;
            if self.flash_timer == 0 {
                self.flashing = true;
            }
        }
        false
    }
}

/// Per-ghost state.
#[derive(Debug, Clone, Copy, PartialEq, Eq, Structural)]
pub enum GhostState {
    /// Waiting inside the house.
    InHouse { position: HousePosition, bounce: BounceDirection },
    /// Moving out through the door; progress in thousandths, 0 at the centre and
    /// 1000 at the entrance node.
    Exiting { progress: u16 },
    /// In the maze; `Some` while frightened, else following the global mode.
    Active { frightened: Option<FrightenedData> },
    /// Eyes returning home after being eaten.
    Eyes,
    /// Back in the house after being eaten, waiting to leave again.
    Reviving { remaining_ticks: u32 },
}

impl Default for GhostState {
    fn default() -> (r: Self)
        ensures
            r == (GhostState::Active { frightened: None }),
    {
        GhostState::Active { frightened: None }
    }
}

/// What a ghost looks like.
#[derive(Debug, Clone, Copy, PartialEq, Eq, Hash, Structural)]
pub enum GhostAnimationState {
    Normal,
    Frightened { flash: bool },
    Eyes,
}

/// The look of a state.
pub open spec fn spec_animation_state(s: GhostState) -> GhostAnimationState {
    match s {
        GhostState::InHouse { .. } | GhostState::Exiting { .. } => GhostAnimationState::Normal,
        GhostState::Active { frightened: None } => GhostAnimationState::Normal,
        GhostState::Active { frightened: Some(f) } => GhostAnimationState::Frightened {
            flash: f.flashing,
        },
        GhostState::Eyes | GhostState::Reviving { .. } => GhostAnimationState::Eyes,
    }
}

/// Whether the ghost is in or leaving the house, or reviving there.
pub open spec fn spec_is_in_house(s: GhostState) -> bool {
    s is InHouse || s is Exiting || s is Reviving
}

/// Whether the ghost is frightened.
pub open spec fn spec_is_frightened(s: GhostState) -> bool {
    s matches GhostState::Active { frightened: Some(_) }
}

/// The state after one tick, and whether it changed in a way worth noting.
pub open spec fn spec_state_tick(s: GhostState) -> (GhostState, bool) {
    match s {
        GhostState::Active { frightened: Some(f) } => {
            let (f2, ended) = spec_fright_tick(f);
            if ended {
                (GhostState::Active { frightened: None }, true)
            } else {
                (GhostState::Active { frightened: Some(f2) }, false)
            }
        },
        GhostState::Reviving { remaining_ticks } => {
            if remaining_ticks == 0 {
                (s, false)
            } else {
                (
                    GhostState::Reviving { remaining_ticks: (remaining_ticks - 1) as u32 },
                    remaining_ticks == 1,
                )
            }
        },
        _ => (s, false),
    }
}

impl GhostState {
    /// The look of the ghost.
    pub fn animation_state(&self) -> (r: GhostAnimationState)
        ensures
            r == spec_animation_state(*self),
    {
        match self {
            GhostState::InHouse { .. } | GhostState::Exiting { .. } => GhostAnimationState::Normal,
            GhostState::Active { frightened: None } => GhostAnimationState::Normal,
            GhostState::Active { frightened: Some(f) } => GhostAnimationState::Frightened {
                flash: f.flashing,
            },
            GhostState::Eyes | GhostState::Reviving { .. } => GhostAnimationState::Eyes,
        }
    }

    /// Whether the ghost is in or leaving the house, or reviving there.
    pub fn is_in_house(&self) -> (r: bool)
        ensures
            r == spec_is_in_house(*self),
    {
        match self {
            GhostState::InHouse { .. } | GhostState::Exiting { .. } | GhostState::Reviving {
                ..
            } => true,
            _ => false,
        }
    }

    /// Whether the ghost is active in the maze.
    pub fn is_active(&self) -> (r: bool)
        ensures
            r == (*self is Active),
    {
        match self {
            GhostState::Active { .. } => true,
            _ => false,
        }
    }

    /// Whether the ghost is frightened.
    pub fn is_frightened(&self) -> (r: bool)
        ensures
            r == spec_is_frightened(*self),
    {
        match self {
            GhostState::Active { frightened: Some(_) } => true,
            _ => false,
        }
    }

    /// Advances the internal countdowns one tick. A fright that has run out ends
    /// (returns true); a revival counts down and reports the tick it reaches zero.
    pub fn tick(&mut self) -> (changed: bool)
        ensures
            (*final(self), changed) == spec_state_tick(*old(self)),
    {
        match *self {
            GhostState::Active { frightened: Some(f) } => {
                let mut f2 = f;
                if f2.tick() {
                    *self = GhostState::Active { frightened: None };
                    true
                } else {
                    *self = GhostState::Active { frightened: Some(f2) };
                    false
                }
            },
            GhostState::Reviving { remaining_ticks } => {
                if remaining_ticks == 0 {
                    false
                } else {
                    *self = GhostState::Reviving { remaining_ticks: remaining_ticks - 1 };
                    remaining_ticks - 1 == 0
                }
            },
            _ => false,
        }
    }
}

/// A fright always ends: after `remaining_ticks + 1` ticks the ghost is no
/// longer frightened.
pub proof fn lemma_fright_ends(f: FrightenedData)
    ensures
        f.remaining_ticks == 0 ==> spec_state_tick(
            GhostState::Active { frightened: Some(f) },
        ).0 == (GhostState::Active { frightened: None }),
        f.remaining_ticks > 0 ==> (spec_state_tick(
            GhostState::Active { frightened: Some(f) },
        ).0 matches GhostState::Active { frightened: Some(g) } && g.remaining_ticks
            == f.remaining_ticks - 1),
{
}

/// The fright countdowns after `k` ticks.
pub open spec fn spec_fright_ticks(f: FrightenedData, k: nat) -> FrightenedData
    decreases k,
{
    if k == 0 {
        f
    } else {
        spec_fright_tick(spec_fright_ticks(f, (k - 1) as nat)).0
    }
}

/// A fright of `total` ticks that flashes after `s`: after `k <= total` ticks,
/// `total - k` remain, and the ghost flashes exactly from tick `s` on (never
/// when `s` is zero); none of those ticks ends the fright, the next one does.
pub proof fn lemma_fright_countdown(total: u32, s: u32, k: nat)
    requires
        k <= total,
    ensures
        ({
            let f = spec_fright_ticks(FrightenedData { remaining_ticks: total, flashing: false, flash_timer: s }, k);
            &&& f.remaining_ticks == total - k
            &&& f.flashing == (s > 0 && k >= s)
            &&& f.flash_timer == (if k >= s { 0 } else { s - k })
            &&& (k < total ==> !spec_fright_tick(f).1)
            &&& (k == total ==> spec_fright_tick(f).1)
        }),
    decreases k,
{
    if k > 0 {
        lemma_fright_countdown(total, s, (k - 1) as nat);
    }
}

} // verus!
