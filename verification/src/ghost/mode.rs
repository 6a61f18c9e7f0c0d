//! The global scatter/chase clock shared by all ghosts.

use vstd::prelude::*;

use super::state::{spec_is_frightened, GhostState};
use crate::direction::{spec_opposite, Direction};

verus! {

/// Scatter or chase; frightened is tracked per ghost.
#[derive(Debug, Clone, Copy, PartialEq, Eq, Structural)]
pub enum ScatterChaseMode {
    Scatter,
    Chase,
}

/// The other mode.
pub open spec fn spec_toggle(m: ScatterChaseMode) -> ScatterChaseMode {
    match m {
        ScatterChaseMode::Scatter => ScatterChaseMode::Chase,
        ScatterChaseMode::Chase => ScatterChaseMode::Scatter,
    }
}

/// (scatter ticks, chase ticks) of the phase pair `pair` (0..4) at `level`.
pub open spec fn spec_phase_pair(level: u8, pair: int) -> (u32, u32) {
    if level == 1 {
        if pair == 0 || pair == 1 {
            (420, 1200)
        } else if pair == 2 {
            (300, 1200)
        } else {
            (300, u32::MAX)
        }
    } else if 2 <= level <= 4 {
        if pair == 0 || pair == 1 {
            (420, 1200)
        } else if pair == 2 {
            (300, 61980)
        } else {
            (1, u32::MAX)
        }
    } else {
        if pair == 0 || pair == 1 {
            (300, 1200)
        } else if pair == 2 {
            (300, 62220)
        } else {
            (1, u32::MAX)
        }
    }
}

/// Ticks of phase `phase` at `level`: even phases scatter, odd phases chase, and
/// from phase 8 on the mode lasts for ever (`u32::MAX`).
pub open spec fn spec_phase_duration(phase: int, level: u8) -> u32 {
    if phase >= 8 {
        u32::MAX
    } else if phase % 2 == 1 {
        spec_phase_pair(level, phase / 2).1
    } else {
        spec_phase_pair(level, phase / 2).0
    }
}

/// Global controller of the scatter/chase cycle.
#[derive(Debug)]
pub struct GhostModeController {
    /// Current scatter/chase mode.
    pub mode: ScatterChaseMode,
    /// Ticks left in the current phase (`u32::MAX` means indefinite).
    pub mode_timer: u32,
    /// Index into the phase pattern.
    pub phase_index: usize,
    /// True while some ghost is frightened: the clock stands still.
    pub paused: bool,
    /// Current level, which selects the timings.
    pub level: u8,
}

impl GhostModeController {
    /// The state of the clock at the start of `level`.
    pub open spec fn is_start_of(self, level: u8) -> bool {
        &&& self.level == level
        &&& self.mode == ScatterChaseMode::Scatter
        &&& self.mode_timer == spec_phase_duration(0, level)
        &&& self.phase_index == 0
        &&& !self.paused
    }

    /// Whether the next tick ends the current phase.
    pub open spec fn switches_next(self) -> bool {
        !self.paused && self.mode_timer != u32::MAX && self.mode_timer == 0
    }

    /// A clock at the start of `level`: scatter, phase 0.
    pub fn new(level: u8) -> (r: Self)
        ensures
            r.is_start_of(level),
    {
        GhostModeController {
            level,
            mode: ScatterChaseMode::Scatter,
            mode_timer: Self::get_phase_duration(0, level),
            phase_index: 0,
            paused: false,
        }
    }

    /// Duration in ticks of a phase at a level.
    fn get_phase_duration(phase_index: usize, level: u8) -> (r: u32)
        ensures
            r == spec_phase_duration(phase_index as int, level),
    {
        let pair_index = phase_index / 2;
        let is_chase = phase_index % 2 == 1;
        if pair_index >= 4 {
            return u32::MAX;
        }
        let (scatter, chase): (u32, u32) = if level == 1 {
            if pair_index <= 1 {
                (420, 1200)
            } else if pair_index == 2 {
                (300, 1200)
            } else {
                (300, u32::MAX)
            }
        } else if 2 <= level && level <= 4 {
            if pair_index <= 1 {
                (420, 1200)
            } else if pair_index == 2 {
                (300, 61980)
            } else {
                (1, u32::MAX)
            }
        } else {
            if pair_index <= 1 {
                (300, 1200)
            } else if pair_index == 2 {
                (300, 62220)
            } else {
                (1, u32::MAX)
            }
        };
        if is_chase {
            chase
        } else {
            scatter
        }
    }

    /// Advances the clock one tick. Returns true exactly when the mode flipped,
    /// which tells active ghosts to reverse.
    pub fn tick(&mut self) -> (changed: bool)
        requires
            old(self).switches_next() ==> old(self).phase_index < usize::MAX,
        ensures
            changed == old(self).switches_next(),
            final(self).level == old(self).level,
            final(self).paused == old(self).paused,
            if changed {
                &&& final(self).phase_index == old(self).phase_index + 1
                &&& final(self).mode == spec_toggle(old(self).mode)
                &&& final(self).mode_timer == spec_phase_duration(
                    final(self).phase_index as int,
                    final(self).level,
                )
            } else {
                &&& final(self).phase_index == old(self).phase_index
                &&& final(self).mode == old(self).mode
                &&& final(self).mode_timer == (if old(self).paused || old(self).mode_timer
                    == u32::MAX {
                    old(self).mode_timer
                } else {
                    (old(self).mode_timer - 1) as u32
                })
            },
    {
        if self.paused || self.mode_timer == u32::MAX {
            return false;
        }
        if self.mode_timer > 0 {
            self.mode_timer = self.mode_timer - 1;
            return false;
        }
        self.phase_index = self.phase_index + 1;
        self.mode = match self.mode {
            ScatterChaseMode::Scatter => ScatterChaseMode::Chase,
            ScatterChaseMode::Chase => ScatterChaseMode::Scatter,
        };
        self.mode_timer = Self::get_phase_duration(self.phase_index, self.level);
        true
    }

    /// Stops the clock (a ghost became frightened).
    pub fn pause(&mut self)
        ensures
            *final(self) == (GhostModeController { paused: true, ..*old(self) }),
    {
        self.paused = true;
    }

    /// Restarts the clock (no ghost is frightened any more).
    pub fn resume(&mut self)
        ensures
            *final(self) == (GhostModeController { paused: false, ..*old(self) }),
    {
        self.paused = false;
    }

    /// Rewinds the clock to the start of `level`.
    pub fn reset(&mut self, level: u8)
        ensures
            final(self).is_start_of(level),
    {
        self.level = level;
        self.phase_index = 0;
        self.mode = ScatterChaseMode::Scatter;
        self.mode_timer = Self::get_phase_duration(0, level);
        self.paused = false;
    }
}

impl Default for GhostModeController {
    fn default() -> (r: Self)
        ensures
            r.is_start_of(1),
    {
        Self::new(1)
    }
}

/// Whether any ghost is frightened.
pub open spec fn spec_any_frightened(gs: Seq<(GhostState, Direction)>) -> bool {
    exists|i: int| 0 <= i < gs.len() && spec_is_frightened(#[trigger] gs[i].0)
}

/// Every active ghost turned around.
pub open spec fn spec_reverse_active(gs: Seq<(GhostState, Direction)>) -> Seq<(GhostState, Direction)> {
    Seq::new(
        gs.len(),
        |i: int|
            if gs[i].0 is Active {
                (gs[i].0, spec_opposite(gs[i].1))
            } else {
                gs[i]
            },
    )
}

/// One tick of the mode clock over the ghosts (state, heading): the clock stands
/// still exactly while some ghost is frightened; when the mode flips, every active
/// ghost reverses. Returns whether the mode flipped.
pub fn ghost_mode_tick_system(mode: &mut GhostModeController, ghosts: &mut Vec<(GhostState, Direction)>) -> (changed: bool)
    requires
        !spec_any_frightened(old(ghosts)@) && old(mode).mode_timer == 0 ==> old(mode).phase_index
            < usize::MAX,
    ensures
        final(mode).paused == spec_any_frightened(old(ghosts)@),
        changed == (GhostModeController { paused: spec_any_frightened(old(ghosts)@), ..*old(mode) }).switches_next(),
        changed ==> final(mode).mode == spec_toggle(old(mode).mode),
        !changed ==> final(mode).mode == old(mode).mode,
        final(ghosts)@ == (if changed {
            spec_reverse_active(old(ghosts)@)
        } else {
            old(ghosts)@
        }),
{
    let mut any_frightened = false;
    let mut i: usize = 0;
    while i < ghosts.len()
        invariant
            0 <= i <= ghosts.len(),
            any_frightened == exists|j: int| 0 <= j < i && spec_is_frightened(#[trigger] ghosts@[j].0),
        decreases ghosts.len() - i,
    {
        if ghosts[i].0.is_frightened() {
            any_frightened = true;
        }
        i = i + 1;
    }
    if any_frightened && !mode.paused {
        mode.pause();
    } else if !any_frightened && mode.paused {
        mode.resume();
    }
    let changed = mode.tick();
    if changed {
        let ghost g0 = ghosts@;
        let mut k: usize = 0;
        while k < ghosts.len()
            invariant
                0 <= k <= ghosts.len(),
                ghosts.len() == g0.len(),
                forall|j: int| 0 <= j < k ==> ghosts@[j] == spec_reverse_active(g0)[j],
                forall|j: int| k <= j < ghosts.len() ==> ghosts@[j] == g0[j],
            decreases ghosts.len() - k,
        {
            let (s, d) = ghosts[k];
            if s.is_active() {
                ghosts.set(k, (s, d.opposite()));
            }
            k = k + 1;
        }
        proof {
            assert(ghosts@ =~= spec_reverse_active(g0));
        }
    }
    changed
}

/// While the clock is paused, ticking changes nothing.
pub proof fn lemma_paused_clock_stands_still(c: GhostModeController)
    requires
        c.paused,
    ensures
        !c.switches_next(),
{
}

/// The last scatter/chase pattern ends in a chase that never runs out.
pub proof fn lemma_final_chase_is_indefinite(level: u8)
    ensures
        spec_phase_duration(7, level) == u32::MAX,
        forall|p: int| p >= 8 ==> spec_phase_duration(p, level) == u32::MAX,
{
}

} // verus!
