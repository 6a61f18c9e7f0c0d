//! Blinky's "Cruise Elroy" speed-ups, triggered by the pellets left.

use vstd::prelude::*;

use crate::ghost::movement::{spec_speed_config, GhostSpeedConfig};

verus! {

/// Pellets on a full board (240 dots and 4 energizers).
pub const TOTAL_PELLETS: u32 = 244;

/// Elroy stage of Blinky.
#[derive(Debug, Clone, Copy, PartialEq, Eq, Default, Structural)]
pub enum ElroyStage {
    #[default]
    Off,
    /// First speed-up.
    Stage1,
    /// Second speed-up.
    Stage2,
}

/// Elroy state; only Blinky has it.
#[derive(Debug, Default, Clone, Copy, PartialEq, Eq, Structural)]
pub struct Elroy {
    pub stage: ElroyStage,
    /// Suspended while Clyde is in the house after a death.
    pub suspended: bool,
}

/// Marks Blinky.
#[derive(Debug, Default, Clone, Copy)]
pub struct BlinkyMarker;

/// Pellets-left thresholds (stage 1, stage 2) of a level.
pub open spec fn spec_elroy_thresholds(level: u8) -> (u32, u32) {
    if level == 1 {
        (20, 10)
    } else if level == 2 {
        (30, 15)
    } else if 3 <= level <= 6 {
        (40, 20)
    } else if 7 <= level <= 8 {
        (50, 25)
    } else if 9 <= level <= 11 {
        (60, 30)
    } else if 12 <= level <= 14 {
        (80, 40)
    } else if 15 <= level <= 17 {
        (100, 50)
    } else {
        (120, 60)
    }
}

/// Pellets-left thresholds (stage 1, stage 2) at which Blinky speeds up.
pub fn elroy_thresholds(level: u8) -> (r: (u32, u32))
    ensures
        r == spec_elroy_thresholds(level),
{
    if level == 1 {
        (20, 10)
    } else if level == 2 {
        (30, 15)
    } else if 3 <= level && level <= 6 {
        (40, 20)
    } else if 7 <= level && level <= 8 {
        (50, 25)
    } else if 9 <= level && level <= 11 {
        (60, 30)
    } else if 12 <= level && level <= 14 {
        (80, 40)
    } else if 15 <= level && level <= 17 {
        (100, 50)
    } else {
        (120, 60)
    }
}

/// Blinky's speed, in percent of full speed, for a stage at a level. Without
/// Elroy it is the level's normal ghost speed (75 at level 1, 85 at levels 2-4,
/// 95 after); the first stage adds 5 and the second 10, so each stage is a boost
/// and the second outruns Pac-Man from level 5 on.
pub open spec fn spec_elroy_speed_percent(stage: ElroyStage, level: u8) -> u32 {
    match stage {
        ElroyStage::Off => spec_speed_config(level).normal,
        ElroyStage::Stage1 => if level == 1 {
            80
        } else if 2 <= level <= 4 {
            90
        } else {
            100
        },
        ElroyStage::Stage2 => if level == 1 {
            85
        } else if 2 <= level <= 4 {
            95
        } else {
            105
        },
    }
}

/// Blinky's speed, in percent of full speed, for a stage at a level; see
/// `spec_elroy_speed_percent`.
pub fn elroy_speed(stage: ElroyStage, level: u8) -> (r: u32)
    ensures
        r == spec_elroy_speed_percent(stage, level),
{
    match stage {
        ElroyStage::Off => GhostSpeedConfig::for_level(level).normal,
        ElroyStage::Stage1 => if level == 1 {
            80
        } else if 2 <= level && level <= 4 {
            90
        } else {
            100
        },
        ElroyStage::Stage2 => if level == 1 {
            85
        } else if 2 <= level && level <= 4 {
            95
        } else {
            105
        },
    }
}

/// Each Elroy stage is a speed boost for Blinky at every level: the first is
/// faster than no Elroy, the second faster than the first.
pub proof fn lemma_elroy_is_a_boost(level: u8)
    ensures
        spec_elroy_speed_percent(ElroyStage::Stage1, level) > spec_elroy_speed_percent(ElroyStage::Off, level),
        spec_elroy_speed_percent(ElroyStage::Stage2, level) > spec_elroy_speed_percent(ElroyStage::Stage1, level),
{
}

/// The stage for `remaining` pellets left at `level`.
pub open spec fn spec_stage_for(remaining: u32, level: u8) -> ElroyStage {
    let (t1, t2) = spec_elroy_thresholds(level);
    if remaining <= t2 {
        ElroyStage::Stage2
    } else if remaining <= t1 {
        ElroyStage::Stage1
    } else {
        ElroyStage::Off
    }
}

/// Pellets left on the board after `eaten` were eaten.
pub open spec fn spec_pellets_left(eaten: u32) -> u32 {
    if eaten >= TOTAL_PELLETS { 0 } else { (TOTAL_PELLETS - eaten) as u32 }
}

/// Updates Blinky's Elroy stage from the pellets eaten, unless suspended.
pub fn elroy_system(elroy: &mut Elroy, pellets_eaten: u32, level: u8)
    ensures
        final(elroy).suspended == old(elroy).suspended,
        final(elroy).stage == (if old(elroy).suspended {
            old(elroy).stage
        } else {
            spec_stage_for(spec_pellets_left(pellets_eaten), level)
        }),
{
    if elroy.suspended {
        return;
    }
    let (threshold_1, threshold_2) = elroy_thresholds(level);
    let remaining = TOTAL_PELLETS.saturating_sub(pellets_eaten);
    elroy.stage = if remaining <= threshold_2 {
        ElroyStage::Stage2
    } else if remaining <= threshold_1 {
        ElroyStage::Stage1
    } else {
        ElroyStage::Off
    };
}

/// The second threshold is never above the first, so eating pellets only ever
/// moves Blinky forward through the stages.
pub proof fn lemma_elroy_monotone(level: u8, a: u32, b: u32)
    requires
        a <= b,
    ensures
        spec_elroy_thresholds(level).1 <= spec_elroy_thresholds(level).0,
        spec_stage_for(b, level) == ElroyStage::Stage2 ==> spec_stage_for(a, level)
            == ElroyStage::Stage2,
        spec_stage_for(a, level) == ElroyStage::Off ==> spec_stage_for(b, level)
            == ElroyStage::Off,
{
}

} // verus!
