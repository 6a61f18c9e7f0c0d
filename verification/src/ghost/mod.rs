//! Ghost behaviour: personalities, the house release rules, the scatter/chase
//! clock, per-ghost state and targeting.

use vstd::prelude::*;

pub mod house;
pub mod mode;
pub mod movement;
pub mod elroy;
pub mod state;
pub mod systems;
pub mod personality;
pub mod targeting;

use crate::ghost::state::GhostAnimationState;

verus! {

/// Ghost personality; decides targeting behaviour.
#[derive(Debug, Clone, Copy, PartialEq, Eq, Hash, Structural)]
pub enum GhostType {
    Blinky,
    Pinky,
    Inky,
    Clyde,
}

impl GhostType {
    /// The ghost's name as used for sprite lookups.
    pub fn as_str(self) -> (r: &'static str)
        ensures
            r@ == (match self {
                GhostType::Blinky => "blinky"@,
                GhostType::Pinky => "pinky"@,
                GhostType::Inky => "inky"@,
                GhostType::Clyde => "clyde"@,
            }),
    {
        match self {
            GhostType::Blinky => "blinky",
            GhostType::Pinky => "pinky",
            GhostType::Inky => "inky",
            GhostType::Clyde => "clyde",
        }
    }
}

/// The animations of all ghosts: a normal one per personality, the eyes, and
/// the frightened ones (steady and flashing).
pub struct GhostAnimations<D, L> {
    /// Normal animation of each personality; the first entry of a personality
    /// is the one used.
    pub normal: Vec<(GhostType, D)>,
    pub eyes: D,
    pub frightened: L,
    pub frightened_flashing: L,
}

/// Whether entry `i` is the first entry of `ghost_type`.
pub open spec fn spec_first_entry<D>(normal: Seq<(GhostType, D)>, ghost_type: GhostType, i: int) -> bool {
    &&& 0 <= i < normal.len()
    &&& normal[i].0 == ghost_type
    &&& forall|j: int| 0 <= j < i ==> (#[trigger] normal[j]).0 != ghost_type
}

impl<D, L> GhostAnimations<D, L> {
    /// Gathers the animations.
    pub fn new(normal: Vec<(GhostType, D)>, eyes: D, frightened: L, frightened_flashing: L) -> (r: Self)
        ensures
            r.normal == normal,
            r.eyes == eyes,
            r.frightened == frightened,
            r.frightened_flashing == frightened_flashing,
    {
        GhostAnimations { normal, eyes, frightened, frightened_flashing }
    }

    /// The normal animation of `ghost_type`, if it has one.
    pub fn get_normal(&self, ghost_type: &GhostType) -> (r: Option<&D>)
        ensures
            r is None <==> forall|j: int| 0 <= j < self.normal@.len() ==> (#[trigger] self.normal@[j]).0 != *ghost_type,
            r matches Some(a) ==> exists|i: int|
                spec_first_entry(self.normal@, *ghost_type, i) && self.normal@[i].1 == *a,
    {
        let mut i: usize = 0;
        while i < self.normal.len()
            invariant
                0 <= i <= self.normal.len(),
                forall|j: int| 0 <= j < i ==> (#[trigger] self.normal@[j]).0 != *ghost_type,
            decreases self.normal.len() - i,
        {
            if self.normal[i].0 == *ghost_type {
                proof {
                    assert(spec_first_entry(self.normal@, *ghost_type, i as int));
                }
                return Some(&self.normal[i].1);
            }
            i = i + 1;
        }
        None
    }

    /// The eyes animation.
    pub fn eyes(&self) -> (r: &D)
        ensures
            *r == self.eyes,
    {
        &self.eyes
    }

    /// The frightened animation, flashing or steady.
    pub fn frightened(&self, flash: bool) -> (r: &L)
        ensures
            *r == (if flash {
                self.frightened_flashing
            } else {
                self.frightened
            }),
    {
        if flash {
            &self.frightened_flashing
        } else {
            &self.frightened
        }
    }
}

/// The look a ghost was last drawn with, to notice changes.
#[derive(Debug, Clone, Copy, PartialEq, Eq, Structural)]
pub struct LastAnimationState(pub GhostAnimationState);

} // verus!
