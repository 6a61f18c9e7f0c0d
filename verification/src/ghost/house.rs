//! Ghost house release rules: personal dot counters, the global counter used
//! after a death, and the no-dot timer.

use vstd::prelude::*;

use super::state::{spec_is_in_house, GhostState};
use super::GhostType;

verus! {

/// Ticks without a dot before a ghost is forced out: 4 s up to level 4, 3 s after.
pub open spec fn spec_timer_limit(level: u8) -> u32 {
    if level < 5 { 240 } else { 180 }
}

/// Personal dot limit of a ghost at a level.
pub open spec fn spec_dot_limit(level: u8, ghost: GhostType) -> u32 {
    match ghost {
        GhostType::Blinky => 0,
        GhostType::Pinky => 0,
        GhostType::Inky => if level == 1 { 30 } else { 0 },
        GhostType::Clyde => if level == 1 { 60 } else if level == 2 { 50 } else { 0 },
    }
}

/// Tracks the conditions under which ghosts leave the house.
#[derive(Debug)]
pub struct GhostHouseController {
    /// Personal dot counters of Pinky, Inky and Clyde (only one counts at a time).
    dot_counters: [u32; 3],
    /// Whose personal counter is active (0 Pinky, 1 Inky, 2 Clyde).
    active_counter: Option<usize>,
    /// Global dot counter, in use after Pac-Man dies.
    global_counter: Option<u32>,
    /// Ticks since the last dot was eaten.
    no_dot_timer: u32,
    /// Timer limit for the level.
    timer_limit: u32,
    /// Current level.
    level: u8,
}

impl GhostHouseController {
    #[verifier::type_invariant]
    spec fn inv(self) -> bool {
        &&& self.timer_limit == spec_timer_limit(self.level)
        &&& self.no_dot_timer < self.timer_limit
        &&& (self.active_counter matches Some(i) ==> i < 3)
    }

    /// Personal dot counter `i` (0 Pinky, 1 Inky, 2 Clyde).
    pub closed spec fn dot_counter(self, i: int) -> u32 {
        self.dot_counters@[i]
    }

    /// Index of the personal counter in use, if any.
    pub closed spec fn active(self) -> Option<usize> {
        self.active_counter
    }

    /// The global counter, when in use.
    pub closed spec fn global(self) -> Option<u32> {
        self.global_counter
    }

    /// Ticks since the last dot.
    pub closed spec fn no_dot_ticks(self) -> u32 {
        self.no_dot_timer
    }

    /// The level the controller was set up for.
    pub closed spec fn spec_level(self) -> u8 {
        self.level
    }

    /// The controller after `ghost` left the house.
    pub closed spec fn after_exit(self, ghost: GhostType) -> Self {
        match self.global_counter {
            Some(g) => if ghost == GhostType::Clyde && g >= 32 {
                GhostHouseController { global_counter: None, active_counter: None, ..self }
            } else {
                self
            },
            None => GhostHouseController {
                active_counter: match ghost {
                    GhostType::Pinky => Some(1usize),
                    GhostType::Inky => Some(2usize),
                    GhostType::Clyde => None,
                    GhostType::Blinky => self.active_counter,
                },
                ..self
            },
        }
    }

    /// The controller after one timer tick, and the ghost index to force out.
    pub closed spec fn after_tick(self) -> (Self, Option<usize>) {
        if self.no_dot_timer + 1 >= self.timer_limit {
            (GhostHouseController { no_dot_timer: 0, ..self }, self.active_counter)
        } else {
            (GhostHouseController { no_dot_timer: (self.no_dot_timer + 1) as u32, ..self }, None)
        }
    }

    /// Whether eating one more dot keeps the active counter within `u32`.
    pub open spec fn can_count_dot(self) -> bool {
        match self.global() {
            Some(g) => g < u32::MAX,
            None => match self.active() {
                Some(i) => self.dot_counter(i as int) < u32::MAX,
                None => true,
            },
        }
    }

    /// Whether `ghost` should start leaving the house now.
    pub open spec fn spec_should_exit(self, ghost: GhostType) -> bool {
        match ghost {
            GhostType::Blinky => true,
            GhostType::Pinky => match self.global() {
                Some(g) => g >= 7,
                None => self.dot_counter(0) >= spec_dot_limit(self.spec_level(), GhostType::Pinky),
            },
            GhostType::Inky => match self.global() {
                Some(g) => g >= 17,
                None => self.active() == Some(1usize) && self.dot_counter(1) >= spec_dot_limit(
                    self.spec_level(),
                    GhostType::Inky,
                ),
            },
            GhostType::Clyde => match self.global() {
                Some(g) => g >= 32,
                None => self.active() == Some(2usize) && self.dot_counter(2) >= spec_dot_limit(
                    self.spec_level(),
                    GhostType::Clyde,
                ),
            },
        }
    }

    /// Ticks without a dot after which a ghost is forced out.
    pub closed spec fn spec_limit(self) -> u32 {
        self.timer_limit
    }

    /// Whether `b` is `a` after Pac-Man ate a dot: the timer restarts and the
    /// counter in use (the global one, else the active personal one) advances.
    pub open spec fn spec_after_dot_of(a: Self, b: Self) -> bool {
        &&& b.no_dot_ticks() == 0
        &&& b.active() == a.active()
        &&& b.spec_level() == a.spec_level()
        &&& b.spec_limit() == a.spec_limit()
        &&& match a.global() {
            Some(g) => {
                &&& b.global() == Some((g + 1) as u32)
                &&& forall|i: int| 0 <= i < 3 ==> b.dot_counter(i) == a.dot_counter(i)
            },
            None => {
                &&& b.global() is None
                &&& forall|i: int|
                    0 <= i < 3 ==> b.dot_counter(i) == (if a.active() == Some(i as usize) {
                        (a.dot_counter(i) + 1) as u32
                    } else {
                        a.dot_counter(i)
                    })
            },
        }
    }

    /// The state of a freshly set up controller for `level`.
    pub open spec fn is_fresh(self, level: u8) -> bool {
        &&& self.spec_limit() == spec_timer_limit(level)
        &&& self.dot_counter(0) == 0
        &&& self.dot_counter(1) == 0
        &&& self.dot_counter(2) == 0
        &&& self.active() == Some(0usize)
        &&& self.global() is None
        &&& self.no_dot_ticks() == 0
        &&& self.spec_level() == level
    }

    /// A controller for `level`: Pinky's counter active, no dots counted.
    pub fn new(level: u8) -> (r: Self)
        ensures
            r.is_fresh(level),
    {
        GhostHouseController {
            dot_counters: [0, 0, 0],
            active_counter: Some(0),
            global_counter: None,
            no_dot_timer: 0,
            timer_limit: if level < 5 { 240 } else { 180 },
            level,
        }
    }

    /// Pac-Man ate a dot: the timer restarts and the counter in use advances.
    pub fn on_dot_eaten(&mut self)
        requires
            old(self).can_count_dot(),
        ensures
            GhostHouseController::spec_after_dot_of(*old(self), *final(self)),
    {
        proof { use_type_invariant(&*self); }
        self.no_dot_timer = 0;
        match self.global_counter {
            Some(g) => {
                self.global_counter = Some(g + 1);
            },
            None => {
                match self.active_counter {
                    Some(idx) => {
                        let mut counters = self.dot_counters;
                        counters[idx] = counters[idx] + 1;
                        self.dot_counters = counters;
                    },
                    None => {},
                }
            },
        }
    }

    /// Pac-Man died: release switches to the global counter, starting at zero.
    pub fn on_player_death(&mut self)
        ensures
            final(self).global() == Some(0u32),
            final(self).active() is None,
            final(self).no_dot_ticks() == old(self).no_dot_ticks(),
            final(self).spec_level() == old(self).spec_level(),
            forall|i: int| 0 <= i < 3 ==> final(self).dot_counter(i) == old(self).dot_counter(i),
    {
        proof { use_type_invariant(&*self); }
        self.global_counter = Some(0);
        self.active_counter = None;
    }

    /// Whether `ghost` should start leaving the house.
    pub fn should_exit(&self, ghost: GhostType) -> (r: bool)
        ensures
            r == self.spec_should_exit(ghost),
    {
        proof { use_type_invariant(self); }
        match ghost {
            GhostType::Blinky => true,
            GhostType::Pinky => self.check_pinky_exit(),
            GhostType::Inky => self.check_inky_exit(),
            GhostType::Clyde => self.check_clyde_exit(),
        }
    }

    fn check_pinky_exit(&self) -> (r: bool)
        ensures
            r == self.spec_should_exit(GhostType::Pinky),
    {
        match self.global_counter {
            Some(g) => g >= 7,
            None => self.dot_counters[0] >= self.get_dot_limit(GhostType::Pinky),
        }
    }

    fn check_inky_exit(&self) -> (r: bool)
        ensures
            r == self.spec_should_exit(GhostType::Inky),
    {
        match self.global_counter {
            Some(g) => g >= 17,
            None => match self.active_counter {
                Some(i) => i == 1 && self.dot_counters[1] >= self.get_dot_limit(GhostType::Inky),
                None => false,
            },
        }
    }

    fn check_clyde_exit(&self) -> (r: bool)
        ensures
            r == self.spec_should_exit(GhostType::Clyde),
    {
        match self.global_counter {
            Some(g) => g >= 32,
            None => match self.active_counter {
                Some(i) => i == 2 && self.dot_counters[2] >= self.get_dot_limit(GhostType::Clyde),
                None => false,
            },
        }
    }

    fn get_dot_limit(&self, ghost: GhostType) -> (r: u32)
        ensures
            r == spec_dot_limit(self.level, ghost),
    {
        match ghost {
            GhostType::Blinky => 0,
            GhostType::Pinky => 0,
            GhostType::Inky => if self.level == 1 { 30 } else { 0 },
            GhostType::Clyde => if self.level == 1 {
                60
            } else if self.level == 2 {
                50
            } else {
                0
            },
        }
    }

    /// A ghost left the house: the next personal counter takes over, or, in global
    /// mode, Clyde leaving at 32 dots or more ends the global counter.
    pub fn on_ghost_exit(&mut self, ghost: GhostType)
        ensures
            *final(self) == old(self).after_exit(ghost),
            final(self).no_dot_ticks() == old(self).no_dot_ticks(),
            final(self).spec_level() == old(self).spec_level(),
            forall|i: int| 0 <= i < 3 ==> final(self).dot_counter(i) == old(self).dot_counter(i),
            match old(self).global() {
                Some(g) => if ghost == GhostType::Clyde && g >= 32 {
                    final(self).global() is None && final(self).active() is None
                } else {
                    final(self).global() == old(self).global() && final(self).active() == old(
                        self,
                    ).active()
                },
                None => {
                    &&& final(self).global() is None
                    &&& final(self).active() == (match ghost {
                        GhostType::Pinky => Some(1usize),
                        GhostType::Inky => Some(2usize),
                        GhostType::Clyde => None,
                        GhostType::Blinky => old(self).active(),
                    })
                },
            },
    {
        proof { use_type_invariant(&*self); }
        match self.global_counter {
            Some(g) => {
                if ghost == GhostType::Clyde && g >= 32 {
                    self.global_counter = None;
                    self.active_counter = None;
                }
            },
            None => {
                self.active_counter = match ghost {
                    GhostType::Pinky => Some(1),
                    GhostType::Inky => Some(2),
                    GhostType::Clyde => None,
                    GhostType::Blinky => self.active_counter,
                };
            },
        }
    }

    /// Advances the no-dot timer one tick. When it reaches the level's limit it
    /// restarts and the ghost whose personal counter is active (0 Pinky, 1 Inky,
    /// 2 Clyde) is named to be forced out.
    pub fn tick(&mut self) -> (r: Option<usize>)
        ensures
            (*final(self), r) == old(self).after_tick(),
            final(self).spec_level() == old(self).spec_level(),
            final(self).active() == old(self).active(),
            final(self).global() == old(self).global(),
            forall|i: int| 0 <= i < 3 ==> final(self).dot_counter(i) == old(self).dot_counter(i),
            if old(self).no_dot_ticks() + 1 >= spec_timer_limit(old(self).spec_level()) {
                final(self).no_dot_ticks() == 0 && r == old(self).active()
            } else {
                final(self).no_dot_ticks() == old(self).no_dot_ticks() + 1 && r is None
            },
            r matches Some(i) ==> i < 3,
    {
        proof { use_type_invariant(&*self); }
        if self.no_dot_timer + 1 >= self.timer_limit {
            self.no_dot_timer = 0;
            self.active_counter
        } else {
            self.no_dot_timer = self.no_dot_timer + 1;
            None
        }
    }

    /// Sets the controller up afresh for a new level.
    pub fn reset(&mut self, level: u8)
        ensures
            final(self).is_fresh(level),
    {
        *self = Self::new(level);
    }
}

/// The ghost a forced-release index names (0 Pinky, 1 Inky, 2 Clyde).
pub open spec fn spec_forced_ghost(idx: usize) -> Option<GhostType> {
    if idx == 0 {
        Some(GhostType::Pinky)
    } else if idx == 1 {
        Some(GhostType::Inky)
    } else if idx == 2 {
        Some(GhostType::Clyde)
    } else {
        None
    }
}

/// The state a ghost takes when it starts to leave the house.
pub open spec fn spec_exiting() -> GhostState {
    GhostState::Exiting { progress: 0 }
}

/// Forces the first ghost of type `g` that is in the house out.
pub open spec fn spec_force_out(
    h: GhostHouseController,
    gs: Seq<(GhostType, GhostState)>,
    g: GhostType,
) -> (GhostHouseController, Seq<(GhostType, GhostState)>)
    decreases gs.len(),
{
    if gs.len() == 0 {
        (h, gs)
    } else if gs[0].0 == g && spec_is_in_house(gs[0].1) {
        (h.after_exit(g), seq![(g, spec_exiting())] + gs.drop_first())
    } else {
        let (h2, rest) = spec_force_out(h, gs.drop_first(), g);
        (h2, seq![gs[0]] + rest)
    }
}

/// Releases, in order, every waiting ghost whose exit condition holds.
pub open spec fn spec_exit_pass(h: GhostHouseController, gs: Seq<(GhostType, GhostState)>) -> (
    GhostHouseController,
    Seq<(GhostType, GhostState)>,
)
    decreases gs.len(),
{
    if gs.len() == 0 {
        (h, gs)
    } else {
        let (t, s) = gs[0];
        let (h1, s1) = if s is InHouse && h.spec_should_exit(t) {
            (h.after_exit(t), spec_exiting())
        } else {
            (h, s)
        };
        let (h2, rest) = spec_exit_pass(h1, gs.drop_first());
        (h2, seq![(t, s1)] + rest)
    }
}

/// One tick of house management: the no-dot timer may force a ghost out, then
/// every waiting ghost whose dot condition holds starts to leave.
pub open spec fn spec_house_system(h: GhostHouseController, gs: Seq<(GhostType, GhostState)>) -> (
    GhostHouseController,
    Seq<(GhostType, GhostState)>,
) {
    let (h1, forced) = h.after_tick();
    let (h2, gs2) = match forced {
        Some(idx) => match spec_forced_ghost(idx) {
            Some(g) => spec_force_out(h1, gs, g),
            None => (h1, gs),
        },
        None => (h1, gs),
    };
    spec_exit_pass(h2, gs2)
}

fn force_out(house: &mut GhostHouseController, ghosts: &mut Vec<(GhostType, GhostState)>, g: GhostType)
    ensures
        (*final(house), final(ghosts)@) == spec_force_out(*old(house), old(ghosts)@, g),
{
    let ghost gs0 = ghosts@;
    let mut i: usize = 0;
    proof {
        assert(gs0.skip(0) =~= gs0);
        assert(gs0.take(0) + gs0 =~= gs0);
    }
    while i < ghosts.len()
        invariant
            0 <= i <= ghosts.len(),
            ghosts@ == gs0,
            gs0 == old(ghosts)@,
            *house == *old(house),
            spec_force_out(*old(house), gs0, g) == ({
                let (h2, rest) = spec_force_out(*house, gs0.skip(i as int), g);
                (h2, gs0.take(i as int) + rest)
            }),
        decreases ghosts.len() - i,
    {
        proof {
            assert(gs0.skip(i as int).drop_first() =~= gs0.skip(i + 1));
            assert(gs0.skip(i as int)[0] == gs0[i as int]);
        }
        let (t, s) = ghosts[i];
        if t == g && s.is_in_house() {
            let ghost h0 = *house;
            ghosts.set(i, (t, GhostState::Exiting { progress: 0 }));
            house.on_ghost_exit(t);
            proof {
                let tail = gs0.skip(i as int);
                assert(tail[0].0 == g && spec_is_in_house(tail[0].1));
                assert(spec_force_out(h0, tail, g) == (h0.after_exit(g), seq![(g, spec_exiting())] + tail.drop_first()));
                assert(ghosts@ =~= gs0.take(i as int) + (seq![(g, spec_exiting())]
                    + gs0.skip(i as int).drop_first()));
            }
            return;
        }
        proof {
            assert(gs0.take(i as int) + (seq![gs0[i as int]] + spec_force_out(
                *house,
                gs0.skip(i + 1),
                g,
            ).1) =~= gs0.take(i + 1) + spec_force_out(*house, gs0.skip(i + 1), g).1);
        }
        i = i + 1;
    }
    proof {
        assert(gs0.skip(i as int) =~= Seq::<(GhostType, GhostState)>::empty());
        assert(gs0.take(i as int) + gs0.skip(i as int) =~= gs0);
    }
}

fn exit_pass(house: &mut GhostHouseController, ghosts: &mut Vec<(GhostType, GhostState)>)
    ensures
        (*final(house), final(ghosts)@) == spec_exit_pass(*old(house), old(ghosts)@),
{
    let ghost gs0 = ghosts@;
    let mut i: usize = 0;
    proof {
        assert(gs0.skip(0) =~= gs0);
        assert(ghosts@.take(0) + spec_exit_pass(*house, gs0).1 =~= spec_exit_pass(*house, gs0).1);
    }
    while i < ghosts.len()
        invariant
            0 <= i <= ghosts.len(),
            ghosts.len() == gs0.len(),
            gs0 == old(ghosts)@,
            ghosts@.skip(i as int) == gs0.skip(i as int),
            spec_exit_pass(*old(house), gs0) == ({
                let (h2, rest) = spec_exit_pass(*house, gs0.skip(i as int));
                (h2, ghosts@.take(i as int) + rest)
            }),
        decreases ghosts.len() - i,
    {
        proof {
            assert(gs0.skip(i as int).drop_first() =~= gs0.skip(i + 1));
            assert(gs0.skip(i as int)[0] == gs0[i as int]);
            assert(ghosts@.skip(i as int)[0] == ghosts@[i as int]);
        }
        let ghost before = ghosts@;
        let ghost h_before = *house;
        let (t, s) = ghosts[i];
        let release = match s {
            GhostState::InHouse { .. } => house.should_exit(t),
            _ => false,
        };
        if release {
            ghosts.set(i, (t, GhostState::Exiting { progress: 0 }));
            house.on_ghost_exit(t);
        }
        proof {
            let s1 = if release { spec_exiting() } else { s };
            assert(ghosts@ =~= before.update(i as int, (t, s1)));
            assert(ghosts@.take(i + 1) =~= before.take(i as int).push((t, s1)));
            assert(ghosts@.skip(i + 1) =~= before.skip(i + 1));
            assert(before.skip(i + 1) =~= gs0.skip(i + 1)) by {
                assert forall|k: int| 0 <= k < gs0.len() - (i + 1) implies #[trigger] before.skip(i + 1)[k]
                    == gs0.skip(i + 1)[k] by {
                    assert(before.skip(i as int)[k + 1] == gs0.skip(i as int)[k + 1]);
                }
            }
            let rest = spec_exit_pass(*house, gs0.skip(i + 1)).1;
            assert(before.take(i as int) + (seq![(t, s1)] + rest) =~= ghosts@.take(i + 1) + rest);
        }
        i = i + 1;
    }
    proof {
        assert(gs0.skip(i as int) =~= Seq::<(GhostType, GhostState)>::empty());
        assert(ghosts@.take(i as int) =~= ghosts@);
        assert(ghosts@ + Seq::<(GhostType, GhostState)>::empty() =~= ghosts@);
    }
}

/// One tick of ghost house management over the ghosts, in order: the no-dot timer
/// may force the ghost whose counter is active out, then every ghost waiting in
/// the house whose dot condition holds starts to leave. Ghosts that leave take the
/// `Exiting` state and the controller moves on to the next counter.
pub fn ghost_house_system(house: &mut GhostHouseController, ghosts: &mut Vec<(GhostType, GhostState)>)
    ensures
        (*final(house), final(ghosts)@) == spec_house_system(*old(house), old(ghosts)@),
{
    match house.tick() {
        Some(idx) => {
            if idx == 0 {
                force_out(house, ghosts, GhostType::Pinky);
            } else if idx == 1 {
                force_out(house, ghosts, GhostType::Inky);
            } else if idx == 2 {
                force_out(house, ghosts, GhostType::Clyde);
            }
        },
        None => {},
    }
    exit_pass(house, ghosts);
}

impl Default for GhostHouseController {
    fn default() -> (r: Self)
        ensures
            r.is_fresh(1),
    {
        Self::new(1)
    }
}

/// In a freshly set up house Blinky and Pinky may leave at once, while Inky
/// and Clyde wait their turn: their counters only count once the ghost before
/// them has left.
pub proof fn lemma_fresh_house_releases_in_order(h: GhostHouseController, level: u8)
    requires
        h.is_fresh(level),
    ensures
        h.spec_should_exit(GhostType::Blinky),
        h.spec_should_exit(GhostType::Pinky),
        !h.spec_should_exit(GhostType::Inky),
        !h.spec_should_exit(GhostType::Clyde),
{
}

/// The controller after `n` timer ticks without a dot (`n >= 1`), and what the
/// last of them returned.
pub open spec fn spec_ticks(h: GhostHouseController, n: nat) -> (GhostHouseController, Option<usize>)
    decreases n,
{
    if n <= 1 {
        h.after_tick()
    } else {
        spec_ticks(h, (n - 1) as nat).0.after_tick()
    }
}

proof fn lemma_ticks_count(h: GhostHouseController, level: u8, n: nat)
    requires
        h.is_fresh(level),
        1 <= n < spec_timer_limit(level),
    ensures
        spec_ticks(h, n) == (GhostHouseController { no_dot_timer: n as u32, ..h }, None::<usize>),
    decreases n,
{
    if n > 1 {
        lemma_ticks_count(h, level, (n - 1) as nat);
    }
}

/// With no dot eaten, a fresh house forces a ghost out exactly on the tick the
/// level's limit is reached (240 ticks up to level 4, 180 after), and it is
/// Pinky, the first in line; every tick before names no one.
pub proof fn lemma_no_dot_timer_releases_pinky(h: GhostHouseController, level: u8, n: nat)
    requires
        h.is_fresh(level),
        1 <= n <= spec_timer_limit(level),
    ensures
        n < spec_timer_limit(level) ==> spec_ticks(h, n).1 is None && spec_ticks(h, n).0.no_dot_ticks() == n,
        n == spec_timer_limit(level) ==> spec_ticks(h, n).1 == Some(0usize) && spec_ticks(h, n).0.no_dot_ticks() == 0,
{
    if n < spec_timer_limit(level) {
        lemma_ticks_count(h, level, n);
    } else {
        lemma_ticks_count(h, level, (n - 1) as nat);
    }
}

/// After a death the house counts globally: with `k` dots eaten since (the
/// controllers `hs` after each, starting at the death), Blinky may leave at once,
/// Pinky from 7 dots, Inky from 17 and Clyde from 32, whatever the personal
/// counters hold.
pub proof fn lemma_global_counter_releases(hs: Seq<GhostHouseController>, k: nat)
    requires
        hs.len() == k + 1,
        k < u32::MAX,
        hs[0].global() == Some(0u32),
        forall|i: int| 0 <= i < k ==> GhostHouseController::spec_after_dot_of(#[trigger] hs[i], hs[i + 1]),
    ensures
        hs[k as int].global() == Some(k as u32),
        hs[k as int].spec_should_exit(GhostType::Blinky),
        hs[k as int].spec_should_exit(GhostType::Pinky) == (k >= 7),
        hs[k as int].spec_should_exit(GhostType::Inky) == (k >= 17),
        hs[k as int].spec_should_exit(GhostType::Clyde) == (k >= 32),
    decreases k,
{
    if k > 0 {
        lemma_global_counter_releases(hs.drop_last(), (k - 1) as nat);
        assert(hs.drop_last()[k - 1] == hs[k - 1]);
        assert(GhostHouseController::spec_after_dot_of(hs[k - 1], hs[k as int]));
    }
}

/// With the personal counters in use, a ghost leaves only on its turn and
/// once its counter reaches its dot limit: Pinky at once; Inky after 30 dots on
/// level 1 and at once later; Clyde after 60 dots on level 1, 50 on level 2 and
/// at once later. Blinky never waits.
pub proof fn lemma_personal_dot_limits(h: GhostHouseController)
    requires
        h.global() is None,
    ensures
        h.spec_should_exit(GhostType::Blinky),
        h.spec_should_exit(GhostType::Pinky),
        h.active() != Some(1usize) ==> !h.spec_should_exit(GhostType::Inky),
        h.active() != Some(2usize) ==> !h.spec_should_exit(GhostType::Clyde),
        h.active() == Some(1usize) ==> (h.spec_should_exit(GhostType::Inky) <==> (h.spec_level() != 1
            || h.dot_counter(1) >= 30)),
        h.active() == Some(2usize) ==> (h.spec_should_exit(GhostType::Clyde) <==> (if h.spec_level() == 1 {
            h.dot_counter(2) >= 60
        } else if h.spec_level() == 2 {
            h.dot_counter(2) >= 50
        } else {
            true
        })),
{
}

} // verus!
