//! Per-tick ghost bookkeeping: eyes finding their way home, and the state tick
//! with its change of look.

use vstd::prelude::*;

use crate::constants::GHOST_REVIVE_TICKS;
use crate::direction::{spec_along, spec_unit, Direction};
use crate::ghost::state::{spec_animation_state, spec_state_tick, GhostAnimationState, GhostState};
use crate::ghost::targeting::{spec_node_point, Exit, Intersection, Point};
use crate::ghost::LastAnimationState;
use crate::state::stage::NodeId;

verus! {

/// Directions to try, best first, when heading by `(dx, dy)`: along the longer
/// axis first (horizontal only when strictly longer), then the crosswise ones,
/// then back.
pub open spec fn spec_preferred_dirs(dx: int, dy: int) -> Seq<Direction> {
    let adx = if dx < 0 { -dx } else { dx };
    let ady = if dy < 0 { -dy } else { dy };
    if adx > ady {
        if dx > 0 {
            seq![Direction::Right, Direction::Up, Direction::Down, Direction::Left]
        } else {
            seq![Direction::Left, Direction::Up, Direction::Down, Direction::Right]
        }
    } else if dy > 0 {
        seq![Direction::Down, Direction::Left, Direction::Right, Direction::Up]
    } else {
        seq![Direction::Up, Direction::Left, Direction::Right, Direction::Down]
    }
}

/// The first of `dirs` with an edge that ghosts may take, with that edge.
pub open spec fn spec_first_ghost_edge(inter: Intersection, dirs: Seq<Direction>) -> Option<(Direction, Exit)>
    decreases dirs.len(),
{
    if dirs.len() == 0 {
        None
    } else {
        match inter.spec_get(dirs[0]) {
            Some(e) => if e.ghost_traversable {
                Some((dirs[0], e))
            } else {
                spec_first_ghost_edge(inter, dirs.drop_first())
            },
            None => spec_first_ghost_edge(inter, dirs.drop_first()),
        }
    }
}

/// The greedy step from `from_node` towards `target_node`; `None` when either
/// node has no position or no preferred edge may be taken.
pub open spec fn spec_direction_to_target(
    inter: Intersection,
    positions: Seq<Point>,
    from_node: NodeId,
    target_node: NodeId,
) -> Option<(Direction, Exit)> {
    match (spec_node_point(positions, from_node), spec_node_point(positions, target_node)) {
        (Some(f), Some(t)) => spec_first_ghost_edge(inter, spec_preferred_dirs(t.x - f.x, t.y - f.y)),
        _ => None,
    }
}

/// The direction and edge from `from_node` (whose edges are `inter`) towards
/// `target_node`, by greedy preference: the longer axis first.
pub fn find_direction_to_target(
    inter: &Intersection,
    positions: &Vec<Point>,
    from_node: NodeId,
    target_node: NodeId,
) -> (r: Option<(Direction, Exit)>)
    ensures
        r == spec_direction_to_target(*inter, positions@, from_node, target_node),
{
    if (from_node as usize) >= positions.len() || (target_node as usize) >= positions.len() {
        return None;
    }
    let from_pos = positions[from_node as usize];
    let target_pos = positions[target_node as usize];
    let dx: i64 = target_pos.x as i64 - from_pos.x as i64;
    let dy: i64 = target_pos.y as i64 - from_pos.y as i64;
    let adx: i64 = if dx < 0 { -dx } else { dx };
    let ady: i64 = if dy < 0 { -dy } else { dy };
    let preferred: [Direction; 4] = if adx > ady {
        if dx > 0 {
            [Direction::Right, Direction::Up, Direction::Down, Direction::Left]
        } else {
            [Direction::Left, Direction::Up, Direction::Down, Direction::Right]
        }
    } else if dy > 0 {
        [Direction::Down, Direction::Left, Direction::Right, Direction::Up]
    } else {
        [Direction::Up, Direction::Left, Direction::Right, Direction::Down]
    };
    let ghost dirs = spec_preferred_dirs(dx as int, dy as int);
    assert(preferred@ =~= dirs);
    assert(dirs.subrange(0, 4) =~= dirs);
    assert(spec_node_point(positions@, from_node) == Some(from_pos));
    assert(spec_node_point(positions@, target_node) == Some(target_pos));
    assert(spec_direction_to_target(*inter, positions@, from_node, target_node) == spec_first_ghost_edge(
        *inter,
        dirs,
    ));
    let mut i: usize = 0;
    while i < 4
        invariant
            0 <= i <= 4,
            preferred@ == dirs,
            spec_direction_to_target(*inter, positions@, from_node, target_node) == spec_first_ghost_edge(
                *inter,
                dirs,
            ),
            dirs.len() == 4,
            spec_first_ghost_edge(*inter, dirs) == spec_first_ghost_edge(
                *inter,
                dirs.subrange(i as int, 4),
            ),
        decreases 4 - i,
    {
        let d = preferred[i];
        proof {
            assert(dirs.subrange(i as int, 4).drop_first() =~= dirs.subrange(i + 1, 4));
            assert(dirs.subrange(i as int, 4)[0] == d);
        }
        if let Some(e) = inter.get(d) {
            if e.ghost_traversable {
                proof {
                    assert(spec_first_ghost_edge(*inter, dirs.subrange(i as int, 4)) == Some((d, e)));
                }
                return Some((d, e));
            }
        }
        i = i + 1;
    }
    proof {
        assert(dirs.subrange(4, 4).len() == 0);
    }
    None
}

/// What an eaten ghost does on reaching a node.
#[derive(Debug, Clone, Copy, PartialEq, Eq, Structural)]
pub enum EyesStep {
    /// Home: the ghost revives in the house.
    Revive,
    /// The next edge towards home.
    Continue(Direction, Exit),
    /// No edge leads on.
    Stuck,
}

/// An eaten ghost (eyes) reaching node `arrived` (whose edges are `inter`): at
/// the house centre it starts reviving; elsewhere it takes the greedy step home.
pub fn eaten_ghost_arrival(
    state: &mut GhostState,
    arrived: NodeId,
    house_center: NodeId,
    inter: &Intersection,
    positions: &Vec<Point>,
) -> (r: EyesStep)
    ensures
        arrived == house_center ==> r == EyesStep::Revive && *final(state) == (GhostState::Reviving {
            remaining_ticks: GHOST_REVIVE_TICKS,
        }),
        arrived != house_center ==> *final(state) == *old(state) && r == (match spec_direction_to_target(
            *inter,
            positions@,
            arrived,
            house_center,
        ) {
            Some((d, e)) => EyesStep::Continue(d, e),
            None => EyesStep::Stuck,
        }),
{
    if arrived == house_center {
        *state = GhostState::Reviving { remaining_ticks: GHOST_REVIVE_TICKS };
        return EyesStep::Revive;
    }
    match find_direction_to_target(inter, positions, arrived, house_center) {
        Some((d, e)) => EyesStep::Continue(d, e),
        None => EyesStep::Stuck,
    }
}

/// One tick of a ghost's state, then its look: returns the new look when it
/// differs from the last one shown (which is then updated), else `None`.
pub fn ghost_state_step(state: &mut GhostState, last: &mut LastAnimationState) -> (r: Option<GhostAnimationState>)
    ensures
        *final(state) == spec_state_tick(*old(state)).0,
        final(last).0 == spec_animation_state(*final(state)),
        r == (if old(last).0 == spec_animation_state(*final(state)) {
            None
        } else {
            Some(spec_animation_state(*final(state)))
        }),
{
    let _ = state.tick();
    let current = state.animation_state();
    if last.0 == current {
        None
    } else {
        last.0 = current;
        Some(current)
    }
}

/// Whether `d` runs along the longer axis of `(dx, dy)` (vertical when the two
/// are equal), towards it.
pub open spec fn spec_straight_towards(d: Direction, dx: int, dy: int) -> bool {
    let adx = if dx < 0 { -dx } else { dx };
    let ady = if dy < 0 { -dy } else { dy };
    if adx > ady {
        spec_unit(d).1 == 0 && spec_along(d, dx, dy) > 0
    } else {
        spec_unit(d).0 == 0 && spec_along(d, dx, dy) > 0
    }
}

/// Eyes heading home go straight towards home along the longer axis whenever
/// the edge that way is open to ghosts; and whatever they take is an open edge
/// that leaves in the direction they report.
pub proof fn lemma_eyes_head_home(
    inter: Intersection,
    positions: Seq<Point>,
    from_node: NodeId,
    target_node: NodeId,
    d: Direction,
)
    requires
        (from_node as int) < positions.len(),
        (target_node as int) < positions.len(),
        spec_straight_towards(
            d,
            positions[target_node as int].x - positions[from_node as int].x,
            positions[target_node as int].y - positions[from_node as int].y,
        ),
        inter.spec_get(d) matches Some(e) && e.ghost_traversable,
    ensures
        spec_direction_to_target(inter, positions, from_node, target_node) == Some((d, inter.spec_get(d).unwrap())),
{
    let f = positions[from_node as int];
    let t = positions[target_node as int];
    let dirs = spec_preferred_dirs(t.x - f.x, t.y - f.y);
    assert(spec_node_point(positions, from_node) == Some(f));
    assert(spec_node_point(positions, target_node) == Some(t));
    let dx = t.x - f.x;
    let dy = t.y - f.y;
    assert(dirs == spec_preferred_dirs(dx, dy));
    let adx = if dx < 0 { -dx } else { dx };
    let ady = if dy < 0 { -dy } else { dy };
    match d {
        Direction::Up => {
            assert(spec_along(d, dx, dy) == -dy);
            assert(!(adx > ady));
            assert(dy < 0);
        },
        Direction::Down => {
            assert(spec_along(d, dx, dy) == dy);
            assert(!(adx > ady));
            assert(dy > 0);
        },
        Direction::Left => {
            assert(spec_along(d, dx, dy) == -dx);
            assert(adx > ady);
            assert(dx < 0);
        },
        Direction::Right => {
            assert(spec_along(d, dx, dy) == dx);
            assert(adx > ady);
            assert(dx > 0);
        },
    }
    assert(dirs[0] == d);
}

/// The greedy step always leaves along an existing edge open to ghosts, in the
/// direction it reports.
pub proof fn lemma_eyes_take_open_edges(dirs: Seq<Direction>, inter: Intersection)
    ensures
        spec_first_ghost_edge(inter, dirs) matches Some((d, e)) ==> inter.spec_get(d) == Some(e) && e.ghost_traversable
            && dirs.contains(d),
    decreases dirs.len(),
{
    if dirs.len() > 0 {
        lemma_eyes_take_open_edges(dirs.drop_first(), inter);
        if let Some((d, e)) = spec_first_ghost_edge(inter, dirs.drop_first()) {
            if dirs.drop_first().contains(d) {
                let j = choose|j: int| 0 <= j < dirs.drop_first().len() && dirs.drop_first()[j] == d;
                assert(dirs[j + 1] == d);
            }
        }
        assert(dirs[0] == dirs[0]);
    }
}

} // verus!
