//! The stand-in player of the attract demo: heads for the nearest pellet.

use vstd::prelude::*;

use crate::direction::Direction;
use crate::events::{GameCommand, GameEvent};
use crate::ghost::targeting::{
    choose_direction_at_intersection, dist_sq, spec_direction_choice, spec_dist_sq, spec_node_point,
    Intersection, Point, RedZoneNodes, TargetPoint,
};
use crate::state::stage::NodeId;

verus! {

/// Squared distance from `origin` to the position of `node`.
pub open spec fn spec_node_dist(positions: Seq<Point>, origin: Point, node: NodeId) -> int {
    spec_dist_sq(positions[node as int], TargetPoint { x: origin.x as i64, y: origin.y as i64 })
}

/// Whether pellet `k` is the first of the nearest pellets (among those whose
/// node has a position) to `origin`.
pub open spec fn spec_nearest_pellet(positions: Seq<Point>, origin: Point, pellets: Seq<NodeId>, k: int) -> bool {
    &&& 0 <= k < pellets.len()
    &&& (pellets[k] as int) < positions.len()
    &&& forall|j: int|
        0 <= j < pellets.len() && (#[trigger] pellets[j] as int) < positions.len() ==> spec_node_dist(positions, origin, pellets[k])
            <= spec_node_dist(positions, origin, pellets[j])
    &&& forall|j: int|
        0 <= j < k && (#[trigger] pellets[j] as int) < positions.len() ==> spec_node_dist(positions, origin, pellets[k])
            < spec_node_dist(positions, origin, pellets[j])
}

/// The node of the pellet nearest to node `from` (the first of equals); `None`
/// when `from` or every pellet's node has no position.
pub fn nearest_pellet_node(positions: &Vec<Point>, from: NodeId, pellets: &Vec<NodeId>) -> (r: Option<NodeId>)
    ensures
        spec_node_point(positions@, from) is None ==> r is None,
        spec_node_point(positions@, from) matches Some(o) ==> (r is None <==> forall|j: int|
            0 <= j < pellets@.len() ==> (#[trigger] pellets@[j] as int) >= positions@.len()),
        (from as int) < positions@.len() ==> (r matches Some(n) ==> exists|k: int|
            #[trigger] spec_nearest_pellet(positions@, positions@[from as int], pellets@, k) && pellets@[k] == n),
{
    if (from as usize) >= positions.len() {
        return None;
    }
    let origin = positions[from as usize];
    let t = TargetPoint { x: origin.x as i64, y: origin.y as i64 };
    let mut best: Option<(usize, u128)> = None;
    let mut i: usize = 0;
    while i < pellets.len()
        invariant
            0 <= i <= pellets.len(),
            (from as int) < positions@.len(),
            origin == positions@[from as int],
            t == (TargetPoint { x: origin.x as i64, y: origin.y as i64 }),
            best is None <==> forall|j: int| 0 <= j < i ==> (#[trigger] pellets@[j] as int) >= positions@.len(),
            best matches Some(b) ==> {
                &&& b.0 < i
                &&& (pellets@[b.0 as int] as int) < positions@.len()
                &&& b.1 == spec_node_dist(positions@, origin, pellets@[b.0 as int])
                &&& forall|j: int|
                    0 <= j < i && (#[trigger] pellets@[j] as int) < positions@.len() ==> b.1 <= spec_node_dist(positions@, origin, pellets@[j])
                &&& forall|j: int|
                    0 <= j < b.0 && (#[trigger] pellets@[j] as int) < positions@.len() ==> b.1 < spec_node_dist(positions@, origin, pellets@[j])
            },
        decreases pellets.len() - i,
    {
        let node = pellets[i];
        if (node as usize) < positions.len() {
            let d = dist_sq(positions[node as usize], t);
            match best {
                None => {
                    best = Some((i, d));
                },
                Some((_, bd)) => {
                    if d < bd {
                        best = Some((i, d));
                    }
                },
            }
        }
        i = i + 1;
    }
    proof {
        assert(spec_node_point(positions@, from) == Some(origin));
    }
    match best {
        None => None,
        Some((k, _)) => {
            let n = pellets[k];
            proof {
                assert(spec_nearest_pellet(positions@, origin, pellets@, k as int));
                assert(pellets@[k as int] == n);
            }
            Some(n)
        },
    }
}

/// Whether `r` is what the demo player asks for: where it stands on a node with
/// a position and some pellet is reachable by position, the move the ghost
/// rules would choose towards the nearest pellet along edges Pac-Man may take,
/// with no red zone and no fright; otherwise nothing.
pub open spec fn spec_ai_move(
    inter: Intersection,
    positions: Seq<Point>,
    node: NodeId,
    direction: Direction,
    target: Option<NodeId>,
    r: Option<GameEvent>,
) -> bool {
    match target {
        None => r is None,
        Some(t) => exists|d: Option<Direction>|
            spec_direction_choice(inter.spec_for_pacman(), positions, false, t, direction, false, None, d) && r == match d {
                Some(x) => Some(GameEvent::Command(GameCommand::MovePlayer(x))),
                None => None,
            },
    }
}

/// The demo player's move: for a player (standing on `node`, whose edges are
/// `inter`, heading `direction`; `None` when there is none or it is frozen),
/// steer towards the nearest pellet.
pub fn ai_player_system(
    inter: &Intersection,
    positions: &Vec<Point>,
    player: Option<(NodeId, Direction)>,
    pellets: &Vec<NodeId>,
) -> (r: Option<GameEvent>)
    ensures
        player is None ==> r is None,
        player matches Some((node, direction)) ==> exists|target: Option<NodeId>|
            ({
                &&& (spec_node_point(positions@, node) is None ==> target is None)
                &&& (spec_node_point(positions@, node) matches Some(o) ==> (target is None <==> forall|j: int|
                    0 <= j < pellets@.len() ==> (#[trigger] pellets@[j] as int) >= positions@.len()))
                &&& ((node as int) < positions@.len() ==> (target matches Some(n) ==> exists|k: int|
                    #[trigger] spec_nearest_pellet(positions@, positions@[node as int], pellets@, k) && pellets@[k] == n))
                &&& spec_ai_move(*inter, positions@, node, direction, target, r)
            }),
{
    let (node, direction) = match player {
        Some(p) => p,
        None => {
            return None;
        },
    };
    let target = nearest_pellet_node(positions, node, pellets);
    let t = match target {
        Some(t) => t,
        None => {
            proof {
                assert(spec_ai_move(*inter, positions@, node, direction, target, None));
            }
            return None;
        },
    };
    let other: NodeId = if node == 0 { 1 } else { 0 };
    let no_red_zone = RedZoneNodes([other, other, other, other]);
    proof {
        assert(!no_red_zone.0@.contains(node)) by {
            if no_red_zone.0@.contains(node) {
                let j = choose|j: int| 0 <= j < 4 && no_red_zone.0@[j] == node;
            }
        }
    }
    let pac_inter = inter.for_pacman();
    let d = choose_direction_at_intersection(&pac_inter, positions, &no_red_zone, node, t, direction, false, None);
    let r = match d {
        Some(x) => Some(GameEvent::Command(GameCommand::MovePlayer(x))),
        None => None,
    };
    proof {
        assert(spec_direction_choice(inter.spec_for_pacman(), positions@, false, t, direction, false, None, d));
        assert(spec_ai_move(*inter, positions@, node, direction, target, r));
    }
    r
}

} // verus!
