//! Intersection decisions: which way a ghost turns, and the node nearest a point.

use vstd::prelude::*;

use crate::direction::{spec_opposite, spec_priority, Direction};
use crate::state::stage::NodeId;

use rand::rngs::SmallRng;
use rand::RngCore;
use rand::SeedableRng;

verus! {

/// A pixel position on the maze.
#[derive(Debug, Clone, Copy, PartialEq, Eq, Structural)]
pub struct Point {
    pub x: i32,
    pub y: i32,
}

/// A target point, which may lie off the maze.
#[derive(Debug, Clone, Copy, PartialEq, Eq, Structural)]
pub struct TargetPoint {
    pub x: i64,
    pub y: i64,
}

/// An edge leaving a node.
#[derive(Debug, Clone, Copy, PartialEq, Eq, Structural)]
pub struct Exit {
    /// The node the edge leads to.
    pub target: NodeId,
    /// Whether ghosts may take the edge.
    pub ghost_traversable: bool,
    /// Whether Pac-Man may take the edge.
    pub pacman_traversable: bool,
}

/// The edge as Pac-Man sees it: its ghost permission replaced by his.
pub open spec fn spec_exit_for_pacman(e: Option<Exit>) -> Option<Exit> {
    match e {
        Some(x) => Some(Exit { ghost_traversable: x.pacman_traversable, ..x }),
        None => None,
    }
}

fn exit_for_pacman(e: Option<Exit>) -> (r: Option<Exit>)
    ensures
        r == spec_exit_for_pacman(e),
{
    match e {
        Some(x) => Some(Exit { ghost_traversable: x.pacman_traversable, ..x }),
        None => None,
    }
}

/// The edges leaving a node, by direction.
#[derive(Debug, Clone, Copy, PartialEq, Eq, Structural)]
pub struct Intersection {
    pub up: Option<Exit>,
    pub down: Option<Exit>,
    pub left: Option<Exit>,
    pub right: Option<Exit>,
}

impl Intersection {
    /// The edge leaving in `dir`.
    pub open spec fn spec_get(self, dir: Direction) -> Option<Exit> {
        match dir {
            Direction::Up => self.up,
            Direction::Down => self.down,
            Direction::Left => self.left,
            Direction::Right => self.right,
        }
    }

    /// The intersection with every edge's ghost permission replaced by Pac-Man's,
    /// so that the ghost rules choose among the moves Pac-Man may make.
    pub open spec fn spec_for_pacman(self) -> Intersection {
        Intersection {
            up: spec_exit_for_pacman(self.up),
            down: spec_exit_for_pacman(self.down),
            left: spec_exit_for_pacman(self.left),
            right: spec_exit_for_pacman(self.right),
        }
    }

    /// See `spec_for_pacman`.
    pub fn for_pacman(&self) -> (r: Intersection)
        ensures
            r == self.spec_for_pacman(),
    {
        Intersection {
            up: exit_for_pacman(self.up),
            down: exit_for_pacman(self.down),
            left: exit_for_pacman(self.left),
            right: exit_for_pacman(self.right),
        }
    }

    /// The edge leaving in `dir`, if there is one.
    pub fn get(&self, dir: Direction) -> (r: Option<Exit>)
        ensures
            r == self.spec_get(dir),
    {
        match dir {
            Direction::Up => self.up,
            Direction::Down => self.down,
            Direction::Left => self.left,
            Direction::Right => self.right,
        }
    }
}

/// Nodes where ghosts may not turn up unless frightened (above the house doors).
#[derive(Debug, Clone, Copy)]
pub struct RedZoneNodes(pub [NodeId; 4]);

impl RedZoneNodes {
    /// Red zone nodes from the lookups of their four grid cells; a cell with no
    /// node stands as node 0.
    pub fn from_map(found: [Option<NodeId>; 4]) -> (r: Self)
        ensures
            forall|i: int|
                0 <= i < 4 ==> r.0@[i] == (match found@[i] {
                    Some(n) => n,
                    None => 0u16,
                }),
    {
        let mut nodes: [NodeId; 4] = [0, 0, 0, 0];
        let mut i: usize = 0;
        while i < 4
            invariant
                0 <= i <= 4,
                forall|j: int| i <= j < 4 ==> nodes@[j] == 0u16,
                forall|j: int|
                    0 <= j < i ==> nodes@[j] == (match found@[j] {
                        Some(n) => n,
                        None => 0u16,
                    }),
            decreases 4 - i,
        {
            if let Some(n) = found[i] {
                nodes[i] = n;
            }
            i = i + 1;
        }
        RedZoneNodes(nodes)
    }

    /// Whether `node` is a red zone node.
    pub fn contains(&self, node: NodeId) -> (r: bool)
        ensures
            r == self.0@.contains(node),
    {
        let mut i: usize = 0;
        while i < 4
            invariant
                0 <= i <= 4,
                forall|j: int| 0 <= j < i ==> self.0@[j] != node,
            decreases 4 - i,
        {
            if self.0[i] == node {
                return true;
            }
            i = i + 1;
        }
        false
    }
}

/// Squared distance between a node position and a target point.
pub open spec fn spec_dist_sq(p: Point, t: TargetPoint) -> int {
    (p.x - t.x) * (p.x - t.x) + (p.y - t.y) * (p.y - t.y)
}

/// A target point within reach of the distance arithmetic.
pub open spec fn spec_target_in_range(t: TargetPoint) -> bool {
    -0x4000_0000_0000_0000 <= t.x <= 0x4000_0000_0000_0000 && -0x4000_0000_0000_0000 <= t.y
        <= 0x4000_0000_0000_0000
}

/// Squared distance between a node position and a target point.
pub fn dist_sq(p: Point, t: TargetPoint) -> (r: u128)
    requires
        spec_target_in_range(t),
    ensures
        r == spec_dist_sq(p, t),
{
    let dx: i128 = p.x as i128 - t.x as i128;
    let dy: i128 = p.y as i128 - t.y as i128;
    let ax: u128 = if dx < 0 { (-dx) as u128 } else { dx as u128 };
    let ay: u128 = if dy < 0 { (-dy) as u128 } else { dy as u128 };
    assert(ax * ax <= 0x4000_0000_8000_0000u128 * 0x4000_0000_8000_0000u128) by (nonlinear_arith)
        requires ax <= 0x4000_0000_8000_0000u128;
    assert(ay * ay <= 0x4000_0000_8000_0000u128 * 0x4000_0000_8000_0000u128) by (nonlinear_arith)
        requires ay <= 0x4000_0000_8000_0000u128;
    assert(ax * ax == dx * dx) by (nonlinear_arith)
        requires ax == dx || ax == -dx;
    assert(ay * ay == dy * dy) by (nonlinear_arith)
        requires ay == dy || ay == -dy;
    ax * ax + ay * ay
}

/// The point of a node, if the node exists.
pub open spec fn spec_node_point(positions: Seq<Point>, n: NodeId) -> Option<Point> {
    if (n as int) < positions.len() {
        Some(positions[n as int])
    } else {
        None
    }
}

/// The move in `dir` as a candidate with its squared distance to the target, when
/// it is allowed: not reversing, along a ghost edge, not up out of a red zone
/// unless frightened, and both its end node and the target node exist.
pub open spec fn spec_candidate(
    inter: Intersection,
    positions: Seq<Point>,
    in_red_zone: bool,
    target_node: NodeId,
    current: Direction,
    frightened: bool,
    dir: Direction,
) -> Seq<(Direction, int)> {
    if dir == spec_opposite(current) {
        seq![]
    } else {
        match inter.spec_get(dir) {
            None => seq![],
            Some(e) => if !e.ghost_traversable {
                seq![]
            } else if dir == Direction::Up && !frightened && in_red_zone {
                seq![]
            } else {
                match (spec_node_point(positions, e.target), spec_node_point(positions, target_node)) {
                    (Some(next), Some(t)) => seq![
                        (dir, spec_dist_sq(next, TargetPoint { x: t.x as i64, y: t.y as i64 })),
                    ],
                    _ => seq![],
                }
            },
        }
    }
}

/// The allowed moves, in the order Up, Down, Left, Right.
pub open spec fn spec_candidates(
    inter: Intersection,
    positions: Seq<Point>,
    in_red_zone: bool,
    target_node: NodeId,
    current: Direction,
    frightened: bool,
) -> Seq<(Direction, int)> {
    spec_candidate(inter, positions, in_red_zone, target_node, current, frightened, Direction::Up)
        + spec_candidate(inter, positions, in_red_zone, target_node, current, frightened, Direction::Down)
        + spec_candidate(inter, positions, in_red_zone, target_node, current, frightened, Direction::Left)
        + spec_candidate(inter, positions, in_red_zone, target_node, current, frightened, Direction::Right)
}

/// Whether candidate `a` is at least as good as `b`: closer, or as close with a
/// higher priority.
pub open spec fn spec_no_worse(a: (Direction, int), b: (Direction, int)) -> bool {
    a.1 < b.1 || (a.1 == b.1 && spec_priority(a.0) <= spec_priority(b.0))
}

/// Whether `d` is the best of the candidates.
pub open spec fn spec_is_best(cands: Seq<(Direction, int)>, d: Direction) -> bool {
    exists|i: int|
        0 <= i < cands.len() && cands[i].0 == d && forall|j: int|
            0 <= j < cands.len() ==> spec_no_worse(cands[i], #[trigger] cands[j])
}

/// A random number from a generator seeded by the operating system, or `None`
/// when the operating system cannot supply entropy for the seed.
///
/// Calls `rand::rngs::SmallRng::try_from_os_rng` and then `RngCore::next_u64`.
/// Nothing is stated of the number: it rests on chance.
#[verifier::external_body]
pub(crate) fn random_u64() -> (r: Option<u64>) {
    match SmallRng::try_from_os_rng() {
        Ok(mut rng) => Some(rng.next_u64()),
        Err(_) => None,
    }
}

fn push_candidate(
    cands: &mut Vec<(Direction, u128)>,
    inter: &Intersection,
    positions: &Vec<Point>,
    in_red_zone: bool,
    target_node: NodeId,
    current: Direction,
    frightened: bool,
    dir: Direction,
)
    ensures
        final(cands)@.map_values(|c: (Direction, u128)| (c.0, c.1 as int)) == old(cands)@.map_values(
            |c: (Direction, u128)| (c.0, c.1 as int),
        ) + spec_candidate(*inter, positions@, in_red_zone, target_node, current, frightened, dir),
{
    let ghost before = cands@;
    if dir == current.opposite() {
        return;
    }
    let e = match inter.get(dir) {
        Some(e) => e,
        None => {
            return;
        },
    };
    if !e.ghost_traversable {
        return;
    }
    if dir == Direction::Up && !frightened && in_red_zone {
        return;
    }
    if (e.target as usize) >= positions.len() || (target_node as usize) >= positions.len() {
        proof {
            assert(before.map_values(|c: (Direction, u128)| (c.0, c.1 as int)) + seq![]
                =~= before.map_values(|c: (Direction, u128)| (c.0, c.1 as int)));
        }
        return;
    }
    let next = positions[e.target as usize];
    let t = positions[target_node as usize];
    let d = dist_sq(next, TargetPoint { x: t.x as i64, y: t.y as i64 });
    cands.push((dir, d));
    proof {
        assert(cands@.map_values(|c: (Direction, u128)| (c.0, c.1 as int)) =~= before.map_values(
            |c: (Direction, u128)| (c.0, c.1 as int),
        ) + seq![(dir, d as int)]);
    }
}

/// Whether `r` is the outcome at an intersection: with no allowed move,
/// reversing if an edge lies behind (else nothing); a frightened ghost with a
/// random draw `k` takes allowed move number `k` modulo their count (in the
/// order Up, Down, Left, Right); otherwise the best allowed move.
pub open spec fn spec_direction_choice(
    inter: Intersection,
    positions: Seq<Point>,
    in_red_zone: bool,
    target_node: NodeId,
    current: Direction,
    frightened: bool,
    draw: Option<u64>,
    r: Option<Direction>,
) -> bool {
    let cands = spec_candidates(inter, positions, in_red_zone, target_node, current, frightened);
    if cands.len() == 0 {
        r == (if inter.spec_get(spec_opposite(current)) is Some {
            Some(spec_opposite(current))
        } else {
            None
        })
    } else if frightened && draw is Some {
        r == Some(cands[(draw.unwrap() % (cands.len() as u64)) as int].0)
    } else {
        r matches Some(d) && spec_is_best(cands, d)
    }
}

/// Every allowed move leaves along an edge that exists, does not reverse, and
/// does not turn up out of a red zone unless frightened.
pub proof fn lemma_candidates_have_edges(
    inter: Intersection,
    positions: Seq<Point>,
    in_red_zone: bool,
    target_node: NodeId,
    current: Direction,
    frightened: bool,
    i: int,
)
    requires
        0 <= i < spec_candidates(inter, positions, in_red_zone, target_node, current, frightened).len(),
    ensures
        inter.spec_get(
            spec_candidates(inter, positions, in_red_zone, target_node, current, frightened)[i].0,
        ) is Some,
        spec_candidates(inter, positions, in_red_zone, target_node, current, frightened)[i].0 != spec_opposite(current),
        in_red_zone && !frightened ==> spec_candidates(inter, positions, in_red_zone, target_node, current, frightened)[i].0 != Direction::Up,
{
    let c0 = spec_candidate(inter, positions, in_red_zone, target_node, current, frightened, Direction::Up);
    let c1 = spec_candidate(inter, positions, in_red_zone, target_node, current, frightened, Direction::Down);
    let c2 = spec_candidate(inter, positions, in_red_zone, target_node, current, frightened, Direction::Left);
    let c3 = spec_candidate(inter, positions, in_red_zone, target_node, current, frightened, Direction::Right);
    let all = spec_candidates(inter, positions, in_red_zone, target_node, current, frightened);
    assert(all == c0 + c1 + c2 + c3);
    if i < c0.len() {
        assert(all[i] == c0[i]);
    } else if i < c0.len() + c1.len() {
        assert(all[i] == c1[i - c0.len()]);
    } else if i < c0.len() + c1.len() + c2.len() {
        assert(all[i] == c2[i - c0.len() - c1.len()]);
    } else {
        assert(all[i] == c3[i - c0.len() - c1.len() - c2.len()]);
    }
}

/// The direction a ghost takes at an intersection. Reversing is not allowed, nor
/// leaving along an edge ghosts may not use, nor turning up from a red zone node
/// unless frightened. A frightened ghost given a random draw takes the allowed
/// move the draw picks (the draw modulo the number of allowed moves, in the
/// order Up, Down, Left, Right); otherwise the move whose end node is closest to
/// the target node wins, ties going Up, Left, Down, Right. With no allowed move,
/// the ghost reverses if an edge lies behind it.
pub fn choose_direction_at_intersection(
    inter: &Intersection,
    positions: &Vec<Point>,
    red_zones: &RedZoneNodes,
    current_node: NodeId,
    target_node: NodeId,
    current_direction: Direction,
    is_frightened: bool,
    draw: Option<u64>,
) -> (r: Option<Direction>)
    ensures
        spec_direction_choice(
            *inter,
            positions@,
            red_zones.0@.contains(current_node),
            target_node,
            current_direction,
            is_frightened,
            draw,
            r,
        ),
{
    let in_red_zone = red_zones.contains(current_node);
    let mut cands: Vec<(Direction, u128)> = Vec::new();
    push_candidate(&mut cands, inter, positions, in_red_zone, target_node, current_direction, is_frightened, Direction::Up);
    push_candidate(&mut cands, inter, positions, in_red_zone, target_node, current_direction, is_frightened, Direction::Down);
    push_candidate(&mut cands, inter, positions, in_red_zone, target_node, current_direction, is_frightened, Direction::Left);
    push_candidate(&mut cands, inter, positions, in_red_zone, target_node, current_direction, is_frightened, Direction::Right);
    let ghost spec_cands = spec_candidates(
        *inter,
        positions@,
        in_red_zone,
        target_node,
        current_direction,
        is_frightened,
    );
    proof {
        assert(Seq::<(Direction, u128)>::empty().map_values(|c: (Direction, u128)| (c.0, c.1 as int))
            =~= Seq::<(Direction, int)>::empty());
        assert(cands@.map_values(|c: (Direction, u128)| (c.0, c.1 as int)) =~= spec_cands);
        assert(cands@.len() == spec_cands.len());
        assert forall|i: int| 0 <= i < cands@.len() implies cands@[i].0 == #[trigger] spec_cands[i].0
            && cands@[i].1 as int == spec_cands[i].1 by {
            assert(cands@.map_values(|c: (Direction, u128)| (c.0, c.1 as int))[i] == spec_cands[i]);
        }
    }
    if cands.len() == 0 {
        let opposite = current_direction.opposite();
        return match inter.get(opposite) {
            Some(_) => Some(opposite),
            None => None,
        };
    }
    let cands = cands;
    if is_frightened {
        if let Some(k) = draw {
            let idx = (k % (cands.len() as u64)) as usize;
            proof {
                assert(spec_cands[idx as int].0 == cands@[idx as int].0);
            }
            return Some(cands[idx].0);
        }
    }
    let mut best: usize = 0;
    let mut k: usize = 1;
    while k < cands.len()
        invariant
            1 <= k <= cands.len(),
            best < k,
            cands@.len() == spec_cands.len(),
            forall|i: int| 0 <= i < cands@.len() ==> cands@[i].0 == #[trigger] spec_cands[i].0
                && cands@[i].1 as int == spec_cands[i].1,
            forall|j: int| 0 <= j < k ==> spec_no_worse(spec_cands[best as int], #[trigger] spec_cands[j]),
        decreases cands.len() - k,
    {
        let (bd, bdist) = cands[best];
        let (cd, cdist) = cands[k];
        let ghost old_best = best as int;
        proof {
            assert(spec_cands[old_best].1 == bdist as int && spec_cands[old_best].0 == bd);
            assert(spec_cands[k as int].1 == cdist as int && spec_cands[k as int].0 == cd);
        }
        if cdist < bdist || (cdist == bdist && crate::direction::direction_priority(cd)
            < crate::direction::direction_priority(bd)) {
            best = k;
            proof {
                assert(spec_no_worse(spec_cands[k as int], spec_cands[old_best]));
                assert forall|j: int| 0 <= j <= k implies spec_no_worse(spec_cands[best as int], #[trigger] spec_cands[j]) by {
                    if j < k {
                        assert(spec_no_worse(spec_cands[old_best], spec_cands[j]));
                    }
                }
            }
        } else {
            proof {
                assert(spec_no_worse(spec_cands[old_best], spec_cands[k as int]));
            }
        }
        k = k + 1;
    }
    proof {
        assert(spec_cands[best as int].0 == cands@[best as int].0);
        assert(spec_is_best(spec_cands, cands@[best as int].0));
    }
    Some(cands[best].0)
}

/// Index of the first position closest to the target, among `len` positions
/// (0 when there are none).
pub open spec fn spec_is_nearest(positions: Seq<Point>, target: TargetPoint, i: int) -> bool {
    &&& 0 <= i < positions.len()
    &&& forall|j: int| 0 <= j < positions.len() ==> spec_dist_sq(positions[i], target) <= spec_dist_sq(#[trigger] positions[j], target)
    &&& forall|j: int| 0 <= j < i ==> spec_dist_sq(positions[i], target) < spec_dist_sq(#[trigger] positions[j], target)
}

/// The node closest to a target point: the first node at the least squared
/// distance, or node 0 when there are no nodes.
pub fn find_nearest_node(positions: &Vec<Point>, target: TargetPoint) -> (r: NodeId)
    requires
        spec_target_in_range(target),
    ensures
        positions.len() == 0 ==> r == 0,
        positions.len() > 0 ==> exists|i: int| spec_is_nearest(positions@, target, i) && r == i as u16,
{
    if positions.len() == 0 {
        return 0;
    }
    let mut best: usize = 0;
    let mut best_dist = dist_sq(positions[0], target);
    let mut i: usize = 1;
    while i < positions.len()
        invariant
            1 <= i <= positions.len(),
            best < i,
            spec_target_in_range(target),
            best_dist == spec_dist_sq(positions@[best as int], target),
            forall|j: int| 0 <= j < i ==> best_dist <= spec_dist_sq(#[trigger] positions@[j], target),
            forall|j: int| 0 <= j < best ==> best_dist < spec_dist_sq(#[trigger] positions@[j], target),
        decreases positions.len() - i,
    {
        let d = dist_sq(positions[i], target);
        if d < best_dist {
            best_dist = d;
            best = i;
        }
        i = i + 1;
    }
    proof {
        assert(spec_is_nearest(positions@, target, best as int));
    }
    best as u16
}

/// A ghost reverses only when it has no other allowed move, and never turns up
/// out of a red zone unless frightened (or forced to by having to reverse).
pub proof fn lemma_no_reversal_no_red_zone_turn(
    inter: Intersection,
    positions: Seq<Point>,
    in_red_zone: bool,
    target_node: NodeId,
    current: Direction,
    frightened: bool,
    draw: Option<u64>,
    d: Direction,
)
    requires
        spec_candidates(inter, positions, in_red_zone, target_node, current, frightened).len() > 0,
        spec_direction_choice(inter, positions, in_red_zone, target_node, current, frightened, draw, Some(d)),
    ensures
        d != spec_opposite(current),
        in_red_zone && !frightened ==> d != Direction::Up,
        inter.spec_get(d) is Some,
{
    let cands = spec_candidates(inter, positions, in_red_zone, target_node, current, frightened);
    if frightened && draw is Some {
        let i = (draw.unwrap() % (cands.len() as u64)) as int;
        lemma_candidates_have_edges(inter, positions, in_red_zone, target_node, current, frightened, i);
    } else {
        let i = choose|i: int| 0 <= i < cands.len() && cands[i].0 == d;
        lemma_candidates_have_edges(inter, positions, in_red_zone, target_node, current, frightened, i);
    }
}

} // verus!
