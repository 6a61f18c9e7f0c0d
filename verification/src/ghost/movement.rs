//! Ghost movement decisions: where each ghost aims, how fast it goes, and which
//! edge it takes when it stands on a node.

use vstd::prelude::*;

use crate::direction::Direction;
use crate::ghost::elroy::{elroy_speed, lemma_elroy_is_a_boost, spec_elroy_speed_percent, ElroyStage};
use crate::ghost::mode::ScatterChaseMode;
use crate::ghost::personality::{calculate_chase_target, spec_chase_target, TargetingContext};
use crate::ghost::state::{spec_is_frightened, GhostState};
use crate::ghost::targeting::{
    choose_direction_at_intersection, lemma_no_reversal_no_red_zone_turn, random_u64, spec_candidates,
    spec_direction_choice, Exit, Intersection, Point, RedZoneNodes,
};
use crate::ghost::GhostType;
use crate::state::stage::NodeId;
use crate::direction::spec_opposite;

verus! {

/// The node a ghost is heading for, if it has one.
#[derive(Debug, Default, Clone, Copy, PartialEq, Eq, Structural)]
pub struct GhostTarget(pub Option<NodeId>);

/// Tunnel nodes of a node list given as (node, whether its tile is a tunnel).
pub open spec fn spec_tunnel_nodes(tiles: Seq<(NodeId, bool)>) -> Seq<NodeId>
    decreases tiles.len(),
{
    if tiles.len() == 0 {
        seq![]
    } else {
        let rest = spec_tunnel_nodes(tiles.drop_last());
        if tiles.last().1 {
            rest.push(tiles.last().0)
        } else {
            rest
        }
    }
}

/// Nodes where ghosts slow down (the tunnel).
#[derive(Debug)]
pub struct TunnelNodes(pub Vec<NodeId>);

impl TunnelNodes {
    /// The tunnel nodes, in map order, of a node list given as (node, whether its
    /// tile is a tunnel).
    pub fn from_map(node_tiles: &Vec<(NodeId, bool)>) -> (r: Self)
        ensures
            r.0@ == spec_tunnel_nodes(node_tiles@),
    {
        let mut nodes: Vec<NodeId> = Vec::new();
        let mut i: usize = 0;
        while i < node_tiles.len()
            invariant
                0 <= i <= node_tiles.len(),
                nodes@ == spec_tunnel_nodes(node_tiles@.subrange(0, i as int)),
            decreases node_tiles.len() - i,
        {
            let (node, is_tunnel) = node_tiles[i];
            proof {
                assert(node_tiles@.subrange(0, i + 1).drop_last() =~= node_tiles@.subrange(0, i as int));
            }
            if is_tunnel {
                nodes.push(node);
            }
            i = i + 1;
        }
        proof {
            assert(node_tiles@.subrange(0, node_tiles.len() as int) =~= node_tiles@);
        }
        TunnelNodes(nodes)
    }

    /// Whether `node` is a tunnel node.
    pub fn contains(&self, node: NodeId) -> (r: bool)
        ensures
            r == self.0@.contains(node),
    {
        let mut i: usize = 0;
        while i < self.0.len()
            invariant
                0 <= i <= self.0.len(),
                forall|j: int| 0 <= j < i ==> self.0@[j] != node,
            decreases self.0.len() - i,
        {
            if self.0[i] == node {
                return true;
            }
            i = i + 1;
        }
        false
    }
}

/// Ghost speeds of a level, in percent of full speed.
#[derive(Debug, Clone, Copy, PartialEq, Eq, Structural)]
pub struct GhostSpeedConfig {
    pub normal: u32,
    pub tunnel: u32,
    pub frightened: u32,
}

/// The speed table: level 1 slowest, levels 2-4 and 5-20 faster, and from level
/// 21 on no frightened speed (ghosts no longer turn blue).
pub open spec fn spec_speed_config(level: u8) -> GhostSpeedConfig {
    if level == 1 {
        GhostSpeedConfig { normal: 75, tunnel: 40, frightened: 50 }
    } else if 2 <= level <= 4 {
        GhostSpeedConfig { normal: 85, tunnel: 45, frightened: 55 }
    } else if 5 <= level <= 20 {
        GhostSpeedConfig { normal: 95, tunnel: 50, frightened: 60 }
    } else {
        GhostSpeedConfig { normal: 95, tunnel: 50, frightened: 0 }
    }
}

impl GhostSpeedConfig {
    /// The ghost speeds of `level`.
    pub fn for_level(level: u8) -> (r: Self)
        ensures
            r == spec_speed_config(level),
    {
        if level == 1 {
            GhostSpeedConfig { normal: 75, tunnel: 40, frightened: 50 }
        } else if 2 <= level && level <= 4 {
            GhostSpeedConfig { normal: 85, tunnel: 45, frightened: 55 }
        } else if 5 <= level && level <= 20 {
            GhostSpeedConfig { normal: 95, tunnel: 50, frightened: 60 }
        } else {
            GhostSpeedConfig { normal: 95, tunnel: 50, frightened: 0 }
        }
    }
}

/// Speed in percent: the tunnel slows most, then fright, else normal speed.
pub open spec fn spec_base_speed(
    node: NodeId,
    state: GhostState,
    config: GhostSpeedConfig,
    tunnels: Seq<NodeId>,
) -> u32 {
    if tunnels.contains(node) {
        config.tunnel
    } else if spec_is_frightened(state) {
        config.frightened
    } else {
        config.normal
    }
}

/// The factor an Elroy stage puts on Blinky's speed, as a fraction: the
/// stage's speed over the level's normal speed (one for no Elroy, above one for
/// each stage).
pub open spec fn spec_elroy_fraction(stage: ElroyStage, level: u8) -> (int, int) {
    (spec_elroy_speed_percent(stage, level) as int, spec_elroy_speed_percent(ElroyStage::Off, level) as int)
}

/// A ghost's speed in hundredths of a percent of full speed (10000 is full
/// speed): its base speed (the tunnel slows most, then fright, else normal), and
/// for Blinky with an Elroy stage that times the stage's factor, rounded down.
/// In the open on the level's own table Blinky thus runs at the stage's speed.
pub open spec fn spec_ghost_speed(
    ghost_type: GhostType,
    node: NodeId,
    state: GhostState,
    config: GhostSpeedConfig,
    tunnels: Seq<NodeId>,
    elroy: Option<ElroyStage>,
    level: u8,
) -> int {
    let base = spec_base_speed(node, state, config, tunnels) as int * 100;
    match elroy {
        Some(stage) => if ghost_type == GhostType::Blinky {
            let (num, den) = spec_elroy_fraction(stage, level);
            base * num / den
        } else {
            base
        },
        None => base,
    }
}

fn calculate_speed(node: NodeId, state: &GhostState, config: &GhostSpeedConfig, tunnels: &TunnelNodes) -> (r: u32)
    ensures
        r == spec_base_speed(node, *state, *config, tunnels.0@),
{
    if tunnels.contains(node) {
        return config.tunnel;
    }
    if state.is_frightened() {
        return config.frightened;
    }
    config.normal
}

/// A ghost's speed in hundredths of a percent of full speed; see
/// `spec_ghost_speed`. `elroy` is Blinky's Elroy stage where Blinky has one.
pub fn ghost_speed(
    ghost_type: GhostType,
    node: NodeId,
    state: &GhostState,
    config: &GhostSpeedConfig,
    tunnels: &TunnelNodes,
    elroy: Option<ElroyStage>,
    level: u8,
) -> (r: u64)
    ensures
        r == spec_ghost_speed(ghost_type, node, *state, *config, tunnels.0@, elroy, level),
{
    let base: u64 = calculate_speed(node, state, config, tunnels) as u64 * 100;
    match elroy {
        Some(stage) => if ghost_type == GhostType::Blinky {
            let num = elroy_speed(stage, level) as u64;
            let den = elroy_speed(ElroyStage::Off, level) as u64;
            assert(base * num <= 0xffff_ffff * 100 * 105) by (nonlinear_arith)
                requires base <= 0xffff_ffff * 100, num <= 105;
            base * num / den
        } else {
            base
        },
        None => base,
    }
}

/// Elroy only ever speeds Blinky up: in every state and place his speed in a
/// stage is at least his speed without Elroy. On the level's own speed table, in
/// the open (not in the tunnel, not frightened), each stage is strictly faster
/// than a ghost at normal speed, the second faster than the first, and he runs
/// at exactly the stage's speed.
pub proof fn lemma_elroy_blinky_outruns(node: NodeId, state: GhostState, config: GhostSpeedConfig, tunnels: Seq<NodeId>, level: u8, stage: ElroyStage)
    ensures
        spec_ghost_speed(GhostType::Blinky, node, state, config, tunnels, Some(stage), level) >= spec_ghost_speed(
            GhostType::Blinky,
            node,
            state,
            config,
            tunnels,
            None,
            level,
        ),
        ({
            let cfg = spec_speed_config(level);
            let normal = spec_ghost_speed(GhostType::Pinky, node, state, cfg, tunnels, None, level);
            let s1 = spec_ghost_speed(GhostType::Blinky, node, state, cfg, tunnels, Some(ElroyStage::Stage1), level);
            let s2 = spec_ghost_speed(GhostType::Blinky, node, state, cfg, tunnels, Some(ElroyStage::Stage2), level);
            !tunnels.contains(node) && !spec_is_frightened(state) ==> {
                &&& s1 == spec_elroy_speed_percent(ElroyStage::Stage1, level) * 100
                &&& s2 == spec_elroy_speed_percent(ElroyStage::Stage2, level) * 100
                &&& s1 > normal
                &&& s2 > s1
                &&& spec_ghost_speed(GhostType::Blinky, node, state, cfg, tunnels, Some(ElroyStage::Off), level) == normal
            }
        }),
{
    lemma_elroy_is_a_boost(level);
    let den = spec_elroy_speed_percent(ElroyStage::Off, level) as int;
    let num = spec_elroy_speed_percent(stage, level) as int;
    assert(den >= 75);
    assert(num >= den);
    let base = spec_base_speed(node, state, config, tunnels) as int * 100;
    assert(base * den <= base * num) by (nonlinear_arith)
        requires base >= 0, den <= num;
    vstd::arithmetic::div_mod::lemma_div_multiples_vanish(base, den);
    assert(den * base == base * den) by (nonlinear_arith);
    vstd::arithmetic::div_mod::lemma_div_is_ordered(base * den, base * num, den);
    if !tunnels.contains(node) && !spec_is_frightened(state) {
        let cfg = spec_speed_config(level);
        let n = cfg.normal as int * 100;
        assert(n == den * 100);
        let e1 = spec_elroy_speed_percent(ElroyStage::Stage1, level) as int;
        let e2 = spec_elroy_speed_percent(ElroyStage::Stage2, level) as int;
        assert(n * e1 == den * (100 * e1)) by (nonlinear_arith)
            requires n == den * 100;
        assert(n * e2 == den * (100 * e2)) by (nonlinear_arith)
            requires n == den * 100;
        assert(n * den == den * n) by (nonlinear_arith);
        vstd::arithmetic::div_mod::lemma_div_multiples_vanish(100 * e1, den);
        vstd::arithmetic::div_mod::lemma_div_multiples_vanish(100 * e2, den);
        vstd::arithmetic::div_mod::lemma_div_multiples_vanish(n, den);
    }
}

/// The scatter corner node of each ghost.
#[derive(Debug, Clone, Copy, PartialEq, Eq, Structural)]
pub struct ScatterTargets {
    pub blinky: NodeId,
    pub pinky: NodeId,
    pub inky: NodeId,
    pub clyde: NodeId,
}

impl ScatterTargets {
    /// The corner of `ghost_type`.
    pub open spec fn spec_get(self, ghost_type: GhostType) -> NodeId {
        match ghost_type {
            GhostType::Blinky => self.blinky,
            GhostType::Pinky => self.pinky,
            GhostType::Inky => self.inky,
            GhostType::Clyde => self.clyde,
        }
    }
}

/// The scatter corner of a ghost.
pub fn get_scatter_target(ghost_type: GhostType, targets: &ScatterTargets) -> (r: NodeId)
    ensures
        r == targets.spec_get(ghost_type),
{
    match ghost_type {
        GhostType::Blinky => targets.blinky,
        GhostType::Pinky => targets.pinky,
        GhostType::Inky => targets.inky,
        GhostType::Clyde => targets.clyde,
    }
}

/// The mode a ghost follows: Blinky in Elroy mode always chases.
pub open spec fn spec_effective_mode(
    ghost_type: GhostType,
    mode: ScatterChaseMode,
    elroy: Option<ElroyStage>,
) -> ScatterChaseMode {
    match elroy {
        Some(stage) => if ghost_type == GhostType::Blinky && stage != ElroyStage::Off {
            ScatterChaseMode::Chase
        } else {
            mode
        },
        None => mode,
    }
}

/// Whether `r` is the target of a ghost: none unless active and not frightened;
/// in scatter its corner; in chase its personality's target, where Clyde's
/// signal (his own node) sends him to his corner.
pub open spec fn spec_ghost_target(
    ghost_type: GhostType,
    state: GhostState,
    mode: ScatterChaseMode,
    elroy: Option<ElroyStage>,
    ctx: TargetingContext,
    positions: Seq<Point>,
    scatter: ScatterTargets,
    r: Option<NodeId>,
) -> bool {
    if !(state is Active) || spec_is_frightened(state) {
        r is None
    } else {
        match spec_effective_mode(ghost_type, mode, elroy) {
            ScatterChaseMode::Scatter => r == Some(scatter.spec_get(ghost_type)),
            ScatterChaseMode::Chase => exists|c: NodeId|
                spec_chase_target(ghost_type, ctx, positions, c) && r == Some(
                    if c == ctx.self_node && ghost_type == GhostType::Clyde {
                        scatter.clyde
                    } else {
                        c
                    },
                ),
        }
    }
}

/// The target of one ghost; `elroy` is Blinky's Elroy stage where Blinky has one.
pub fn ghost_target(
    ghost_type: GhostType,
    state: &GhostState,
    mode: ScatterChaseMode,
    elroy: Option<ElroyStage>,
    ctx: &TargetingContext,
    positions: &Vec<Point>,
    scatter: &ScatterTargets,
) -> (r: Option<NodeId>)
    ensures
        spec_ghost_target(ghost_type, *state, mode, elroy, *ctx, positions@, *scatter, r),
{
    if !state.is_active() || state.is_frightened() {
        return None;
    }
    let effective = match elroy {
        Some(stage) => if ghost_type == GhostType::Blinky && stage != ElroyStage::Off {
            ScatterChaseMode::Chase
        } else {
            mode
        },
        None => mode,
    };
    match effective {
        ScatterChaseMode::Scatter => Some(get_scatter_target(ghost_type, scatter)),
        ScatterChaseMode::Chase => {
            let c = calculate_chase_target(ghost_type, ctx, positions);
            if c == ctx.self_node && ghost_type == GhostType::Clyde {
                Some(get_scatter_target(GhostType::Clyde, scatter))
            } else {
                Some(c)
            }
        },
    }
}

/// What targeting reads of Pac-Man.
#[derive(Debug, Clone, Copy, PartialEq, Eq, Structural)]
pub struct PacmanView {
    pub node: NodeId,
    pub position: Point,
    pub direction: Direction,
}

/// What targeting reads and writes of a ghost.
#[derive(Debug, Clone, Copy, PartialEq, Eq, Structural)]
pub struct GhostView {
    pub ghost_type: GhostType,
    pub state: GhostState,
    pub node: NodeId,
    pub position: Point,
    pub target: GhostTarget,
}

/// The targeting context of a ghost; a missing Blinky stands at the origin.
pub open spec fn spec_context(pac: PacmanView, blinky: Option<Point>, g: GhostView) -> TargetingContext {
    TargetingContext {
        pacman_node: pac.node,
        pacman_direction: pac.direction,
        pacman_position: pac.position,
        blinky_position: match blinky {
            Some(p) => p,
            None => Point { x: 0, y: 0 },
        },
        self_node: g.node,
        self_position: g.position,
    }
}

/// Updates every ghost's target. Without Pac-Man nothing changes; otherwise each
/// ghost's target is set as `ghost_target` decides and nothing else changes.
pub fn ghost_targeting_system(
    positions: &Vec<Point>,
    mode: ScatterChaseMode,
    pacman: Option<PacmanView>,
    blinky_position: Option<Point>,
    elroy: Option<ElroyStage>,
    scatter: &ScatterTargets,
    ghosts: &mut Vec<GhostView>,
)
    ensures
        pacman is None ==> final(ghosts)@ == old(ghosts)@,
        final(ghosts)@.len() == old(ghosts)@.len(),
        pacman matches Some(pac) ==> forall|i: int|
            0 <= i < old(ghosts)@.len() ==> {
                let g = #[trigger] old(ghosts)@[i];
                let n = final(ghosts)@[i];
                &&& n == (GhostView { target: n.target, ..g })
                &&& spec_ghost_target(
                    g.ghost_type,
                    g.state,
                    mode,
                    elroy,
                    spec_context(pac, blinky_position, g),
                    positions@,
                    *scatter,
                    n.target.0,
                )
            },
{
    let pac = match pacman {
        Some(p) => p,
        None => {
            return;
        },
    };
    let blinky = match blinky_position {
        Some(p) => p,
        None => Point { x: 0, y: 0 },
    };
    let ghost g0 = ghosts@;
    let mut i: usize = 0;
    while i < ghosts.len()
        invariant
            0 <= i <= ghosts.len(),
            ghosts.len() == g0.len(),
            blinky == (match blinky_position {
                Some(p) => p,
                None => Point { x: 0, y: 0 },
            }),
            forall|j: int| i <= j < g0.len() ==> ghosts@[j] == g0[j],
            forall|j: int|
                0 <= j < i ==> {
                    let g = #[trigger] g0[j];
                    let n = ghosts@[j];
                    &&& n == (GhostView { target: n.target, ..g })
                    &&& spec_ghost_target(
                        g.ghost_type,
                        g.state,
                        mode,
                        elroy,
                        spec_context(pac, blinky_position, g),
                        positions@,
                        *scatter,
                        n.target.0,
                    )
                },
        decreases ghosts.len() - i,
    {
        let g = ghosts[i];
        let ctx = TargetingContext {
            pacman_node: pac.node,
            pacman_direction: pac.direction,
            pacman_position: pac.position,
            blinky_position: blinky,
            self_node: g.node,
            self_position: g.position,
        };
        let t = ghost_target(g.ghost_type, &g.state, mode, elroy, &ctx, positions, scatter);
        ghosts.set(i, GhostView { target: GhostTarget(t), ..g });
        i = i + 1;
    }
}

/// Whether `r` is the departure from `node` for a draw: the direction
/// `spec_direction_choice` gives towards the ghost's target (its own node when
/// it has none), paired with the edge leaving that way.
pub open spec fn spec_departure(
    inter: Intersection,
    positions: Seq<Point>,
    red_zones: RedZoneNodes,
    node: NodeId,
    target: GhostTarget,
    direction: Direction,
    state: GhostState,
    draw: Option<u64>,
    r: Option<(Direction, Exit)>,
) -> bool {
    let target_node = match target.0 {
        Some(t) => t,
        None => node,
    };
    let choice = match r {
        Some((d, _)) => Some(d),
        None => None,
    };
    &&& spec_direction_choice(
        inter,
        positions,
        red_zones.0@.contains(node),
        target_node,
        direction,
        spec_is_frightened(state),
        draw,
        choice,
    )
    &&& (r matches Some((d, e)) ==> inter.spec_get(d) == Some(e))
}

/// The edge an active ghost standing on `node` (whose edges are `inter`) takes
/// next, for a given random draw (which only a frightened ghost uses); see
/// `spec_departure`.
pub fn depart_node_with_draw(
    inter: &Intersection,
    positions: &Vec<Point>,
    red_zones: &RedZoneNodes,
    node: NodeId,
    target: GhostTarget,
    direction: Direction,
    state: &GhostState,
    draw: Option<u64>,
) -> (r: Option<(Direction, Exit)>)
    ensures
        spec_departure(*inter, positions@, *red_zones, node, target, direction, *state, draw, r),
{
    let target_node = match target.0 {
        Some(t) => t,
        None => node,
    };
    let frightened = state.is_frightened();
    let choice = choose_direction_at_intersection(
        inter,
        positions,
        red_zones,
        node,
        target_node,
        direction,
        frightened,
        draw,
    );
    match choice {
        None => None,
        Some(d) => {
            proof {
                let in_red = red_zones.0@.contains(node);
                let cands = spec_candidates(*inter, positions@, in_red, target_node, direction, frightened);
                if cands.len() > 0 {
                    lemma_no_reversal_no_red_zone_turn(
                        *inter,
                        positions@,
                        in_red,
                        target_node,
                        direction,
                        frightened,
                        draw,
                        d,
                    );
                }
            }
            match inter.get(d) {
                Some(e) => Some((d, e)),
                None => None,
            }
        },
    }
}

/// The edge an active ghost standing on `node` takes next. A frightened ghost
/// draws a random number (from a generator the operating system seeds) to pick
/// its move; other ghosts draw nothing and head for their target. Should no
/// seed be had, the frightened ghost moves as if it had drawn nothing.
pub fn depart_node(
    inter: &Intersection,
    positions: &Vec<Point>,
    red_zones: &RedZoneNodes,
    node: NodeId,
    target: GhostTarget,
    direction: Direction,
    state: &GhostState,
) -> (r: Option<(Direction, Exit)>)
    ensures
        exists|draw: Option<u64>|
            (draw is Some ==> spec_is_frightened(*state)) && #[trigger] spec_departure(
                *inter,
                positions@,
                *red_zones,
                node,
                target,
                direction,
                *state,
                draw,
                r,
            ),
{
    let draw = if state.is_frightened() {
        random_u64()
    } else {
        None
    };
    let r = depart_node_with_draw(inter, positions, red_zones, node, target, direction, state, draw);
    proof {
        assert(spec_departure(*inter, positions@, *red_zones, node, target, direction, *state, draw, r));
    }
    r
}

} // verus!
