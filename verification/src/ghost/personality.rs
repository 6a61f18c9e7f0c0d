//! Chase targets of the four personalities: Blinky, Pinky, Inky and Clyde.

use vstd::prelude::*;

use crate::direction::{spec_along, spec_unit, Direction};
use crate::ghost::targeting::{
    dist_sq, find_nearest_node, spec_dist_sq, spec_is_nearest, Point, TargetPoint,
};
use crate::ghost::GhostType;
use crate::state::stage::NodeId;

verus! {

/// Side of a maze tile, in pixels.
pub const TILE_SIZE: i64 = 8;

/// Squared distance, in pixels, below which Clyde gives up the chase (eight tiles).
pub const CLYDE_SHY_DISTANCE_SQ: u128 = 4096;

/// What chase targeting needs to know.
#[derive(Debug, Clone, Copy)]
pub struct TargetingContext {
    /// Pac-Man's current node.
    pub pacman_node: NodeId,
    /// Pac-Man's current direction.
    pub pacman_direction: Direction,
    /// Pac-Man's pixel position.
    pub pacman_position: Point,
    /// Blinky's pixel position (Inky's target depends on it).
    pub blinky_position: Point,
    /// This ghost's current node.
    pub self_node: NodeId,
    /// This ghost's pixel position.
    pub self_position: Point,
}

/// The point `tiles` tiles ahead of `p` when facing `dir`. Facing up also
/// shifts the point as far to the left, as the arcade machine's overflow did.
pub open spec fn spec_ahead(p: Point, dir: Direction, tiles: int) -> (int, int) {
    let d = tiles * TILE_SIZE;
    match dir {
        Direction::Up => (p.x - d, p.y - d),
        Direction::Down => (p.x as int, p.y + d),
        Direction::Left => (p.x - d, p.y as int),
        Direction::Right => (p.x + d, p.y as int),
    }
}

/// Pinky's target point: four tiles ahead of Pac-Man.
pub open spec fn spec_pinky_point(ctx: TargetingContext) -> TargetPoint {
    let (x, y) = spec_ahead(ctx.pacman_position, ctx.pacman_direction, 4);
    TargetPoint { x: x as i64, y: y as i64 }
}

/// Inky's target point: the vector from Blinky to two tiles ahead of Pac-Man,
/// doubled.
pub open spec fn spec_inky_point(ctx: TargetingContext) -> TargetPoint {
    let (ix, iy) = spec_ahead(ctx.pacman_position, ctx.pacman_direction, 2);
    let b = ctx.blinky_position;
    TargetPoint { x: (b.x + 2 * (ix - b.x)) as i64, y: (b.y + 2 * (iy - b.y)) as i64 }
}

/// Whether `r` is the node nearest to `t` (node 0 on an empty map).
pub open spec fn spec_nearest(positions: Seq<Point>, t: TargetPoint, r: NodeId) -> bool {
    if positions.len() == 0 {
        r == 0
    } else {
        exists|i: int| spec_is_nearest(positions, t, i) && r == i as u16
    }
}

/// Clyde chases only while at least eight tiles from Pac-Man.
pub open spec fn spec_clyde_chases(ctx: TargetingContext) -> bool {
    spec_dist_sq(
        ctx.self_position,
        TargetPoint { x: ctx.pacman_position.x as i64, y: ctx.pacman_position.y as i64 },
    ) >= CLYDE_SHY_DISTANCE_SQ
}

/// Whether `r` is the chase target of `ghost_type`. Clyde, when close to
/// Pac-Man, answers with his own node, a signal to use his scatter corner.
pub open spec fn spec_chase_target(
    ghost_type: GhostType,
    ctx: TargetingContext,
    positions: Seq<Point>,
    r: NodeId,
) -> bool {
    match ghost_type {
        GhostType::Blinky => r == ctx.pacman_node,
        GhostType::Pinky => spec_nearest(positions, spec_pinky_point(ctx), r),
        GhostType::Inky => spec_nearest(positions, spec_inky_point(ctx), r),
        GhostType::Clyde => r == (if spec_clyde_chases(ctx) {
            ctx.pacman_node
        } else {
            ctx.self_node
        }),
    }
}

fn ahead(p: Point, dir: Direction, tiles: i64) -> (r: (i64, i64))
    requires
        0 <= tiles <= 4,
    ensures
        r.0 as int == spec_ahead(p, dir, tiles as int).0,
        r.1 as int == spec_ahead(p, dir, tiles as int).1,
{
    let d: i64 = tiles * TILE_SIZE;
    let x: i64 = p.x as i64;
    let y: i64 = p.y as i64;
    match dir {
        Direction::Up => (x - d, y - d),
        Direction::Down => (x, y + d),
        Direction::Left => (x - d, y),
        Direction::Right => (x + d, y),
    }
}

/// Blinky targets Pac-Man himself.
fn blinky_chase_target(ctx: &TargetingContext) -> (r: NodeId)
    ensures
        r == ctx.pacman_node,
{
    ctx.pacman_node
}

/// Pinky ambushes: the node nearest four tiles ahead of Pac-Man.
fn pinky_chase_target(ctx: &TargetingContext, positions: &Vec<Point>) -> (r: NodeId)
    ensures
        spec_nearest(positions@, spec_pinky_point(*ctx), r),
{
    let (x, y) = ahead(ctx.pacman_position, ctx.pacman_direction, 4);
    find_nearest_node(positions, TargetPoint { x, y })
}

/// Inky: the node nearest the doubled vector from Blinky to two tiles ahead of
/// Pac-Man.
fn inky_chase_target(ctx: &TargetingContext, positions: &Vec<Point>) -> (r: NodeId)
    ensures
        spec_nearest(positions@, spec_inky_point(*ctx), r),
{
    let (ix, iy) = ahead(ctx.pacman_position, ctx.pacman_direction, 2);
    let bx: i64 = ctx.blinky_position.x as i64;
    let by: i64 = ctx.blinky_position.y as i64;
    let t = TargetPoint { x: bx + 2 * (ix - bx), y: by + 2 * (iy - by) };
    find_nearest_node(positions, t)
}

/// Clyde chases Pac-Man from afar and turns back to his corner (signalled by his
/// own node) within eight tiles.
fn clyde_chase_target(ctx: &TargetingContext) -> (r: NodeId)
    ensures
        r == (if spec_clyde_chases(*ctx) {
            ctx.pacman_node
        } else {
            ctx.self_node
        }),
{
    let pac = TargetPoint {
        x: ctx.pacman_position.x as i64,
        y: ctx.pacman_position.y as i64,
    };
    if dist_sq(ctx.self_position, pac) >= CLYDE_SHY_DISTANCE_SQ {
        ctx.pacman_node
    } else {
        ctx.self_node
    }
}

/// The chase target of a ghost personality; `positions` holds the pixel
/// position of each node, by node id.
pub fn calculate_chase_target(
    ghost_type: GhostType,
    ctx: &TargetingContext,
    positions: &Vec<Point>,
) -> (r: NodeId)
    ensures
        spec_chase_target(ghost_type, *ctx, positions@, r),
{
    match ghost_type {
        GhostType::Blinky => blinky_chase_target(ctx),
        GhostType::Pinky => pinky_chase_target(ctx, positions),
        GhostType::Inky => inky_chase_target(ctx, positions),
        GhostType::Clyde => clyde_chase_target(ctx),
    }
}

/// The point `tiles` tiles ahead of Pac-Man lies that many tiles (8 pixels
/// each) along his facing direction. Facing down, left or right it lies straight
/// ahead; facing up it is also shifted as far to the left (the arcade overflow).
pub proof fn lemma_ahead_is_ahead(p: Point, dir: Direction, tiles: int)
    ensures
        ({
            let (x, y) = spec_ahead(p, dir, tiles);
            let (dx, dy) = (x - p.x, y - p.y);
            &&& spec_along(dir, dx, dy) == 8 * tiles
            &&& (dir != Direction::Up && spec_unit(dir).0 == 0 ==> dx == 0)
            &&& (spec_unit(dir).1 == 0 ==> dy == 0)
            &&& (dir == Direction::Up ==> dx == -8 * tiles)
        }),
{
}

/// Pinky aims four tiles (32 pixels) along Pac-Man's facing direction from
/// him, straight ahead unless he faces up; Inky's intermediate point is two
/// tiles ahead, and his target is Blinky's position plus twice the vector from
/// Blinky to that point.
pub proof fn lemma_ambush_points(ctx: TargetingContext)
    ensures
        ({
            let p = ctx.pacman_position;
            let t = spec_pinky_point(ctx);
            let u = spec_unit(ctx.pacman_direction);
            &&& spec_along(ctx.pacman_direction, t.x - p.x, t.y - p.y) == 32
            &&& (ctx.pacman_direction != Direction::Up && u.0 == 0 ==> t.x == p.x)
            &&& (u.1 == 0 ==> t.y == p.y)
            &&& (ctx.pacman_direction == Direction::Up ==> t.x == p.x - 32 && t.y == p.y - 32)
        }),
        ({
            let p = ctx.pacman_position;
            let b = ctx.blinky_position;
            let t = spec_inky_point(ctx);
            let (ix, iy) = spec_ahead(p, ctx.pacman_direction, 2);
            &&& spec_along(ctx.pacman_direction, ix - p.x, iy - p.y) == 16
            &&& t.x - b.x == 2 * (ix - b.x)
            &&& t.y - b.y == 2 * (iy - b.y)
        }),
{
}

/// Blinky chases Pac-Man's own node; Clyde chases it while at least eight
/// tiles (64 pixels) away from Pac-Man and otherwise names his own node, the
/// signal to head for his corner.
pub proof fn lemma_blinky_and_clyde(ctx: TargetingContext, positions: Seq<Point>, r: NodeId)
    ensures
        spec_chase_target(GhostType::Blinky, ctx, positions, r) <==> r == ctx.pacman_node,
        ({
            let dx = ctx.self_position.x - ctx.pacman_position.x;
            let dy = ctx.self_position.y - ctx.pacman_position.y;
            spec_chase_target(GhostType::Clyde, ctx, positions, r) <==> r == (if dx * dx + dy * dy >= 64 * 64 {
                ctx.pacman_node
            } else {
                ctx.self_node
            })
        }),
{
}

} // verus!
