//! Building the ghosts' animations from named atlas tiles.

use vstd::prelude::*;

use crate::animation::{DirectionalAnimation, LinearAnimation};
use crate::ghost::{GhostAnimations, GhostType};
use crate::texture::{AtlasTile, SpriteAtlas, TextureError};

verus! {

/// Tile strips per heading.
#[derive(Debug, Clone)]
pub struct DirectionalTiles {
    pub up: Vec<AtlasTile>,
    pub down: Vec<AtlasTile>,
    pub left: Vec<AtlasTile>,
    pub right: Vec<AtlasTile>,
}

/// Tile names per heading.
#[derive(Debug, Clone)]
pub struct DirectionalNames {
    pub up: Vec<String>,
    pub down: Vec<String>,
    pub left: Vec<String>,
    pub right: Vec<String>,
}

/// The atlas names of every ghost tile.
#[derive(Debug, Clone)]
pub struct GhostSpriteNames {
    /// The eyes, one tile per heading.
    pub eyes: DirectionalNames,
    /// Each personality's body, two tiles per heading.
    pub normal: Vec<(GhostType, DirectionalNames)>,
    /// The two blue frightened tiles.
    pub blue_a: String,
    pub blue_b: String,
    /// The two white frightened tiles.
    pub white_a: String,
    pub white_b: String,
}

/// Ticks per frame of the ghost animations.
#[derive(Debug, Clone, Copy)]
pub struct GhostAnimationSpeeds {
    /// Eyes heading home.
    pub eaten: u16,
    /// Bodies, and the steady frightened strip.
    pub normal: u16,
    /// The flashing frightened strip.
    pub frightened: u16,
}

/// The tiles of `names`, in order, if every one is in the atlas.
pub open spec fn spec_tiles_of<T>(atlas: SpriteAtlas<T>, names: Seq<String>) -> Option<Seq<AtlasTile>>
    decreases names.len(),
{
    if names.len() == 0 {
        Some(seq![])
    } else {
        match (spec_tiles_of(atlas, names.drop_last()), atlas.spec_tile_of(names.last()@)) {
            (Some(rest), Some(t)) => Some(rest.push(t)),
            _ => None,
        }
    }
}

/// Whether every name of `d` is in the atlas.
pub open spec fn spec_dir_found<T>(atlas: SpriteAtlas<T>, d: DirectionalNames) -> bool {
    &&& spec_tiles_of(atlas, d.up@) is Some
    &&& spec_tiles_of(atlas, d.down@) is Some
    &&& spec_tiles_of(atlas, d.left@) is Some
    &&& spec_tiles_of(atlas, d.right@) is Some
}

/// Whether `t` holds the tiles of `d`, heading by heading.
pub open spec fn spec_dir_tiles<T>(atlas: SpriteAtlas<T>, d: DirectionalNames, t: DirectionalTiles) -> bool {
    &&& spec_tiles_of(atlas, d.up@) == Some(t.up@)
    &&& spec_tiles_of(atlas, d.down@) == Some(t.down@)
    &&& spec_tiles_of(atlas, d.left@) == Some(t.left@)
    &&& spec_tiles_of(atlas, d.right@) == Some(t.right@)
}

/// Whether every ghost tile name is in the atlas.
pub open spec fn spec_all_found<T>(atlas: SpriteAtlas<T>, names: GhostSpriteNames) -> bool {
    &&& spec_dir_found(atlas, names.eyes)
    &&& forall|i: int| 0 <= i < names.normal@.len() ==> spec_dir_found(atlas, (#[trigger] names.normal@[i]).1)
    &&& atlas.spec_tile_of(names.blue_a@) is Some
    &&& atlas.spec_tile_of(names.blue_b@) is Some
    &&& atlas.spec_tile_of(names.white_a@) is Some
    &&& atlas.spec_tile_of(names.white_b@) is Some
}

proof fn lemma_tiles_of_missing<T>(atlas: SpriteAtlas<T>, names: Seq<String>, i: int)
    requires
        0 <= i < names.len(),
        atlas.spec_tile_of(names[i]@) is None,
    ensures
        spec_tiles_of(atlas, names) is None,
    decreases names.len(),
{
    if i < names.len() - 1 {
        assert(names.drop_last()[i] == names[i]);
        lemma_tiles_of_missing(atlas, names.drop_last(), i);
    }
}

/// The tiles of `names`, in order; the first missing name is the error.
fn load_tiles<T>(atlas: &SpriteAtlas<T>, names: &Vec<String>) -> (r: Result<Vec<AtlasTile>, TextureError>)
    ensures
        r is Ok <==> spec_tiles_of(*atlas, names@) is Some,
        r matches Ok(v) ==> spec_tiles_of(*atlas, names@) == Some(v@),
        r matches Err(e) ==> e is AtlasTileNotFound,
        r matches Err(TextureError::AtlasTileNotFound(n)) ==> atlas.spec_tile_of(n@) is None,
{
    let mut out: Vec<AtlasTile> = Vec::new();
    let mut i: usize = 0;
    while i < names.len()
        invariant
            0 <= i <= names.len(),
            spec_tiles_of(*atlas, names@.subrange(0, i as int)) == Some(out@),
        decreases names.len() - i,
    {
        proof {
            assert(names@.subrange(0, i + 1).drop_last() =~= names@.subrange(0, i as int));
            assert(names@.subrange(0, i + 1).last() == names@[i as int]);
        }
        match atlas.get_tile(names[i].as_str()) {
            Ok(t) => {
                out.push(t);
            },
            Err(e) => {
                proof {
                    lemma_tiles_of_missing(*atlas, names@, i as int);
                }
                return Err(e);
            },
        }
        i = i + 1;
    }
    proof {
        assert(names@.subrange(0, names.len() as int) =~= names@);
    }
    Ok(out)
}

fn load_directional<T>(atlas: &SpriteAtlas<T>, names: &DirectionalNames) -> (r: Result<DirectionalTiles, TextureError>)
    ensures
        r is Ok <==> spec_dir_found(*atlas, *names),
        r matches Ok(t) ==> spec_dir_tiles(*atlas, *names, t),
        r matches Err(e) ==> e is AtlasTileNotFound,
        r matches Err(TextureError::AtlasTileNotFound(n)) ==> atlas.spec_tile_of(n@) is None,
{
    let up = load_tiles(atlas, &names.up)?;
    let down = load_tiles(atlas, &names.down)?;
    let left = load_tiles(atlas, &names.left)?;
    let right = load_tiles(atlas, &names.right)?;
    Ok(DirectionalTiles { up, down, left, right })
}

fn load_tile<T>(atlas: &SpriteAtlas<T>, name: &String) -> (r: Result<AtlasTile, TextureError>)
    ensures
        r is Ok <==> atlas.spec_tile_of(name@) is Some,
        r matches Ok(t) ==> atlas.spec_tile_of(name@) == Some(t),
        r matches Err(e) ==> e is AtlasTileNotFound,
        r matches Err(TextureError::AtlasTileNotFound(n)) ==> atlas.spec_tile_of(n@) is None,
{
    atlas.get_tile(name.as_str())
}

/// Whether `a` is the set of ghost animations built from the named tiles: the
/// eyes moving and stopped alike; each personality's body in the order given,
/// moving and stopped alike; the steady frightened strip blue, blue; the
/// flashing strip blue, white, blue, white; all at their first frame.
pub open spec fn spec_ghost_animations<T>(
    atlas: SpriteAtlas<T>,
    names: GhostSpriteNames,
    speeds: GhostAnimationSpeeds,
    a: GhostAnimations<DirectionalAnimation<DirectionalTiles>, LinearAnimation<AtlasTile>>,
) -> bool {
    let blue_a = atlas.spec_tile_of(names.blue_a@).unwrap();
    let blue_b = atlas.spec_tile_of(names.blue_b@).unwrap();
    let white_a = atlas.spec_tile_of(names.white_a@).unwrap();
    let white_b = atlas.spec_tile_of(names.white_b@).unwrap();
    &&& spec_dir_tiles(atlas, names.eyes, a.eyes.moving_tiles)
    &&& spec_dir_tiles(atlas, names.eyes, a.eyes.stopped_tiles)
    &&& a.eyes.current_frame == 0 && a.eyes.time_bank == 0 && a.eyes.frame_duration == speeds.eaten
    &&& a.normal@.len() == names.normal@.len()
    &&& forall|i: int| 0 <= i < a.normal@.len() ==> {
        let n = #[trigger] a.normal@[i];
        &&& n.0 == names.normal@[i].0
        &&& spec_dir_tiles(atlas, names.normal@[i].1, n.1.moving_tiles)
        &&& spec_dir_tiles(atlas, names.normal@[i].1, n.1.stopped_tiles)
        &&& n.1.current_frame == 0 && n.1.time_bank == 0 && n.1.frame_duration == speeds.normal
    }
    &&& a.frightened.tiles@ == seq![blue_a, blue_b]
    &&& a.frightened.frame_duration == speeds.normal
    &&& a.frightened.current_frame == 0 && a.frightened.time_bank == 0 && !a.frightened.finished
    &&& a.frightened_flashing.tiles@ == seq![blue_a, white_a, blue_b, white_b]
    &&& a.frightened_flashing.frame_duration == speeds.frightened
    &&& a.frightened_flashing.current_frame == 0 && a.frightened_flashing.time_bank == 0
        && !a.frightened_flashing.finished
}

/// Builds every ghost animation from the atlas; fails, naming a missing tile,
/// exactly when some named tile is not in the atlas.
pub fn create_ghost_animations<T>(
    atlas: &SpriteAtlas<T>,
    names: &GhostSpriteNames,
    speeds: GhostAnimationSpeeds,
) -> (r: Result<GhostAnimations<DirectionalAnimation<DirectionalTiles>, LinearAnimation<AtlasTile>>, TextureError>)
    ensures
        r is Ok <==> spec_all_found(*atlas, *names),
        r matches Ok(a) ==> spec_ghost_animations(*atlas, *names, speeds, a),
        r matches Err(e) ==> e is AtlasTileNotFound,
        r matches Err(TextureError::AtlasTileNotFound(n)) ==> atlas.spec_tile_of(n@) is None,
{
    let eyes_moving = load_directional(atlas, &names.eyes)?;
    let eyes_stopped = load_directional(atlas, &names.eyes)?;
    let eyes = DirectionalAnimation::new(eyes_moving, eyes_stopped, speeds.eaten);
    let mut normal: Vec<(GhostType, DirectionalAnimation<DirectionalTiles>)> = Vec::new();
    let mut i: usize = 0;
    while i < names.normal.len()
        invariant
            0 <= i <= names.normal.len(),
            normal@.len() == i,
            forall|j: int| 0 <= j < i ==> spec_dir_found(*atlas, (#[trigger] names.normal@[j]).1),
            forall|j: int| 0 <= j < i ==> {
                let n = #[trigger] normal@[j];
                &&& n.0 == names.normal@[j].0
                &&& spec_dir_tiles(*atlas, names.normal@[j].1, n.1.moving_tiles)
                &&& spec_dir_tiles(*atlas, names.normal@[j].1, n.1.stopped_tiles)
                &&& n.1.current_frame == 0 && n.1.time_bank == 0 && n.1.frame_duration == speeds.normal
            },
        decreases names.normal.len() - i,
    {
        let moving = load_directional(atlas, &names.normal[i].1)?;
        let stopped = load_directional(atlas, &names.normal[i].1)?;
        normal.push((names.normal[i].0, DirectionalAnimation::new(moving, stopped, speeds.normal)));
        i = i + 1;
    }
    let blue_a = load_tile(atlas, &names.blue_a)?;
    let blue_b = load_tile(atlas, &names.blue_b)?;
    let white_a = load_tile(atlas, &names.white_a)?;
    let white_b = load_tile(atlas, &names.white_b)?;
    let frightened = LinearAnimation::new(vec![blue_a, blue_b], speeds.normal);
    let frightened_flashing = LinearAnimation::new(vec![blue_a, white_a, blue_b, white_b], speeds.frightened);
    Ok(GhostAnimations::new(normal, eyes, frightened, frightened_flashing))
}

/// Ticks per frame of Pac-Man's moving animation.
pub const PLAYER_FRAME_TICKS: u16 = 5;

/// Ticks per frame of Pac-Man's death animation.
pub const DEATH_FRAME_TICKS: u16 = 8;

/// The atlas names of Pac-Man's tiles.
#[derive(Debug, Clone)]
pub struct PlayerSpriteNames {
    /// The full (mouth closed) disc.
    pub full: String,
    /// Moving, per heading (mouth half open, open, closed).
    pub moving: DirectionalNames,
    /// Standing still, per heading.
    pub stopped: DirectionalNames,
}

/// Builds Pac-Man's moving animation and his full-disc tile; fails, naming a
/// missing tile, exactly when some named tile is not in the atlas.
pub fn create_player_animations<T>(
    atlas: &SpriteAtlas<T>,
    names: &PlayerSpriteNames,
) -> (r: Result<(DirectionalAnimation<DirectionalTiles>, AtlasTile), TextureError>)
    ensures
        r is Ok <==> (atlas.spec_tile_of(names.full@) is Some && spec_dir_found(*atlas, names.moving)
            && spec_dir_found(*atlas, names.stopped)),
        r matches Ok((a, full)) ==> {
            &&& atlas.spec_tile_of(names.full@) == Some(full)
            &&& spec_dir_tiles(*atlas, names.moving, a.moving_tiles)
            &&& spec_dir_tiles(*atlas, names.stopped, a.stopped_tiles)
            &&& a.current_frame == 0 && a.time_bank == 0 && a.frame_duration == PLAYER_FRAME_TICKS
        },
        r matches Err(e) ==> e is AtlasTileNotFound,
        r matches Err(TextureError::AtlasTileNotFound(n)) ==> atlas.spec_tile_of(n@) is None,
{
    let full = load_tile(atlas, &names.full)?;
    let moving = load_directional(atlas, &names.moving)?;
    let stopped = load_directional(atlas, &names.stopped)?;
    Ok((DirectionalAnimation::new(moving, stopped, PLAYER_FRAME_TICKS), full))
}

/// Builds Pac-Man's death animation from its frames' names; fails, naming a
/// missing tile, exactly when some named tile is not in the atlas.
pub fn create_death_animation<T>(atlas: &SpriteAtlas<T>, names: &Vec<String>) -> (r: Result<
    LinearAnimation<AtlasTile>,
    TextureError,
>)
    ensures
        r is Ok <==> spec_tiles_of(*atlas, names@) is Some,
        r matches Ok(a) ==> {
            &&& spec_tiles_of(*atlas, names@) == Some(a.tiles@)
            &&& a.current_frame == 0 && a.time_bank == 0 && !a.finished
            &&& a.frame_duration == DEATH_FRAME_TICKS
        },
        r matches Err(e) ==> e is AtlasTileNotFound,
        r matches Err(TextureError::AtlasTileNotFound(n)) ==> atlas.spec_tile_of(n@) is None,
{
    let tiles = load_tiles(atlas, names)?;
    Ok(LinearAnimation::new(tiles, DEATH_FRAME_TICKS))
}

} // verus!
