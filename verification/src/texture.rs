//! Texture bookkeeping: named tiles of the sprite atlas, colour modulation
//! caching, and the packing of the glyph atlas used for debug text.

use vstd::prelude::*;

verus! {

/// A colour with alpha.
#[derive(Debug, Clone, Copy, PartialEq, Eq, Structural)]
pub struct Rgba {
    pub r: u8,
    pub g: u8,
    pub b: u8,
    pub a: u8,
}

/// A pair of 16-bit pixel coordinates.
#[derive(Debug, Clone, Copy, PartialEq, Eq, Structural)]
pub struct U16Vec2 {
    pub x: u16,
    pub y: u16,
}

/// A pair of 32-bit pixel coordinates.
#[derive(Debug, Clone, Copy, PartialEq, Eq, Structural)]
pub struct UVec2 {
    pub x: u32,
    pub y: u32,
}

/// Opaque white, the modulation that leaves a sprite as drawn.
pub open spec fn spec_white() -> Rgba {
    Rgba { r: 255, g: 255, b: 255, a: 255 }
}

/// Where a named frame lies in the atlas texture.
#[derive(Debug, Clone, Copy, PartialEq, Eq, Structural)]
pub struct MapperFrame {
    pub pos: U16Vec2,
    pub size: U16Vec2,
}

/// The frames of an atlas by name (each name once).
#[derive(Debug, Clone)]
pub struct AtlasMapper {
    pub frames: Vec<(String, MapperFrame)>,
}

/// A tile of the atlas, with an optional colour of its own.
#[derive(Debug, Clone, Copy, PartialEq, Eq, Structural)]
pub struct AtlasTile {
    pub pos: U16Vec2,
    pub size: U16Vec2,
    pub color: Option<Rgba>,
}

impl AtlasTile {
    /// The colour the tile is drawn with: its own, else the atlas default,
    /// else white.
    pub fn effective_color(&self, default_color: Option<Rgba>) -> (r: Rgba)
        ensures
            r == (match self.color {
                Some(c) => c,
                None => match default_color {
                    Some(d) => d,
                    None => spec_white(),
                },
            }),
    {
        match self.color {
            Some(c) => c,
            None => match default_color {
                Some(d) => d,
                None => Rgba { r: 255, g: 255, b: 255, a: 255 },
            },
        }
    }
}

/// Why a texture operation failed.
#[derive(Debug, Clone)]
pub enum TextureError {
    /// No tile of that name.
    AtlasTileNotFound(String),
    /// The renderer refused to draw.
    RenderFailed(String),
}

/// A sprite atlas: one texture and its named tiles, with the colour modulation
/// last applied to the texture cached.
pub struct SpriteAtlas<T> {
    texture: T,
    tiles: Vec<(String, MapperFrame)>,
    default_color: Option<Rgba>,
    last_modulation: Option<Rgba>,
}

/// Whether entry `i` is the first with name `name`.
pub open spec fn spec_first_named(tiles: Seq<(String, MapperFrame)>, name: Seq<char>, i: int) -> bool {
    &&& 0 <= i < tiles.len()
    &&& tiles[i].0@ == name
    &&& forall|j: int| 0 <= j < i ==> (#[trigger] tiles[j]).0@ != name
}

/// Whether no name occurs twice among the frames.
pub open spec fn spec_names_unique(frames: Seq<(String, MapperFrame)>) -> bool {
    forall|a: int, b: int| 0 <= a < b < frames.len() ==> (#[trigger] frames[a]).0@ != (#[trigger] frames[b]).0@
}

/// Only one entry can be the first of a name.
proof fn lemma_first_named_unique(tiles: Seq<(String, MapperFrame)>, name: Seq<char>, i: int, j: int)
    requires
        spec_first_named(tiles, name, i),
        spec_first_named(tiles, name, j),
    ensures
        i == j,
{
    if i < j {
        assert(tiles[i].0@ != name);
    } else if j < i {
        assert(tiles[j].0@ != name);
    }
}

impl<T> SpriteAtlas<T> {
    #[verifier::type_invariant]
    spec fn inv(self) -> bool {
        spec_names_unique(self.tiles@)
    }

    /// The tile named `name`, with the atlas default colour: from the first
    /// entry of that name, if any.
    pub open spec fn spec_tile_of(self, name: Seq<char>) -> Option<AtlasTile> {
        if exists|i: int| spec_first_named(self.spec_tiles(), name, i) {
            let i = choose|i: int| spec_first_named(self.spec_tiles(), name, i);
            Some(AtlasTile {
                pos: self.spec_tiles()[i].1.pos,
                size: self.spec_tiles()[i].1.size,
                color: self.spec_default_color(),
            })
        } else {
            None
        }
    }

    /// The named tiles.
    pub closed spec fn spec_tiles(self) -> Seq<(String, MapperFrame)> {
        self.tiles@
    }

    /// The default tile colour.
    pub closed spec fn spec_default_color(self) -> Option<Rgba> {
        self.default_color
    }

    /// The modulation last applied to the texture.
    pub closed spec fn spec_last_modulation(self) -> Option<Rgba> {
        self.last_modulation
    }

    /// The atlas texture.
    pub closed spec fn spec_texture(self) -> T {
        self.texture
    }

    /// An atlas over `texture` with the mapper's frames, no default colour and no
    /// modulation applied yet.
    pub fn new(texture: T, mapper: AtlasMapper) -> (r: Self)
        requires
            spec_names_unique(mapper.frames@),
        ensures
            r.spec_tiles() == mapper.frames@,
            r.spec_default_color() is None,
            r.spec_last_modulation() is None,
            r.spec_texture() == texture,
    {
        SpriteAtlas { texture, tiles: mapper.frames, default_color: None, last_modulation: None }
    }

    /// The texture.
    pub fn texture(&self) -> (r: &T)
        ensures
            *r == self.spec_texture(),
    {
        &self.texture
    }

    /// The tile named `name`, with the atlas default colour; an error naming it
    /// when there is no such tile.
    pub fn get_tile(&self, name: &str) -> (r: Result<AtlasTile, TextureError>)
        ensures
            r is Err <==> forall|j: int| 0 <= j < self.spec_tiles().len() ==> (#[trigger] self.spec_tiles()[j]).0@ != name@,
            r matches Err(TextureError::AtlasTileNotFound(n)) ==> n@ == name@,
            r matches Err(e) ==> e is AtlasTileNotFound,
            r matches Ok(t) ==> self.spec_tile_of(name@) == Some(t),
            r is Err <==> self.spec_tile_of(name@) is None,
            r matches Ok(t) ==> exists|i: int|
                spec_first_named(self.spec_tiles(), name@, i) && t == (AtlasTile {
                    pos: self.spec_tiles()[i].1.pos,
                    size: self.spec_tiles()[i].1.size,
                    color: self.spec_default_color(),
                }),
    {
        let key = name.to_owned();
        let mut i: usize = 0;
        while i < self.tiles.len()
            invariant
                0 <= i <= self.tiles.len(),
                key@ == name@,
                forall|j: int| 0 <= j < i ==> (#[trigger] self.tiles@[j]).0@ != name@,
            decreases self.tiles.len() - i,
        {
            if self.tiles[i].0 == key {
                let frame = self.tiles[i].1;
                proof {
                    assert(self.tiles@[i as int].0@ == name@);
                    assert(spec_first_named(self.tiles@, name@, i as int));
                    assert(self.spec_tiles()[i as int].1 == frame);
                    let k = choose|k: int| spec_first_named(self.spec_tiles(), name@, k);
                    lemma_first_named_unique(self.spec_tiles(), name@, i as int, k);
                }
                return Ok(AtlasTile { pos: frame.pos, size: frame.size, color: self.default_color });
            }
            i = i + 1;
        }
        proof {
            if exists|k: int| spec_first_named(self.spec_tiles(), name@, k) {
                let k = choose|k: int| spec_first_named(self.spec_tiles(), name@, k);
                assert(self.tiles@[k].0@ != name@);
            }
        }
        Err(TextureError::AtlasTileNotFound(key))
    }

    /// Sets the colour given to tiles without one.
    pub fn set_default_color(&mut self, color: Option<Rgba>)
        ensures
            final(self).spec_default_color() == color,
            final(self).spec_tiles() == old(self).spec_tiles(),
            final(self).spec_texture() == old(self).spec_texture(),
            final(self).spec_last_modulation() == old(self).spec_last_modulation(),
    {
        proof {
            use_type_invariant(&*self);
        }
        self.default_color = color;
    }

    /// Records that the texture is about to be drawn in `color`; returns whether
    /// the modulation must be applied (it differs from the last one applied).
    pub fn modulate(&mut self, color: Rgba) -> (apply: bool)
        ensures
            apply == (old(self).spec_last_modulation() != Some(color)),
            final(self).spec_last_modulation() == Some(color),
            final(self).spec_tiles() == old(self).spec_tiles(),
            final(self).spec_texture() == old(self).spec_texture(),
            final(self).spec_default_color() == old(self).spec_default_color(),
    {
        proof {
            use_type_invariant(&*self);
        }
        let apply = match self.last_modulation {
            Some(c) => c != color,
            None => true,
        };
        self.last_modulation = Some(color);
        apply
    }
}

/// The measurements of one glyph: for a space, its advance and the height of a
/// digit; for any other glyph, its rendered width (its advance) and height.
#[derive(Debug, Clone, Copy, PartialEq, Eq, Structural)]
pub struct GlyphMetrics {
    pub c: char,
    pub advance: u32,
    pub height: u32,
}

/// A glyph's place in the glyph atlas.
#[derive(Debug, Clone, Copy, PartialEq, Eq, Structural)]
pub struct TtfCharTile {
    pub pos: UVec2,
    pub size: UVec2,
    pub advance: u32,
}

/// The width a glyph takes in the atlas: a space takes none.
pub open spec fn spec_glyph_width(m: GlyphMetrics) -> u32 {
    if m.c == ' ' { 0 } else { m.advance }
}

/// The atlas width taken by the first `n` glyphs.
pub open spec fn spec_x_before(ms: Seq<GlyphMetrics>, n: int) -> int
    decreases n,
{
    if n <= 0 {
        0
    } else {
        spec_x_before(ms, n - 1) + spec_glyph_width(ms[n - 1])
    }
}

/// The tallest glyph.
pub open spec fn spec_max_height(ms: Seq<GlyphMetrics>) -> u32
    decreases ms.len(),
{
    if ms.len() == 0 {
        0
    } else {
        let h = spec_max_height(ms.drop_last());
        if ms.last().height > h { ms.last().height } else { h }
    }
}

/// The tile of glyph `i`: placed after the glyphs before it on one row.
pub open spec fn spec_glyph_tile(ms: Seq<GlyphMetrics>, i: int) -> TtfCharTile {
    TtfCharTile {
        pos: UVec2 { x: spec_x_before(ms, i) as u32, y: 0 },
        size: UVec2 { x: spec_glyph_width(ms[i]), y: ms[i].height },
        advance: ms[i].advance,
    }
}

/// The packed glyph atlas: each measured glyph's tile, in measuring order, and
/// the atlas size. A character measured more than once is looked up by its last
/// entry.
#[derive(Debug, Clone)]
pub struct GlyphLayout {
    pub tiles: Vec<(char, TtfCharTile)>,
    pub width: u32,
    pub height: u32,
}

/// Packs measured glyphs on one row, in order: each takes its width (a space
/// none) after those before it. The atlas is as wide as all glyphs together and
/// as tall as the tallest.
pub fn layout_glyphs(metrics: &Vec<GlyphMetrics>) -> (r: GlyphLayout)
    requires
        spec_x_before(metrics@, metrics@.len() as int) <= u32::MAX,
    ensures
        r.width == spec_x_before(metrics@, metrics@.len() as int),
        r.height == spec_max_height(metrics@),
        r.tiles@.len() == metrics@.len(),
        forall|i: int| 0 <= i < metrics@.len() ==> #[trigger] r.tiles@[i] == (metrics@[i].c, spec_glyph_tile(metrics@, i)),
{
    let mut tiles: Vec<(char, TtfCharTile)> = Vec::new();
    let mut x: u32 = 0;
    let mut height: u32 = 0;
    let mut i: usize = 0;
    while i < metrics.len()
        invariant
            0 <= i <= metrics.len(),
            spec_x_before(metrics@, metrics@.len() as int) <= u32::MAX,
            x == spec_x_before(metrics@, i as int),
            height == spec_max_height(metrics@.subrange(0, i as int)),
            tiles@.len() == i,
            forall|j: int| 0 <= j < i ==> #[trigger] tiles@[j] == (metrics@[j].c, spec_glyph_tile(metrics@, j)),
        decreases metrics.len() - i,
    {
        let m = metrics[i];
        proof {
            assert(metrics@.subrange(0, i + 1).drop_last() =~= metrics@.subrange(0, i as int));
            assert(metrics@.subrange(0, i + 1).last() == m);
            lemma_x_before_monotone(metrics@, i + 1, metrics@.len() as int);
        }
        let width: u32 = if m.c == ' ' { 0 } else { m.advance };
        tiles.push((m.c, TtfCharTile { pos: UVec2 { x, y: 0 }, size: UVec2 { x: width, y: m.height }, advance: m.advance }));
        if m.height > height {
            height = m.height;
        }
        x = x + width;
        i = i + 1;
    }
    proof {
        assert(metrics@.subrange(0, metrics.len() as int) =~= metrics@);
    }
    GlyphLayout { tiles, width: x, height }
}

proof fn lemma_x_before_monotone(ms: Seq<GlyphMetrics>, a: int, b: int)
    requires
        0 <= a <= b <= ms.len(),
    ensures
        spec_x_before(ms, a) <= spec_x_before(ms, b),
    decreases b - a,
{
    if a < b {
        lemma_x_before_monotone(ms, a, b - 1);
    }
}

/// The glyph atlas: a texture holding the packed glyphs, and where each glyph is.
pub struct TtfAtlas<T> {
    texture: T,
    char_tiles: Vec<(char, TtfCharTile)>,
    max_char_height: u32,
}

impl<T> TtfAtlas<T> {
    /// The glyph tiles by character.
    pub closed spec fn spec_tiles(self) -> Seq<(char, TtfCharTile)> {
        self.char_tiles@
    }

    /// The tallest glyph.
    pub closed spec fn spec_max_char_height(self) -> u32 {
        self.max_char_height
    }

    /// The glyph texture.
    pub closed spec fn spec_texture(self) -> T {
        self.texture
    }

    /// An atlas over a texture that holds the glyphs as `layout` packed them.
    pub fn new(texture: T, layout: GlyphLayout) -> (r: Self)
        ensures
            r.spec_tiles() == layout.tiles@,
            r.spec_max_char_height() == layout.height,
            r.spec_texture() == texture,
    {
        TtfAtlas { texture, char_tiles: layout.tiles, max_char_height: layout.height }
    }

    /// The texture.
    pub fn texture(&self) -> (r: &T)
        ensures
            *r == self.spec_texture(),
    {
        &self.texture
    }

    /// The tallest glyph's height.
    pub fn max_char_height(&self) -> (r: u32)
        ensures
            r == self.spec_max_char_height(),
    {
        self.max_char_height
    }

    /// The tile of `c`, if the atlas holds that glyph (its last entry).
    pub fn get_char_tile(&self, c: char) -> (r: Option<&TtfCharTile>)
        ensures
            r is None <==> forall|j: int| 0 <= j < self.spec_tiles().len() ==> (#[trigger] self.spec_tiles()[j]).0 != c,
            r matches Some(t) ==> exists|k: int|
                0 <= k < self.spec_tiles().len() && self.spec_tiles()[k].0 == c && self.spec_tiles()[k].1 == *t
                    && forall|j: int| k < j < self.spec_tiles().len() ==> (#[trigger] self.spec_tiles()[j]).0 != c,
    {
        let mut k: usize = self.char_tiles.len();
        while k > 0
            invariant
                0 <= k <= self.char_tiles.len(),
                forall|j: int| k <= j < self.char_tiles@.len() ==> (#[trigger] self.char_tiles@[j]).0 != c,
            decreases k,
        {
            if self.char_tiles[k - 1].0 == c {
                proof {
                    assert(self.spec_tiles()[k - 1].0 == c);
                }
                return Some(&self.char_tiles[k - 1].1);
            }
            k = k - 1;
        }
        None
    }
}

} // verus!
