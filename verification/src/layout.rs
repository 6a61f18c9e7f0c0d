//! Adaptive screen layout: an integer render scale and the window regions of the
//! maze and the HUD panels, by orientation.

use vstd::prelude::*;

verus! {

/// Size of a maze cell in pixels at scale 1.
pub const CELL_SIZE: u32 = 8;

/// Maze-only playfield width at scale 1 (28 cells).
pub const PLAYFIELD_W: u32 = 224;

/// Maze-only playfield height at scale 1 (31 cells).
pub const PLAYFIELD_H: u32 = 248;

/// Top HUD band height at scale 1 (3 cells), portrait layout.
pub const TOP_HUD_H: u32 = 24;

/// Bottom HUD band height at scale 1 (2 cells), portrait layout.
pub const BOTTOM_HUD_H: u32 = 16;

/// Height of the portrait composition at scale 1: top band, maze, bottom band.
pub const PORTRAIT_H: u32 = 288;

/// Minimum landscape side-panel width at scale 1 (12 cells).
pub const MIN_PANEL_W: u32 = 96;

/// Width of the landscape composition at scale 1: maze plus two minimum panels.
pub const LANDSCAPE_W: u32 = 416;

/// Largest rectangle size or position (half of `i32::MAX`).
pub const MAX_RECT_VALUE: u32 = 1073741823;

/// Smallest rectangle position (half of `i32::MIN`).
pub const MIN_RECT_POSITION: i32 = -1073741824;

/// A window size in pixels.
#[derive(Debug, Clone, Copy, PartialEq, Eq, Structural)]
pub struct WindowSize {
    pub x: u32,
    pub y: u32,
}

impl WindowSize {
    /// A window size.
    pub fn new(x: u32, y: u32) -> (r: Self)
        ensures
            r.x == x && r.y == y,
    {
        WindowSize { x, y }
    }
}

/// Initial desktop window size (landscape): 1280 by 720.
pub fn default_window() -> (r: WindowSize)
    ensures
        r == (WindowSize { x: 1280, y: 720 }),
{
    WindowSize { x: 1280, y: 720 }
}

/// A rectangle in window pixels, with the size clamping of the platform's rectangles.
#[derive(Debug, Clone, Copy, PartialEq, Eq, Structural)]
pub struct Rect {
    pub x: i32,
    pub y: i32,
    pub w: u32,
    pub h: u32,
}

/// A size as rectangles hold it: zero becomes 1, large values are capped.
pub open spec fn spec_clamp_size(v: u32) -> u32 {
    if v == 0 {
        1
    } else if v > MAX_RECT_VALUE {
        MAX_RECT_VALUE
    } else {
        v
    }
}

/// A position as rectangles hold it: capped on both sides.
pub open spec fn spec_clamp_position(v: i32) -> i32 {
    if v > MAX_RECT_VALUE as i32 {
        MAX_RECT_VALUE as i32
    } else if v < MIN_RECT_POSITION {
        MIN_RECT_POSITION
    } else {
        v
    }
}

/// The rectangle `Rect::new` builds.
pub open spec fn spec_rect(x: i32, y: i32, w: u32, h: u32) -> Rect {
    Rect {
        x: spec_clamp_position(x),
        y: spec_clamp_position(y),
        w: spec_clamp_size(w),
        h: spec_clamp_size(h),
    }
}

impl Rect {
    /// A rectangle; sizes are clamped to 1..=`MAX_RECT_VALUE`, positions to
    /// `MIN_RECT_POSITION..=MAX_RECT_VALUE`.
    pub fn new(x: i32, y: i32, w: u32, h: u32) -> (r: Rect)
        ensures
            r == spec_rect(x, y, w, h),
    {
        let cx = if x > MAX_RECT_VALUE as i32 {
            MAX_RECT_VALUE as i32
        } else if x < MIN_RECT_POSITION {
            MIN_RECT_POSITION
        } else {
            x
        };
        let cy = if y > MAX_RECT_VALUE as i32 {
            MAX_RECT_VALUE as i32
        } else if y < MIN_RECT_POSITION {
            MIN_RECT_POSITION
        } else {
            y
        };
        let cw = if w == 0 {
            1
        } else if w > MAX_RECT_VALUE {
            MAX_RECT_VALUE
        } else {
            w
        };
        let ch = if h == 0 {
            1
        } else if h > MAX_RECT_VALUE {
            MAX_RECT_VALUE
        } else {
            h
        };
        Rect { x: cx, y: cy, w: cw, h: ch }
    }
}

/// The rectangle of size `w` by `h` centred on `(cx, cy)`: sizes clamped as
/// in `Rect::new`, the corner half a size up and left of the clamped centre,
/// clamped again.
pub open spec fn spec_from_center(cx: i32, cy: i32, w: u32, h: u32) -> Rect {
    let cw = spec_clamp_size(w);
    let ch = spec_clamp_size(h);
    Rect {
        x: spec_clamp_position((spec_clamp_position(cx) - (cw as i32) / 2) as i32),
        y: spec_clamp_position((spec_clamp_position(cy) - (ch as i32) / 2) as i32),
        w: cw,
        h: ch,
    }
}

impl Rect {
    /// See `spec_from_center`.
    pub fn from_center(cx: i32, cy: i32, w: u32, h: u32) -> (r: Rect)
        ensures
            r == spec_from_center(cx, cy, w, h),
    {
        let sized = Rect::new(0, 0, w, h);
        let hw: i32 = sized.w as i32 / 2;
        let hh: i32 = sized.h as i32 / 2;
        let px = Rect::new(cx, cy, 1, 1);
        let moved = Rect::new(px.x - hw, px.y - hh, 1, 1);
        Rect { x: moved.x, y: moved.y, w: sized.w, h: sized.h }
    }
}

/// How the maze and HUD are arranged.
#[derive(Debug, Clone, Copy, PartialEq, Eq, Structural)]
pub enum Orientation {
    /// Taller than wide: HUD bands above and below the maze.
    Portrait,
    /// At least as wide as tall: HUD panels left and right of the maze.
    Landscape,
}

/// The resolved layout for a window size.
#[derive(Debug, Clone, PartialEq, Eq, Structural)]
pub struct Layout {
    pub window: WindowSize,
    pub scale: u32,
    pub orientation: Orientation,
    pub maze: Rect,
    pub left: Option<Rect>,
    pub right: Option<Rect>,
    pub top: Option<Rect>,
    pub bottom: Option<Rect>,
}

/// The larger of an integer and 1.
pub open spec fn spec_at_least_one(v: int) -> int {
    if v < 1 { 1 } else { v }
}

/// `a - b`, or 0 when `b` is larger.
pub open spec fn spec_sat_sub(a: int, b: int) -> int {
    if a > b { a - b } else { 0 }
}

/// Render scale of a landscape window.
pub open spec fn spec_landscape_scale(w: WindowSize) -> int {
    spec_at_least_one(vstd::math::min(w.y as int / PLAYFIELD_H as int, w.x as int / LANDSCAPE_W as int))
}

/// Render scale of a portrait window.
pub open spec fn spec_portrait_scale(w: WindowSize) -> int {
    spec_at_least_one(vstd::math::min(w.x as int / PLAYFIELD_W as int, w.y as int / PORTRAIT_H as int))
}

/// The layout of a window: landscape when at least as wide as tall.
pub open spec fn spec_layout(w: WindowSize) -> Layout {
    if w.x >= w.y {
        let s = spec_landscape_scale(w);
        let maze_w = PLAYFIELD_W * s;
        let maze_h = PLAYFIELD_H * s;
        let maze_x = spec_sat_sub(w.x as int, maze_w) / 2;
        let maze_y = spec_sat_sub(w.y as int, maze_h) / 2;
        let right_x = maze_x + maze_w;
        Layout {
            window: w,
            scale: s as u32,
            orientation: Orientation::Landscape,
            maze: spec_rect(maze_x as i32, maze_y as i32, maze_w as u32, maze_h as u32),
            left: Some(spec_rect(0, 0, maze_x as u32, w.y)),
            right: Some(spec_rect(right_x as i32, 0, spec_sat_sub(w.x as int, right_x) as u32, w.y)),
            top: None,
            bottom: None,
        }
    } else {
        let s = spec_portrait_scale(w);
        let column_w = PLAYFIELD_W * s;
        let column_h = PORTRAIT_H * s;
        let origin_x = spec_sat_sub(w.x as int, column_w) / 2;
        let origin_y = spec_sat_sub(w.y as int, column_h) / 2;
        let top_h = TOP_HUD_H * s;
        let maze_h = PLAYFIELD_H * s;
        let maze_y = origin_y + top_h;
        let bottom_y = maze_y + maze_h;
        Layout {
            window: w,
            scale: s as u32,
            orientation: Orientation::Portrait,
            maze: spec_rect(origin_x as i32, maze_y as i32, column_w as u32, maze_h as u32),
            left: None,
            right: None,
            top: Some(spec_rect(origin_x as i32, origin_y as i32, column_w as u32, top_h as u32)),
            bottom: Some(
                spec_rect(origin_x as i32, bottom_y as i32, column_w as u32, (BOTTOM_HUD_H * s) as u32),
            ),
        }
    }
}

impl Layout {
    /// Computes the layout of a window. A window at least as wide as tall flanks the
    /// maze with side panels; otherwise HUD bands stack above and below it. The
    /// scale is the largest integer at which the maze plus the minimum HUD space
    /// fits the window, and never less than 1.
    pub fn compute(window: WindowSize) -> (r: Layout)
        ensures
            r == spec_layout(window),
    {
        if window.x >= window.y {
            let by_h = window.y / PLAYFIELD_H;
            let by_w = window.x / LANDSCAPE_W;
            let m = if by_h < by_w { by_h } else { by_w };
            let scale = if m < 1 { 1 } else { m };
            assert(PLAYFIELD_H * scale <= window.y || scale == 1) by (nonlinear_arith)
                requires
                    scale == 1 || scale <= window.y / PLAYFIELD_H,
            ;
            assert(LANDSCAPE_W * scale <= window.x || scale == 1) by (nonlinear_arith)
                requires
                    scale == 1 || scale <= window.x / LANDSCAPE_W,
            ;
            let maze_w = PLAYFIELD_W * scale;
            let maze_h = PLAYFIELD_H * scale;
            let maze_x = window.x.saturating_sub(maze_w) / 2;
            let maze_y = window.y.saturating_sub(maze_h) / 2;
            let right_x = maze_x + maze_w;
            Layout {
                window,
                scale,
                orientation: Orientation::Landscape,
                maze: Rect::new(maze_x as i32, maze_y as i32, maze_w, maze_h),
                left: Some(Rect::new(0, 0, maze_x, window.y)),
                right: Some(Rect::new(right_x as i32, 0, window.x.saturating_sub(right_x), window.y)),
                top: None,
                bottom: None,
            }
        } else {
            let by_w = window.x / PLAYFIELD_W;
            let by_h = window.y / PORTRAIT_H;
            let m = if by_w < by_h { by_w } else { by_h };
            let scale = if m < 1 { 1 } else { m };
            assert(PORTRAIT_H * scale <= window.y || scale == 1) by (nonlinear_arith)
                requires
                    scale == 1 || scale <= window.y / PORTRAIT_H,
            ;
            assert(PLAYFIELD_W * scale <= window.x || scale == 1) by (nonlinear_arith)
                requires
                    scale == 1 || scale <= window.x / PLAYFIELD_W,
            ;
            let column_w = PLAYFIELD_W * scale;
            let column_h = PORTRAIT_H * scale;
            let origin_x = window.x.saturating_sub(column_w) / 2;
            let origin_y = window.y.saturating_sub(column_h) / 2;
            let top_h = TOP_HUD_H * scale;
            let maze_h = PLAYFIELD_H * scale;
            let maze_y = origin_y + top_h;
            let bottom_y = maze_y + maze_h;
            Layout {
                window,
                scale,
                orientation: Orientation::Portrait,
                maze: Rect::new(origin_x as i32, maze_y as i32, column_w, maze_h),
                left: None,
                right: None,
                top: Some(Rect::new(origin_x as i32, origin_y as i32, column_w, top_h)),
                bottom: Some(Rect::new(origin_x as i32, bottom_y as i32, column_w, BOTTOM_HUD_H * scale)),
            }
        }
    }
}

/// Every layout renders at scale 1 or more, and has the side panels of a
/// landscape window or the bands of a portrait one.
pub proof fn lemma_layout_shape(w: WindowSize)
    ensures
        spec_layout(w).scale >= 1,
        spec_layout(w).window == w,
        w.x >= w.y ==> spec_layout(w).orientation == Orientation::Landscape && spec_layout(w).left is Some
            && spec_layout(w).right is Some && spec_layout(w).top is None && spec_layout(w).bottom is None,
        w.x < w.y ==> spec_layout(w).orientation == Orientation::Portrait && spec_layout(w).top is Some
            && spec_layout(w).bottom is Some && spec_layout(w).left is None && spec_layout(w).right is None,
{
}

/// In a landscape window big enough for the maze and both minimum panels (and
/// within the platform's rectangle limits), the left panel, the maze and the
/// right panel tile the width exactly, the maze sits inside the window, and the
/// scale is the largest that fits.
pub proof fn lemma_landscape_tiles_width(w: WindowSize)
    requires
        w.x >= w.y,
        w.x >= LANDSCAPE_W,
        w.y >= PLAYFIELD_H,
        w.x <= MAX_RECT_VALUE,
        w.y <= MAX_RECT_VALUE,
    ensures
        ({
            let l = spec_layout(w);
            let left = l.left.unwrap();
            let right = l.right.unwrap();
            &&& left.x == 0 && left.w == l.maze.x
            &&& right.x == l.maze.x + l.maze.w
            &&& left.w + l.maze.w + right.w == w.x
            &&& left.w >= MIN_PANEL_W && right.w >= MIN_PANEL_W
            &&& l.maze.y >= 0 && l.maze.y + l.maze.h <= w.y
            &&& l.maze.w == PLAYFIELD_W * l.scale && l.maze.h == PLAYFIELD_H * l.scale
            &&& (PLAYFIELD_H * (l.scale + 1) > w.y || LANDSCAPE_W * (l.scale + 1) > w.x)
        }),
{
    let s = spec_landscape_scale(w);
    let a = w.y as int / PLAYFIELD_H as int;
    let b = w.x as int / LANDSCAPE_W as int;
    assert(a >= 1 && b >= 1);
    assert(s == vstd::math::min(a, b));
    assert(PLAYFIELD_H * a <= w.y && PLAYFIELD_H * (a + 1) > w.y) by (nonlinear_arith)
        requires a == w.y as int / PLAYFIELD_H as int, w.y >= 0;
    assert(LANDSCAPE_W * b <= w.x && LANDSCAPE_W * (b + 1) > w.x) by (nonlinear_arith)
        requires b == w.x as int / LANDSCAPE_W as int, w.x >= 0;
    assert(PLAYFIELD_H * s <= w.y) by (nonlinear_arith)
        requires s <= a, PLAYFIELD_H * a <= w.y, s >= 1;
    assert(LANDSCAPE_W * s <= w.x) by (nonlinear_arith)
        requires s <= b, LANDSCAPE_W * b <= w.x, s >= 1;
    assert(PLAYFIELD_H * (s + 1) > w.y || LANDSCAPE_W * (s + 1) > w.x) by (nonlinear_arith)
        requires s == a || s == b, PLAYFIELD_H * (a + 1) > w.y, LANDSCAPE_W * (b + 1) > w.x;
}

/// In a portrait window big enough for the maze and both bands (and within the
/// platform's rectangle limits), the top band, the maze and the bottom band
/// stack without gaps inside the window, and the scale is the largest that fits.
pub proof fn lemma_portrait_stacks_bands(w: WindowSize)
    requires
        w.x < w.y,
        w.x >= PLAYFIELD_W,
        w.y >= PORTRAIT_H,
        w.y <= MAX_RECT_VALUE,
    ensures
        ({
            let l = spec_layout(w);
            let top = l.top.unwrap();
            let bottom = l.bottom.unwrap();
            &&& top.y >= 0 && top.y + top.h == l.maze.y
            &&& l.maze.y + l.maze.h == bottom.y
            &&& bottom.y + bottom.h <= w.y
            &&& top.x == l.maze.x && bottom.x == l.maze.x
            &&& l.maze.x >= 0 && l.maze.x + l.maze.w <= w.x
            &&& l.maze.w == PLAYFIELD_W * l.scale && l.maze.h == PLAYFIELD_H * l.scale
            &&& (PLAYFIELD_W * (l.scale + 1) > w.x || PORTRAIT_H * (l.scale + 1) > w.y)
        }),
{
    let s = spec_portrait_scale(w);
    let a = w.x as int / PLAYFIELD_W as int;
    let b = w.y as int / PORTRAIT_H as int;
    assert(a >= 1 && b >= 1);
    assert(PLAYFIELD_W * a <= w.x && PLAYFIELD_W * (a + 1) > w.x) by (nonlinear_arith)
        requires a == w.x as int / PLAYFIELD_W as int, w.x >= 0;
    assert(PORTRAIT_H * b <= w.y && PORTRAIT_H * (b + 1) > w.y) by (nonlinear_arith)
        requires b == w.y as int / PORTRAIT_H as int, w.y >= 0;
    assert(PLAYFIELD_W * s <= w.x) by (nonlinear_arith)
        requires s <= a, PLAYFIELD_W * a <= w.x, s >= 1;
    assert(PORTRAIT_H * s <= w.y) by (nonlinear_arith)
        requires s <= b, PORTRAIT_H * b <= w.y, s >= 1;
    assert(PLAYFIELD_W * (s + 1) > w.x || PORTRAIT_H * (s + 1) > w.y) by (nonlinear_arith)
        requires s == a || s == b, PLAYFIELD_W * (a + 1) > w.x, PORTRAIT_H * (b + 1) > w.y;
}

} // verus!
