use pacman::layout::{Layout, Orientation, Rect, WindowSize};

#[test]
fn landscape_orientation_and_scale() {
    let layout = Layout::compute(WindowSize::new(1280, 720));
    assert_eq!(layout.orientation, Orientation::Landscape);
    // height binds: floor(720/248) = 2; width allows 3.
    assert_eq!(layout.scale, 2);
}

#[test]
fn portrait_orientation_and_scale() {
    let layout = Layout::compute(WindowSize::new(600, 900));
    assert_eq!(layout.orientation, Orientation::Portrait);
    // min(floor(600/224)=2, floor(900/288)=3) = 2.
    assert_eq!(layout.scale, 2);
}

#[test]
fn landscape_maze_is_centered() {
    let layout = Layout::compute(WindowSize::new(1280, 720));
    assert_eq!(layout.maze, Rect::new(416, 112, 448, 496));
}

#[test]
fn landscape_panels_flank_the_maze() {
    let layout = Layout::compute(WindowSize::new(1280, 720));
    assert_eq!(layout.left, Some(Rect::new(0, 0, 416, 720)));
    assert_eq!(layout.right, Some(Rect::new(864, 0, 416, 720)));
    assert_eq!(layout.top, None);
    assert_eq!(layout.bottom, None);
}

#[test]
fn portrait_stacks_hud_bands_around_the_maze() {
    let layout = Layout::compute(WindowSize::new(600, 900));
    assert_eq!(layout.top, Some(Rect::new(76, 162, 448, 48)));
    assert_eq!(layout.maze, Rect::new(76, 210, 448, 496));
    assert_eq!(layout.bottom, Some(Rect::new(76, 706, 448, 32)));
    assert_eq!(layout.left, None);
    assert_eq!(layout.right, None);
}

#[test]
fn scale_never_drops_below_one() {
    let layout = Layout::compute(WindowSize::new(100, 100));
    assert_eq!(layout.scale, 1);
}

#[test]
fn landscape_columns_tile_the_window_width() {
    let layout = Layout::compute(WindowSize::new(1920, 1080));
    let left = layout.left.unwrap();
    let right = layout.right.unwrap();
    assert_eq!(left.w + layout.maze.w + right.w, 1920);
    assert_eq!(layout.scale, 4);
    assert!(layout.maze.y as u32 + layout.maze.h <= 1080);
}

#[test]
fn rect_new_clamps_sizes_and_positions() {
    let r = Rect::new(-2_000_000_000, 2_000_000_000, 0, u32::MAX);
    assert_eq!(r, Rect { x: -1073741824, y: 1073741823, w: 1, h: 1073741823 });
}

#[test]
fn square_window_is_landscape() {
    let layout = Layout::compute(WindowSize::new(500, 500));
    assert_eq!(layout.orientation, Orientation::Landscape);
    assert_eq!(layout.scale, 1);
}
