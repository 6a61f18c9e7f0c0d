use pacman::ai::{ai_player_system, nearest_pellet_node};
use pacman::debug::{
    closest_node, merge_segments, sort_segments, timing_panel, BatchedLinesResource, DebugState,
};
use pacman::direction::Direction;
use pacman::events::{GameCommand, GameEvent};
use pacman::ghost::targeting::{Exit, Intersection, Point};
use pacman::hud::score_line_x;
use pacman::layout::Rect;
use pacman::state::fullscreen::{fullscreen_target, handle_fullscreen_command, FullscreenMode};
use pacman::texture::{
    layout_glyphs, AtlasMapper, AtlasTile, GlyphMetrics, MapperFrame, Rgba, SpriteAtlas, TextureError, TtfAtlas,
    U16Vec2, UVec2,
};
use pacman::render::{render_order, RenderEntry, Visibility};
use pacman::tracy::{frame_mark, message};

#[test]
fn segments_merge_when_touching_or_overlapping() {
    let sorted = sort_segments(&vec![(10, 12), (0, 4), (5, 6), (20, 30), (11, 15)]);
    assert_eq!(sorted, vec![(0, 4), (5, 6), (10, 12), (11, 15), (20, 30)]);
    assert_eq!(merge_segments(&sorted), vec![(0, 6), (10, 15), (20, 30)]);
    assert!(merge_segments(&Vec::new()).is_empty());
}

#[test]
fn batched_lines_deduplicate_and_group() {
    // Nodes: 0 (0,0), 1 (10,0), 2 (20,0), 3 (0,10), 4 (30, 1).
    let points = vec![(0, 0), (10, 0), (20, 0), (0, 10), (30, 1)];
    let edges = vec![(0, 1), (1, 0), (1, 2), (0, 3), (2, 4), (3, 4)];
    let lines = BatchedLinesResource::new(&edges, &points);
    assert_eq!(lines.horizontal_lines(), &vec![(0, 0, 30)]);
    assert_eq!(lines.vertical_lines(), &vec![(0, 0, 10)]);
    let empty = BatchedLinesResource::default();
    assert!(empty.horizontal_lines().is_empty());
}

#[test]
fn cursor_highlights_the_nearest_node() {
    let pts = vec![Point { x: 0, y: 0 }, Point { x: 10, y: 0 }];
    assert_eq!(closest_node(&pts, Some(Point { x: 8, y: 1 })), Some(1));
    assert_eq!(closest_node(&pts, None), None);
    assert_eq!(closest_node(&Vec::new(), Some(Point { x: 0, y: 0 })), None);
    assert!(!DebugState::default().enabled);
}

#[test]
fn timing_panel_layout() {
    let panel = timing_panel(&vec![Some(100), None, Some(140)], 12);
    assert_eq!(panel.background, Some(Rect::new(5, 5, 150, 47)));
    assert_eq!(panel.rows, vec![(0, 10), (2, 38)]);
    assert_eq!(timing_panel(&vec![None], 12).background, None);
}

fn open(target: u16, ghost: bool, pacman: bool) -> Option<Exit> {
    Some(Exit { target, ghost_traversable: ghost, pacman_traversable: pacman })
}

#[test]
fn demo_player_heads_for_the_nearest_pellet() {
    let positions = vec![
        Point { x: 100, y: 100 },
        Point { x: 100, y: 80 },
        Point { x: 100, y: 120 },
        Point { x: 80, y: 100 },
        Point { x: 120, y: 100 },
    ];
    assert_eq!(nearest_pellet_node(&positions, 0, &vec![1, 4, 9]), Some(1));
    assert_eq!(nearest_pellet_node(&positions, 0, &vec![9]), None);
    assert_eq!(nearest_pellet_node(&positions, 9, &vec![1]), None);
    // The way up is closed to Pac-Man (but open to ghosts), so he goes round.
    let inter = Intersection { up: open(1, true, false), down: open(2, true, true), left: open(3, true, true), right: open(4, true, true) };
    let r = ai_player_system(&inter, &positions, Some((0, Direction::Down)), &vec![1]);
    assert_eq!(r, Some(GameEvent::Command(GameCommand::MovePlayer(Direction::Left))));
    assert_eq!(ai_player_system(&inter, &positions, None, &vec![1]), None);
    assert_eq!(ai_player_system(&inter, &positions, Some((0, Direction::Down)), &vec![]), None);
}

#[test]
fn sprite_atlas_finds_tiles_by_name() {
    let frame = MapperFrame { pos: U16Vec2 { x: 1, y: 2 }, size: U16Vec2 { x: 16, y: 16 } };
    let mapper = AtlasMapper { frames: vec![("pacman/full.png".to_string(), frame)] };
    let mut atlas = SpriteAtlas::new((), mapper);
    let tile = atlas.get_tile("pacman/full.png").unwrap();
    assert_eq!(tile, AtlasTile { pos: frame.pos, size: frame.size, color: None });
    match atlas.get_tile("missing") {
        Err(TextureError::AtlasTileNotFound(name)) => assert_eq!(name, "missing"),
        _ => panic!("expected a missing tile"),
    }
    let red = Rgba { r: 255, g: 0, b: 0, a: 255 };
    assert!(atlas.modulate(red));
    assert!(!atlas.modulate(red));
    atlas.set_default_color(Some(red));
    assert_eq!(atlas.get_tile("pacman/full.png").unwrap().color, Some(red));
    assert_eq!(tile.effective_color(None), Rgba { r: 255, g: 255, b: 255, a: 255 });
    assert_eq!(tile.effective_color(Some(red)), red);
}

#[test]
fn glyphs_pack_in_one_row() {
    let ms = vec![
        GlyphMetrics { c: 'a', advance: 7, height: 12 },
        GlyphMetrics { c: ' ', advance: 4, height: 13 },
        GlyphMetrics { c: 'b', advance: 8, height: 11 },
        GlyphMetrics { c: 'a', advance: 7, height: 12 },
    ];
    let layout = layout_glyphs(&ms);
    assert_eq!((layout.width, layout.height), (22, 13));
    assert_eq!(layout.tiles[2].1.pos, UVec2 { x: 7, y: 0 });
    assert_eq!(layout.tiles[1].1.size, UVec2 { x: 0, y: 13 });
    let atlas = TtfAtlas::new((), layout);
    assert_eq!(atlas.get_char_tile('a').unwrap().pos, UVec2 { x: 15, y: 0 });
    assert_eq!(atlas.get_char_tile(' ').unwrap().advance, 4);
    assert!(atlas.get_char_tile('z').is_none());
    assert_eq!(atlas.max_char_height(), 13);
}

#[test]
fn fullscreen_toggles() {
    assert_eq!(fullscreen_target(FullscreenMode::Off), FullscreenMode::Desktop);
    assert_eq!(fullscreen_target(FullscreenMode::True), FullscreenMode::Off);
    let events = vec![
        GameEvent::Command(GameCommand::ToggleFullscreen),
        GameEvent::Command(GameCommand::MuteAudio),
        GameEvent::Command(GameCommand::ToggleFullscreen),
    ];
    assert_eq!(handle_fullscreen_command(&events), 2);
}

#[test]
fn score_line_columns() {
    assert_eq!(score_line_x(0), (4 + 8 * 5, 4 + 8 * 15));
    assert_eq!(score_line_x(12345), (4 + 8 * 2, 4 + 8 * 12));
    assert_eq!(score_line_x(9_999_999), (4, 4 + 8 * 10));
}

#[test]
fn profiler_hooks_do_nothing() {
    frame_mark();
    message("hello");
}

#[test]
fn render_order_draws_high_layers_first() {
    let e = |entity: u64, layer: u8, vis: Option<bool>| RenderEntry {
        entity,
        layer,
        visibility: vis.map(Visibility),
        center_x: 10,
        center_y: 20,
        width: 16,
        height: 8,
    };
    let order = render_order(&vec![e(1, 0, None), e(2, 2, Some(true)), e(3, 0, Some(false)), e(4, 0, None), e(5, 2, None)]);
    let ids: Vec<u64> = order.iter().map(|(id, _)| *id).collect();
    assert_eq!(ids, vec![5, 2, 4, 1]);
    assert_eq!(order[0].1, Rect::new(2, 16, 16, 8));
}

#[test]
fn rect_from_center() {
    assert_eq!(Rect::from_center(10, 10, 5, 4), Rect::new(8, 8, 5, 4));
    assert_eq!(Rect::from_center(0, 0, 0, 0), Rect::new(0, 0, 1, 1));
}
