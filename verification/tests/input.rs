use pacman::direction::Direction;
use pacman::events::{GameCommand, GameEvent};
use pacman::input::{
    input_frame, pending_resize, process_simple_key_events, request_canvas_resize, Bindings, FrameEvent,
    InputSource, Key, SimpleKeyEvent,
};
use pacman::layout::{Layout, WindowSize};

fn mv(d: Direction) -> GameEvent {
    GameEvent::Command(GameCommand::MovePlayer(d))
}

#[test]
fn key_down_emits_its_command() {
    let mut b = Bindings::default();
    let out = process_simple_key_events(&mut b, &vec![SimpleKeyEvent::KeyDown(Key::Escape)]);
    assert_eq!(out, vec![GameEvent::Command(GameCommand::TogglePause)]);
    assert!(b.pressed_movement_keys().is_empty());
}

#[test]
fn held_key_keeps_moving() {
    let mut b = Bindings::default();
    let out = process_simple_key_events(&mut b, &vec![SimpleKeyEvent::KeyDown(Key::W)]);
    assert_eq!(out, vec![mv(Direction::Up)]);
    let out = process_simple_key_events(&mut b, &vec![]);
    assert_eq!(out, vec![mv(Direction::Up)]);
}

#[test]
fn releasing_falls_back_to_the_other_held_key() {
    let mut b = Bindings::default();
    process_simple_key_events(&mut b, &vec![SimpleKeyEvent::KeyDown(Key::Left), SimpleKeyEvent::KeyDown(Key::Up)]);
    assert_eq!(b.pressed_movement_keys(), vec![Key::Left, Key::Up]);
    let out = process_simple_key_events(&mut b, &vec![SimpleKeyEvent::KeyUp(Key::Up)]);
    assert_eq!(out, vec![mv(Direction::Left)]);
}

#[test]
fn tap_within_a_frame_emits_once() {
    let mut b = Bindings::default();
    let out = process_simple_key_events(&mut b, &vec![SimpleKeyEvent::KeyDown(Key::D), SimpleKeyEvent::KeyUp(Key::D)]);
    assert_eq!(out, vec![mv(Direction::Right)]);
    assert!(b.pressed_movement_keys().is_empty());
}

#[test]
fn unbound_keys_do_nothing() {
    let mut b = Bindings::default();
    let out = process_simple_key_events(&mut b, &vec![SimpleKeyEvent::KeyDown(Key::Other(42))]);
    assert!(out.is_empty());
    assert_eq!(b.command_for(Key::Other(42)), None);
    assert!(b.is_movement_key(Key::A));
    assert!(!b.is_movement_key(Key::M));
}

#[test]
fn frame_routes_exit_and_drops_ai_movement() {
    let mut b = Bindings::default();
    let mut layout = Layout::compute(WindowSize::new(1280, 720));
    let frame = vec![
        FrameEvent::KeyDown { key: Some(Key::Up), repeat: false },
        FrameEvent::KeyDown { key: Some(Key::M), repeat: false },
        FrameEvent::KeyDown { key: Some(Key::Q), repeat: false },
    ];
    let out = input_frame(&mut b, InputSource::Ai, &mut layout, &frame);
    assert!(out.exit);
    assert!(out.human_active);
    assert_eq!(out.events, vec![GameEvent::Command(GameCommand::MuteAudio)]);
}

#[test]
fn frame_ignores_repeats_and_resizes_once() {
    let mut b = Bindings::default();
    let mut layout = Layout::compute(WindowSize::new(1280, 720));
    let frame = vec![
        FrameEvent::KeyDown { key: Some(Key::Left), repeat: true },
        FrameEvent::Resized { width: 600, height: 900 },
        FrameEvent::Resized { width: 600, height: 900 },
        FrameEvent::Other,
    ];
    let out = input_frame(&mut b, InputSource::Human, &mut layout, &frame);
    assert!(!out.exit);
    assert!(!out.human_active);
    assert!(out.events.is_empty());
    assert_eq!(layout, Layout::compute(WindowSize::new(600, 900)));
}

#[test]
fn frame_quit_and_pointer() {
    let mut b = Bindings::default();
    let mut layout = Layout::compute(WindowSize::new(800, 600));
    let out = input_frame(&mut b, InputSource::Human, &mut layout, &vec![FrameEvent::PointerDown, FrameEvent::Quit]);
    assert!(out.exit);
    assert!(out.human_active);
    let out = input_frame(&mut b, InputSource::Human, &mut layout, &vec![FrameEvent::Resized { width: -5, height: 10 }]);
    assert!(!out.exit);
    assert_eq!(layout.window, WindowSize::new(0, 10));
}

#[test]
fn resize_word_round_trips() {
    let packed = request_canvas_resize(1024, 768);
    assert_eq!(packed, (1024u64 << 32) | 768);
    assert_eq!(pending_resize(packed, 800, 600), Some((1024, 768)));
    assert_eq!(pending_resize(packed, 1024, 768), None);
    assert_eq!(pending_resize(0, 1, 1), None);
}

#[test]
fn input_source_flags() {
    assert!(InputSource::Human.is_human());
    assert!(!InputSource::Human.is_ai());
    assert!(InputSource::Ai.is_ai());
}
