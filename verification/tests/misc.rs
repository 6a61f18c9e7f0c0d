use pacman::animation::{advance_directional, advance_linear, DirectionalAnimation, LinearAnimation};
use pacman::events::{GameCommand, GameEvent};
use pacman::hud::{
    centered_x, centered_y, chrome_items, overlay_messages, ChromeInput, ChromeItem, ChromeText, FruitSprites,
    HudColor, LeaderboardData, LeaderboardEntry, OverlayMessage,
};
use pacman::input::{HumanInput, InputSource};
use pacman::layout::{Layout, WindowSize};
use pacman::lifetime::{time_to_live_system, TimeToLive};
use pacman::state::pause::PauseState;
use pacman::profiling::{format_timing_display, rank_timings, digit_width, get_value, timing_columns, SystemTimings, TimeUnit, Timing, TimingBuffer, TimingRow};
use pacman::render::{dirty_render_system, RenderDirty, Visibility};
use pacman::scenes::{attract_input_system, title_input_system, AttractScene, GameplayScene, Scene, TitleScene};
use pacman::state::stage::{GameStage, StartupSequence};

#[test]
fn timing_buffer_fills_skipped_ticks_with_zeros() {
    let mut b = TimingBuffer::new();
    b.add_timing(5, 1);
    b.add_timing(7, 4);
    assert_eq!(b.get_most_recent_timing(), 7);
    assert_eq!(b.last_tick(), 4);
    assert_eq!(b.recent_samples(4), vec![5, 0, 0, 7]);
    assert_eq!(b.recent_samples(6), vec![5, 0, 0, 7, 0]);
    assert_eq!(b.last_tick(), 6);
    assert_eq!(b.recent_samples(6), vec![5, 0, 0, 7, 0]);
}

#[test]
fn timing_window_keeps_the_last_thirty() {
    let mut b = TimingBuffer::default();
    for t in 0..40u64 {
        b.add_timing(t, t);
    }
    let s = b.recent_samples(39);
    assert_eq!(s.len(), 30);
    assert_eq!(s[0], 10);
    assert_eq!(s[29], 39);
    assert_eq!(TimingBuffer::new().get_most_recent_timing(), 0);
}

#[test]
fn system_timings_keep_one_window_per_label() {
    let mut t = SystemTimings::new();
    t.add_timing("ghosts", 3, 1);
    t.add_timing("input", 4, 1);
    t.add_timing("ghosts", 5, 2);
    t.add_total_timing(9, 2);
    assert!(t.can_sample_at(2));
    assert!(!t.can_sample_at(1));
    let samples = t.recent_samples(3);
    assert_eq!(samples[0], ("ghosts".to_string(), vec![3, 5]));
    assert_eq!(samples[1], ("input".to_string(), vec![4, 0]));
    assert_eq!(samples[2], ("total".to_string(), vec![0, 9]));
    let _ = SystemTimings::default();
}

#[test]
fn tick_counter_counts() {
    let mut t = Timing::new();
    assert_eq!(t.get_current_tick(), 0);
    assert_eq!(t.increment_tick(), 1);
    assert_eq!(t.increment_tick(), 2);
    assert_eq!(t.get_current_tick(), 2);
    assert_eq!(Timing::default().get_current_tick(), 0);
}

#[test]
fn durations_split_into_units() {
    assert_eq!(get_value(1_234_567_890), (1, 234, TimeUnit::Seconds));
    assert_eq!(get_value(16_666_667), (16, 666, TimeUnit::Millis));
    assert_eq!(get_value(1_500), (1, 500, TimeUnit::Micros));
    assert_eq!(get_value(999), (999, 0, TimeUnit::Nanos));
    assert_eq!(TimeUnit::Micros.suffix(), "µs");
    assert_eq!(TimeUnit::Seconds.suffix(), "s");
}

#[test]
fn digit_widths() {
    assert_eq!(digit_width(0), 1);
    assert_eq!(digit_width(9), 1);
    assert_eq!(digit_width(10), 2);
    assert_eq!(digit_width(u64::MAX), 20);
}

#[test]
fn timing_columns_take_the_widest() {
    let rows = vec![
        TimingRow { name: "total".to_string(), avg: 16_666_667, std_dev: 1_200 },
        TimingRow { name: "render".to_string(), avg: 123_456_789, std_dev: 5 },
    ];
    let c = timing_columns(&rows);
    assert_eq!((c.name, c.avg_int, c.avg_decimal, c.std_int, c.std_decimal), (6, 3, 3, 1, 3));
    let e = timing_columns(&Vec::new());
    assert_eq!((e.name, e.avg_int, e.avg_decimal), (0, 0, 3));
}

#[test]
fn overlay_messages_by_stage() {
    assert_eq!(overlay_messages(GameStage::GameOver), vec![OverlayMessage::GameOver]);
    assert_eq!(
        overlay_messages(GameStage::Starting(StartupSequence::TextOnly { remaining_ticks: 3 })),
        vec![OverlayMessage::Ready, OverlayMessage::PlayerOne]
    );
    assert_eq!(
        overlay_messages(GameStage::Starting(StartupSequence::CharactersVisible { remaining_ticks: 3 })),
        vec![OverlayMessage::Ready]
    );
    assert!(overlay_messages(GameStage::Playing).is_empty());
    assert_eq!(OverlayMessage::PlayerOne.line_y(), 89);
    assert_eq!(OverlayMessage::GameOver.text(), "GAME  OVER");
    assert_eq!(OverlayMessage::GameOver.color(), HudColor::Alert);
    assert_eq!(centered_x(48), 88);
    assert_eq!(centered_x(1000), 0);
    assert_eq!(centered_y(20), 114);
}

#[test]
fn fruit_history_shows_latest_six() {
    let f = FruitSprites((0..8u8).collect());
    assert_eq!(f.recent(), vec![7, 6, 5, 4, 3, 2]);
    assert!(FruitSprites::<u8>::new().recent().is_empty());
}

#[test]
fn default_leaderboard() {
    let d = LeaderboardData::default();
    assert_eq!(d.0.len(), 5);
    assert_eq!(d.0[0].name, "ACE");
    assert_eq!(d.0[4].score, 47800);
}

#[test]
fn landscape_chrome_positions() {
    let layout = Layout::compute(WindowSize::new(1280, 720));
    let input = ChromeInput { score: 5, level: 1, text_height: 16, icon_height: Some(26) };
    let board = vec![LeaderboardEntry { name: "ACE".to_string(), score: 312000 }];
    let items = chrome_items(&layout, &input, &board);
    // line = 16 + 4 = 20; cluster = 6*20 + 26 + 3*20 = 206; ly0 = (720 - 206) / 2 = 257.
    assert_eq!(items[0], ChromeItem::Text { text: ChromeText::OneUp, x: 6, y: 257, color: HudColor::Label });
    assert_eq!(items[1], ChromeItem::Text { text: ChromeText::Score, x: 6, y: 277, color: HudColor::Value });
    assert_eq!(items[4], ChromeItem::Lives { x: 6, y: 377 });
    // right edge = 864 + 416 - 6 = 1274; cluster = 20 + 20 + 20 + 26 = 86; ry0 = 317.
    assert_eq!(items[7], ChromeItem::Text { text: ChromeText::HighScores, x: 1274 - 11 * 16, y: 317, color: HudColor::Label });
    // "ACE" + space + 7 columns = 11 glyphs.
    assert_eq!(items[8], ChromeItem::Text { text: ChromeText::LeaderName(0), x: 1274 - 11 * 16, y: 337, color: HudColor::Name });
    assert_eq!(items[9], ChromeItem::Text { text: ChromeText::LeaderScore(0), x: 1274 - 7 * 16, y: 337, color: HudColor::Value });
    assert_eq!(items[10], ChromeItem::Fruits { anchor_x: 1274, y: 377 });
    assert_eq!(items.len(), 11);
}

#[test]
fn portrait_chrome_positions() {
    let layout = Layout::compute(WindowSize::new(600, 900));
    let input = ChromeInput { score: 12345, level: 3, text_height: 8, icon_height: None };
    let items = chrome_items(&layout, &input, &Vec::new());
    // top band (76, 162, 448, 48); line = 8 + 4 = 12; ty = 162 + (48 - 24) / 2 = 174.
    assert_eq!(items[0], ChromeItem::Text { text: ChromeText::OneUp, x: 82, y: 174, color: HudColor::Label });
    assert_eq!(items[2], ChromeItem::Text { text: ChromeText::HighScore, x: 76 + (448 - 80) / 2, y: 174, color: HudColor::Label });
    assert_eq!(items[3], ChromeItem::Text { text: ChromeText::Score, x: 76 + (448 - 40) / 2, y: 186, color: HudColor::Value });
    assert_eq!(items[4], ChromeItem::Text { text: ChromeText::Lv, x: 518 - 16, y: 174, color: HudColor::Label });
    // no icon: rows are a line tall; bottom band (76, 706, 448, 32): by = 706 + 10 = 716.
    assert_eq!(items[6], ChromeItem::Fruits { anchor_x: 76 + 448 - 6, y: 716 });
    assert_eq!(items.len(), 7);
}

#[test]
fn lifetimes_expire() {
    let mut es = vec![(1u64, TimeToLive::new(3)), (2, TimeToLive::new(1)), (3, TimeToLive::new(2))];
    let gone = time_to_live_system(&mut es, 2);
    assert_eq!(gone, vec![2, 3]);
    assert_eq!(es, vec![(1, TimeToLive { remaining_ticks: 1 })]);
}

#[test]
fn directional_animation_banks_ticks() {
    let mut a = DirectionalAnimation::new('m', 's', 4);
    advance_directional(&mut a, 10, false, false);
    assert_eq!((a.current_frame, a.time_bank), (2, 2));
    advance_directional(&mut a, 10, true, false);
    assert_eq!((a.current_frame, a.time_bank), (2, 2));
    advance_directional(&mut a, 2, false, false);
    assert_eq!((a.current_frame, a.time_bank), (3, 0));
}

#[test]
fn linear_animation_finishes_on_its_last_frame() {
    let mut a = LinearAnimation { tiles: vec![1, 2, 3], current_frame: 0, time_bank: 0, frame_duration: 2, finished: false };
    assert!(!advance_linear(&mut a, 1, false));
    assert!(advance_linear(&mut a, 3, false));
    assert_eq!((a.current_frame, a.time_bank, a.finished), (2, 0, false));
    assert!(advance_linear(&mut a, 2, false));
    assert_eq!((a.current_frame, a.finished), (2, true));
    assert!(!advance_linear(&mut a, 100, false));
    let mut l = LinearAnimation { tiles: vec![1, 2], current_frame: 0, time_bank: 0, frame_duration: 1, finished: false };
    assert!(advance_linear(&mut l, 5, true));
    assert_eq!((l.current_frame, l.finished), (5, false));
}

#[test]
fn visibility_and_dirty_flag() {
    let mut v = Visibility::hidden();
    assert!(v.is_hidden());
    v.toggle();
    assert!(v.is_visible());
    v.toggle();
    v.show();
    assert!(v.is_visible());
    assert_eq!(Visibility::default(), Visibility::visible());
    let mut d = RenderDirty::default();
    dirty_render_system(&mut d, 0, false, false, false, false);
    assert!(!d.0);
    dirty_render_system(&mut d, 0, false, false, false, true);
    assert!(d.0);
}

#[test]
fn scenes_hand_over_control() {
    assert_eq!(AttractScene.on_enter().input_source, Some(InputSource::Ai));
    assert_eq!(AttractScene.on_exit().input_source, Some(InputSource::Human));
    assert_eq!(GameplayScene.on_enter().spawn_level, Some(1));
    assert!(GameplayScene.on_exit().despawn);
    assert!(!TitleScene.on_exit().despawn);
    let mut req = None;
    attract_input_system(&HumanInput { active: false }, &mut req);
    assert_eq!(req, None);
    attract_input_system(&HumanInput { active: true }, &mut req);
    assert_eq!(req, Some(Scene::Gameplay));
    let mut req = Some(Scene::Title);
    title_input_system(&vec![GameEvent::Command(GameCommand::MuteAudio)], &mut req);
    assert_eq!(req, Some(Scene::Gameplay));
}

#[test]
fn timings_rank_slowest_first_then_by_label() {
    let ranked = rank_timings(vec![
        ("b".to_string(), 5),
        ("a".to_string(), 5),
        ("c".to_string(), 9),
        ("ab".to_string(), 5),
    ]);
    let names: Vec<&str> = ranked.iter().map(|(n, _)| n.as_str()).collect();
    assert_eq!(names, vec!["c", "a", "ab", "b"]);
}

#[test]
fn slow_frame_suspects() {
    let mut t = SystemTimings::new();
    t.add_timing("render", 3_000_000, 1);
    t.add_timing("input", 1_000, 1);
    t.add_total_timing(9_000_000, 1);
    let s = t.get_slowest_systems();
    assert_eq!(s.total, 3_001_000);
    assert_eq!(s.ranked, vec![("render".to_string(), 3_000_000), ("input".to_string(), 1_000)]);
    assert_eq!(s.over_threshold, vec![("render".to_string(), 3_000_000)]);
}

#[test]
fn timing_rows_are_formatted_in_columns() {
    let rows = vec![
        TimingRow { name: "total".to_string(), avg: 16_666_667, std_dev: 1_200 },
        TimingRow { name: "render".to_string(), avg: 123_456_789, std_dev: 5 },
    ];
    let lines: Vec<String> = format_timing_display(&rows).into_iter().map(|l| l.into_iter().collect()).collect();
    assert_eq!(lines[0], "total  :  16.666ms ± 1.200µs");
    assert_eq!(lines[1], "render : 123.456ms ± 5.0  ns");
    assert!(format_timing_display(&Vec::new()).is_empty());
}

#[test]
fn timed_pause_runs_out_after_its_ticks() {
    let mut p = PauseState::Active { remaining_ticks: Some(3) };
    assert!(!p.tick() && p.active());
    assert!(!p.tick() && p.active());
    assert!(p.tick());
    assert_eq!(p, PauseState::Inactive);
    assert!(!p.tick());
}
