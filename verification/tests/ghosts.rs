use pacman::direction::Direction;
use pacman::ghost::elroy::{elroy_speed, elroy_system, elroy_thresholds, Elroy, ElroyStage};
use pacman::ghost::house::GhostHouseController;
use pacman::ghost::mode::{ghost_mode_tick_system, GhostModeController, ScatterChaseMode};
use pacman::ghost::movement::{
    depart_node, depart_node_with_draw, get_scatter_target, ghost_speed, ghost_target, ghost_targeting_system, GhostSpeedConfig,
    GhostTarget, GhostView, PacmanView, ScatterTargets, TunnelNodes,
};
use pacman::ghost::personality::{calculate_chase_target, TargetingContext};
use pacman::ghost::state::{FrightenedData, GhostAnimationState, GhostState};
use pacman::ghost::systems::{eaten_ghost_arrival, find_direction_to_target, ghost_state_step, EyesStep};
use pacman::ghost::targeting::{
    choose_direction_at_intersection, dist_sq, find_nearest_node, Exit, Intersection, Point, RedZoneNodes,
    TargetPoint,
};
use pacman::ghost::{GhostAnimations, GhostType, LastAnimationState};
use pacman::constants::GHOST_REVIVE_TICKS;

fn exit(target: u16) -> Option<Exit> {
    Some(Exit { target, ghost_traversable: true, pacman_traversable: true })
}

/// A plus-shaped junction: node 0 in the middle, 1 up, 2 down, 3 left, 4 right.
fn plus() -> (Intersection, Vec<Point>) {
    let inter = Intersection { up: exit(1), down: exit(2), left: exit(3), right: exit(4) };
    let positions = vec![
        Point { x: 100, y: 100 },
        Point { x: 100, y: 80 },
        Point { x: 100, y: 120 },
        Point { x: 80, y: 100 },
        Point { x: 120, y: 100 },
        Point { x: 300, y: 100 },
        Point { x: 100, y: 300 },
    ];
    (inter, positions)
}

#[test]
fn ghost_type_names() {
    assert_eq!(GhostType::Blinky.as_str(), "blinky");
    assert_eq!(GhostType::Clyde.as_str(), "clyde");
}

#[test]
fn squared_distance_is_exact() {
    assert_eq!(dist_sq(Point { x: 3, y: -4 }, TargetPoint { x: 0, y: 0 }), 25);
    assert_eq!(dist_sq(Point { x: i32::MIN, y: 0 }, TargetPoint { x: 0, y: 0 }), 1u128 << 62);
}

#[test]
fn nearest_node_prefers_the_first_of_equals() {
    let pts = vec![Point { x: 0, y: 0 }, Point { x: 10, y: 0 }, Point { x: -10, y: 0 }];
    assert_eq!(find_nearest_node(&pts, TargetPoint { x: 9, y: 0 }), 1);
    assert_eq!(find_nearest_node(&pts, TargetPoint { x: 0, y: 0 }), 0);
    let mid = vec![Point { x: 10, y: 0 }, Point { x: -10, y: 0 }];
    assert_eq!(find_nearest_node(&mid, TargetPoint { x: 0, y: 0 }), 0);
    assert_eq!(find_nearest_node(&Vec::new(), TargetPoint { x: 0, y: 0 }), 0);
}

#[test]
fn intersection_moves_toward_target_and_never_reverses() {
    let (inter, positions) = plus();
    let red = RedZoneNodes([99, 99, 99, 99]);
    // target to the right (node 5), heading left: right would be a reversal.
    let d = choose_direction_at_intersection(&inter, &positions, &red, 0, 5, Direction::Left, false, None);
    assert_ne!(d, Some(Direction::Right));
    // heading up towards the right target: right is best.
    let d = choose_direction_at_intersection(&inter, &positions, &red, 0, 5, Direction::Up, false, None);
    assert_eq!(d, Some(Direction::Right));
}

#[test]
fn ties_break_up_left_down_right() {
    let (inter, positions) = plus();
    let red = RedZoneNodes([99, 99, 99, 99]);
    // target at the junction itself: all four neighbours are equally close.
    let d = choose_direction_at_intersection(&inter, &positions, &red, 0, 0, Direction::Down, false, None);
    assert_eq!(d, Some(Direction::Left));
    let d = choose_direction_at_intersection(&inter, &positions, &red, 0, 0, Direction::Left, false, None);
    assert_eq!(d, Some(Direction::Up));
}

#[test]
fn red_zone_forbids_turning_up_unless_frightened() {
    let (inter, positions) = plus();
    let red = RedZoneNodes::from_map([Some(0), None, None, None]);
    assert!(red.contains(0));
    let d = choose_direction_at_intersection(&inter, &positions, &red, 0, 1, Direction::Left, false, None);
    assert_ne!(d, Some(Direction::Up));
    let d = choose_direction_at_intersection(&inter, &positions, &red, 0, 1, Direction::Left, true, None);
    assert_eq!(d, Some(Direction::Up));
}

#[test]
fn dead_end_reverses() {
    let inter = Intersection { up: None, down: exit(2), left: None, right: None };
    let (_, positions) = plus();
    let red = RedZoneNodes([99, 99, 99, 99]);
    let d = choose_direction_at_intersection(&inter, &positions, &red, 0, 5, Direction::Up, false, None);
    assert_eq!(d, Some(Direction::Down));
}

#[test]
fn frightened_draw_picks_the_allowed_move() {
    let (inter, positions) = plus();
    let red = RedZoneNodes([99, 99, 99, 99]);
    // Heading left, the allowed moves are Up, Down, Left (in that order).
    let pick = |k: u64| choose_direction_at_intersection(&inter, &positions, &red, 0, 5, Direction::Left, true, Some(k));
    assert_eq!(pick(0), Some(Direction::Up));
    assert_eq!(pick(1), Some(Direction::Down));
    assert_eq!(pick(2), Some(Direction::Left));
    assert_eq!(pick(3), Some(Direction::Up));
    assert_eq!(pick(u64::MAX), Some(Direction::Up));
    // A draw does not move a ghost that is not frightened.
    let calm = choose_direction_at_intersection(&inter, &positions, &red, 0, 5, Direction::Up, false, Some(1));
    assert_eq!(calm, Some(Direction::Right));
}

#[test]
fn frightened_departure_is_an_allowed_move() {
    let (inter, positions) = plus();
    let red = RedZoneNodes([99, 99, 99, 99]);
    let scared = GhostState::Active { frightened: Some(FrightenedData::new(10, 5)) };
    for _ in 0..50 {
        let r = depart_node(&inter, &positions, &red, 0, GhostTarget(Some(5)), Direction::Left, &scared);
        assert!(matches!(r, Some((Direction::Up, _)) | Some((Direction::Down, _)) | Some((Direction::Left, _))));
    }
}

#[test]
fn departure_takes_the_chosen_edge() {
    let (inter, positions) = plus();
    let red = RedZoneNodes([99, 99, 99, 99]);
    let state = GhostState::Active { frightened: None };
    let r = depart_node(&inter, &positions, &red, 0, GhostTarget(Some(6)), Direction::Left, &state);
    assert_eq!(r, depart_node_with_draw(&inter, &positions, &red, 0, GhostTarget(Some(6)), Direction::Left, &state, Some(7)));
    assert_eq!(r, Some((Direction::Down, Exit { target: 2, ghost_traversable: true, pacman_traversable: true })));
}

fn ctx(dir: Direction) -> TargetingContext {
    TargetingContext {
        pacman_node: 0,
        pacman_direction: dir,
        pacman_position: Point { x: 100, y: 100 },
        blinky_position: Point { x: 100, y: 120 },
        self_node: 2,
        self_position: Point { x: 100, y: 120 },
    }
}

#[test]
fn personalities_pick_their_targets() {
    let (_, positions) = plus();
    assert_eq!(calculate_chase_target(GhostType::Blinky, &ctx(Direction::Up), &positions), 0);
    // Pinky: four tiles (32 px) right of Pac-Man -> nearest is node 4 (120,100).
    assert_eq!(calculate_chase_target(GhostType::Pinky, &ctx(Direction::Right), &positions), 4);
    // Facing up also shifts left: (68, 68) -> node 3 (80,100)? distances: node1 (100,80): 32^2+12^2; node3: 12^2+32^2; first wins.
    assert_eq!(calculate_chase_target(GhostType::Pinky, &ctx(Direction::Up), &positions), 1);
    // Inky: intermediate (116,100); doubled from Blinky (100,120) -> (132, 80).
    assert_eq!(calculate_chase_target(GhostType::Inky, &ctx(Direction::Right), &positions), 4);
    // Clyde is within eight tiles: he signals his own node.
    assert_eq!(calculate_chase_target(GhostType::Clyde, &ctx(Direction::Right), &positions), 2);
}

#[test]
fn clyde_far_away_chases() {
    let (_, positions) = plus();
    let mut c = ctx(Direction::Right);
    c.self_position = Point { x: 100, y: 164 };
    assert_eq!(calculate_chase_target(GhostType::Clyde, &c, &positions), 0);
    c.self_position = Point { x: 100, y: 163 };
    assert_eq!(calculate_chase_target(GhostType::Clyde, &c, &positions), 2);
}

fn scatter() -> ScatterTargets {
    ScatterTargets { blinky: 10, pinky: 11, inky: 12, clyde: 13 }
}

#[test]
fn targets_follow_mode_and_elroy() {
    let (_, positions) = plus();
    let active = GhostState::Active { frightened: None };
    let c = ctx(Direction::Right);
    assert_eq!(get_scatter_target(GhostType::Inky, &scatter()), 12);
    assert_eq!(ghost_target(GhostType::Pinky, &active, ScatterChaseMode::Scatter, None, &c, &positions, &scatter()), Some(11));
    assert_eq!(
        ghost_target(GhostType::Blinky, &active, ScatterChaseMode::Scatter, Some(ElroyStage::Stage1), &c, &positions, &scatter()),
        Some(0)
    );
    assert_eq!(
        ghost_target(GhostType::Blinky, &active, ScatterChaseMode::Scatter, Some(ElroyStage::Off), &c, &positions, &scatter()),
        Some(10)
    );
    assert_eq!(ghost_target(GhostType::Clyde, &active, ScatterChaseMode::Chase, None, &c, &positions, &scatter()), Some(13));
    let scared = GhostState::Active { frightened: Some(FrightenedData::new(10, 5)) };
    assert_eq!(ghost_target(GhostType::Blinky, &scared, ScatterChaseMode::Chase, None, &c, &positions, &scatter()), None);
    assert_eq!(ghost_target(GhostType::Blinky, &GhostState::Eyes, ScatterChaseMode::Chase, None, &c, &positions, &scatter()), None);
}

#[test]
fn targeting_system_needs_pacman() {
    let (_, positions) = plus();
    let g = GhostView {
        ghost_type: GhostType::Blinky,
        state: GhostState::Active { frightened: None },
        node: 2,
        position: Point { x: 100, y: 120 },
        target: GhostTarget(Some(7)),
    };
    let mut ghosts = vec![g];
    ghost_targeting_system(&positions, ScatterChaseMode::Chase, None, None, None, &scatter(), &mut ghosts);
    assert_eq!(ghosts[0].target, GhostTarget(Some(7)));
    let pac = PacmanView { node: 3, position: Point { x: 80, y: 100 }, direction: Direction::Left };
    ghost_targeting_system(&positions, ScatterChaseMode::Chase, Some(pac), None, None, &scatter(), &mut ghosts);
    assert_eq!(ghosts[0].target, GhostTarget(Some(3)));
}

#[test]
fn speed_table_and_tunnel() {
    assert_eq!(GhostSpeedConfig::for_level(1), GhostSpeedConfig { normal: 75, tunnel: 40, frightened: 50 });
    assert_eq!(GhostSpeedConfig::for_level(4).normal, 85);
    assert_eq!(GhostSpeedConfig::for_level(21).frightened, 0);
    let tunnels = TunnelNodes::from_map(&vec![(1, false), (2, true), (3, true)]);
    assert_eq!(tunnels.0, vec![2, 3]);
    assert!(tunnels.contains(3) && !tunnels.contains(1));
    let cfg = GhostSpeedConfig::for_level(1);
    let active = GhostState::Active { frightened: None };
    // Speeds in hundredths of a percent; Elroy scales Blinky's speed everywhere.
    assert_eq!(ghost_speed(GhostType::Blinky, 2, &active, &cfg, &tunnels, Some(ElroyStage::Stage1), 1), 4000 * 80 / 75);
    assert_eq!(ghost_speed(GhostType::Blinky, 1, &active, &cfg, &tunnels, Some(ElroyStage::Off), 1), 7500);
    let scared = GhostState::Active { frightened: Some(FrightenedData::new(10, 5)) };
    assert_eq!(ghost_speed(GhostType::Blinky, 1, &scared, &cfg, &tunnels, Some(ElroyStage::Stage2), 1), 5000 * 85 / 75);
    assert_eq!(ghost_speed(GhostType::Pinky, 1, &active, &cfg, &tunnels, Some(ElroyStage::Stage2), 1), 7500);
    assert_eq!(ghost_speed(GhostType::Blinky, 1, &active, &cfg, &tunnels, Some(ElroyStage::Stage1), 1), 8000);
    assert_eq!(ghost_speed(GhostType::Blinky, 1, &active, &cfg, &tunnels, Some(ElroyStage::Stage2), 1), 8500);
}

#[test]
fn elroy_stages_are_speed_boosts() {
    for level in [1u8, 2, 4, 5, 20, 21, 255] {
        let off = elroy_speed(ElroyStage::Off, level);
        let s1 = elroy_speed(ElroyStage::Stage1, level);
        let s2 = elroy_speed(ElroyStage::Stage2, level);
        assert!(off < s1 && s1 < s2);
    }
    assert_eq!(elroy_speed(ElroyStage::Stage2, 5), 105);
}

#[test]
fn elroy_stages_follow_pellets_left() {
    assert_eq!(elroy_thresholds(1), (20, 10));
    let mut e = Elroy::default();
    elroy_system(&mut e, 0, 1);
    assert_eq!(e.stage, ElroyStage::Off);
    elroy_system(&mut e, 244 - 20, 1);
    assert_eq!(e.stage, ElroyStage::Stage1);
    elroy_system(&mut e, 244 - 10, 1);
    assert_eq!(e.stage, ElroyStage::Stage2);
    elroy_system(&mut e, 1000, 1);
    assert_eq!(e.stage, ElroyStage::Stage2);
}

#[test]
fn fresh_house_releases_blinky_and_pinky_first() {
    let h = GhostHouseController::new(1);
    assert!(h.should_exit(GhostType::Blinky));
    assert!(h.should_exit(GhostType::Pinky));
    assert!(!h.should_exit(GhostType::Inky));
    assert!(!h.should_exit(GhostType::Clyde));
}

#[test]
fn house_timer_forces_a_ghost_out() {
    let mut h = GhostHouseController::new(1);
    let mut forced = None;
    for _ in 0..240 {
        if let Some(i) = h.tick() {
            forced = Some(i);
        }
    }
    assert_eq!(forced, Some(0));
}

#[test]
fn mode_clock_reverses_active_ghosts() {
    let mut m = GhostModeController::new(1);
    assert_eq!(m.mode, ScatterChaseMode::Scatter);
    let mut ghosts = vec![(GhostState::Active { frightened: None }, Direction::Left), (GhostState::Eyes, Direction::Left)];
    let mut flips = 0;
    for _ in 0..421 {
        if ghost_mode_tick_system(&mut m, &mut ghosts) {
            flips += 1;
        }
    }
    assert_eq!(flips, 1);
    assert_eq!(m.mode, ScatterChaseMode::Chase);
    assert_eq!(ghosts[0].1, Direction::Right);
    assert_eq!(ghosts[1].1, Direction::Left);
}

#[test]
fn fright_pauses_the_mode_clock() {
    let mut m = GhostModeController::new(1);
    let scared = GhostState::Active { frightened: Some(FrightenedData::new(1000, 500)) };
    let mut ghosts = vec![(scared, Direction::Left)];
    for _ in 0..1000 {
        assert!(!ghost_mode_tick_system(&mut m, &mut ghosts));
    }
    assert!(m.paused);
    assert_eq!(m.mode, ScatterChaseMode::Scatter);
}

#[test]
fn fright_flashes_then_ends() {
    let mut s = GhostState::Active { frightened: Some(FrightenedData::new(3, 1)) };
    let mut last = LastAnimationState(GhostAnimationState::Frightened { flash: false });
    assert_eq!(ghost_state_step(&mut s, &mut last), Some(GhostAnimationState::Frightened { flash: true }));
    assert_eq!(ghost_state_step(&mut s, &mut last), None);
    assert_eq!(ghost_state_step(&mut s, &mut last), None);
    assert_eq!(ghost_state_step(&mut s, &mut last), Some(GhostAnimationState::Normal));
    assert_eq!(s, GhostState::Active { frightened: None });
}

#[test]
fn eyes_head_home_and_revive() {
    let (inter, positions) = plus();
    let mut s = GhostState::Eyes;
    assert_eq!(find_direction_to_target(&inter, &positions, 0, 5), Some((Direction::Right, Exit { target: 4, ghost_traversable: true, pacman_traversable: true })));
    assert_eq!(find_direction_to_target(&inter, &positions, 0, 6), Some((Direction::Down, Exit { target: 2, ghost_traversable: true, pacman_traversable: true })));
    assert_eq!(find_direction_to_target(&inter, &positions, 0, 99), None);
    assert_eq!(eaten_ghost_arrival(&mut s, 0, 6, &inter, &positions), EyesStep::Continue(Direction::Down, Exit { target: 2, ghost_traversable: true, pacman_traversable: true }));
    assert_eq!(s, GhostState::Eyes);
    assert_eq!(eaten_ghost_arrival(&mut s, 6, 6, &inter, &positions), EyesStep::Revive);
    assert_eq!(s, GhostState::Reviving { remaining_ticks: GHOST_REVIVE_TICKS });
}

#[test]
fn animations_lookup() {
    let anims = GhostAnimations::new(vec![(GhostType::Pinky, 1u8), (GhostType::Pinky, 2u8)], 9u8, 'f', 'F');
    assert_eq!(anims.get_normal(&GhostType::Pinky), Some(&1));
    assert_eq!(anims.get_normal(&GhostType::Inky), None);
    assert_eq!(*anims.eyes(), 9);
    assert_eq!(*anims.frightened(true), 'F');
    assert_eq!(*anims.frightened(false), 'f');
}

#[test]
fn global_counter_releases_by_dots_after_a_death() {
    let mut h = GhostHouseController::new(1);
    h.on_ghost_exit(GhostType::Pinky);
    for _ in 0..100 {
        h.on_dot_eaten();
    }
    h.on_player_death();
    assert!(h.should_exit(GhostType::Blinky));
    assert!(!h.should_exit(GhostType::Pinky));
    for k in 1..=32u32 {
        h.on_dot_eaten();
        assert_eq!(h.should_exit(GhostType::Pinky), k >= 7);
        assert_eq!(h.should_exit(GhostType::Inky), k >= 17);
        assert_eq!(h.should_exit(GhostType::Clyde), k >= 32);
    }
}

#[test]
fn fright_counts_down_and_flashes() {
    let mut f = FrightenedData::new(5, 2);
    for k in 1..=5u32 {
        assert!(!f.tick());
        assert_eq!(f.remaining_ticks, 5 - k);
        assert_eq!(f.flashing, k >= 2);
    }
    assert!(f.tick());
    let mut never = FrightenedData::new(3, 0);
    for _ in 0..3 {
        never.tick();
        assert!(!never.flashing);
    }
}
