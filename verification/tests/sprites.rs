use pacman::ghost::GhostType;
use pacman::sprites::{
    create_death_animation, create_ghost_animations, create_player_animations, DirectionalNames,
    GhostAnimationSpeeds, GhostSpriteNames, PlayerSpriteNames, DEATH_FRAME_TICKS, PLAYER_FRAME_TICKS,
};
use pacman::texture::{AtlasMapper, MapperFrame, SpriteAtlas, TextureError, U16Vec2};

fn atlas(names: &[&str]) -> SpriteAtlas<()> {
    let frames = names
        .iter()
        .enumerate()
        .map(|(i, n)| (n.to_string(), MapperFrame { pos: U16Vec2 { x: i as u16, y: 0 }, size: U16Vec2 { x: 16, y: 16 } }))
        .collect();
    SpriteAtlas::new((), AtlasMapper { frames })
}

fn dir(prefix: &str, n: usize) -> DirectionalNames {
    let side = |d: &str| (0..n).map(|i| format!("{prefix}/{d}/{i}")).collect::<Vec<_>>();
    DirectionalNames { up: side("up"), down: side("down"), left: side("left"), right: side("right") }
}

fn all_names(d: &DirectionalNames) -> Vec<String> {
    [d.up.clone(), d.down.clone(), d.left.clone(), d.right.clone()].concat()
}

fn ghost_names() -> GhostSpriteNames {
    GhostSpriteNames {
        eyes: dir("eyes", 1),
        normal: vec![(GhostType::Blinky, dir("blinky", 2)), (GhostType::Pinky, dir("pinky", 2))],
        blue_a: "blue/0".to_string(),
        blue_b: "blue/1".to_string(),
        white_a: "white/0".to_string(),
        white_b: "white/1".to_string(),
    }
}

#[test]
fn ghost_animations_from_the_atlas() {
    let names = ghost_names();
    let mut list: Vec<String> = all_names(&names.eyes);
    for (_, d) in &names.normal {
        list.extend(all_names(d));
    }
    list.extend(["blue/0", "blue/1", "white/0", "white/1"].iter().map(|s| s.to_string()));
    let refs: Vec<&str> = list.iter().map(|s| s.as_str()).collect();
    let a = atlas(&refs);
    let speeds = GhostAnimationSpeeds { eaten: 6, normal: 12, frightened: 14 };
    let anims = create_ghost_animations(&a, &names, speeds).unwrap();
    assert_eq!(anims.eyes.frame_duration, 6);
    assert_eq!(anims.eyes.moving_tiles.up[0], a.get_tile("eyes/up/0").unwrap());
    assert_eq!(anims.normal.len(), 2);
    assert_eq!(anims.normal[1].0, GhostType::Pinky);
    assert_eq!(anims.normal[1].1.moving_tiles.left[1], a.get_tile("pinky/left/1").unwrap());
    let blue_a = a.get_tile("blue/0").unwrap();
    let white_a = a.get_tile("white/0").unwrap();
    assert_eq!(anims.frightened.tiles.len(), 2);
    assert_eq!(anims.frightened_flashing.tiles[0], blue_a);
    assert_eq!(anims.frightened_flashing.tiles[1], white_a);
    assert_eq!(anims.frightened_flashing.frame_duration, 14);
}

#[test]
fn missing_ghost_tile_is_named() {
    let names = ghost_names();
    let a = atlas(&["blue/0"]);
    let speeds = GhostAnimationSpeeds { eaten: 6, normal: 12, frightened: 14 };
    match create_ghost_animations(&a, &names, speeds) {
        Err(TextureError::AtlasTileNotFound(n)) => assert_eq!(n, "eyes/up/0"),
        _ => panic!("expected a missing tile"),
    }
}

#[test]
fn player_and_death_animations() {
    let names = PlayerSpriteNames { full: "full".to_string(), moving: dir("move", 3), stopped: dir("stop", 1) };
    let mut list = all_names(&names.moving);
    list.extend(all_names(&names.stopped));
    list.push("full".to_string());
    let deaths: Vec<String> = (0..=10).map(|i| format!("dying/{i}")).collect();
    list.extend(deaths.clone());
    let refs: Vec<&str> = list.iter().map(|s| s.as_str()).collect();
    let a = atlas(&refs);
    let (anim, full) = create_player_animations(&a, &names).unwrap();
    assert_eq!(full, a.get_tile("full").unwrap());
    assert_eq!(anim.moving_tiles.right.len(), 3);
    assert_eq!(anim.frame_duration, PLAYER_FRAME_TICKS);
    let death = create_death_animation(&a, &deaths).unwrap();
    assert_eq!(death.tiles.len(), 11);
    assert_eq!(death.frame_duration, DEATH_FRAME_TICKS);
    assert!(create_death_animation(&a, &vec!["nope".to_string()]).is_err());
}
