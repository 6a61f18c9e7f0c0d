//! Scenes: what the game is showing (title, attract demo, gameplay), and what
//! entering and leaving each one asks of the world.

use vstd::prelude::*;

use crate::events::GameEvent;
use crate::input::{HumanInput, InputSource};

verus! {

/// The top-level screen being shown.
#[derive(Debug, Clone, Copy, PartialEq, Eq, Structural)]
pub enum Scene {
    /// The press-to-start screen shown at boot.
    Title,
    /// The self-playing demo.
    Attract,
    /// The playable maze.
    Gameplay,
}

/// Tags an entity as belonging to a scene, so leaving the scene removes it.
#[derive(Debug, Clone, Copy, PartialEq, Eq, Structural)]
pub struct SceneOwned(pub Scene);

/// What entering or leaving a scene asks of the world.
#[derive(Debug, Clone, Copy, PartialEq, Eq, Structural)]
pub struct SceneChange {
    /// Who drives Pac-Man from now on, where that changes.
    pub input_source: Option<InputSource>,
    /// Spawn the gameplay population at this level.
    pub spawn_level: Option<u8>,
    /// Despawn every entity the scene owns.
    pub despawn: bool,
}

/// The press-to-start screen; it owns no entities.
#[derive(Debug, Clone, Copy)]
pub struct TitleScene;

/// The attract demo: gameplay driven by the AI.
#[derive(Debug, Clone, Copy)]
pub struct AttractScene;

/// The playable maze.
#[derive(Debug, Clone, Copy)]
pub struct GameplayScene;

impl TitleScene {
    /// Entering the title changes nothing.
    pub fn on_enter(&self) -> (r: SceneChange)
        ensures
            r == (SceneChange { input_source: None, spawn_level: None, despawn: false }),
    {
        SceneChange { input_source: None, spawn_level: None, despawn: false }
    }

    /// Leaving the title changes nothing.
    pub fn on_exit(&self) -> (r: SceneChange)
        ensures
            r == (SceneChange { input_source: None, spawn_level: None, despawn: false }),
    {
        SceneChange { input_source: None, spawn_level: None, despawn: false }
    }
}

impl AttractScene {
    /// The AI takes over and the maze is populated at level 1.
    pub fn on_enter(&self) -> (r: SceneChange)
        ensures
            r == (SceneChange { input_source: Some(InputSource::Ai), spawn_level: Some(1), despawn: false }),
    {
        SceneChange { input_source: Some(InputSource::Ai), spawn_level: Some(1), despawn: false }
    }

    /// The demo is torn down and the human gets control back.
    pub fn on_exit(&self) -> (r: SceneChange)
        ensures
            r == (SceneChange { input_source: Some(InputSource::Human), spawn_level: None, despawn: true }),
    {
        SceneChange { input_source: Some(InputSource::Human), spawn_level: None, despawn: true }
    }
}

impl GameplayScene {
    /// The human takes control and the maze is populated at level 1.
    pub fn on_enter(&self) -> (r: SceneChange)
        ensures
            r == (SceneChange { input_source: Some(InputSource::Human), spawn_level: Some(1), despawn: false }),
    {
        SceneChange { input_source: Some(InputSource::Human), spawn_level: Some(1), despawn: false }
    }

    /// Every gameplay entity is removed.
    pub fn on_exit(&self) -> (r: SceneChange)
        ensures
            r == (SceneChange { input_source: None, spawn_level: None, despawn: true }),
    {
        SceneChange { input_source: None, spawn_level: None, despawn: true }
    }
}

/// During the demo, any human key press or click starts a real game.
pub fn attract_input_system(human_input: &HumanInput, requested: &mut Option<Scene>)
    ensures
        *final(requested) == (if human_input.active {
            Some(Scene::Gameplay)
        } else {
            *old(requested)
        }),
{
    if human_input.active {
        *requested = Some(Scene::Gameplay);
    }
}

/// On the title, the first game event of a frame starts a game.
pub fn title_input_system(events: &Vec<GameEvent>, requested: &mut Option<Scene>)
    ensures
        *final(requested) == (if events.len() > 0 {
            Some(Scene::Gameplay)
        } else {
            *old(requested)
        }),
{
    if events.len() > 0 {
        *requested = Some(Scene::Gameplay);
    }
}

} // verus!
