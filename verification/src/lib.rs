//! Game rules of a Pac-Man recreation, with their behaviour stated as Verus contracts.
//!
//! The library holds the decisions of the game (ghost house releases, the
//! scatter/chase clock, the stage machine, input bindings, layout arithmetic,
//! timing windows); rendering, audio output and the event loop live elsewhere and
//! feed this crate plain values.

pub mod ai;
pub mod animation;
pub mod audio;
pub mod constants;
pub mod debug;
pub mod direction;
pub mod events;
pub mod ghost;
pub mod hud;
pub mod input;
pub mod layout;
pub mod lifetime;
pub mod markers;
pub mod profiling;
pub mod render;
pub mod scenes;
pub mod sprites;
pub mod state;
pub mod texture;
pub mod tracy;
