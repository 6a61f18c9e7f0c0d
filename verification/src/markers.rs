//! Marker types naming the class of an entity.

use vstd::prelude::*;

verus! {

/// The player entity.
#[derive(Debug, Clone, Copy)]
pub struct Pacman;

/// A ghost entity.
#[derive(Debug, Clone, Copy)]
pub struct GhostEntity;

/// A collectible item: pellet, power pellet or fruit.
#[derive(Debug, Clone, Copy)]
pub struct Item;

} // verus!
