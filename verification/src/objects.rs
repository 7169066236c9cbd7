//! Game objects: what a thing on the grid is made of.

use crate::actions::{Actor, Ticks};
use crate::crossterm_plugin::{LayerId, Renderable};
use crate::levels_plugin::Position;
use crate::point::Point;
use vstd::prelude::*;

verus! {

/// The layer on which entities are drawn.
pub const LAYER_ENTITY: i32 = 0;

/// Marks an entity as a game object.
#[derive(Clone, Copy, Debug)]
pub struct GameObject;

/// The components that every game object starts with.
#[derive(Clone, Copy, Debug)]
pub struct GameObjectBundle {
    pub position: Position,
    pub game_object: GameObject,
    pub renderable: Renderable,
    pub actor: Actor,
}

impl GameObjectBundle {
    /// A visible game object at `position` that performs nothing yet.
    pub fn new(position: Point, character: char, layer: LayerId) -> (bundle: Self)
        ensures
            bundle.position.0 == position,
            bundle.renderable == (Renderable { character, visible: true, layer }),
            bundle.actor.action_progress == Ticks(0),
    {
        Self {
            position: Position(position),
            game_object: GameObject,
            renderable: Renderable { character, visible: true, layer },
            actor: Actor::new(),
        }
    }
}

} // verus!
