//! The world: the entities that exist and the components attached to them.

use crate::actions::Actor;
use crate::crossterm_plugin::Renderable;
use crate::levels_plugin::Position;
use crate::objects::{GameObject, GameObjectBundle};
use crate::player_plugin::Player;
use crate::store::{Entity, Store, ID_SPACE};
use vstd::prelude::*;

verus! {

/// All entities, and one table for each type of component.
///
/// Entities are numbered in the order in which they are spawned.
pub struct World {
    /// The number of entities spawned so far.
    pub spawned: u64,
    pub positions: Store<Position>,
    pub game_objects: Store<GameObject>,
    pub renderables: Store<Renderable>,
    pub actors: Store<Actor>,
    pub players: Store<Player>,
}

impl World {
    /// Whether `e` has been spawned.
    pub open spec fn is_live(&self, e: Entity) -> bool {
        e.id < self.spawned
    }

    /// Every component is attached to an entity that has been spawned.
    pub open spec fn wf(&self) -> bool {
        &&& forall|e: Entity| #[trigger] self.positions@.contains_key(e) ==> self.is_live(e)
        &&& forall|e: Entity| #[trigger] self.game_objects@.contains_key(e) ==> self.is_live(e)
        &&& forall|e: Entity| #[trigger] self.renderables@.contains_key(e) ==> self.is_live(e)
        &&& forall|e: Entity| #[trigger] self.actors@.contains_key(e) ==> self.is_live(e)
        &&& forall|e: Entity| #[trigger] self.players@.contains_key(e) ==> self.is_live(e)
    }

    /// A world without entities.
    pub fn new() -> (world: Self)
        ensures
            world.spawned == 0,
            world.positions@ == Map::<Entity, Position>::empty(),
            world.game_objects@ == Map::<Entity, GameObject>::empty(),
            world.renderables@ == Map::<Entity, Renderable>::empty(),
            world.actors@ == Map::<Entity, Actor>::empty(),
            world.players@ == Map::<Entity, Player>::empty(),
            world.wf(),
    {
        World {
            spawned: 0,
            positions: Store::new(),
            game_objects: Store::new(),
            renderables: Store::new(),
            actors: Store::new(),
            players: Store::new(),
        }
    }

    /// Spawns an entity with the components of `bundle`, under the next free
    /// identifier. Once every identifier is taken nothing is spawned.
    pub fn spawn_bundle(&mut self, bundle: GameObjectBundle) -> (spawned: Option<Entity>)
        ensures
            old(self).spawned >= ID_SPACE ==> spawned is None && *final(self) == *old(self),
            old(self).spawned < ID_SPACE ==> {
                &&& spawned matches Some(e)
                &&& e.id == old(self).spawned
                &&& final(self).spawned == old(self).spawned + 1
                &&& final(self).positions@ == old(self).positions@.insert(e, bundle.position)
                &&& final(self).game_objects@ == old(self).game_objects@.insert(
                    e,
                    bundle.game_object,
                )
                &&& final(self).renderables@ == old(self).renderables@.insert(e, bundle.renderable)
                &&& final(self).actors@ == old(self).actors@.insert(e, bundle.actor)
                &&& final(self).players@ == old(self).players@
            },
            old(self).wf() ==> final(self).wf(),
    {
        if self.spawned >= ID_SPACE {
            return None;
        }
        let e = Entity { id: self.spawned as u32 };
        self.positions.insert(e, bundle.position);
        self.game_objects.insert(e, bundle.game_object);
        self.renderables.insert(e, bundle.renderable);
        self.actors.insert(e, bundle.actor);
        self.spawned = self.spawned + 1;
        Some(e)
    }
}

} // verus!
