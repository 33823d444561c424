use vstd::prelude::*;

use crate::combat::{combat_system, kills_of, map_updates, removal_messages, survivors, Outgoing};
use crate::components::{Entity, EntityRecord, EntityStore, Hp, MapPosition};
use crate::events::{CurrentUserMaps, EventQueue, ShouldSendFullMapUpdateToClient, ShouldUpdateMap, TryAttack};
use crate::world::GameWorld;

verus! {

/// Everything the simulation thread owns: the world, the entities, the users'
/// last known positions and this tick's event queues.
pub struct GameState {
    pub world: GameWorld,
    pub store: EntityStore,
    pub current_user_maps: CurrentUserMaps,
    pub try_attack: EventQueue<TryAttack>,
    pub update_map: EventQueue<ShouldUpdateMap>,
    pub full_map_update: EventQueue<ShouldSendFullMapUpdateToClient>,
}

impl GameState {
    pub open spec fn wf(&self) -> bool {
        &&& self.world.wf()
        &&& self.store.wf()
        &&& self.current_user_maps.wf()
    }

    /// The startup state: the default world, no entity, no user, no event.
    pub fn new() -> (r: GameState)
        ensures
            r.wf(),
            r.world.game_maps@ == GameWorld::default_maps(),
            r.store.records@.len() == 0,
            r.current_user_maps.entries@.len() == 0,
            r.try_attack.events@.len() == 0,
            r.update_map.events@.len() == 0,
            r.full_map_update.events@.len() == 0,
    {
        GameState {
            world: GameWorld::default(),
            store: EntityStore::new(),
            current_user_maps: CurrentUserMaps::new(),
            try_attack: EventQueue::new(),
            update_map: EventQueue::new(),
            full_map_update: EventQueue::new(),
        }
    }

    /// Creates an entity with the given components. A position on a map that the
    /// world does not hold is refused, so that every position names a real map.
    pub fn spawn(&mut self, name: Option<String>, hp: Option<Hp>, position: Option<MapPosition>) -> (r: Option<Entity>)
        requires
            old(self).wf(),
        ensures
            final(self).wf(),
            final(self).world == old(self).world,
            final(self).current_user_maps == old(self).current_user_maps,
            final(self).try_attack == old(self).try_attack,
            final(self).update_map == old(self).update_map,
            final(self).full_map_update == old(self).full_map_update,
            r.is_none() <==> (old(self).store.next_index == u32::MAX || (position.is_some()
                && old(self).world.map_spec(position.unwrap().map_id).is_none())),
            r.is_none() ==> final(self).store == old(self).store,
            r.is_some() ==> {
                &&& r.unwrap().0 == old(self).store.next_index
                &&& final(self).store.next_index == old(self).store.next_index + 1
                &&& final(self).store.records@ == old(self).store.records@.push(
                    EntityRecord { entity: r.unwrap(), name, hp, position },
                )
            },
    {
        if let Some(p) = position {
            if !self.world.has_map(p.map_id) {
                return None;
            }
        }
        self.store.spawn(name, hp, position)
    }

    /// Runs the combat stage on this tick's attacks and returns the messages it
    /// has for single clients; the map updates it sends stay queued for the map
    /// update stage of the same tick.
    pub fn run_combat(&mut self) -> (r: Vec<Outgoing>)
        requires
            old(self).wf(),
        ensures
            final(self).wf(),
            final(self).world == old(self).world,
            final(self).current_user_maps == old(self).current_user_maps,
            final(self).try_attack == old(self).try_attack,
            final(self).full_map_update == old(self).full_map_update,
            final(self).store.records@ == survivors(old(self).store.records@, old(self).try_attack.events@),
            final(self).update_map.events@ == old(self).update_map.events@ + map_updates(
                kills_of(old(self).store.records@, old(self).try_attack.events@),
            ),
            r@ == removal_messages(
                old(self).current_user_maps.entries@,
                kills_of(old(self).store.records@, old(self).try_attack.events@),
            ),
    {
        let mut outbox: Vec<Outgoing> = Vec::new();
        combat_system(&mut self.store, &self.try_attack, &self.current_user_maps, &mut self.update_map, &mut outbox);
        assert(outbox@ =~= Seq::<Outgoing>::empty() + removal_messages(
            old(self).current_user_maps.entries@,
            kills_of(old(self).store.records@, old(self).try_attack.events@),
        ));
        outbox
    }

    /// The tick boundary: every event queue is emptied, whether or not it was read.
    pub fn end_tick(&mut self)
        requires
            old(self).wf(),
        ensures
            final(self).wf(),
            final(self).world == old(self).world,
            final(self).store == old(self).store,
            final(self).current_user_maps == old(self).current_user_maps,
            final(self).try_attack.events@.len() == 0,
            final(self).update_map.events@.len() == 0,
            final(self).full_map_update.events@.len() == 0,
    {
        self.try_attack.clear();
        self.update_map.clear();
        self.full_map_update.clear();
    }
}

} // verus!
