use core_engine::components::{Entity, EntityStore, Hp, MapPosition, UserId};
use core_engine::events::{CurrentUserMaps, EventQueue, ShouldUpdateMap};
use core_engine::world::{GameMap, GameWorld, MapId};

fn pos(map: i32, x: i32, y: i32) -> MapPosition {
    MapPosition { map_id: MapId(map), x, y }
}

#[test]
fn default_world_has_two_maps() {
    let world = GameWorld::default();
    assert_eq!(world.game_maps.len(), 2);
    assert_eq!(world.get_map(MapId(1)), Some(&GameMap { id: MapId(1), width: 10, height: 10 }));
    assert_eq!(world.get_map(MapId(2)), Some(&GameMap { id: MapId(2), width: 20, height: 20 }));
    assert_eq!(world.get_map(MapId(3)), None);
    assert!(world.has_map(MapId(2)));
    assert!(!world.has_map(MapId(0)));
}

#[test]
fn duplicate_map_id_is_refused() {
    let mut world = GameWorld::default();
    assert!(!world.insert_map(GameMap::new(MapId(1), 5, 5)));
    assert_eq!(world.get_map(MapId(1)).unwrap().width, 10);
    assert!(world.insert_map(GameMap::new(MapId(3), 5, 6)));
    assert_eq!(world.get_map(MapId(3)).unwrap().height, 6);
}

#[test]
fn map_bounds() {
    let map = GameMap::default();
    assert_eq!(map.id(), MapId(1));
    assert!(map.contains(0, 0));
    assert!(map.contains(9, 9));
    assert!(!map.contains(10, 0));
    assert!(!map.contains(-1, 3));
}

#[test]
fn spawn_hands_out_fresh_indices() {
    let mut store = EntityStore::new();
    let a = store.spawn(Some("a".to_string()), None, None).unwrap();
    let b = store.spawn(None, Some(Hp { current: 3 }), Some(pos(1, 1, 1))).unwrap();
    assert_eq!(a, Entity(0));
    assert_eq!(b, Entity(1));
    assert_eq!(store.position_of(b), Some(1));
    assert_eq!(store.hp_at(1), Some(Hp { current: 3 }));
    store.despawn(a);
    assert_eq!(store.position_of(a), None);
    assert_eq!(store.position_of(b), Some(0));
    let c = store.spawn(None, None, None).unwrap();
    assert_eq!(c, Entity(2));
}

#[test]
fn spawn_fails_when_indices_run_out() {
    let mut store = EntityStore { records: Vec::new(), next_index: u32::MAX };
    assert_eq!(store.spawn(None, None, None), None);
    assert!(store.records.is_empty());
}

#[test]
fn despawn_of_unknown_entity_is_a_no_op() {
    let mut store = EntityStore::new();
    store.spawn(None, None, None).unwrap();
    store.despawn(Entity(5));
    assert_eq!(store.records.len(), 1);
}

#[test]
fn set_hp_keeps_other_components() {
    let mut store = EntityStore::new();
    let e = store.spawn(Some("x".to_string()), None, Some(pos(2, 4, 4))).unwrap();
    store.set_hp_at(0, 7);
    assert_eq!(store.records[0].entity, e);
    assert_eq!(store.records[0].name.as_deref(), Some("x"));
    assert_eq!(store.records[0].hp, Some(Hp { current: 7 }));
    assert_eq!(store.records[0].position, Some(pos(2, 4, 4)));
}

#[test]
fn user_maps_update_in_place_and_remove() {
    let mut users = CurrentUserMaps::new();
    users.set(UserId(1), pos(1, 0, 0));
    users.set(UserId(2), pos(2, 0, 0));
    users.set(UserId(1), pos(2, 3, 3));
    assert_eq!(users.entries, vec![(UserId(1), pos(2, 3, 3)), (UserId(2), pos(2, 0, 0))]);
    users.remove(UserId(1));
    assert_eq!(users.entries, vec![(UserId(2), pos(2, 0, 0))]);
    users.remove(UserId(9));
    assert_eq!(users.entries.len(), 1);
}

#[test]
fn event_queue_send_get_clear() {
    let mut q = EventQueue::new();
    assert!(q.is_empty());
    q.send(ShouldUpdateMap(MapId(1)));
    q.send(ShouldUpdateMap(MapId(2)));
    assert_eq!(q.len(), 2);
    assert_eq!(*q.get(1), ShouldUpdateMap(MapId(2)));
    q.clear();
    assert_eq!(q.len(), 0);
}
