use core_engine::combat::combat_system;
use core_engine::components::{Entity, EntityStore, Hp, MapPosition, UserId};
use core_engine::engine::GameState;
use core_engine::events::{
    CurrentUserMaps, EntityIndex, EventQueue, ServerMessageSingleClient, ShouldUpdateMap, TryAttack,
};
use core_engine::world::MapId;

fn pos(map: i32, x: i32, y: i32) -> MapPosition {
    MapPosition { map_id: MapId(map), x, y }
}

fn spawn_fighter(state: &mut GameState, name: &str, hp: i32, at: MapPosition) -> Entity {
    state.spawn(Some(name.to_string()), Some(Hp { current: hp }), Some(at)).unwrap()
}

fn attack(state: &mut GameState, at: MapPosition, attack_value: i32) {
    state.try_attack.send(TryAttack { map_position: at, attack_value });
}

fn hp_of(state: &GameState, e: Entity) -> Option<i32> {
    state
        .store
        .records
        .iter()
        .find(|r| r.entity == e)
        .map(|r| r.hp.unwrap().current)
}

fn remove(user: u64, e: Entity) -> (UserId, ServerMessageSingleClient) {
    (UserId(user), ServerMessageSingleClient::RemoveSprite(EntityIndex { idx: e.index() }))
}

fn users_on_both_maps(state: &mut GameState) {
    state.current_user_maps.set(UserId(10), pos(1, 0, 0));
    state.current_user_maps.set(UserId(20), pos(2, 5, 5));
    state.current_user_maps.set(UserId(11), pos(1, 7, 2));
}

#[test]
fn kill_on_default_map_notifies_only_that_map() {
    let mut state = GameState::new();
    users_on_both_maps(&mut state);
    let bystander = spawn_fighter(&mut state, "bystander", 4, pos(1, 0, 1));
    let e = spawn_fighter(&mut state, "E", 1, pos(1, 3, 4));
    attack(&mut state, pos(1, 3, 4), 5);
    let out = state.run_combat();
    assert_eq!(hp_of(&state, e), None);
    assert_eq!(hp_of(&state, bystander), Some(4));
    assert_eq!(state.update_map.events, vec![ShouldUpdateMap(MapId(1))]);
    assert_eq!(out, vec![remove(10, e), remove(11, e)]);
    assert_eq!(e.index(), 1);
}

#[test]
fn attack_on_empty_tile_does_nothing() {
    let mut state = GameState::new();
    users_on_both_maps(&mut state);
    let e = spawn_fighter(&mut state, "E", 1, pos(1, 3, 4));
    attack(&mut state, pos(1, 9, 9), 5);
    let out = state.run_combat();
    assert_eq!(hp_of(&state, e), Some(1));
    assert_eq!(state.store.records.len(), 1);
    assert!(state.update_map.events.is_empty());
    assert!(out.is_empty());
}

#[test]
fn no_attacks_leaves_everything_unchanged() {
    let mut state = GameState::new();
    users_on_both_maps(&mut state);
    let a = spawn_fighter(&mut state, "a", 1, pos(1, 3, 4));
    let b = spawn_fighter(&mut state, "b", 2, pos(2, 3, 4));
    let out = state.run_combat();
    assert_eq!(hp_of(&state, a), Some(1));
    assert_eq!(hp_of(&state, b), Some(2));
    assert_eq!(state.store.records.len(), 2);
    assert!(state.update_map.events.is_empty());
    assert!(out.is_empty());
}

#[test]
fn hit_without_death_takes_one_point_whatever_the_attack_value() {
    let mut state = GameState::new();
    users_on_both_maps(&mut state);
    let e = spawn_fighter(&mut state, "E", 3, pos(1, 3, 4));
    attack(&mut state, pos(1, 3, 4), 100);
    let out = state.run_combat();
    assert_eq!(hp_of(&state, e), Some(2));
    assert!(state.update_map.events.is_empty());
    assert!(out.is_empty());
}

#[test]
fn two_attacks_on_one_victim_notify_once() {
    let mut state = GameState::new();
    users_on_both_maps(&mut state);
    let e = spawn_fighter(&mut state, "E", 1, pos(1, 3, 4));
    attack(&mut state, pos(1, 3, 4), 1);
    attack(&mut state, pos(1, 3, 4), 1);
    let out = state.run_combat();
    assert_eq!(hp_of(&state, e), None);
    assert_eq!(state.update_map.events, vec![ShouldUpdateMap(MapId(1))]);
    assert_eq!(out, vec![remove(10, e), remove(11, e)]);
}

#[test]
fn two_attacks_kill_a_two_point_entity() {
    let mut state = GameState::new();
    let e = spawn_fighter(&mut state, "E", 2, pos(2, 1, 1));
    attack(&mut state, pos(2, 1, 1), 1);
    attack(&mut state, pos(2, 1, 1), 1);
    let out = state.run_combat();
    assert_eq!(hp_of(&state, e), None);
    assert_eq!(state.update_map.events, vec![ShouldUpdateMap(MapId(2))]);
    assert!(out.is_empty());
}

#[test]
fn death_on_second_map_reaches_only_its_users() {
    let mut state = GameState::new();
    users_on_both_maps(&mut state);
    let e = spawn_fighter(&mut state, "E", 1, pos(2, 3, 4));
    attack(&mut state, pos(2, 3, 4), 1);
    let out = state.run_combat();
    assert_eq!(hp_of(&state, e), None);
    assert_eq!(state.update_map.events, vec![ShouldUpdateMap(MapId(2))]);
    assert_eq!(out, vec![remove(20, e)]);
}

#[test]
fn same_coordinates_on_another_map_are_not_hit() {
    let mut state = GameState::new();
    let e = spawn_fighter(&mut state, "E", 1, pos(2, 3, 4));
    attack(&mut state, pos(1, 3, 4), 1);
    state.run_combat();
    assert_eq!(hp_of(&state, e), Some(1));
}

#[test]
fn first_entity_in_store_order_is_hit() {
    let mut state = GameState::new();
    let first = spawn_fighter(&mut state, "first", 2, pos(1, 3, 4));
    let second = spawn_fighter(&mut state, "second", 2, pos(1, 3, 4));
    attack(&mut state, pos(1, 3, 4), 1);
    state.run_combat();
    assert_eq!(hp_of(&state, first), Some(1));
    assert_eq!(hp_of(&state, second), Some(2));
}

#[test]
fn entity_without_name_or_hp_is_not_a_target() {
    let mut state = GameState::new();
    let nameless = state
        .store
        .spawn(None, Some(Hp { current: 1 }), Some(pos(1, 3, 4)))
        .unwrap();
    let wall = state.store.spawn(Some("wall".to_string()), None, Some(pos(1, 3, 4))).unwrap();
    attack(&mut state, pos(1, 3, 4), 1);
    let out = state.run_combat();
    assert_eq!(hp_of(&state, nameless), Some(1));
    assert_eq!(state.store.records.len(), 2);
    assert_eq!(state.store.records[1].entity, wall);
    assert!(state.update_map.events.is_empty());
    assert!(out.is_empty());
}

#[test]
fn several_deaths_in_one_tick_in_attack_order() {
    let mut state = GameState::new();
    users_on_both_maps(&mut state);
    let a = spawn_fighter(&mut state, "a", 1, pos(1, 1, 1));
    let b = spawn_fighter(&mut state, "b", 1, pos(2, 2, 2));
    let c = spawn_fighter(&mut state, "c", 5, pos(1, 3, 3));
    attack(&mut state, pos(2, 2, 2), 1);
    attack(&mut state, pos(1, 1, 1), 1);
    let out = state.run_combat();
    assert_eq!(state.store.records.len(), 1);
    assert_eq!(state.store.records[0].entity, c);
    assert_eq!(
        state.update_map.events,
        vec![ShouldUpdateMap(MapId(2)), ShouldUpdateMap(MapId(1))]
    );
    assert_eq!(out, vec![remove(20, b), remove(10, a), remove(11, a)]);
}

#[test]
fn lowest_hp_saturates_and_dies() {
    let mut state = GameState::new();
    let e = spawn_fighter(&mut state, "E", i32::MIN, pos(1, 3, 4));
    attack(&mut state, pos(1, 3, 4), 1);
    state.run_combat();
    assert_eq!(hp_of(&state, e), None);
    assert_eq!(state.update_map.events, vec![ShouldUpdateMap(MapId(1))]);
}

#[test]
fn combat_system_appends_to_existing_queues() {
    let mut store = EntityStore::new();
    let e = store
        .spawn(Some("E".to_string()), Some(Hp { current: 1 }), Some(pos(1, 0, 0)))
        .unwrap();
    let mut attacks = EventQueue::new();
    attacks.send(TryAttack { map_position: pos(1, 0, 0), attack_value: 0 });
    let mut users = CurrentUserMaps::new();
    users.set(UserId(1), pos(1, 5, 5));
    let mut updates = EventQueue::new();
    updates.send(ShouldUpdateMap(MapId(7)));
    let mut outbox = vec![remove(9, Entity(42))];
    combat_system(&mut store, &attacks, &users, &mut updates, &mut outbox);
    assert!(store.records.is_empty());
    assert_eq!(updates.events, vec![ShouldUpdateMap(MapId(7)), ShouldUpdateMap(MapId(1))]);
    assert_eq!(outbox, vec![remove(9, Entity(42)), remove(1, e)]);
}

#[test]
fn end_tick_clears_every_queue() {
    let mut state = GameState::new();
    let e = spawn_fighter(&mut state, "E", 1, pos(1, 3, 4));
    attack(&mut state, pos(1, 3, 4), 1);
    state.run_combat();
    state.end_tick();
    assert!(state.try_attack.is_empty());
    assert!(state.update_map.is_empty());
    assert!(state.full_map_update.is_empty());
    assert_eq!(hp_of(&state, e), None);
    let out = state.run_combat();
    assert!(out.is_empty());
    assert!(state.update_map.is_empty());
}

#[test]
fn spawn_on_unknown_map_is_refused() {
    let mut state = GameState::new();
    assert_eq!(state.spawn(Some("x".to_string()), Some(Hp { current: 1 }), Some(pos(3, 0, 0))), None);
    assert!(state.store.records.is_empty());
    assert_eq!(state.spawn(None, None, None), Some(Entity(0)));
    assert_eq!(state.spawn(None, None, Some(pos(2, 19, 19))), Some(Entity(1)));
}
