use vstd::prelude::*;

use crate::components::{
    despawned, with_hp, Entity, EntityRecord, EntityStore, MapPosition, UserId,
};
use crate::events::{
    remove_sprite, CurrentUserMaps, EntityIndex, EventQueue, ServerMessageSingleClient,
    ShouldUpdateMap, TryAttack,
};
use crate::world::MapId;

verus! {

/// An entity that died this tick, with the map it died on.
pub type Kill = (Entity, MapId);

/// A message to one client, with its recipient.
pub type Outgoing = (UserId, ServerMessageSingleClient);

/// An attack on `p` can hit `r`: it has a name and hit points and stands on `p`.
pub open spec fn is_target(r: EntityRecord, p: MapPosition) -> bool {
    r.name.is_some() && r.hp.is_some() && r.position == Some(p)
}

/// `i` is the first record, in store order, that an attack on `p` can hit.
pub open spec fn is_first_target(recs: Seq<EntityRecord>, p: MapPosition, i: int) -> bool {
    &&& 0 <= i < recs.len()
    &&& is_target(recs[i], p)
    &&& forall|j: int| 0 <= j < i ==> !is_target(#[trigger] recs[j], p)
}

/// The record that an attack on `p` hits: the first match in store order.
pub open spec fn first_target(recs: Seq<EntityRecord>, p: MapPosition) -> Option<int> {
    if exists|i: int| is_first_target(recs, p, i) {
        Some(choose|i: int| is_first_target(recs, p, i))
    } else {
        None
    }
}

/// Hit points after one hit: one less, saturating at the lowest `i32`.
pub open spec fn damaged(current: i32) -> i32 {
    if current > i32::MIN {
        (current - 1) as i32
    } else {
        current
    }
}

/// `e` is already on the kill list.
pub open spec fn is_killed(kills: Seq<Kill>, e: Entity) -> bool {
    exists|k: int| 0 <= k < kills.len() && kills[k].0 == e
}

/// One attack on `p`: the first target loses a hit point, and is put on the kill
/// list, once, when its hit points are no longer positive.
pub open spec fn apply_attack(recs: Seq<EntityRecord>, kills: Seq<Kill>, p: MapPosition) -> (
    Seq<EntityRecord>,
    Seq<Kill>,
) {
    match first_target(recs, p) {
        None => (recs, kills),
        Some(i) => {
            let hp = damaged(recs[i].hp.unwrap().current);
            let kills2 = if hp <= 0 && !is_killed(kills, recs[i].entity) {
                kills.push((recs[i].entity, p.map_id))
            } else {
                kills
            };
            (recs.update(i, with_hp(recs[i], hp)), kills2)
        },
    }
}

/// The first pass: every attack in order, over the records as they stand; nothing
/// is removed yet.
pub open spec fn damage_pass(recs: Seq<EntityRecord>, attacks: Seq<TryAttack>) -> (
    Seq<EntityRecord>,
    Seq<Kill>,
)
    decreases attacks.len(),
{
    if attacks.len() == 0 {
        (recs, Seq::empty())
    } else {
        let prev = damage_pass(recs, attacks.drop_last());
        apply_attack(prev.0, prev.1, attacks.last().map_position)
    }
}

/// `recs` after every entity on the kill list is removed.
pub open spec fn despawn_all(recs: Seq<EntityRecord>, kills: Seq<Kill>) -> Seq<EntityRecord>
    decreases kills.len(),
{
    if kills.len() == 0 {
        recs
    } else {
        despawned(despawn_all(recs, kills.drop_last()), kills.last().0)
    }
}

/// The entities killed by `attacks`, in the order they died.
pub open spec fn kills_of(recs: Seq<EntityRecord>, attacks: Seq<TryAttack>) -> Seq<Kill> {
    damage_pass(recs, attacks).1
}

/// The records left after the combat stage.
pub open spec fn survivors(recs: Seq<EntityRecord>, attacks: Seq<TryAttack>) -> Seq<EntityRecord> {
    despawn_all(damage_pass(recs, attacks).0, damage_pass(recs, attacks).1)
}

/// One map update for each kill.
pub open spec fn map_updates(kills: Seq<Kill>) -> Seq<ShouldUpdateMap> {
    kills.map_values(|k: Kill| ShouldUpdateMap(k.1))
}

/// One removal notice for each user whose last known map is the one `dead` died on.
pub open spec fn removal_notices(users: Seq<(UserId, MapPosition)>, dead: Kill) -> Seq<Outgoing> {
    users.filter_map(
        |u: (UserId, MapPosition)|
            if u.1.map_id == dead.1 {
                Some((u.0, remove_sprite(dead.0)))
            } else {
                None
            },
    )
}

/// The removal notices of every kill, kill after kill.
pub open spec fn removal_messages(users: Seq<(UserId, MapPosition)>, kills: Seq<Kill>) -> Seq<Outgoing>
    decreases kills.len(),
{
    if kills.len() == 0 {
        Seq::empty()
    } else {
        removal_messages(users, kills.drop_last()) + removal_notices(users, kills.last())
    }
}

/// Finds the record that an attack on `pos` hits.
fn find_target(store: &EntityStore, pos: MapPosition) -> (r: Option<usize>)
    ensures
        r.is_some() == first_target(store.records@, pos).is_some(),
        r.is_some() ==> r.unwrap() as int == first_target(store.records@, pos).unwrap(),
{
    let ghost recs = store.records@;
    let mut i: usize = 0;
    while i < store.records.len()
        invariant
            recs == store.records@,
            i <= recs.len(),
            forall|j: int| 0 <= j < i ==> !is_target(#[trigger] recs[j], pos),
        decreases recs.len() - i,
    {
        let r = &store.records[i];
        let at_pos = match r.position {
            Some(q) => q == pos,
            None => false,
        };
        if r.name.is_some() && r.hp.is_some() && at_pos {
            proof {
                assert(is_first_target(recs, pos, i as int));
                let k = choose|k: int| is_first_target(recs, pos, k);
                if k < i {
                    assert(!is_target(recs[k], pos));
                } else if k > i {
                    assert(!is_target(recs[i as int], pos));
                }
            }
            return Some(i);
        }
        i += 1;
    }
    None
}

/// Whether `e` is already on the kill list.
fn kill_listed(kills: &Vec<Kill>, e: Entity) -> (r: bool)
    ensures
        r == is_killed(kills@, e),
{
    let mut i: usize = 0;
    while i < kills.len()
        invariant
            i <= kills@.len(),
            forall|j: int| 0 <= j < i ==> kills@[j].0 != e,
        decreases kills@.len() - i,
    {
        if kills[i].0 == e {
            return true;
        }
        i += 1;
    }
    false
}

/// Resolves one attack on `pos`, deferring any death to the kill list.
fn resolve_attack(store: &mut EntityStore, kills: &mut Vec<Kill>, pos: MapPosition)
    requires
        old(store).wf(),
    ensures
        final(store).wf(),
        final(store).next_index == old(store).next_index,
        (final(store).records@, final(kills)@) == apply_attack(old(store).records@, old(kills)@, pos),
{
    match find_target(store, pos) {
        None => {},
        Some(i) => {
            let hp = store.hp_at(i).unwrap();
            let new_hp: i32 = if hp.current > i32::MIN {
                hp.current - 1
            } else {
                hp.current
            };
            let e = store.records[i].entity;
            store.set_hp_at(i, new_hp);
            if new_hp <= 0 && !kill_listed(kills, e) {
                kills.push((e, pos.map_id));
            }
        },
    }
}

/// Tells every user on `map_id` that `ent` is gone.
fn notify_map(
    current_user_maps: &CurrentUserMaps,
    ent: Entity,
    map_id: MapId,
    outbox: &mut Vec<Outgoing>,
)
    ensures
        final(outbox)@ == old(outbox)@ + removal_notices(current_user_maps.entries@, (ent, map_id)),
{
    let ghost users = current_user_maps.entries@;
    let mut j: usize = 0;
    while j < current_user_maps.entries.len()
        invariant
            users == current_user_maps.entries@,
            j <= users.len(),
            outbox@ == old(outbox)@ + removal_notices(users.subrange(0, j as int), (ent, map_id)),
        decreases users.len() - j,
    {
        let (user_id, user_map_pos) = current_user_maps.entries[j];
        let ghost prev = outbox@;
        assert(users.subrange(0, j + 1).drop_last() =~= users.subrange(0, j as int));
        if user_map_pos.map_id == map_id {
            outbox.push((user_id, ServerMessageSingleClient::RemoveSprite(EntityIndex { idx: ent.index() })));
            assert(outbox@ =~= old(outbox)@ + removal_notices(users.subrange(0, j + 1), (ent, map_id)));
        }
        j += 1;
    }
    assert(users.subrange(0, users.len() as int) =~= users);
}

/// The combat stage of a tick. Each attack hits the first named entity with hit
/// points on its tile (store order decides between several) and takes one hit
/// point; `attack_value` does not scale the damage. Entities whose hit points are
/// no longer positive are collected while the attacks are read and removed after
/// the pass; each death sends one map update for its map and one removal notice
/// to each user whose last known map it is.
pub fn combat_system(
    store: &mut EntityStore,
    ev_try_attack: &EventQueue<TryAttack>,
    current_user_maps: &CurrentUserMaps,
    ev_update_map: &mut EventQueue<ShouldUpdateMap>,
    outbox: &mut Vec<Outgoing>,
)
    requires
        old(store).wf(),
    ensures
        final(store).wf(),
        final(store).next_index == old(store).next_index,
        final(store).records@ == survivors(old(store).records@, ev_try_attack.events@),
        final(ev_update_map).events@ == old(ev_update_map).events@ + map_updates(
            kills_of(old(store).records@, ev_try_attack.events@),
        ),
        final(outbox)@ == old(outbox)@ + removal_messages(
            current_user_maps.entries@,
            kills_of(old(store).records@, ev_try_attack.events@),
        ),
{
    let ghost recs0 = store.records@;
    let ghost attacks = ev_try_attack.events@;
    let ghost users = current_user_maps.entries@;
    if ev_try_attack.is_empty() {
        assert(attacks =~= Seq::<TryAttack>::empty());
        assert(map_updates(Seq::empty()) =~= Seq::empty());
        assert(ev_update_map.events@ =~= old(ev_update_map).events@ + map_updates(Seq::empty()));
        assert(outbox@ =~= old(outbox)@ + removal_messages(users, Seq::empty()));
        return;
    }
    let mut killed_guys: Vec<Kill> = Vec::new();
    let mut i: usize = 0;
    while i < ev_try_attack.len()
        invariant
            store.wf(),
            store.next_index == old(store).next_index,
            attacks == ev_try_attack.events@,
            i <= attacks.len(),
            (store.records@, killed_guys@) == damage_pass(recs0, attacks.subrange(0, i as int)),
        decreases attacks.len() - i,
    {
        assert(attacks.subrange(0, i + 1).drop_last() =~= attacks.subrange(0, i as int));
        let pos = ev_try_attack.get(i).map_position;
        resolve_attack(store, &mut killed_guys, pos);
        i += 1;
    }
    assert(attacks.subrange(0, attacks.len() as int) =~= attacks);
    let ghost recs1 = store.records@;
    let ghost kills = killed_guys@;
    let mut k: usize = 0;
    while k < killed_guys.len()
        invariant
            store.wf(),
            store.next_index == old(store).next_index,
            kills == killed_guys@,
            users == current_user_maps.entries@,
            k <= kills.len(),
            store.records@ == despawn_all(recs1, kills.subrange(0, k as int)),
            ev_update_map.events@ == old(ev_update_map).events@ + map_updates(kills.subrange(0, k as int)),
            outbox@ == old(outbox)@ + removal_messages(users, kills.subrange(0, k as int)),
        decreases kills.len() - k,
    {
        let (ent, dead_entity_map_id) = killed_guys[k];
        assert(kills.subrange(0, k + 1).drop_last() =~= kills.subrange(0, k as int));
        store.despawn(ent);
        ev_update_map.send(ShouldUpdateMap(dead_entity_map_id));
        let ghost before = outbox@;
        notify_map(current_user_maps, ent, dead_entity_map_id, outbox);
        proof {
            assert(map_updates(kills.subrange(0, k + 1)) =~= map_updates(kills.subrange(0, k as int)).push(
                ShouldUpdateMap(dead_entity_map_id),
            ));
            assert(ev_update_map.events@ =~= old(ev_update_map).events@ + map_updates(kills.subrange(0, k + 1)));
            assert(outbox@ =~= old(outbox)@ + removal_messages(users, kills.subrange(0, k + 1)));
        }
        k += 1;
    }
    assert(kills.subrange(0, kills.len() as int) =~= kills);
}

} // verus!
