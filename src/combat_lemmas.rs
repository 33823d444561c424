use vstd::prelude::*;

use crate::combat::{
    damage_pass, despawn_all, first_target, is_first_target, is_killed, is_target, kills_of,
    map_updates, removal_messages, removal_notices, survivors, Kill, Outgoing,
};
use crate::components::{despawned, entities_unique, index_of, EntityRecord, MapPosition, UserId};
use crate::events::{remove_sprite, ShouldUpdateMap, TryAttack};

verus! {

/// Every record that has hit points has a positive amount.
pub open spec fn all_alive(recs: Seq<EntityRecord>) -> bool {
    forall|i: int| 0 <= i < recs.len() && (#[trigger] recs[i]).hp.is_some() ==> recs[i].hp.unwrap().current > 0
}

/// No entity is on the kill list twice.
pub open spec fn kills_distinct(kills: Seq<Kill>) -> bool {
    forall|a: int, b: int|
        0 <= a < kills.len() && 0 <= b < kills.len() && a != b ==> #[trigger] kills[a].0 != #[trigger] kills[b].0
}

/// What the first pass keeps and what it records.
proof fn lemma_damage_pass(recs: Seq<EntityRecord>, attacks: Seq<TryAttack>)
    requires
        all_alive(recs),
    ensures
        damage_pass(recs, attacks).0.len() == recs.len(),
        forall|i: int| 0 <= i < recs.len() ==> (#[trigger] damage_pass(recs, attacks).0[i]).entity == recs[i].entity,
        forall|i: int|
            0 <= i < recs.len() && (#[trigger] damage_pass(recs, attacks).0[i]).hp.is_some()
                && damage_pass(recs, attacks).0[i].hp.unwrap().current <= 0
                ==> is_killed(damage_pass(recs, attacks).1, damage_pass(recs, attacks).0[i].entity),
        kills_distinct(damage_pass(recs, attacks).1),
    decreases attacks.len(),
{
    if attacks.len() > 0 {
        lemma_damage_pass(recs, attacks.drop_last());
        let prev = damage_pass(recs, attacks.drop_last());
        let cur = damage_pass(recs, attacks);
        let p = attacks.last().map_position;
        match first_target(prev.0, p) {
            None => {},
            Some(t) => {
                assert(is_first_target(prev.0, p, t));
                assert forall|e| is_killed(prev.1, e) implies is_killed(cur.1, e) by {
                    let k = choose|k: int| 0 <= k < prev.1.len() && prev.1[k].0 == e;
                    assert(cur.1[k] == prev.1[k]);
                }
                assert forall|i: int|
                    0 <= i < recs.len() && (#[trigger] cur.0[i]).hp.is_some() && cur.0[i].hp.unwrap().current <= 0
                        implies is_killed(cur.1, cur.0[i].entity) by {
                    if i == t {
                        if cur.1.len() > prev.1.len() {
                            assert(cur.1[prev.1.len() as int].0 == cur.0[i].entity);
                        }
                    } else {
                        assert(cur.0[i] == prev.0[i]);
                    }
                }
                if cur.1.len() > prev.1.len() {
                    assert forall|a: int, b: int|
                        0 <= a < cur.1.len() && 0 <= b < cur.1.len() && a != b
                            implies #[trigger] cur.1[a].0 != #[trigger] cur.1[b].0 by {
                        if a == prev.1.len() {
                            assert(cur.1[b] == prev.1[b]);
                        } else if b == prev.1.len() {
                            assert(cur.1[a] == prev.1[a]);
                        } else {
                            assert(cur.1[a] == prev.1[a] && cur.1[b] == prev.1[b]);
                        }
                    }
                }
            },
        }
    }
}

/// Removing one entity keeps the others, and only them.
proof fn lemma_despawned(recs: Seq<EntityRecord>, e: crate::components::Entity)
    requires
        entities_unique(recs),
    ensures
        entities_unique(despawned(recs, e)),
        forall|i: int| 0 <= i < despawned(recs, e).len() ==> {
            &&& (#[trigger] despawned(recs, e)[i]).entity != e
            &&& exists|j: int| 0 <= j < recs.len() && recs[j] == despawned(recs, e)[i]
        },
{
    let s = despawned(recs, e);
    match index_of(recs, e) {
        None => {
            assert forall|i: int| 0 <= i < s.len() implies (#[trigger] s[i]).entity != e
                && exists|j: int| 0 <= j < recs.len() && recs[j] == s[i] by {
                assert(recs[i] == s[i]);
            }
        },
        Some(x) => {
            assert(0 <= x < recs.len() && recs[x].entity == e);
            assert forall|a: int, b: int|
                0 <= a < s.len() && 0 <= b < s.len() && a != b
                    implies #[trigger] s[a].entity != #[trigger] s[b].entity by {
                let a2 = if a < x { a } else { a + 1 };
                let b2 = if b < x { b } else { b + 1 };
                assert(s[a] == recs[a2] && s[b] == recs[b2]);
            }
            assert forall|i: int| 0 <= i < s.len() implies (#[trigger] s[i]).entity != e
                && exists|j: int| 0 <= j < recs.len() && recs[j] == s[i] by {
                let i2 = if i < x { i } else { i + 1 };
                assert(s[i] == recs[i2]);
                assert(recs[i2].entity != recs[x].entity);
            }
        },
    }
}

/// What is left after the second pass: records of the first, none of them killed.
proof fn lemma_despawn_all(recs: Seq<EntityRecord>, kills: Seq<Kill>)
    requires
        entities_unique(recs),
    ensures
        entities_unique(despawn_all(recs, kills)),
        forall|i: int| 0 <= i < despawn_all(recs, kills).len() ==> {
            &&& !is_killed(kills, (#[trigger] despawn_all(recs, kills)[i]).entity)
            &&& exists|j: int| 0 <= j < recs.len() && recs[j] == despawn_all(recs, kills)[i]
        },
    decreases kills.len(),
{
    if kills.len() > 0 {
        let prev = despawn_all(recs, kills.drop_last());
        lemma_despawn_all(recs, kills.drop_last());
        lemma_despawned(prev, kills.last().0);
        let s = despawn_all(recs, kills);
        assert forall|i: int| 0 <= i < s.len() implies !is_killed(kills, (#[trigger] s[i]).entity)
            && exists|j: int| 0 <= j < recs.len() && recs[j] == s[i] by {
            let j = choose|j: int| 0 <= j < prev.len() && prev[j] == s[i];
            assert(!is_killed(kills.drop_last(), prev[j].entity));
            if is_killed(kills, s[i].entity) {
                let k = choose|k: int| 0 <= k < kills.len() && kills[k].0 == s[i].entity;
                if k < kills.len() - 1 {
                    assert(kills.drop_last()[k] == kills[k]);
                }
            }
        }
    }
}

/// After the combat stage no surviving entity has hit points at or below zero,
/// provided none had before.
pub proof fn lemma_no_dead_survivors(recs: Seq<EntityRecord>, attacks: Seq<TryAttack>)
    requires
        entities_unique(recs),
        all_alive(recs),
    ensures
        all_alive(survivors(recs, attacks)),
{
    let r1 = damage_pass(recs, attacks).0;
    let ks = damage_pass(recs, attacks).1;
    lemma_damage_pass(recs, attacks);
    assert forall|a: int, b: int|
        0 <= a < r1.len() && 0 <= b < r1.len() && a != b implies #[trigger] r1[a].entity != #[trigger] r1[b].entity by {
        assert(r1[a].entity == recs[a].entity && r1[b].entity == recs[b].entity);
    }
    lemma_despawn_all(r1, ks);
    let s = survivors(recs, attacks);
    assert forall|i: int| 0 <= i < s.len() && (#[trigger] s[i]).hp.is_some() implies s[i].hp.unwrap().current > 0 by {
        let j = choose|j: int| 0 <= j < r1.len() && r1[j] == s[i];
        assert(r1[j] == s[i]);
    }
}

/// Every death is counted once: no entity is killed twice in one stage, each kill
/// gives exactly one map update, for the map it happened on, and is removed from
/// the store.
pub proof fn lemma_one_notification_per_death(recs: Seq<EntityRecord>, attacks: Seq<TryAttack>)
    requires
        entities_unique(recs),
        all_alive(recs),
    ensures
        kills_distinct(kills_of(recs, attacks)),
        map_updates(kills_of(recs, attacks)).len() == kills_of(recs, attacks).len(),
        forall|k: int| 0 <= k < kills_of(recs, attacks).len()
            ==> #[trigger] map_updates(kills_of(recs, attacks))[k] == ShouldUpdateMap(kills_of(recs, attacks)[k].1),
        forall|i: int| 0 <= i < survivors(recs, attacks).len()
            ==> !is_killed(kills_of(recs, attacks), (#[trigger] survivors(recs, attacks)[i]).entity),
{
    lemma_damage_pass(recs, attacks);
    let r1 = damage_pass(recs, attacks).0;
    assert forall|a: int, b: int|
        0 <= a < r1.len() && 0 <= b < r1.len() && a != b implies #[trigger] r1[a].entity != #[trigger] r1[b].entity by {
        assert(r1[a].entity == recs[a].entity && r1[b].entity == recs[b].entity);
    }
    lemma_despawn_all(r1, damage_pass(recs, attacks).1);
}

/// Each user on the map of a death gets the removal notice for it.
pub proof fn lemma_notice_reaches_map(users: Seq<(UserId, MapPosition)>, dead: Kill, u: int)
    requires
        0 <= u < users.len(),
        users[u].1.map_id == dead.1,
    ensures
        removal_notices(users, dead).contains((users[u].0, remove_sprite(dead.0))),
    decreases users.len(),
{
    if u < users.len() - 1 {
        lemma_notice_reaches_map(users.drop_last(), dead, u);
        let w = (users[u].0, remove_sprite(dead.0));
        let rest = removal_notices(users.drop_last(), dead);
        let i = choose|i: int| 0 <= i < rest.len() && rest[i] == w;
        assert(removal_notices(users, dead)[i] == w);
    } else {
        let s = removal_notices(users, dead);
        assert(s[s.len() - 1] == (users[u].0, remove_sprite(dead.0)));
    }
}

/// No user gets the removal notice of one death twice: with each user listed once,
/// the notices of a death go to distinct users. Together with
/// `lemma_notice_reaches_map` and `lemma_cross_map_isolation`, each user on the map
/// of a death gets exactly one notice for it.
pub proof fn lemma_one_notice_per_user(users: Seq<(UserId, MapPosition)>, dead: Kill)
    requires
        forall|a: int, b: int|
            0 <= a < users.len() && 0 <= b < users.len() && a != b ==> #[trigger] users[a].0 != #[trigger] users[b].0,
    ensures
        forall|a: int, b: int|
            0 <= a < removal_notices(users, dead).len() && 0 <= b < removal_notices(users, dead).len() && a != b
                ==> #[trigger] removal_notices(users, dead)[a].0 != #[trigger] removal_notices(users, dead)[b].0,
    decreases users.len(),
{
    broadcast use Seq::lemma_filter_map_contains;

    if users.len() > 0 {
        let rest = users.drop_last();
        lemma_one_notice_per_user(rest, dead);
        let prev = removal_notices(rest, dead);
        let s = removal_notices(users, dead);
        if s.len() > prev.len() {
            let last = users.last();
            assert forall|a: int| 0 <= a < prev.len() implies #[trigger] prev[a].0 != last.0 by {
                assert(prev.contains(prev[a]));
                let t = choose|t: (UserId, MapPosition)| #[trigger] rest.contains(t) && (
                    if t.1.map_id == dead.1 {
                        Some((t.0, remove_sprite(dead.0)))
                    } else {
                        None::<Outgoing>
                    }) == Some(prev[a]);
                let ui = choose|ui: int| 0 <= ui < rest.len() && rest[ui] == t;
                assert(users[ui] == t);
            }
            assert forall|a: int, b: int|
                0 <= a < s.len() && 0 <= b < s.len() && a != b implies #[trigger] s[a].0 != #[trigger] s[b].0 by {
                if a < prev.len() && b < prev.len() {
                    assert(s[a] == prev[a] && s[b] == prev[b]);
                } else if a < prev.len() {
                    assert(s[a] == prev[a]);
                } else if b < prev.len() {
                    assert(s[b] == prev[b]);
                }
            }
        }
    }
}

/// A death on one map never reaches a user whose last known map is another: every
/// removal message goes to a user listed on the map where the entity it names died.
pub proof fn lemma_cross_map_isolation(users: Seq<(UserId, MapPosition)>, kills: Seq<Kill>, m: Outgoing)
    requires
        removal_messages(users, kills).contains(m),
    ensures
        exists|ui: int, ki: int|
            0 <= ui < users.len() && 0 <= ki < kills.len() && users[ui].1.map_id == kills[ki].1
                && m == (#[trigger] users[ui].0, remove_sprite(#[trigger] kills[ki].0)),
    decreases kills.len(),
{
    broadcast use Seq::lemma_filter_map_contains;

    let prev = removal_messages(users, kills.drop_last());
    let last = removal_notices(users, kills.last());
    let i = choose|i: int| 0 <= i < removal_messages(users, kills).len() && removal_messages(users, kills)[i] == m;
    if i < prev.len() {
        assert(prev[i] == m);
        lemma_cross_map_isolation(users, kills.drop_last(), m);
        let (ui, ki) = choose|ui: int, ki: int|
            0 <= ui < users.len() && 0 <= ki < kills.drop_last().len() && users[ui].1.map_id == kills.drop_last()[ki].1
                && m == (#[trigger] users[ui].0, remove_sprite(#[trigger] kills.drop_last()[ki].0));
        assert(kills[ki] == kills.drop_last()[ki]);
    } else {
        assert(last[i - prev.len()] == m);
        assert(last.contains(m));
        let t = choose|t: (UserId, MapPosition)| #[trigger] users.contains(t) && (
            if t.1.map_id == kills.last().1 {
                Some((t.0, remove_sprite(kills.last().0)))
            } else {
                None::<Outgoing>
            }) == Some(m);
        let ui = choose|ui: int| 0 <= ui < users.len() && users[ui] == t;
        assert(users[ui].1.map_id == kills[kills.len() - 1].1);
    }
}

/// Where at most one hittable entity stands on a tile, an attack on the tile hits
/// that entity, whatever its place in the store: the outcome of the stage then
/// does not hang on store order.
pub proof fn lemma_unique_target(recs: Seq<EntityRecord>, p: MapPosition, i: int)
    requires
        forall|a: int, b: int|
            0 <= a < recs.len() && 0 <= b < recs.len() && is_target(#[trigger] recs[a], p) && is_target(
                #[trigger] recs[b],
                p,
            ) ==> a == b,
        0 <= i < recs.len(),
        is_target(recs[i], p),
    ensures
        first_target(recs, p) == Some(i),
{
    assert(is_first_target(recs, p, i));
    let k = choose|k: int| is_first_target(recs, p, k);
    assert(is_target(recs[k], p));
}

/// With no attack pending the stage changes nothing and sends nothing.
pub proof fn lemma_no_attack_no_change(recs: Seq<EntityRecord>, users: Seq<(UserId, MapPosition)>)
    ensures
        survivors(recs, Seq::empty()) == recs,
        kills_of(recs, Seq::empty()) == Seq::<Kill>::empty(),
        map_updates(kills_of(recs, Seq::empty())) == Seq::<ShouldUpdateMap>::empty(),
        removal_messages(users, kills_of(recs, Seq::empty())) == Seq::<Outgoing>::empty(),
{
    assert(map_updates(Seq::empty()) =~= Seq::<ShouldUpdateMap>::empty());
}

} // verus!
