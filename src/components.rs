use vstd::prelude::*;

use crate::world::MapId;

verus! {

/// An entity: an identifier with no data of its own.
#[derive(Debug, Clone, Copy, PartialEq, Eq, Structural, Hash)]
pub struct Entity(pub u32);

impl Entity {
    pub fn index(&self) -> (r: u32)
        ensures
            r == self.0,
    {
        self.0
    }
}

/// Identifier of a connected user.
#[derive(Debug, Clone, Copy, PartialEq, Eq, Structural, Hash)]
pub struct UserId(pub u64);

/// Hit points.
#[derive(Debug, Clone, Copy, PartialEq, Eq, Structural)]
pub struct Hp {
    pub current: i32,
}

/// A tile on a map.
#[derive(Debug, Clone, Copy, PartialEq, Eq, Structural, Hash)]
pub struct MapPosition {
    pub map_id: MapId,
    pub x: i32,
    pub y: i32,
}

/// One live entity and the components attached to it.
pub struct EntityRecord {
    pub entity: Entity,
    pub name: Option<String>,
    pub hp: Option<Hp>,
    pub position: Option<MapPosition>,
}

/// The index in `recs` of the record of `e`, if there is one.
pub open spec fn index_of(recs: Seq<EntityRecord>, e: Entity) -> Option<int> {
    if exists|i: int| 0 <= i < recs.len() && recs[i].entity == e {
        Some(choose|i: int| 0 <= i < recs.len() && recs[i].entity == e)
    } else {
        None
    }
}

/// No two records belong to the same entity.
pub open spec fn entities_unique(recs: Seq<EntityRecord>) -> bool {
    forall|i: int, j: int|
        0 <= i < recs.len() && 0 <= j < recs.len() && i != j
            ==> #[trigger] recs[i].entity != #[trigger] recs[j].entity
}

/// `recs` after the entity `e` and all its components are removed.
pub open spec fn despawned(recs: Seq<EntityRecord>, e: Entity) -> Seq<EntityRecord> {
    match index_of(recs, e) {
        Some(i) => recs.remove(i),
        None => recs,
    }
}

/// `r` with its hit points set to `current`.
pub open spec fn with_hp(r: EntityRecord, current: i32) -> EntityRecord {
    EntityRecord { entity: r.entity, name: r.name, hp: Some(Hp { current }), position: r.position }
}

/// The entity arena: live entities in spawn order, each with its components.
pub struct EntityStore {
    pub records: Vec<EntityRecord>,
    pub next_index: u32,
}

impl EntityStore {
    /// Entities are unique and every index handed out is below `next_index`.
    pub open spec fn wf(&self) -> bool {
        &&& entities_unique(self.records@)
        &&& forall|i: int| 0 <= i < self.records@.len() ==> (#[trigger] self.records@[i]).entity.0 < self.next_index
    }

    pub fn new() -> (r: EntityStore)
        ensures
            r.wf(),
            r.records@.len() == 0,
            r.next_index == 0,
    {
        EntityStore { records: Vec::new(), next_index: 0 }
    }

    /// Creates an entity with the given components; `None` once every index is used.
    pub fn spawn(&mut self, name: Option<String>, hp: Option<Hp>, position: Option<MapPosition>) -> (r: Option<Entity>)
        requires
            old(self).wf(),
        ensures
            final(self).wf(),
            r.is_none() <==> old(self).next_index == u32::MAX,
            r.is_none() ==> *final(self) == *old(self),
            r.is_some() ==> {
                &&& r.unwrap().0 == old(self).next_index
                &&& final(self).next_index == old(self).next_index + 1
                &&& final(self).records@ == old(self).records@.push(
                    EntityRecord { entity: r.unwrap(), name, hp, position },
                )
            },
    {
        if self.next_index == u32::MAX {
            return None;
        }
        let e = Entity(self.next_index);
        self.records.push(EntityRecord { entity: e, name, hp, position });
        self.next_index = self.next_index + 1;
        Some(e)
    }

    /// Finds where the record of `e` stands.
    pub fn position_of(&self, e: Entity) -> (r: Option<usize>)
        requires
            self.wf(),
        ensures
            r.is_some() == index_of(self.records@, e).is_some(),
            r.is_some() ==> r.unwrap() as int == index_of(self.records@, e).unwrap(),
    {
        let mut i: usize = 0;
        while i < self.records.len()
            invariant
                self.wf(),
                i <= self.records@.len(),
                forall|j: int| 0 <= j < i ==> self.records@[j].entity != e,
            decreases self.records@.len() - i,
        {
            if self.records[i].entity == e {
                proof {
                    assert(exists|k: int| 0 <= k < self.records@.len() && self.records@[k].entity == e);
                    let k = choose|k: int| 0 <= k < self.records@.len() && self.records@[k].entity == e;
                    assert(self.records@[k].entity == self.records@[i as int].entity);
                    assert(k == i as int);
                }
                return Some(i);
            }
            i += 1;
        }
        None
    }

    /// Hit points of the record at `i`.
    pub fn hp_at(&self, i: usize) -> (r: Option<Hp>)
        requires
            i < self.records@.len(),
        ensures
            r == self.records@[i as int].hp,
    {
        self.records[i].hp
    }

    /// Sets the hit points of the record at `i`.
    pub fn set_hp_at(&mut self, i: usize, current: i32)
        requires
            old(self).wf(),
            i < old(self).records@.len(),
        ensures
            final(self).wf(),
            final(self).next_index == old(self).next_index,
            final(self).records@ == old(self).records@.update(i as int, with_hp(old(self).records@[i as int], current)),
    {
        let r = self.records.remove(i);
        let updated = EntityRecord { entity: r.entity, name: r.name, hp: Some(Hp { current }), position: r.position };
        self.records.insert(i, updated);
        proof {
            assert(self.records@ =~= old(self).records@.update(i as int, with_hp(old(self).records@[i as int], current)));
        }
    }

    /// Removes `e` and all its components; nothing happens if `e` is not live.
    pub fn despawn(&mut self, e: Entity)
        requires
            old(self).wf(),
        ensures
            final(self).wf(),
            final(self).next_index == old(self).next_index,
            final(self).records@ == despawned(old(self).records@, e),
    {
        match self.position_of(e) {
            Some(i) => {
                self.records.remove(i);
                proof {
                    let s = old(self).records@;
                    let t = self.records@;
                    assert forall|a: int, b: int|
                        0 <= a < t.len() && 0 <= b < t.len() && a != b
                            implies #[trigger] t[a].entity != #[trigger] t[b].entity by {
                        let a2 = if a < i { a } else { a + 1 };
                        let b2 = if b < i { b } else { b + 1 };
                        assert(t[a] == s[a2]);
                        assert(t[b] == s[b2]);
                    }
                    assert forall|a: int| 0 <= a < t.len() implies (#[trigger] t[a]).entity.0 < self.next_index by {
                        let a2 = if a < i { a } else { a + 1 };
                        assert(t[a] == s[a2]);
                    }
                }
            },
            None => {},
        }
    }
}

} // verus!
