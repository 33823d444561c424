use vstd::prelude::*;

use crate::components::{Entity, MapPosition, UserId};
use crate::world::MapId;

verus! {

/// The map with this identifier changed and must be sent out again.
#[derive(Debug, Clone, Copy, PartialEq, Eq, Structural)]
pub struct ShouldUpdateMap(pub MapId);

/// The full state of this map must be pushed to a client.
#[derive(Debug, Clone, Copy, PartialEq, Eq, Structural)]
pub struct ShouldSendFullMapUpdateToClient(pub MapId);

/// A request to attack whatever stands on `map_position`.
#[derive(Debug, Clone, Copy, PartialEq, Eq, Structural)]
pub struct TryAttack {
    pub map_position: MapPosition,
    pub attack_value: i32,
}

/// Index of an entity as clients know it.
#[derive(Debug, Clone, Copy, PartialEq, Eq, Structural)]
pub struct EntityIndex {
    pub idx: u32,
}

/// A message addressed to one client.
#[derive(Debug, Clone, Copy, PartialEq, Eq, Structural)]
pub enum ServerMessageSingleClient {
    /// The client should stop drawing this entity.
    RemoveSprite(EntityIndex),
}

/// The removal notice for `e`.
pub open spec fn remove_sprite(e: Entity) -> ServerMessageSingleClient {
    ServerMessageSingleClient::RemoveSprite(EntityIndex { idx: e.0 })
}

/// An append-only queue of events, read within a tick and cleared between ticks.
pub struct EventQueue<T> {
    pub events: Vec<T>,
}

impl<T> EventQueue<T> {
    pub fn new() -> (r: EventQueue<T>)
        ensures
            r.events@.len() == 0,
    {
        EventQueue { events: Vec::new() }
    }

    /// Appends `event`.
    pub fn send(&mut self, event: T)
        ensures
            final(self).events@ == old(self).events@.push(event),
    {
        self.events.push(event);
    }

    pub fn is_empty(&self) -> (r: bool)
        ensures
            r == (self.events@.len() == 0),
    {
        self.events.len() == 0
    }

    pub fn len(&self) -> (r: usize)
        ensures
            r == self.events@.len(),
    {
        self.events.len()
    }

    /// The `i`-th event sent since the last clear.
    pub fn get(&self, i: usize) -> (r: &T)
        requires
            i < self.events@.len(),
        ensures
            *r == self.events@[i as int],
    {
        &self.events[i]
    }

    /// Drops every event: done at the tick boundary.
    pub fn clear(&mut self)
        ensures
            final(self).events@.len() == 0,
    {
        self.events.clear();
    }
}

/// Last known position of each connected user, at most one entry per user.
pub struct CurrentUserMaps {
    pub entries: Vec<(UserId, MapPosition)>,
}

impl CurrentUserMaps {
    /// No user appears twice.
    pub open spec fn wf(&self) -> bool {
        forall|i: int, j: int|
            0 <= i < self.entries@.len() && 0 <= j < self.entries@.len() && i != j
                ==> #[trigger] self.entries@[i].0 != #[trigger] self.entries@[j].0
    }

    pub fn new() -> (r: CurrentUserMaps)
        ensures
            r.wf(),
            r.entries@.len() == 0,
    {
        CurrentUserMaps { entries: Vec::new() }
    }

    /// Records that `user` is now at `pos`.
    pub fn set(&mut self, user: UserId, pos: MapPosition)
        requires
            old(self).wf(),
        ensures
            final(self).wf(),
            (exists|i: int| 0 <= i < old(self).entries@.len() && old(self).entries@[i].0 == user) ==> (
                exists|i: int| 0 <= i < old(self).entries@.len() && old(self).entries@[i].0 == user
                    && final(self).entries@ == old(self).entries@.update(i, (user, pos))),
            (forall|i: int| 0 <= i < old(self).entries@.len() ==> old(self).entries@[i].0 != user) ==>
                final(self).entries@ == old(self).entries@.push((user, pos)),
    {
        let mut i: usize = 0;
        while i < self.entries.len()
            invariant
                self.wf(),
                self.entries@ == old(self).entries@,
                i <= self.entries@.len(),
                forall|j: int| 0 <= j < i ==> self.entries@[j].0 != user,
            decreases self.entries@.len() - i,
        {
            if self.entries[i].0 == user {
                self.entries.set(i, (user, pos));
                proof {
                    let s = old(self).entries@;
                    let t = self.entries@;
                    assert forall|a: int, b: int|
                        0 <= a < t.len() && 0 <= b < t.len() && a != b
                            implies #[trigger] t[a].0 != #[trigger] t[b].0 by {
                        assert(t[a].0 == s[a].0);
                        assert(t[b].0 == s[b].0);
                    }
                }
                return;
            }
            i += 1;
        }
        self.entries.push((user, pos));
        proof {
            let s = old(self).entries@;
            let t = self.entries@;
            assert forall|a: int, b: int|
                0 <= a < t.len() && 0 <= b < t.len() && a != b
                    implies #[trigger] t[a].0 != #[trigger] t[b].0 by {
                if a < s.len() && b < s.len() {
                    assert(t[a] == s[a] && t[b] == s[b]);
                }
            }
        }
    }

    /// Forgets `user`, as on disconnect.
    pub fn remove(&mut self, user: UserId)
        requires
            old(self).wf(),
        ensures
            final(self).wf(),
            forall|i: int| 0 <= i < final(self).entries@.len() ==> final(self).entries@[i].0 != user,
            (forall|i: int| 0 <= i < old(self).entries@.len() ==> old(self).entries@[i].0 != user) ==>
                final(self).entries@ == old(self).entries@,
            forall|i: int| 0 <= i < old(self).entries@.len() && old(self).entries@[i].0 == user ==>
                final(self).entries@ == old(self).entries@.remove(i),
    {
        let mut i: usize = 0;
        while i < self.entries.len()
            invariant
                self.wf(),
                self.entries@ == old(self).entries@,
                i <= self.entries@.len(),
                forall|j: int| 0 <= j < i ==> self.entries@[j].0 != user,
            decreases self.entries@.len() - i,
        {
            if self.entries[i].0 == user {
                self.entries.remove(i);
                proof {
                    let s = old(self).entries@;
                    let t = self.entries@;
                    assert forall|a: int, b: int|
                        0 <= a < t.len() && 0 <= b < t.len() && a != b
                            implies #[trigger] t[a].0 != #[trigger] t[b].0 by {
                        let a2 = if a < i { a } else { a + 1 };
                        let b2 = if b < i { b } else { b + 1 };
                        assert(t[a] == s[a2]);
                        assert(t[b] == s[b2]);
                    }
                    assert forall|a: int| 0 <= a < t.len() implies t[a].0 != user by {
                        let a2 = if a < i { a } else { a + 1 };
                        assert(t[a] == s[a2]);
                        assert(s[a2].0 != s[i as int].0);
                    }
                    assert forall|k: int| 0 <= k < s.len() && s[k].0 == user implies t == s.remove(k) by {
                        assert(s[k].0 == s[i as int].0);
                    }
                }
                return;
            }
            i += 1;
        }
    }
}

} // verus!
