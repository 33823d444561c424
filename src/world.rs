use vstd::prelude::*;

verus! {

/// Identifier of a map; unique within a [`GameWorld`].
#[derive(Debug, Clone, Copy, PartialEq, Eq, Structural, Hash)]
pub struct MapId(pub i32);

/// Geometry of one map.
#[derive(Debug, Clone, Copy, PartialEq, Eq, Structural)]
pub struct GameMap {
    pub id: MapId,
    pub width: u32,
    pub height: u32,
}

/// Identifier of the map that `GameMap::default` builds.
pub const DEFAULT_MAP_ID: i32 = 1;

/// Side length of the map that `GameMap::default` builds.
pub const DEFAULT_MAP_SIZE: u32 = 10;

impl GameMap {
    pub fn new(id: MapId, width: u32, height: u32) -> (r: GameMap)
        ensures
            r.id == id,
            r.width == width,
            r.height == height,
    {
        GameMap { id, width, height }
    }

    pub fn id(&self) -> (r: MapId)
        ensures
            r == self.id,
    {
        self.id
    }

    /// Whether `(x, y)` lies inside the map.
    pub fn contains(&self, x: i32, y: i32) -> (r: bool)
        ensures
            r == (0 <= x < self.width && 0 <= y < self.height),
    {
        0 <= x && 0 <= y && (x as u32) < self.width && (y as u32) < self.height
    }
}

impl Default for GameMap {
    fn default() -> (r: GameMap)
        ensures
            r.id == MapId(DEFAULT_MAP_ID),
            r.width == DEFAULT_MAP_SIZE,
            r.height == DEFAULT_MAP_SIZE,
    {
        GameMap::new(MapId(DEFAULT_MAP_ID), DEFAULT_MAP_SIZE, DEFAULT_MAP_SIZE)
    }
}

/// All maps of the world, each identifier present at most once.
pub struct GameWorld {
    pub game_maps: Vec<GameMap>,
}

impl GameWorld {
    /// No two maps share an identifier.
    pub open spec fn wf(&self) -> bool {
        forall|i: int, j: int|
            0 <= i < self.game_maps@.len() && 0 <= j < self.game_maps@.len() && i != j
                ==> #[trigger] self.game_maps@[i].id != #[trigger] self.game_maps@[j].id
    }

    /// The map with identifier `id`, if the world holds one.
    pub open spec fn map_spec(&self, id: MapId) -> Option<GameMap> {
        if exists|i: int| 0 <= i < self.game_maps@.len() && self.game_maps@[i].id == id {
            let i = choose|i: int| 0 <= i < self.game_maps@.len() && self.game_maps@[i].id == id;
            Some(self.game_maps@[i])
        } else {
            None
        }
    }

    /// The maps of the default world: the default map, and a second map of
    /// twice its size.
    pub open spec fn default_maps() -> Seq<GameMap> {
        seq![
            GameMap { id: MapId(1), width: 10, height: 10 },
            GameMap { id: MapId(2), width: 20, height: 20 },
        ]
    }

    pub fn new() -> (r: GameWorld)
        ensures
            r.wf(),
            r.game_maps@.len() == 0,
    {
        GameWorld { game_maps: Vec::new() }
    }

    /// Looks up the map with identifier `id`.
    pub fn get_map(&self, id: MapId) -> (r: Option<&GameMap>)
        requires
            self.wf(),
        ensures
            r.is_some() == self.map_spec(id).is_some(),
            r.is_some() ==> *r.unwrap() == self.map_spec(id).unwrap(),
    {
        let mut i: usize = 0;
        while i < self.game_maps.len()
            invariant
                self.wf(),
                i <= self.game_maps@.len(),
                forall|j: int| 0 <= j < i ==> self.game_maps@[j].id != id,
            decreases self.game_maps@.len() - i,
        {
            if self.game_maps[i].id == id {
                proof {
                    assert(exists|k: int| 0 <= k < self.game_maps@.len() && self.game_maps@[k].id == id);
                    let k = choose|k: int| 0 <= k < self.game_maps@.len() && self.game_maps@[k].id == id;
                    assert(self.game_maps@[k].id == self.game_maps@[i as int].id);
                    assert(k == i as int);
                }
                return Some(&self.game_maps[i]);
            }
            i += 1;
        }
        None
    }

    /// Whether the world holds a map with identifier `id`.
    pub fn has_map(&self, id: MapId) -> (r: bool)
        requires
            self.wf(),
        ensures
            r == self.map_spec(id).is_some(),
    {
        self.get_map(id).is_some()
    }

    /// Adds `map`, unless a map with its identifier is already present.
    pub fn insert_map(&mut self, map: GameMap) -> (r: bool)
        requires
            old(self).wf(),
        ensures
            final(self).wf(),
            r == old(self).map_spec(map.id).is_none(),
            r ==> final(self).game_maps@ == old(self).game_maps@.push(map),
            !r ==> final(self).game_maps@ == old(self).game_maps@,
    {
        if self.has_map(map.id) {
            false
        } else {
            self.game_maps.push(map);
            assert forall|i: int| 0 <= i < old(self).game_maps@.len() implies
                #[trigger] old(self).game_maps@[i].id != map.id by {}
            true
        }
    }
}

impl Default for GameWorld {
    /// A world with the default map and a second map of twice its size.
    fn default() -> (r: GameWorld)
        ensures
            r.wf(),
            r.game_maps@ == GameWorld::default_maps(),
    {
        let mut world = GameWorld::new();
        let default_map = GameMap::default();
        world.insert_map(default_map);
        let second_map = GameMap::new(MapId(2), 20, 20);
        world.insert_map(second_map);
        world
    }
}

} // verus!
