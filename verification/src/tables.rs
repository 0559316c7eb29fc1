//! The hash tables behind an agent's memory. They are the `HashMap` and
//! `HashSet` of `bevy::utils` (hashbrown tables with a fixed hasher). Nothing
//! here is verified: each function makes one table access and states what
//! hashbrown documents for it, over a mathematical model of the table.

use bevy::utils::HashMap;
use bevy::utils::HashSet;
use vstd::prelude::*;

use crate::grid::Grid;
use crate::kind::EntityKind;
use crate::score::AStar;

verus! {

/// Occupants per tile.
#[verifier::external_body]
pub struct TileTable {
    inner: HashMap<(i32, i32), HashSet<u64>>,
}

/// What a `TileTable` holds: for each tile key, its bucket of entity ids.
pub uninterp spec fn tile_buckets(table: TileTable) -> Map<Grid, Set<u64>>;

impl TileTable {
    /// `HashMap::new`: a table without keys.
    #[verifier::external_body]
    pub(crate) fn new() -> (table: TileTable)
        ensures
            tile_buckets(table) == (Map::<Grid, Set<u64>>::empty()),
    {
        TileTable { inner: HashMap::new() }
    }

    /// `HashMap::get`, then `HashSet::is_empty` on the bucket found: `None`
    /// where the tile is no key, else whether its bucket has no member.
    #[verifier::external_body]
    pub(crate) fn bucket_is_empty(&self, tile: Grid) -> (found: Option<bool>)
        ensures
            found is Some <==> tile_buckets(*self).contains_key(tile),
            found is Some ==> (found->0 <==> tile_buckets(*self)[tile] == (Set::<u64>::empty())),
    {
        self.inner.get(&(tile.x, tile.y)).map(|bucket| bucket.is_empty())
    }

    /// `HashMap::get`, then `HashSet::iter` over the bucket found: its
    /// members, each once, in the order the table walks them.
    #[verifier::external_body]
    pub(crate) fn occupants(&self, tile: Grid) -> (found: Option<Vec<u64>>)
        ensures
            found is Some <==> tile_buckets(*self).contains_key(tile),
            found is Some ==> found->0@.no_duplicates(),
            found is Some ==> found->0@.to_set() == tile_buckets(*self)[tile],
    {
        self.inner.get(&(tile.x, tile.y)).map(|bucket| bucket.iter().copied().collect())
    }

    /// `HashMap::entry` with `Entry::or_default`, then `HashSet::insert`:
    /// the tile's bucket, created empty where the tile was no key, gains
    /// the entity.
    #[verifier::external_body]
    pub(crate) fn add_occupant(&mut self, tile: Grid, entity: u64)
        ensures
            tile_buckets(*final(self)) == tile_buckets(*old(self)).insert(
                tile,
                bucket_or_empty(tile_buckets(*old(self)), tile).insert(entity),
            ),
    {
        self.inner.entry((tile.x, tile.y)).or_default().insert(entity);
    }

    /// `HashMap::get_mut`, then `HashSet::remove` on the bucket found: the
    /// bucket loses the entity and stays a key, even when emptied. Nothing
    /// changes where the tile is no key.
    #[verifier::external_body]
    pub(crate) fn drop_occupant(&mut self, tile: Grid, entity: u64)
        ensures
            tile_buckets(*final(self)) == (if tile_buckets(*old(self)).contains_key(tile) {
                tile_buckets(*old(self)).insert(
                    tile,
                    tile_buckets(*old(self))[tile].remove(entity),
                )
            } else {
                tile_buckets(*old(self))
            }),
    {
        self.inner.get_mut(&(tile.x, tile.y)).map(|bucket| bucket.remove(&entity));
    }

    /// `HashMap::remove`: the tile is no longer a key.
    #[verifier::external_body]
    pub(crate) fn remove_bucket(&mut self, tile: Grid)
        ensures
            tile_buckets(*final(self)) == tile_buckets(*old(self)).remove(tile),
    {
        self.inner.remove(&(tile.x, tile.y));
    }

    /// `HashMap::keys`: every key once, in the order the table walks them.
    #[verifier::external_body]
    pub(crate) fn tiles(&self) -> (keys: Vec<Grid>)
        ensures
            keys@.no_duplicates(),
            keys@.to_set() == tile_buckets(*self).dom(),
    {
        self.inner.keys().map(|key| Grid { x: key.0, y: key.1 }).collect()
    }
}

/// The bucket under `key`, or the empty set where `key` is absent.
pub open spec fn bucket_or_empty<K, T>(buckets: Map<K, Set<T>>, key: K) -> Set<T> {
    if buckets.contains_key(key) {
        buckets[key]
    } else {
        Set::empty()
    }
}

/// Tiles per entity.
#[verifier::external_body]
pub struct EntityTable {
    inner: HashMap<u64, HashSet<(i32, i32)>>,
}

/// What an `EntityTable` holds: for each entity id, its set of tiles.
pub uninterp spec fn entity_tiles(table: EntityTable) -> Map<u64, Set<Grid>>;

impl EntityTable {
    /// `HashMap::new`: a table without keys.
    #[verifier::external_body]
    pub(crate) fn new() -> (table: EntityTable)
        ensures
            entity_tiles(table) == (Map::<u64, Set<Grid>>::empty()),
    {
        EntityTable { inner: HashMap::new() }
    }

    /// `HashMap::is_empty`: whether the table has no key.
    #[verifier::external_body]
    pub(crate) fn is_empty(&self) -> (none: bool)
        ensures
            none <==> entity_tiles(*self).dom() == (Set::<u64>::empty()),
    {
        self.inner.is_empty()
    }

    /// `HashMap::get`, then `HashSet::iter` over the set found: the
    /// entity's tiles, each once, in the order the table walks them.
    #[verifier::external_body]
    pub(crate) fn footprint(&self, entity: u64) -> (found: Option<Vec<Grid>>)
        ensures
            found is Some <==> entity_tiles(*self).contains_key(entity),
            found is Some ==> found->0@.no_duplicates(),
            found is Some ==> found->0@.to_set() == entity_tiles(*self)[entity],
    {
        self.inner.get(&entity).map(
            |tiles| tiles.iter().map(|key| Grid { x: key.0, y: key.1 }).collect(),
        )
    }

    /// `HashMap::remove`: the entity is no longer a key; the tiles it
    /// had are handed out, each once.
    #[verifier::external_body]
    pub(crate) fn take(&mut self, entity: u64) -> (found: Option<Vec<Grid>>)
        ensures
            entity_tiles(*final(self)) == entity_tiles(*old(self)).remove(entity),
            found is Some <==> entity_tiles(*old(self)).contains_key(entity),
            found is Some ==> found->0@.no_duplicates(),
            found is Some ==> found->0@.to_set() == entity_tiles(*old(self))[entity],
    {
        self.inner.remove(&entity).map(
            |tiles| tiles.into_iter().map(|key| Grid { x: key.0, y: key.1 }).collect(),
        )
    }

    /// `HashMap::insert` of a set collected from `tiles`: the entity's
    /// set is replaced by exactly these tiles.
    #[verifier::external_body]
    pub(crate) fn assign(&mut self, entity: u64, tiles: &Vec<Grid>)
        ensures
            entity_tiles(*final(self)) == entity_tiles(*old(self)).insert(
                entity,
                tiles@.to_set(),
            ),
    {
        self.inner.insert(entity, tiles.iter().map(|tile| (tile.x, tile.y)).collect());
    }

    /// `HashMap::entry` with `Entry::or_default`, then `HashSet::insert`:
    /// the entity's set, created empty where the entity was no key, gains
    /// the tile.
    #[verifier::external_body]
    pub(crate) fn add_tile(&mut self, entity: u64, tile: Grid)
        ensures
            entity_tiles(*final(self)) == entity_tiles(*old(self)).insert(
                entity,
                bucket_or_empty(entity_tiles(*old(self)), entity).insert(tile),
            ),
    {
        self.inner.entry(entity).or_default().insert((tile.x, tile.y));
    }
}

/// A set of entity ids.
#[verifier::external_body]
pub struct EntitySet {
    inner: HashSet<u64>,
}

/// What an `EntitySet` holds.
pub uninterp spec fn entity_members(set: EntitySet) -> Set<u64>;

impl EntitySet {
    /// `HashSet::new`: a set without members.
    #[verifier::external_body]
    pub(crate) fn new() -> (set: EntitySet)
        ensures
            entity_members(set) == (Set::<u64>::empty()),
    {
        EntitySet { inner: HashSet::new() }
    }

    /// `HashSet::contains`.
    #[verifier::external_body]
    pub(crate) fn contains(&self, entity: u64) -> (member: bool)
        ensures
            member == entity_members(*self).contains(entity),
    {
        self.inner.contains(&entity)
    }

    /// `HashSet::insert`: the set gains the entity.
    #[verifier::external_body]
    pub(crate) fn insert(&mut self, entity: u64)
        ensures
            entity_members(*final(self)) == entity_members(*old(self)).insert(entity),
    {
        self.inner.insert(entity);
    }

    /// `HashSet::remove`: the set loses the entity.
    #[verifier::external_body]
    pub(crate) fn remove(&mut self, entity: u64)
        ensures
            entity_members(*final(self)) == entity_members(*old(self)).remove(entity),
    {
        self.inner.remove(&entity);
    }

    /// `HashSet::iter`: every member once, in the order the set walks them.
    #[verifier::external_body]
    pub(crate) fn members(&self) -> (all: Vec<u64>)
        ensures
            all@.no_duplicates(),
            all@.to_set() == entity_members(*self),
    {
        self.inner.iter().copied().collect()
    }
}

/// Known identity per entity.
#[verifier::external_body]
pub struct KindTable {
    inner: HashMap<u64, EntityKind>,
}

/// What a `KindTable` holds.
pub uninterp spec fn entity_kinds(table: KindTable) -> Map<u64, EntityKind>;

impl KindTable {
    /// `HashMap::new`: a table without keys.
    #[verifier::external_body]
    pub(crate) fn new() -> (table: KindTable)
        ensures
            entity_kinds(table) == (Map::<u64, EntityKind>::empty()),
    {
        KindTable { inner: HashMap::new() }
    }

    /// `HashMap::get`: the kind stored for the entity, if any.
    #[verifier::external_body]
    pub(crate) fn get(&self, entity: u64) -> (found: Option<EntityKind>)
        ensures
            found is Some <==> entity_kinds(*self).contains_key(entity),
            found is Some ==> found->0 == entity_kinds(*self)[entity],
    {
        self.inner.get(&entity).copied()
    }

    /// `HashMap::insert`: the entity now maps to `kind`.
    #[verifier::external_body]
    pub(crate) fn insert(&mut self, entity: u64, kind: EntityKind)
        ensures
            entity_kinds(*final(self)) == entity_kinds(*old(self)).insert(entity, kind),
    {
        self.inner.insert(entity, kind);
    }

    /// `HashMap::keys`: every key once, in the order the table walks them.
    #[verifier::external_body]
    pub(crate) fn ids(&self) -> (keys: Vec<u64>)
        ensures
            keys@.no_duplicates(),
            keys@.to_set() == entity_kinds(*self).dom(),
    {
        self.inner.keys().copied().collect()
    }
}

/// A set of tiles.
#[verifier::external_body]
pub struct TileSet {
    inner: HashSet<(i32, i32)>,
}

/// What a `TileSet` holds.
pub uninterp spec fn tile_members(set: TileSet) -> Set<Grid>;

impl TileSet {
    /// `HashSet::new`: a set without members.
    #[verifier::external_body]
    pub(crate) fn new() -> (set: TileSet)
        ensures
            tile_members(set) == (Set::<Grid>::empty()),
    {
        TileSet { inner: HashSet::new() }
    }

    /// `HashSet::contains`.
    #[verifier::external_body]
    pub(crate) fn contains(&self, tile: Grid) -> (member: bool)
        ensures
            member == tile_members(*self).contains(tile),
    {
        self.inner.contains(&(tile.x, tile.y))
    }

    /// `HashSet::insert`: the set gains the tile.
    #[verifier::external_body]
    pub(crate) fn insert(&mut self, tile: Grid)
        ensures
            tile_members(*final(self)) == tile_members(*old(self)).insert(tile),
    {
        self.inner.insert((tile.x, tile.y));
    }
}

/// For each tile reached by a search, the tile it was reached from and
/// the score it was given.
#[verifier::external_body]
pub struct TrailTable {
    inner: HashMap<(i32, i32), (Grid, AStar)>,
}

/// What a `TrailTable` holds.
pub uninterp spec fn trail_links(table: TrailTable) -> Map<Grid, (Grid, AStar)>;

impl TrailTable {
    /// `HashMap::new`: a table without keys.
    #[verifier::external_body]
    pub(crate) fn new() -> (table: TrailTable)
        ensures
            trail_links(table) == (Map::<Grid, (Grid, AStar)>::empty()),
    {
        TrailTable { inner: HashMap::new() }
    }

    /// `HashMap::get`: the link stored for the tile, if any.
    #[verifier::external_body]
    pub(crate) fn get(&self, tile: Grid) -> (found: Option<(Grid, AStar)>)
        ensures
            found is Some <==> trail_links(*self).contains_key(tile),
            found is Some ==> found->0 == trail_links(*self)[tile],
    {
        self.inner.get(&(tile.x, tile.y)).copied()
    }

    /// `HashMap::insert`: the tile now links to `from` with `score`.
    #[verifier::external_body]
    pub(crate) fn insert(&mut self, tile: Grid, from: Grid, score: AStar)
        ensures
            trail_links(*final(self)) == trail_links(*old(self)).insert(tile, (from, score)),
    {
        self.inner.insert((tile.x, tile.y), (from, score));
    }
}

} // verus!
