//! An agent's private memory of the world: which entities it has sensed on
//! which tiles, what it has learnt about them, and what it is still asking.

use vstd::prelude::*;

use crate::grid::Grid;
use crate::kind::EntityKind;
use crate::laws::extend_consistent;
use crate::laws::forget_consistent;
use crate::laws::forget_nobody;
use crate::laws::forget_one_more;
use crate::laws::leave_then_enter;
use crate::laws::settle_consistent;
use crate::laws::take_one_more;
use crate::laws::consistent_by_indexes;
use crate::laws::vacate_own_tiles;
use crate::model::occupy;
use crate::model::vacate;
use crate::model::Knowledge;
use crate::tables::entity_kinds;
use crate::tables::entity_members;
use crate::tables::entity_tiles;
use crate::tables::tile_buckets;
use crate::tables::EntitySet;
use crate::tables::EntityTable;
use crate::tables::KindTable;
use crate::tables::TileTable;

verus! {

/// Whether `tile` occurs in `tiles`.
pub fn has_tile(tiles: &Vec<Grid>, tile: Grid) -> (found: bool)
    ensures
        found == tiles@.contains(tile),
{
    let mut i: usize = 0;
    while i < tiles.len()
        invariant
            i <= tiles.len(),
            forall|j: int| 0 <= j < i ==> tiles@[j] != tile,
        decreases tiles.len() - i,
    {
        if tiles[i] == tile {
            return true;
        }
        i += 1;
    }
    false
}

/// Takes `entity` off `tile`, and drops the tile's bucket if that empties it.
fn leave_tile(tiles: &mut TileTable, tile: Grid, entity: u64)
    ensures
        tile_buckets(*final(tiles)) == vacate(tile_buckets(*old(tiles)), entity, set![tile]),
{
    tiles.drop_occupant(tile, entity);
    if let Some(true) = tiles.bucket_is_empty(tile) {
        tiles.remove_bucket(tile);
    }
    assert(tile_buckets(*tiles) =~= vacate(tile_buckets(*old(tiles)), entity, set![tile]));
}

/// Puts `entity` on `tile`.
fn enter_tile(tiles: &mut TileTable, tile: Grid, entity: u64)
    ensures
        tile_buckets(*final(tiles)) == occupy(tile_buckets(*old(tiles)), entity, set![tile]),
{
    tiles.add_occupant(tile, entity);
    assert(tile_buckets(*tiles) =~= occupy(tile_buckets(*old(tiles)), entity, set![tile]));
}

proof fn vacate_more(tiles: Map<Grid, Set<u64>>, e: u64, left: Set<Grid>, g: Grid)
    ensures
        vacate(vacate(tiles, e, left), e, set![g]) == vacate(tiles, e, left.insert(g)),
{
    assert forall|t: Grid| #[trigger] tiles.contains_key(t) implies tiles[t].remove(e).remove(e)
        == tiles[t].remove(e) by {
        assert(tiles[t].remove(e).remove(e) =~= tiles[t].remove(e));
    }
    assert(vacate(vacate(tiles, e, left), e, set![g]) =~= vacate(tiles, e, left.insert(g)));
}

proof fn occupy_more(tiles: Map<Grid, Set<u64>>, e: u64, entered: Set<Grid>, g: Grid)
    ensures
        occupy(occupy(tiles, e, entered), e, set![g]) == occupy(tiles, e, entered.insert(g)),
{
    assert forall|t: Grid| #[trigger] tiles.contains_key(t) implies tiles[t].insert(e).insert(e)
        == tiles[t].insert(e) by {
        assert(tiles[t].insert(e).insert(e) =~= tiles[t].insert(e));
    }
    assert(Set::<u64>::empty().insert(e).insert(e) =~= Set::<u64>::empty().insert(e));
    assert(occupy(occupy(tiles, e, entered), e, set![g]) =~= occupy(
        tiles,
        e,
        entered.insert(g),
    ));
}

/// An agent's memory of tile occupancy and entity identities.
pub struct SpatialKnowledge {
    tiles: TileTable,
    entities: EntityTable,
    temp: EntitySet,
    details: KindTable,
    querying: EntitySet,
}

impl View for SpatialKnowledge {
    type V = Knowledge;

    closed spec fn view(&self) -> Knowledge {
        Knowledge {
            tiles: tile_buckets(self.tiles),
            entities: entity_tiles(self.entities),
            provisional: entity_members(self.temp),
            details: entity_kinds(self.details),
            pending: entity_members(self.querying),
        }
    }
}

impl SpatialKnowledge {
    /// A memory that holds nothing yet.
    pub fn new() -> (sk: SpatialKnowledge)
        ensures
            sk@ == Knowledge::blank(),
            sk@.consistent(),
    {
        SpatialKnowledge {
            tiles: TileTable::new(),
            entities: EntityTable::new(),
            temp: EntitySet::new(),
            details: KindTable::new(),
            querying: EntitySet::new(),
        }
    }

    /// Moves `entity` to exactly the tiles in `now`.
    fn move_to(&mut self, entity: u64, now: &Vec<Grid>)
        requires
            old(self)@.consistent(),
        ensures
            final(self)@ == old(self)@.settle(entity, now@.to_set()),
            final(self)@.consistent(),
    {
        let ghost before = self@;
        let ghost wanted = now@.to_set();
        let had = self.entities.footprint(entity);
        let ghost leaving = before.footprint(entity).difference(wanted);
        match had {
            Some(old_tiles) => {
                let mut i: usize = 0;
                assert(old_tiles@.take(0).to_set().difference(wanted) =~= Set::<Grid>::empty());
                assert(self@.tiles =~= vacate(before.tiles, entity, Set::empty()));
                while i < old_tiles.len()
                    invariant
                        i <= old_tiles.len(),
                        wanted == now@.to_set(),
                        self@.tiles == vacate(
                            before.tiles,
                            entity,
                            old_tiles@.take(i as int).to_set().difference(wanted),
                        ),
                        self@.entities == before.entities,
                        self@.provisional == before.provisional,
                        self@.details == before.details,
                        self@.pending == before.pending,
                    decreases old_tiles.len() - i,
                {
                    let tile = old_tiles[i];
                    let ghost done = old_tiles@.take(i as int).to_set().difference(wanted);
                    proof {
                take_one_more(old_tiles@, i as int);
            }
                    if !has_tile(now, tile) {
                        leave_tile(&mut self.tiles, tile, entity);
                        proof {
                            vacate_more(before.tiles, entity, done, tile);
                            assert(old_tiles@.take(i + 1).to_set().difference(wanted)
                                =~= done.insert(tile));
                        }
                    } else {
                        assert(old_tiles@.take(i + 1).to_set().difference(wanted) =~= done);
                    }
                    i += 1;
                }
                assert(old_tiles@.take(old_tiles.len() as int) =~= old_tiles@);
            },
            None => {
                assert(leaving =~= Set::<Grid>::empty());
                assert(self@.tiles =~= vacate(before.tiles, entity, leaving));
            },
        }
        assert(self@.tiles == vacate(before.tiles, entity, leaving));
        let ghost mid = self@.tiles;
        let mut j: usize = 0;
        assert(now@.take(0).to_set() =~= Set::<Grid>::empty());
        assert(mid =~= occupy(mid, entity, Set::empty()));
        while j < now.len()
            invariant
                j <= now.len(),
                self@.tiles == occupy(mid, entity, now@.take(j as int).to_set()),
                self@.entities == before.entities,
                self@.provisional == before.provisional,
                self@.details == before.details,
                self@.pending == before.pending,
            decreases now.len() - j,
        {
            let tile = now[j];
            proof {
                take_one_more(now@, j as int);
            }
            enter_tile(&mut self.tiles, tile, entity);
            proof {
                occupy_more(mid, entity, now@.take(j as int).to_set(), tile);
            }
            j += 1;
        }
        assert(now@.take(now.len() as int) =~= now@);
        self.entities.assign(entity, now);
        proof {
            leave_then_enter(before, entity, wanted);
            settle_consistent(before, entity, wanted);
        }
    }

    /// Adds the tiles in `more`, which is not empty, to those of `entity`.
    fn grow(&mut self, entity: u64, more: &Vec<Grid>)
        requires
            old(self)@.consistent(),
            more@.len() > 0,
        ensures
            final(self)@ == old(self)@.extend(entity, more@.to_set()),
            final(self)@.consistent(),
    {
        let ghost before = self@;
        let mut i: usize = 0;
        while i < more.len()
            invariant
                i <= more.len(),
                self@.tiles == occupy(before.tiles, entity, more@.take(i as int).to_set()),
                i == 0 ==> self@.tiles == before.tiles && self@.entities == before.entities,
                i > 0 ==> self@.entities == before.entities.insert(
                    entity,
                    before.footprint(entity).union(more@.take(i as int).to_set()),
                ),
                self@.provisional == before.provisional,
                self@.details == before.details,
                self@.pending == before.pending,
            decreases more.len() - i,
        {
            let tile = more[i];
            let ghost seen = more@.take(i as int).to_set();
            proof {
                take_one_more(more@, i as int);
            }
            proof {
                if i == 0 {
                    assert(seen =~= Set::<Grid>::empty());
                    assert(before.tiles =~= occupy(before.tiles, entity, Set::empty()));
                }
            }
            enter_tile(&mut self.tiles, tile, entity);
            self.entities.add_tile(entity, tile);
            proof {
                occupy_more(before.tiles, entity, seen, tile);
                assert(before.footprint(entity).union(seen).insert(tile)
                    =~= before.footprint(entity).union(seen.insert(tile)));
                if i == 0 {
                    assert(before.footprint(entity).union(seen) =~= before.footprint(entity));
                }
                assert(self@.entities =~= before.entities.insert(
                    entity,
                    before.footprint(entity).union(seen.insert(tile)),
                ));
            }
            i += 1;
        }
        assert(more@.take(more.len() as int) =~= more@);
        proof {
            extend_consistent(before, entity, more@.to_set());
        }
    }

    /// Merges one tick's sightings into the memory, entity by entity. For
    /// each entity the tiles it was seen on are given. A static entity only
    /// gains tiles; any other entity moves to exactly the tiles it was seen
    /// on and, while its identity is not known, is tracked provisionally.
    pub fn report(&mut self, sightings: &Vec<(u64, Vec<Grid>)>)
        requires
            old(self)@.consistent(),
        ensures
            final(self)@ == old(self)@.sense_all(sightings@),
            final(self)@.consistent(),
    {
        let ghost before = self@;
        let mut i: usize = 0;
        assert(sightings@.take(0) =~= Seq::<(u64, Vec<Grid>)>::empty());
        while i < sightings.len()
            invariant
                i <= sightings.len(),
                self@ == before.sense_all(sightings@.take(i as int)),
                self@.consistent(),
            decreases sightings.len() - i,
        {
            let entity = sightings[i].0;
            let seen = &sightings[i].1;
            let ghost prior = self@;
            assert(sightings@.take(i + 1).drop_last() =~= sightings@.take(i as int));
            assert(sightings@.take(i + 1).last() == sightings@[i as int]);
            if self.is_static(&entity) {
                if seen.len() > 0 {
                    self.grow(entity, seen);
                }
            } else {
                self.move_to(entity, seen);
                if !self.known(&entity) {
                    self.temp.insert(entity);
                }
            }
            proof {
                assert(self@ == prior.sense(entity, seen@));
                if prior.is_static(entity) {
                    if seen@.len() > 0 {
                        extend_consistent(prior, entity, seen@.to_set());
                    }
                } else {
                    settle_consistent(prior, entity, seen@.to_set());
                    consistent_by_indexes(prior.settle(entity, seen@.to_set()), self@);
                }
            }
            i += 1;
        }
        assert(sightings@.take(sightings.len() as int) =~= sightings@);
    }

    /// Records the footprint of an entity whose identity has become known:
    /// the tile at its position and the tiles at the eight compass points
    /// around it. The entity then occupies exactly these tiles, between one
    /// and nine of them, the centre among them.
    pub fn full_report(&mut self, entity: u64, center: Grid, compass: [Grid; 8])
        requires
            old(self)@.consistent(),
        ensures
            final(self)@ == old(self)@.settle(entity, compass@.to_set().insert(center)),
            final(self)@.consistent(),
            final(self)@.covers(entity, center),
            final(self)@.footprint(entity).finite(),
            1 <= final(self)@.footprint(entity).len() <= 9,
    {
        let mut area: Vec<Grid> = Vec::new();
        area.push(center);
        let mut i: usize = 0;
        while i < 8
            invariant
                i <= 8,
                area@.len() == i + 1,
                area@[0] == center,
                forall|j: int| 0 <= j < i ==> area@[j + 1] == compass@[j],
            decreases 8 - i,
        {
            area.push(compass[i]);
            i += 1;
        }
        proof {
            assert forall|g: Grid| area@.to_set().contains(g) <==> compass@.to_set().insert(
                center,
            ).contains(g) by {
                if area@.to_set().contains(g) {
                    let j = choose|j: int| 0 <= j < area@.len() && area@[j] == g;
                    if j > 0 {
                        assert(compass@[j - 1] == g);
                    }
                }
                if compass@.to_set().contains(g) {
                    let j = choose|j: int| 0 <= j < compass@.len() && compass@[j] == g;
                    assert(area@[j + 1] == g);
                }
            }
            assert(area@.to_set() =~= compass@.to_set().insert(center));
            area@.lemma_cardinality_of_set();
            vstd::seq_lib::seq_to_set_is_finite(area@);
            assert(area@.to_set().contains(area@[0]));
            if area@.to_set().len() == 0 {
                area@.lemma_cardinality_of_empty_set_is_0();
            }
        }
        self.move_to(entity, &area);
    }

    /// Takes in the answer to an identification request: the entity is of
    /// kind `kind` and covers the tile `center` and the eight tiles of
    /// `compass`. The request is no longer pending, and a static entity is
    /// no longer provisional.
    pub fn obtains_info_about(
        &mut self,
        entity: u64,
        kind: EntityKind,
        center: Grid,
        compass: [Grid; 8],
    )
        requires
            old(self)@.consistent(),
        ensures
            final(self)@ == old(self)@.learn(entity, kind, compass@.to_set().insert(center)),
            final(self)@.consistent(),
            !final(self)@.pending.contains(entity),
            final(self)@.queried(entity),
            kind == EntityKind::Base ==> !final(self)@.provisional.contains(entity),
    {
        self.querying.remove(entity);
        self.details.insert(entity, kind);
        proof {
            consistent_by_indexes(old(self)@, self@);
        }
        self.full_report(entity, center, compass);
        proof {
            settle_consistent(old(self)@, entity, compass@.to_set().insert(center));
            consistent_by_indexes(
                old(self)@.settle(entity, compass@.to_set().insert(center)),
                old(self)@.learn(entity, kind, compass@.to_set().insert(center)),
            );
        }
        if kind == EntityKind::Base && self.temp.contains(entity) {
            self.temp.remove(entity);
        }
        assert(self@.provisional =~= old(self)@.learn(
            entity,
            kind,
            compass@.to_set().insert(center),
        ).provisional);
    }

    /// Marks an identification request for `entity` as under way.
    pub fn query_in_progress(&mut self, entity: u64)
        ensures
            final(self)@ == (Knowledge {
                pending: old(self)@.pending.insert(entity),
                ..old(self)@
            }),
            final(self)@.queried(entity),
    {
        self.querying.insert(entity);
    }

    /// Whether the entity has been identified or is being asked about.
    pub fn queried(&self, entity: &u64) -> (yes: bool)
        ensures
            yes == self@.queried(*entity),
    {
        self.details.get(*entity).is_some() || self.querying.contains(*entity)
    }

    /// Whether the entity is known to be a permanently immobile structure.
    pub fn is_static(&self, entity: &u64) -> (yes: bool)
        ensures
            yes == self@.is_static(*entity),
    {
        match self.details.get(*entity) {
            Some(kind) => kind == EntityKind::Base,
            None => false,
        }
    }

    /// Whether the entity has been identified as something other than
    /// `Unknown`.
    pub fn known(&self, entity: &u64) -> (yes: bool)
        ensures
            yes == self@.known(*entity),
    {
        match self.details.get(*entity) {
            Some(kind) => kind != EntityKind::Unknown,
            None => false,
        }
    }

    /// Whether any entity is tracked at all.
    pub fn has_seen(&self) -> (yes: bool)
        ensures
            yes <==> self@.entities.dom() != Set::<u64>::empty(),
    {
        !self.entities.is_empty()
    }

    /// Forgets where `entity` is: it is taken off every tile, and a bucket
    /// that this empties goes with its key.
    pub fn delete_entity(&mut self, entity: &u64)
        requires
            old(self)@.consistent(),
        ensures
            final(self)@ == old(self)@.forget(set![*entity]),
            final(self)@.consistent(),
    {
        let ghost before = self@;
        let e = *entity;
        let gone = self.entities.take(e);
        match gone {
            Some(tiles) => {
                let mut i: usize = 0;
                assert(tiles@.take(0).to_set() =~= Set::<Grid>::empty());
                assert(self@.tiles =~= vacate(before.tiles, e, Set::empty()));
                while i < tiles.len()
                    invariant
                        i <= tiles.len(),
                        self@.tiles == vacate(before.tiles, e, tiles@.take(i as int).to_set()),
                        self@.entities == before.entities.remove(e),
                        self@.provisional == before.provisional,
                        self@.details == before.details,
                        self@.pending == before.pending,
                    decreases tiles.len() - i,
                {
                    let tile = tiles[i];
                    proof {
                take_one_more(tiles@, i as int);
            }
                    leave_tile(&mut self.tiles, tile, e);
                    proof {
                        vacate_more(before.tiles, e, tiles@.take(i as int).to_set(), tile);
                    }
                    i += 1;
                }
                assert(tiles@.take(tiles.len() as int) =~= tiles@);
            },
            None => {
                assert(before.footprint(e) =~= Set::<Grid>::empty());
                assert(self@.tiles =~= vacate(before.tiles, e, before.footprint(e)));
            },
        }
        proof {
            vacate_own_tiles(before, e);
            forget_consistent(before, set![e]);
            assert(self@.entities =~= before.entities.remove_keys(set![e]));
        }
    }

    /// Forgets every provisional entity, and holds none provisionally after.
    pub fn clear_seen(&mut self)
        requires
            old(self)@.consistent(),
        ensures
            final(self)@ == (Knowledge {
                provisional: Set::empty(),
                ..old(self)@.forget(old(self)@.provisional)
            }),
            final(self)@.consistent(),
    {
        let ghost before = self@;
        let fleeting = self.temp.members();
        let mut i: usize = 0;
        proof {
            assert(fleeting@.take(0).to_set() =~= Set::<u64>::empty());
            forget_nobody(before);
        }
        while i < fleeting.len()
            invariant
                i <= fleeting.len(),
                self@ == before.forget(fleeting@.take(i as int).to_set()),
                self@.consistent(),
            decreases fleeting.len() - i,
        {
            let entity = fleeting[i];
            proof {
                take_one_more(fleeting@, i as int);
            }
            self.delete_entity(&entity);
            proof {
                forget_one_more(before, fleeting@.take(i as int).to_set(), entity);
            }
            i += 1;
        }
        assert(fleeting@.take(fleeting.len() as int) =~= fleeting@);
        let ghost emptied = self@;
        self.temp = EntitySet::new();
        proof {
            consistent_by_indexes(emptied, self@);
        }
    }

    /// The entities whose identity has been learnt, each once.
    pub fn details(&self) -> (ids: Vec<u64>)
        ensures
            ids@.no_duplicates(),
            ids@.to_set() == self@.details.dom(),
    {
        self.details.ids()
    }

    /// The tiles on which some entity is recorded, each once.
    pub fn get_occupied(&self) -> (tiles: Vec<Grid>)
        ensures
            tiles@.no_duplicates(),
            tiles@.to_set() == self@.tiles.dom(),
    {
        self.tiles.tiles()
    }

    /// The occupants recorded on a tile, each once; `None` for a free tile.
    pub fn tile(&self, grid: &Grid) -> (found: Option<Vec<u64>>)
        ensures
            found is Some <==> self@.tiles.contains_key(*grid),
            found is Some ==> found->0@.no_duplicates(),
            found is Some ==> found->0@.to_set() == self@.tiles[*grid],
    {
        self.tiles.occupants(*grid)
    }

    /// The entities tracked provisionally, each once.
    pub fn temp(&self) -> (ids: Vec<u64>)
        ensures
            ids@.no_duplicates(),
            ids@.to_set() == self@.provisional,
    {
        self.temp.members()
    }

    /// Whether some entity is recorded on `grid`.
    pub fn occupied(&self, grid: Grid) -> (yes: bool)
        ensures
            yes == self@.occupied(grid),
    {
        match self.tiles.bucket_is_empty(grid) {
            Some(empty) => !empty,
            None => false,
        }
    }
}

} // verus!
