//! The mathematical model of an agent's spatial memory, and the laws that
//! its updates obey.

use vstd::prelude::*;

use crate::grid::Grid;
use crate::kind::EntityKind;
use crate::tables::bucket_or_empty;

verus! {

/// Occupancy after entity `e` has left the tiles in `leaving`. A bucket
/// that this empties is removed with its key.
pub open spec fn vacate(tiles: Map<Grid, Set<u64>>, e: u64, leaving: Set<Grid>) -> Map<
    Grid,
    Set<u64>,
> {
    Map::new(
        |g: Grid|
            tiles.contains_key(g) && !(leaving.contains(g) && tiles[g].remove(e) == Set::<
                u64,
            >::empty()),
        |g: Grid|
            if leaving.contains(g) {
                tiles[g].remove(e)
            } else {
                tiles[g]
            },
    )
}

/// Occupancy after entity `e` has entered the tiles in `arriving`.
pub open spec fn occupy(tiles: Map<Grid, Set<u64>>, e: u64, arriving: Set<Grid>) -> Map<
    Grid,
    Set<u64>,
> {
    Map::new(
        |g: Grid| tiles.contains_key(g) || arriving.contains(g),
        |g: Grid|
            if arriving.contains(g) {
                bucket_or_empty(tiles, g).insert(e)
            } else {
                tiles[g]
            },
    )
}

/// Occupancy after entity `e` has moved to exactly the tiles in `now`: it
/// joins each of them and leaves every other bucket, and a bucket left
/// empty goes with its key.
pub open spec fn resettle(tiles: Map<Grid, Set<u64>>, e: u64, now: Set<Grid>) -> Map<
    Grid,
    Set<u64>,
> {
    Map::new(
        |g: Grid|
            now.contains(g) || (tiles.contains_key(g) && tiles[g].remove(e) != Set::<
                u64,
            >::empty()),
        |g: Grid|
            if now.contains(g) {
                bucket_or_empty(tiles, g).insert(e)
            } else {
                tiles[g].remove(e)
            },
    )
}

/// Occupancy after every entity in `gone` has been taken off every tile.
pub open spec fn evict(tiles: Map<Grid, Set<u64>>, gone: Set<u64>) -> Map<Grid, Set<u64>> {
    Map::new(
        |g: Grid| tiles.contains_key(g) && tiles[g].difference(gone) != Set::<u64>::empty(),
        |g: Grid| tiles[g].difference(gone),
    )
}

/// What an agent knows: which entities sit on which tiles, seen from both
/// sides, and what it has learnt or asked about each entity.
pub struct Knowledge {
    /// Occupants per tile.
    pub tiles: Map<Grid, Set<u64>>,
    /// Tiles per entity.
    pub entities: Map<u64, Set<Grid>>,
    /// Entities tracked only while they stay in view.
    pub provisional: Set<u64>,
    /// Identity learnt per entity.
    pub details: Map<u64, EntityKind>,
    /// Entities whose identification was requested and has not come back.
    pub pending: Set<u64>,
}

impl Knowledge {
    /// Entity `e` is recorded as an occupant of tile `g`.
    pub open spec fn sits(self, g: Grid, e: u64) -> bool {
        self.tiles.contains_key(g) && self.tiles[g].contains(e)
    }

    /// Tile `g` is recorded among the tiles of entity `e`.
    pub open spec fn covers(self, e: u64, g: Grid) -> bool {
        self.entities.contains_key(e) && self.entities[e].contains(g)
    }

    /// The two indexes agree, and no tile is kept with an empty bucket.
    pub open spec fn consistent(self) -> bool {
        &&& forall|g: Grid, e: u64|
            #![trigger self.sits(g, e)]
            #![trigger self.covers(e, g)]
            self.sits(g, e) <==> self.covers(e, g)
        &&& forall|g: Grid| #[trigger]
            self.tiles.contains_key(g) ==> self.tiles[g] != Set::<u64>::empty()
    }

    /// Nothing is known at all.
    pub open spec fn blank() -> Knowledge {
        Knowledge {
            tiles: Map::empty(),
            entities: Map::empty(),
            provisional: Set::empty(),
            details: Map::empty(),
            pending: Set::empty(),
        }
    }

    /// The tiles recorded for entity `e`; none where it is not tracked.
    pub open spec fn footprint(self, e: u64) -> Set<Grid> {
        bucket_or_empty(self.entities, e)
    }

    /// Some entity is recorded on tile `g`.
    pub open spec fn occupied(self, g: Grid) -> bool {
        self.tiles.contains_key(g) && self.tiles[g] != Set::<u64>::empty()
    }

    /// The tiles on which some entity is recorded.
    pub open spec fn occupied_tiles(self) -> Set<Grid> {
        Set::new(|g: Grid| self.occupied(g))
    }

    /// The entity is known to be a permanently immobile structure.
    pub open spec fn is_static(self, e: u64) -> bool {
        self.details.contains_key(e) && self.details[e] == EntityKind::Base
    }

    /// The entity has been identified as something other than `Unknown`.
    pub open spec fn known(self, e: u64) -> bool {
        self.details.contains_key(e) && self.details[e] != EntityKind::Unknown
    }

    /// The entity has been identified, or its identification is under way.
    pub open spec fn queried(self, e: u64) -> bool {
        self.details.contains_key(e) || self.pending.contains(e)
    }

    /// Entity `e` now occupies exactly the tiles in `now`.
    pub open spec fn settle(self, e: u64, now: Set<Grid>) -> Knowledge {
        Knowledge {
            tiles: resettle(self.tiles, e, now),
            entities: self.entities.insert(e, now),
            ..self
        }
    }

    /// Entity `e` occupies the tiles in `more` besides those it had.
    pub open spec fn extend(self, e: u64, more: Set<Grid>) -> Knowledge {
        Knowledge {
            tiles: occupy(self.tiles, e, more),
            entities: self.entities.insert(e, self.footprint(e).union(more)),
            ..self
        }
    }

    /// Every entity in `gone` is taken off the map of tiles.
    pub open spec fn forget(self, gone: Set<u64>) -> Knowledge {
        Knowledge {
            tiles: evict(self.tiles, gone),
            entities: self.entities.remove_keys(gone),
            ..self
        }
    }

    /// The effect of sensing entity `e` at the tiles `seen` this tick. A
    /// static entity only gains tiles. Any other entity moves to exactly the
    /// tiles seen and, unless its identity is known, is tracked provisionally.
    pub open spec fn sense(self, e: u64, seen: Seq<Grid>) -> Knowledge {
        if self.is_static(e) {
            if seen.len() == 0 {
                self
            } else {
                self.extend(e, seen.to_set())
            }
        } else {
            let moved = self.settle(e, seen.to_set());
            Knowledge {
                provisional: if self.known(e) {
                    moved.provisional
                } else {
                    moved.provisional.insert(e)
                },
                ..moved
            }
        }
    }

    /// The effect of a whole tick's sightings, taken in order.
    pub open spec fn sense_all(self, sightings: Seq<(u64, Vec<Grid>)>) -> Knowledge
        decreases sightings.len(),
    {
        if sightings.len() == 0 {
            self
        } else {
            let last = sightings.last();
            self.sense_all(sightings.drop_last()).sense(last.0, last.1@)
        }
    }

    /// The effect of learning that entity `e` is of kind `kind` and covers
    /// the tiles in `area`: the pending request is cleared, the identity is
    /// stored, the entity occupies exactly `area`, and a static entity is no
    /// longer provisional.
    pub open spec fn learn(self, e: u64, kind: EntityKind, area: Set<Grid>) -> Knowledge {
        let placed = self.settle(e, area);
        Knowledge {
            provisional: if kind == EntityKind::Base {
                self.provisional.remove(e)
            } else {
                self.provisional
            },
            details: self.details.insert(e, kind),
            pending: self.pending.remove(e),
            ..placed
        }
    }
}

} // verus!
