//! Laws of the memory model: every update keeps the two indexes in step.

use vstd::prelude::*;

use crate::grid::Grid;
use crate::model::evict;
use crate::model::occupy;
use crate::model::resettle;
use crate::model::vacate;
use crate::model::Knowledge;

verus! {

/// Leaving the tiles that are not wanted and then entering the wanted ones
/// moves an entity to exactly the wanted tiles.
pub proof fn leave_then_enter(k: Knowledge, e: u64, now: Set<Grid>)
    requires
        k.consistent(),
    ensures
        occupy(vacate(k.tiles, e, k.footprint(e).difference(now)), e, now) == resettle(
            k.tiles,
            e,
            now,
        ),
{
    let left = vacate(k.tiles, e, k.footprint(e).difference(now));
    let got = occupy(left, e, now);
    let want = resettle(k.tiles, e, now);
    assert forall|g: Grid| got.contains_key(g) <==> want.contains_key(g) by {
        if k.tiles.contains_key(g) && !now.contains(g) {
            if !k.footprint(e).contains(g) {
                assert(!k.covers(e, g));
                assert(!k.sits(g, e));
                assert(k.tiles[g].remove(e) =~= k.tiles[g]);
            }
        }
    }
    assert forall|g: Grid| got.contains_key(g) implies got[g] == want[g] by {
        if !now.contains(g) {
            if !k.footprint(e).contains(g) {
                assert(!k.covers(e, g));
                assert(!k.sits(g, e));
                assert(k.tiles[g].remove(e) =~= k.tiles[g]);
            }
        } else {
            if k.tiles.contains_key(g) && k.footprint(e).contains(g) {
                assert(left[g] == k.tiles[g]);
            }
        }
    }
    assert(got =~= want);
}

/// Moving an entity to a new set of tiles keeps the indexes in step.
pub proof fn settle_consistent(k: Knowledge, e: u64, now: Set<Grid>)
    requires
        k.consistent(),
    ensures
        k.settle(e, now).consistent(),
{
    let after = k.settle(e, now);
    assert forall|g: Grid, other: u64|
        #![trigger after.sits(g, other)]
        #![trigger after.covers(other, g)]
        after.sits(g, other) <==> after.covers(other, g) by {
        if other != e {
            assert(k.sits(g, other) <==> k.covers(other, g));
            if k.sits(g, other) {
                assert(k.tiles[g].remove(e).contains(other));
            }
        }
    }
    assert forall|g: Grid| #[trigger] after.tiles.contains_key(g) implies after.tiles[g]
        != Set::<u64>::empty() by {
        if now.contains(g) {
            assert(after.tiles[g].contains(e));
        }
    }
}

/// Adding tiles to an entity keeps the indexes in step.
pub proof fn extend_consistent(k: Knowledge, e: u64, more: Set<Grid>)
    requires
        k.consistent(),
    ensures
        k.extend(e, more).consistent(),
{
    let after = k.extend(e, more);
    assert forall|g: Grid, other: u64|
        #![trigger after.sits(g, other)]
        #![trigger after.covers(other, g)]
        after.sits(g, other) <==> after.covers(other, g) by {
        assert(k.sits(g, other) <==> k.covers(other, g));
    }
    assert forall|g: Grid| #[trigger] after.tiles.contains_key(g) implies after.tiles[g]
        != Set::<u64>::empty() by {
        if more.contains(g) {
            assert(after.tiles[g].contains(e));
        }
    }
}

/// Forgetting entities keeps the indexes in step.
pub proof fn forget_consistent(k: Knowledge, gone: Set<u64>)
    requires
        k.consistent(),
    ensures
        k.forget(gone).consistent(),
{
    let after = k.forget(gone);
    assert forall|g: Grid, other: u64|
        #![trigger after.sits(g, other)]
        #![trigger after.covers(other, g)]
        after.sits(g, other) <==> after.covers(other, g) by {
        assert(k.sits(g, other) <==> k.covers(other, g));
        if k.sits(g, other) && !gone.contains(other) {
            assert(k.tiles[g].difference(gone).contains(other));
        }
    }
}

/// Taking one entity off each of its own tiles forgets exactly that entity.
pub proof fn vacate_own_tiles(k: Knowledge, e: u64)
    requires
        k.consistent(),
    ensures
        vacate(k.tiles, e, k.footprint(e)) == evict(k.tiles, set![e]),
{
    let got = vacate(k.tiles, e, k.footprint(e));
    let want = evict(k.tiles, set![e]);
    assert forall|g: Grid| #[trigger] k.tiles.contains_key(g) implies k.tiles[g].difference(
        set![e],
    ) == k.tiles[g].remove(e) && (!k.footprint(e).contains(g) ==> k.tiles[g].remove(e)
        == k.tiles[g]) by {
        assert(k.tiles[g].difference(set![e]) =~= k.tiles[g].remove(e));
        if !k.footprint(e).contains(g) {
            assert(!k.covers(e, g));
            assert(!k.sits(g, e));
            assert(k.tiles[g].remove(e) =~= k.tiles[g]);
        }
    }
    assert(got =~= want);
}

/// Forgetting one more entity is forgetting the larger set at once.
pub proof fn forget_one_more(k: Knowledge, gone: Set<u64>, e: u64)
    ensures
        k.forget(gone).forget(set![e]) == k.forget(gone.insert(e)),
{
    let step = k.forget(gone).forget(set![e]);
    let once = k.forget(gone.insert(e));
    assert forall|g: Grid| #[trigger] k.tiles.contains_key(g) implies k.tiles[g].difference(
        gone,
    ).difference(set![e]) == k.tiles[g].difference(gone.insert(e)) by {
        assert(k.tiles[g].difference(gone).difference(set![e]) =~= k.tiles[g].difference(
            gone.insert(e),
        ));
    }
    assert forall|g: Grid| step.tiles.contains_key(g) <==> once.tiles.contains_key(g) by {
        if k.tiles.contains_key(g) && k.tiles[g].difference(gone) == Set::<u64>::empty() {
            assert(k.tiles[g].difference(gone.insert(e)) =~= Set::<u64>::empty());
        }
    }
    assert(step.tiles =~= once.tiles);
    assert(step.entities =~= once.entities);
}

/// Whether the indexes agree depends on the two indexes alone.
pub proof fn consistent_by_indexes(a: Knowledge, b: Knowledge)
    requires
        a.consistent(),
        b.tiles == a.tiles,
        b.entities == a.entities,
    ensures
        b.consistent(),
{
    assert forall|g: Grid, e: u64|
        #![trigger b.sits(g, e)]
        #![trigger b.covers(e, g)]
        b.sits(g, e) <==> b.covers(e, g) by {
        assert(a.sits(g, e) <==> a.covers(e, g));
    }
}

/// A prefix one longer holds one more element.
pub proof fn take_one_more<T>(s: Seq<T>, i: int)
    requires
        0 <= i < s.len(),
    ensures
        s.take(i + 1) == s.take(i).push(s[i]),
        s.take(i + 1).to_set() == s.take(i).to_set().insert(s[i]),
{
    assert(s.take(i + 1) =~= s.take(i).push(s[i]));
    s.take(i).lemma_push_to_set_commute(s[i]);
}

/// Forgetting nobody changes nothing.
pub proof fn forget_nobody(k: Knowledge)
    requires
        k.consistent(),
    ensures
        k.forget(Set::empty()) == k,
{
    let after = k.forget(Set::empty());
    assert forall|g: Grid| #[trigger] k.tiles.contains_key(g) implies k.tiles[g].difference(
        Set::empty(),
    ) == k.tiles[g] by {
        assert(k.tiles[g].difference(Set::empty()) =~= k.tiles[g]);
    }
    assert(after.tiles =~= k.tiles);
    assert(after.entities =~= k.entities);
}

/// Sensing one entity keeps the indexes in step.
pub proof fn sense_consistent(k: Knowledge, e: u64, seen: Seq<Grid>)
    requires
        k.consistent(),
    ensures
        k.sense(e, seen).consistent(),
{
    if k.is_static(e) {
        if seen.len() > 0 {
            extend_consistent(k, e, seen.to_set());
        }
    } else {
        settle_consistent(k, e, seen.to_set());
        consistent_by_indexes(k.settle(e, seen.to_set()), k.sense(e, seen));
    }
}

/// Merging a tick's sightings keeps the indexes in step.
pub proof fn sense_all_consistent(k: Knowledge, sightings: Seq<(u64, Vec<Grid>)>)
    requires
        k.consistent(),
    ensures
        k.sense_all(sightings).consistent(),
    decreases sightings.len(),
{
    if sightings.len() > 0 {
        sense_all_consistent(k, sightings.drop_last());
        sense_consistent(
            k.sense_all(sightings.drop_last()),
            sightings.last().0,
            sightings.last().1@,
        );
    }
}

/// One change to what is known of the tiles.
pub enum Update {
    /// A tick's sightings are merged.
    Report(Seq<(u64, Vec<Grid>)>),
    /// An identified entity is given its footprint.
    FullReport(u64, Set<Grid>),
    /// An entity is forgotten.
    Delete(u64),
}

/// The memory after one change.
pub open spec fn apply(k: Knowledge, update: Update) -> Knowledge {
    match update {
        Update::Report(sightings) => k.sense_all(sightings),
        Update::FullReport(e, area) => k.settle(e, area),
        Update::Delete(e) => k.forget(set![e]),
    }
}

/// The memory after a run of changes, taken in order.
pub open spec fn apply_all(k: Knowledge, updates: Seq<Update>) -> Knowledge
    decreases updates.len(),
{
    if updates.len() == 0 {
        k
    } else {
        apply(apply_all(k, updates.drop_last()), updates.last())
    }
}

/// An empty memory has its indexes in step.
pub proof fn blank_consistent()
    ensures
        Knowledge::blank().consistent(),
{
}

/// Whatever run of reports, full reports and deletions a memory goes
/// through, an entity is recorded on a tile exactly when the tile is
/// recorded for the entity, and no tile is kept with an empty bucket.
pub proof fn updates_keep_indexes_in_step(k: Knowledge, updates: Seq<Update>)
    requires
        k.consistent(),
    ensures
        apply_all(k, updates).consistent(),
    decreases updates.len(),
{
    if updates.len() > 0 {
        updates_keep_indexes_in_step(k, updates.drop_last());
        let prior = apply_all(k, updates.drop_last());
        match updates.last() {
            Update::Report(sightings) => sense_all_consistent(prior, sightings),
            Update::FullReport(e, area) => settle_consistent(prior, e, area),
            Update::Delete(e) => forget_consistent(prior, set![e]),
        }
    }
}

/// Sensing never takes a tile from an entity known to be static, and the
/// entity stays static.
pub proof fn static_keeps_tiles_step(k: Knowledge, e: u64, other: u64, seen: Seq<Grid>)
    requires
        k.is_static(e),
    ensures
        k.sense(other, seen).is_static(e),
        k.footprint(e).subset_of(k.sense(other, seen).footprint(e)),
{
}

/// Once an entity is known to be static, no report removes a tile from
/// those recorded for it.
pub proof fn static_keeps_tiles(k: Knowledge, e: u64, sightings: Seq<(u64, Vec<Grid>)>)
    requires
        k.is_static(e),
    ensures
        k.sense_all(sightings).is_static(e),
        k.footprint(e).subset_of(k.sense_all(sightings).footprint(e)),
    decreases sightings.len(),
{
    if sightings.len() > 0 {
        static_keeps_tiles(k, e, sightings.drop_last());
        static_keeps_tiles_step(
            k.sense_all(sightings.drop_last()),
            e,
            sightings.last().0,
            sightings.last().1@,
        );
    }
}

} // verus!
