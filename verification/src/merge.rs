//! Laws of merging sightings: the order of two sightings of different
//! entities does not matter, and a repeated report changes nothing.

use vstd::prelude::*;

use crate::grid::Grid;
use crate::model::occupy;
use crate::model::resettle;
use crate::model::Knowledge;
use crate::tables::bucket_or_empty;

verus! {

proof fn sets_commute(s: Set<u64>, a: u64, b: u64)
    ensures
        s.remove(a).remove(b) == s.remove(b).remove(a),
        s.insert(a).insert(b) == s.insert(b).insert(a),
        a != b ==> s.insert(a).remove(b) == s.remove(b).insert(a),
        s.insert(a).insert(a) == s.insert(a),
        s.remove(a).remove(a) == s.remove(a),
        s.remove(a).insert(a) == s.insert(a),
        s.insert(a).remove(a) == s.remove(a),
{
    assert(s.remove(a).remove(b) =~= s.remove(b).remove(a));
    assert(s.insert(a).insert(b) =~= s.insert(b).insert(a));
    if a != b {
        assert(s.insert(a).remove(b) =~= s.remove(b).insert(a));
    }
    assert(s.insert(a).insert(a) =~= s.insert(a));
    assert(s.remove(a).remove(a) =~= s.remove(a));
    assert(s.remove(a).insert(a) =~= s.insert(a));
    assert(s.insert(a).remove(a) =~= s.remove(a));
}

proof fn emptied(s: Set<u64>, a: u64, b: u64)
    ensures
        s.insert(a) != Set::<u64>::empty(),
        s.remove(a) == Set::<u64>::empty() && s.remove(b) == Set::<u64>::empty() && a != b ==> s
            == Set::<u64>::empty(),
        s == Set::<u64>::empty() ==> s.remove(a) == Set::<u64>::empty(),
        s.remove(a) == Set::<u64>::empty() ==> s.remove(a).remove(b) == Set::<u64>::empty(),
        a != b ==> s.insert(a).remove(b) != Set::<u64>::empty(),
{
    assert(s.insert(a).contains(a));
    if s.remove(a) == Set::<u64>::empty() && s.remove(b) == Set::<u64>::empty() && a != b {
        assert forall|x: u64| !s.contains(x) by {
            if s.contains(x) {
                if x != a {
                    assert(s.remove(a).contains(x));
                } else {
                    assert(s.remove(b).contains(x));
                }
            }
        }
        assert(s =~= Set::<u64>::empty());
    }
    if s == Set::<u64>::empty() {
        assert(s.remove(a) =~= Set::<u64>::empty());
    }
    if s.remove(a) == Set::<u64>::empty() {
        assert(s.remove(a).remove(b) =~= Set::<u64>::empty());
    }
    if a != b {
        assert(s.insert(a).remove(b).contains(a));
    }
}

/// Moving two different entities comes to the same in either order.
pub proof fn resettle_commutes(
    tiles: Map<Grid, Set<u64>>,
    a: u64,
    here: Set<Grid>,
    b: u64,
    there: Set<Grid>,
)
    requires
        a != b,
    ensures
        resettle(resettle(tiles, a, here), b, there) == resettle(resettle(tiles, b, there), a, here),
{
    let ab = resettle(resettle(tiles, a, here), b, there);
    let ba = resettle(resettle(tiles, b, there), a, here);
    assert forall|g: Grid| ab.contains_key(g) <==> ba.contains_key(g) by {
        let s = bucket_or_empty(tiles, g);
        sets_commute(s, a, b);
        sets_commute(s, b, a);
        emptied(s, a, b);
        emptied(s, b, a);
        emptied(s.remove(a), b, a);
        emptied(s.remove(b), a, b);
        emptied(Set::<u64>::empty(), a, b);
        emptied(Set::<u64>::empty(), b, a);
    }
    assert forall|g: Grid| ab.contains_key(g) implies ab[g] == ba[g] by {
        let s = bucket_or_empty(tiles, g);
        sets_commute(s, a, b);
        sets_commute(s, b, a);
        emptied(s, a, b);
        emptied(s, b, a);
        emptied(s.remove(a), b, a);
        emptied(s.remove(b), a, b);
        sets_commute(Set::<u64>::empty(), a, b);
        sets_commute(Set::<u64>::empty(), b, a);
        emptied(Set::<u64>::empty(), a, b);
        emptied(Set::<u64>::empty(), b, a);
    }
    assert(ab =~= ba);
}

/// Entering tiles comes to the same in either order, for any two entities.
pub proof fn occupy_commutes(
    tiles: Map<Grid, Set<u64>>,
    a: u64,
    here: Set<Grid>,
    b: u64,
    there: Set<Grid>,
)
    ensures
        occupy(occupy(tiles, a, here), b, there) == occupy(occupy(tiles, b, there), a, here),
{
    let ab = occupy(occupy(tiles, a, here), b, there);
    let ba = occupy(occupy(tiles, b, there), a, here);
    assert forall|g: Grid| ab.contains_key(g) implies ab[g] == ba[g] by {
        sets_commute(bucket_or_empty(tiles, g), a, b);
    }
    assert(ab =~= ba);
}

/// Moving one entity and letting another enter tiles comes to the same in
/// either order.
pub proof fn resettle_occupy_commute(
    tiles: Map<Grid, Set<u64>>,
    a: u64,
    here: Set<Grid>,
    b: u64,
    there: Set<Grid>,
)
    requires
        a != b,
    ensures
        occupy(resettle(tiles, a, here), b, there) == resettle(occupy(tiles, b, there), a, here),
{
    let ab = occupy(resettle(tiles, a, here), b, there);
    let ba = resettle(occupy(tiles, b, there), a, here);
    assert forall|g: Grid| ab.contains_key(g) <==> ba.contains_key(g) by {
        let s = bucket_or_empty(tiles, g);
        sets_commute(s, b, a);
        emptied(s, b, a);
        emptied(s, a, b);
        emptied(s.remove(a), b, a);
        emptied(Set::<u64>::empty(), b, a);
    }
    assert forall|g: Grid| ab.contains_key(g) implies ab[g] == ba[g] by {
        let s = bucket_or_empty(tiles, g);
        sets_commute(s, b, a);
        sets_commute(s, a, b);
        emptied(s, b, a);
        emptied(s, a, b);
        sets_commute(Set::<u64>::empty(), b, a);
        sets_commute(Set::<u64>::empty(), a, b);
        emptied(Set::<u64>::empty(), b, a);
    }
    assert(ab =~= ba);
}

/// Moving an entity twice comes to moving it the second time only.
pub proof fn resettle_last_wins(tiles: Map<Grid, Set<u64>>, e: u64, first: Set<Grid>, last: Set<Grid>)
    ensures
        resettle(resettle(tiles, e, first), e, last) == resettle(tiles, e, last),
{
    let twice = resettle(resettle(tiles, e, first), e, last);
    let once = resettle(tiles, e, last);
    assert forall|g: Grid| twice.contains_key(g) <==> once.contains_key(g) by {
        let s = bucket_or_empty(tiles, g);
        sets_commute(s, e, e);
        emptied(s, e, e);
        sets_commute(Set::<u64>::empty(), e, e);
        emptied(Set::<u64>::empty(), e, e);
    }
    assert forall|g: Grid| twice.contains_key(g) implies twice[g] == once[g] by {
        let s = bucket_or_empty(tiles, g);
        sets_commute(s, e, e);
        emptied(s, e, e);
        sets_commute(Set::<u64>::empty(), e, e);
        emptied(Set::<u64>::empty(), e, e);
    }
    assert(twice =~= once);
}

/// Sighting an entity that is not static twice comes to the second
/// sighting only.
pub proof fn sense_last_wins(k: Knowledge, e: u64, first: Seq<Grid>, last: Seq<Grid>)
    requires
        !k.is_static(e),
    ensures
        k.sense(e, first).sense(e, last) == k.sense(e, last),
{
    resettle_last_wins(k.tiles, e, first.to_set(), last.to_set());
    let twice = k.sense(e, first).sense(e, last);
    let once = k.sense(e, last);
    assert(twice.entities =~= once.entities);
    assert(twice.provisional =~= once.provisional);
}

/// Sighting a static entity twice at the same tiles comes to sighting it once.
pub proof fn sense_static_again(k: Knowledge, e: u64, seen: Seq<Grid>)
    requires
        k.is_static(e),
    ensures
        k.sense(e, seen).sense(e, seen) == k.sense(e, seen),
{
    if seen.len() > 0 {
        let more = seen.to_set();
        let once = k.extend(e, more);
        let twice = once.extend(e, more);
        assert forall|g: Grid| twice.tiles.contains_key(g) implies twice.tiles[g]
            == once.tiles[g] by {
            sets_commute(bucket_or_empty(k.tiles, g), e, e);
        }
        assert(twice.tiles =~= once.tiles);
        assert(once.footprint(e).union(more) =~= k.footprint(e).union(more));
        assert(twice.entities =~= once.entities);
    }
}

/// Two sightings of different entities, or of one static entity, come to
/// the same in either order.
pub proof fn sense_commutes(k: Knowledge, a: u64, here: Seq<Grid>, b: u64, there: Seq<Grid>)
    requires
        a != b || k.is_static(a),
    ensures
        k.sense(a, here).sense(b, there) == k.sense(b, there).sense(a, here),
{
    let ab = k.sense(a, here).sense(b, there);
    let ba = k.sense(b, there).sense(a, here);
    let x = here.to_set();
    let y = there.to_set();
    if a == b {
        if here.len() > 0 && there.len() > 0 {
            occupy_commutes(k.tiles, a, x, b, y);
            assert(k.footprint(a).union(x).union(y) =~= k.footprint(a).union(y).union(x));
            assert(ab.entities =~= ba.entities);
        }
    } else {
        if k.is_static(a) && k.is_static(b) {
            occupy_commutes(k.tiles, a, x, b, y);
        } else if k.is_static(a) {
            resettle_occupy_commute(k.tiles, b, y, a, x);
        } else if k.is_static(b) {
            resettle_occupy_commute(k.tiles, a, x, b, y);
        } else {
            resettle_commutes(k.tiles, a, x, b, y);
        }
        assert(ab.tiles == ba.tiles);
        assert(ab.entities =~= ba.entities);
        assert(ab.provisional =~= ba.provisional);
    }
}

/// A sighting that was merged before a run of sightings adds nothing when
/// it is merged again after the run.
pub proof fn sense_again_after(k: Knowledge, e: u64, seen: Seq<Grid>, run: Seq<(u64, Vec<Grid>)>)
    ensures
        k.sense(e, seen).sense_all(run).sense(e, seen) == k.sense_all(run).sense(e, seen),
    decreases run.len(),
{
    if run.len() == 0 {
        if k.is_static(e) {
            sense_static_again(k, e, seen);
        } else {
            sense_last_wins(k, e, seen, seen);
        }
    } else {
        let init = run.drop_last();
        let other = run.last().0;
        let there = run.last().1@;
        let with = k.sense(e, seen).sense_all(init);
        let without = k.sense_all(init);
        sense_again_after(k, e, seen, init);
        details_stay(k.sense(e, seen), init);
        details_stay(k, init);
        if other != e || with.is_static(e) {
            sense_commutes(with, other, there, e, seen);
            sense_commutes(without, other, there, e, seen);
        } else {
            sense_last_wins(with, e, there, seen);
            sense_last_wins(without, e, there, seen);
        }
    }
}

/// Merging sightings changes no identity.
pub proof fn details_stay(k: Knowledge, run: Seq<(u64, Vec<Grid>)>)
    ensures
        k.sense_all(run).details == k.details,
    decreases run.len(),
{
    if run.len() > 0 {
        details_stay(k, run.drop_last());
    }
}

/// Reporting the same sightings a second time leaves the memory as the
/// first report left it.
pub proof fn report_twice_is_report_once(k: Knowledge, sightings: Seq<(u64, Vec<Grid>)>)
    ensures
        k.sense_all(sightings).sense_all(sightings) == k.sense_all(sightings),
    decreases sightings.len(),
{
    if sightings.len() > 0 {
        let init = sightings.drop_last();
        let e = sightings.last().0;
        let seen = sightings.last().1@;
        report_twice_is_report_once(k, init);
        sense_again_after(k.sense_all(init), e, seen, init);
    }
}

} // verus!
