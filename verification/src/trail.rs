//! What stays true of a route search from round to round, and why a
//! search cannot go on for ever.

use vstd::prelude::*;

use crate::frontier::is_least;
use crate::frontier::least;
use crate::frontier::least_is_unique;
use crate::grid::gap;
use crate::grid::Grid;
use crate::score::AStar;
use crate::search::select;
use crate::search::Quest;
use crate::search::Search;

verus! {

/// The search between `start` and `target` stays clear of the edge of the
/// coordinate range: the start and every tile within the search radius of
/// the target have a neighbour on each side.
pub open spec fn searchable(start: Grid, target: Grid) -> bool {
    let reach = (2 * start.spacing(target)) / 10;
    &&& start.interior()
    &&& i32::MIN < target.x - reach
    &&& target.x + reach < i32::MAX
    &&& i32::MIN < target.y - reach
    &&& target.y + reach < i32::MAX
}

/// In a searchable quest every tile in reach has all eight neighbours.
pub proof fn reach_is_interior(q: Quest, g: Grid)
    requires
        searchable(q.start, q.target),
        q.radius == 2 * q.start.spacing(q.target),
        q.in_reach(g),
    ensures
        g.interior(),
{
    let reach = q.radius / 10;
    assert(10 * gap(g.x as int, q.target.x as int) <= q.radius);
    assert(10 * gap(g.y as int, q.target.y as int) <= q.radius);
}

/// The tile was the start or has been selected.
pub open spec fn settled(q: Quest, s: Search, g: Grid) -> bool {
    g == q.start || s.visited.contains(g)
}

/// What holds of a search between rounds. `stamp` gives each settled tile
/// the round in which it was first selected, the start round zero, and
/// `clock` counts the rounds so far. Every link leads from a free tile in
/// reach to a settled neighbour, and the link of a selected tile leads to a
/// tile that was settled earlier.
pub open spec fn sound(q: Quest, s: Search, stamp: Map<Grid, int>, clock: int) -> bool {
    &&& 0 <= clock
    &&& stamp.contains_key(q.start)
    &&& stamp[q.start] == 0
    &&& settled(q, s, s.current)
    &&& forall|g: Grid| #[trigger]
        s.visited.contains(g) ==> stamp.contains_key(g) && 0 <= stamp[g] <= clock
    &&& forall|g: Grid| #[trigger]
        s.visited.contains(g) && g != q.start ==> s.trail.contains_key(g) && stamp[s.trail[g].0]
            < stamp[g]
    &&& forall|g: Grid| #[trigger]
        s.trail.contains_key(g) ==> settled(q, s, s.trail[g].0) && s.trail[g].0.touches(g)
            && !q.occupied.contains(g) && q.in_reach(g)
    &&& forall|k: AStar| #[trigger]
        s.frontier.contains_key(k) ==> s.trail.contains_key(s.frontier[k])
}

/// The search is sound before its first round.
pub proof fn begin_sound(q: Quest)
    ensures
        sound(q, q.begin(), map![q.start => 0int], 0),
{
}

/// Looking at a neighbour of the current tile keeps the search sound.
pub proof fn consider_sound(q: Quest, s: Search, stamp: Map<Grid, int>, clock: int, n: Grid)
    requires
        sound(q, s, stamp, clock),
        s.current.touches(n),
    ensures
        sound(q, q.consider(s, n), stamp, clock),
{
    let after = q.consider(s, n);
    assert forall|g: Grid| #[trigger] after.trail.contains_key(g) implies settled(
        q,
        after,
        after.trail[g].0,
    ) && after.trail[g].0.touches(g) && !q.occupied.contains(g) && q.in_reach(g) by {
        if g != n {
            assert(s.trail.contains_key(g));
        } else if s.trail.contains_key(g) {
        }
    }
    assert forall|g: Grid| #[trigger] after.visited.contains(g) && g != q.start implies 
        after.trail.contains_key(g) && stamp[after.trail[g].0] < stamp[g] by {
        assert(s.visited.contains(g));
    }
    assert forall|k: AStar| #[trigger] after.frontier.contains_key(k) implies 
        after.trail.contains_key(after.frontier[k]) by {
        if s.frontier.contains_key(k) {
            assert(s.trail.contains_key(s.frontier[k]));
        }
    }
}

/// The stamps after the tile `chosen` has been selected in round `clock + 1`.
pub open spec fn restamp(q: Quest, s: Search, stamp: Map<Grid, int>, clock: int, chosen: Grid) -> Map<
    Grid,
    int,
> {
    if settled(q, s, chosen) {
        stamp
    } else {
        stamp.insert(chosen, clock + 1)
    }
}

/// Selecting the least open tile keeps the search sound.
pub proof fn select_sound(q: Quest, s: Search, stamp: Map<Grid, int>, clock: int)
    requires
        sound(q, s, stamp, clock),
        exists|k: AStar| is_least(s.frontier, k),
    ensures
        sound(
            q,
            select(s),
            restamp(q, s, stamp, clock, s.frontier[least(s.frontier)]),
            clock + 1,
        ),
{
    let key = least(s.frontier);
    let chosen = s.frontier[key];
    let after = select(s);
    let stamped = restamp(q, s, stamp, clock, chosen);
    assert(s.frontier.contains_key(key));
    assert(s.trail.contains_key(chosen));
    let parent = s.trail[chosen].0;
    assert(settled(q, s, parent));
    assert(stamp.contains_key(parent) && stamp[parent] <= clock) by {
        if parent != q.start {
            assert(s.visited.contains(parent));
        }
    }
    assert forall|g: Grid| #[trigger] after.visited.contains(g) implies stamped.contains_key(g) && 0
        <= stamped[g] <= clock + 1 by {
        if g != chosen {
            assert(s.visited.contains(g));
        } else if s.visited.contains(g) {
        }
    }
    assert forall|g: Grid| #[trigger] after.visited.contains(g) && g != q.start implies 
        after.trail.contains_key(g) && stamped[after.trail[g].0] < stamped[g] by {
        if s.visited.contains(g) {
            let p = s.trail[g].0;
            assert(settled(q, s, p));
        } else {
            assert(g == chosen);
        }
    }
    assert forall|g: Grid| #[trigger] after.trail.contains_key(g) implies settled(
        q,
        after,
        after.trail[g].0,
    ) && after.trail[g].0.touches(g) && !q.occupied.contains(g) && q.in_reach(g) by {
        assert(s.trail.contains_key(g));
    }
    assert forall|k: AStar| #[trigger] after.frontier.contains_key(k) implies 
        after.trail.contains_key(after.frontier[k]) by {
        assert(s.frontier.contains_key(k));
    }
}

/// The number that stands for the right to open tile `m` under the score of
/// a step of cost `cost`. Tiles in reach of the goal get different numbers.
pub open spec fn slot(q: Quest, m: Grid, cost: int) -> int {
    let reach = q.radius / 10;
    let side = 2 * reach + 1;
    let column = m.x - (q.target.x - reach);
    let row = m.y - (q.target.y - reach);
    (column * side + row) * 2 + if cost == 14 {
        1int
    } else {
        0int
    }
}

/// The number of slots of a quest.
pub open spec fn slot_count(q: Quest) -> int {
    let side = 2 * (q.radius / 10) + 1;
    side * side * 2
}

/// The slots of tiles in reach are below the slot count.
pub proof fn slot_in_range(q: Quest, m: Grid, cost: int)
    requires
        q.radius >= 0,
        q.in_reach(m),
    ensures
        0 <= slot(q, m, cost) < slot_count(q),
{
    let reach = q.radius / 10;
    let side = 2 * reach + 1;
    let column = m.x - (q.target.x - reach);
    let row = m.y - (q.target.y - reach);
    assert(10 * gap(m.x as int, q.target.x as int) <= q.radius);
    assert(10 * gap(m.y as int, q.target.y as int) <= q.radius);
    assert(0 <= column < side && 0 <= row < side);
    assert(0 <= column * side + row < side * side) by (nonlinear_arith)
        requires
            0 <= column < side,
            0 <= row < side,
    ;
}

/// Different rights have different slots.
pub proof fn slot_injective(q: Quest, m: Grid, cost: int, n: Grid, other: int)
    requires
        q.radius >= 0,
        q.in_reach(m),
        q.in_reach(n),
        cost == 10 || cost == 14,
        other == 10 || other == 14,
        slot(q, m, cost) == slot(q, n, other),
    ensures
        m == n,
        cost == other,
{
    let reach = q.radius / 10;
    let side = 2 * reach + 1;
    let c1 = m.x - (q.target.x - reach);
    let r1 = m.y - (q.target.y - reach);
    let c2 = n.x - (q.target.x - reach);
    let r2 = n.y - (q.target.y - reach);
    assert(10 * gap(m.x as int, q.target.x as int) <= q.radius);
    assert(10 * gap(m.y as int, q.target.y as int) <= q.radius);
    assert(10 * gap(n.x as int, q.target.x as int) <= q.radius);
    assert(10 * gap(n.y as int, q.target.y as int) <= q.radius);
    assert(0 <= r1 < side && 0 <= r2 < side);
    assert(cost == other);
    assert(c1 * side + r1 == c2 * side + r2);
    assert(c1 == c2) by (nonlinear_arith)
        requires
            c1 * side + r1 == c2 * side + r2,
            0 <= r1 < side,
            0 <= r2 < side,
    ;
}

/// The score under which tile `m` is opened after a step of cost `cost`.
pub open spec fn key_of(q: Quest, m: Grid, cost: int) -> AStar {
    AStar::of(cost, m.spacing(q.target))
}

/// Tile `m` is open under the score of a step of cost `cost`.
pub open spec fn open_as(s: Search, q: Quest, m: Grid, cost: int) -> bool {
    s.frontier.contains_key(key_of(q, m, cost)) && s.frontier[key_of(q, m, cost)] == m
}

/// `slots` holds the slot of every right that may still be used: that of
/// each tile in reach that has not been selected, for each step cost under
/// which it is not open now.
pub open spec fn budgeted(q: Quest, s: Search, slots: Set<int>) -> bool {
    &&& slots.finite()
    &&& forall|m: Grid, cost: int|
        #![trigger slot(q, m, cost)]
        (cost == 10 || cost == 14) && q.in_reach(m) && !s.visited.contains(m) && !open_as(
            s,
            q,
            m,
            cost,
        ) ==> slots.contains(slot(q, m, cost))
}

/// Whether looking at neighbour `n` opens it.
pub open spec fn opens(q: Quest, s: Search, n: Grid) -> bool {
    &&& q.in_reach(n)
    &&& !s.visited.contains(n)
    &&& !q.occupied.contains(n)
    &&& !s.frontier.contains_key(AStar::rate(0, s.current, q.target, n))
}

/// The slots left after neighbour `n` has been looked at.
pub open spec fn spend(q: Quest, s: Search, n: Grid, slots: Set<int>) -> Set<int> {
    if opens(q, s, n) {
        slots.remove(slot(q, n, n.spacing(s.current)))
    } else {
        slots
    }
}

/// Before the first round every slot is there.
pub proof fn begin_budgeted(q: Quest)
    requires
        q.radius >= 0,
    ensures
        budgeted(q, q.begin(), vstd::set_lib::set_int_range(0, slot_count(q))),
        slot_count(q) >= 0,
{
    vstd::set_lib::lemma_int_range(0, slot_count(q));
    assert forall|m: Grid, cost: int| (cost == 10 || cost == 14) && q.in_reach(m) implies 0
        <= #[trigger] slot(q, m, cost) < slot_count(q) by {
        slot_in_range(q, m, cost);
    }
    let side = 2 * (q.radius / 10) + 1;
    assert(side * side * 2 >= 0) by (nonlinear_arith)
        requires
            side >= 1,
    ;
}

/// Opening a tile uses up one slot: open tiles and slots together stay as
/// many as they were.
pub proof fn consider_budgeted(q: Quest, s: Search, slots: Set<int>, n: Grid)
    requires
        q.radius >= 0,
        budgeted(q, s, slots),
        s.current.touches(n),
    ensures
        budgeted(q, q.consider(s, n), spend(q, s, n, slots)),
        opens(q, s, n) ==> slots.contains(slot(q, n, n.spacing(s.current))) && spend(
            q,
            s,
            n,
            slots,
        ).len() + 1 == slots.len(),
        opens(q, s, n) <==> q.consider(s, n).frontier != s.frontier,
{
    let after = q.consider(s, n);
    let left = spend(q, s, n, slots);
    let cost = n.spacing(s.current);
    crate::grid::spacing_of_touching(n, s.current);
    let score = AStar::rate(0, s.current, q.target, n);
    if opens(q, s, n) {
        assert(score == key_of(q, n, cost));
        assert(!open_as(s, q, n, cost));
        assert(slots.contains(slot(q, n, cost)));
        assert(after.frontier.contains_key(score));
        assert forall|m: Grid, c: int|
            #![trigger slot(q, m, c)]
            (c == 10 || c == 14) && q.in_reach(m) && !after.visited.contains(m) && !open_as(
                after,
                q,
                m,
                c,
            ) implies left.contains(slot(q, m, c)) by {
            if key_of(q, m, c) == score {
                assert(m != n);
                assert(!open_as(s, q, m, c));
            } else {
                assert(!open_as(s, q, m, c));
            }
            if slot(q, m, c) == slot(q, n, cost) {
                slot_injective(q, m, c, n, cost);
            }
        }
    } else {
        assert(after.frontier == s.frontier);
    }
}

/// Selecting a tile uses up no slot.
pub proof fn select_budgeted(q: Quest, s: Search, slots: Set<int>)
    requires
        budgeted(q, s, slots),
        exists|k: AStar| is_least(s.frontier, k),
    ensures
        budgeted(q, select(s), slots),
{
    let key = least(s.frontier);
    let after = select(s);
    assert forall|m: Grid, c: int|
        #![trigger slot(q, m, c)]
        (c == 10 || c == 14) && q.in_reach(m) && !after.visited.contains(m) && !open_as(
            after,
            q,
            m,
            c,
        ) implies slots.contains(slot(q, m, c)) by {
        assert(!s.visited.contains(m));
        assert(m != s.frontier[key]);
        assert(!open_as(s, q, m, c));
    }
}

/// The key that a frontier hands out as least is the one selected.
pub proof fn least_found(open: Map<AStar, Grid>, key: AStar)
    requires
        is_least(open, key),
    ensures
        least(open) == key,
{
    least_is_unique(open, key, least(open));
}

/// Looking at a neighbour never lowers the obstruction flag, and an
/// occupied neighbour in reach that was not selected raises it.
pub proof fn consider_flags(q: Quest, s: Search, n: Grid)
    ensures
        s.obstruction ==> q.consider(s, n).obstruction,
        q.consider(s, n).visited == s.visited,
        q.consider(s, n).current == s.current,
        q.in_reach(n) && !s.visited.contains(n) && q.occupied.contains(n) ==> q.consider(
            s,
            n,
        ).obstruction,
{
}

/// Looking at the first tiles of `around` raises the obstruction flag if
/// one of them is occupied, in reach and not selected.
pub proof fn consider_all_flags(q: Quest, s: Search, around: Seq<Grid>, upto: nat, at: int)
    requires
        upto <= around.len(),
    ensures
        s.obstruction ==> q.consider_all(s, around, upto).obstruction,
        q.consider_all(s, around, upto).visited == s.visited,
        q.consider_all(s, around, upto).current == s.current,
        0 <= at < upto && q.in_reach(around[at]) && !s.visited.contains(around[at])
            && q.occupied.contains(around[at]) ==> q.consider_all(s, around, upto).obstruction,
    decreases upto,
{
    if upto > 0 {
        consider_all_flags(q, s, around, (upto - 1) as nat, at);
        consider_flags(q, q.consider_all(s, around, (upto - 1) as nat), around[upto - 1]);
    }
}

/// A search that goes on with the obstruction flag raised arrives with it
/// raised.
pub proof fn run_keeps_flag(q: Quest, s: Search, rounds: nat)
    requires
        s.obstruction,
    ensures
        q.run(s, rounds) matches Some(crate::search::Outcome::Arrived(end)) ==> end.obstruction,
    decreases rounds,
{
    if s.current != q.target && rounds > 0 {
        let grown = q.expand(s);
        consider_all_flags(q, s, s.current.ring(), 8, 0);
        if grown.frontier.dom() != Set::<AStar>::empty() {
            run_keeps_flag(q, select(grown), (rounds - 1) as nat);
        }
    }
}

/// Where an occupied tile in reach of the goal touches the start, and the
/// start is not the goal, every route that the search returns comes with
/// the obstruction flag raised.
pub proof fn blocked_neighbour_is_flagged(q: Quest, blocked: Grid, rounds: nat, hops: nat)
    requires
        q.start.interior(),
        q.start != q.target,
        q.start.touches(blocked),
        q.occupied.contains(blocked),
        q.in_reach(blocked),
    ensures
        q.result(rounds, hops) matches Some(found) ==> found.0.len() == 0 || found.1,
{
    let s = q.begin();
    if rounds > 0 {
        let around = q.start.ring();
        let at = choose|at: int| 0 <= at < 8 && around[at] == blocked;
        assert(exists|at: int| 0 <= at < 8 && around[at] == blocked) by {
            ring_touches(q.start, blocked);
        }
        consider_all_flags(q, s, around, 8, at);
        let grown = q.expand(s);
        if grown.frontier.dom() != Set::<AStar>::empty() {
            run_keeps_flag(q, select(grown), (rounds - 1) as nat);
        }
    }
}

/// Every tile that touches an interior tile stands in its ring.
pub proof fn ring_touches(g: Grid, other: Grid)
    requires
        g.interior(),
        g.touches(other),
    ensures
        exists|at: int| 0 <= at < 8 && g.ring()[at] == other,
{
    let dx = other.x - g.x;
    let dy = other.y - g.y;
    let ring = g.ring();
    if dx == -1 && dy == 0 {
        assert(ring[0] == other);
    } else if dx == 1 && dy == 0 {
        assert(ring[1] == other);
    } else if dx == 0 && dy == 1 {
        assert(ring[2] == other);
    } else if dx == 0 && dy == -1 {
        assert(ring[3] == other);
    } else if dx == 1 && dy == 1 {
        assert(ring[4] == other);
    } else if dx == -1 && dy == 1 {
        assert(ring[5] == other);
    } else if dx == -1 && dy == -1 {
        assert(ring[6] == other);
    } else {
        assert(dx == 1 && dy == -1);
        assert(ring[7] == other);
    }
}

/// A search that has ended within some number of rounds has ended the
/// same way within any larger number.
pub proof fn run_settles(q: Quest, s: Search, rounds: nat, more: nat)
    requires
        q.run(s, rounds) is Some,
    ensures
        q.run(s, rounds + more) == q.run(s, rounds),
    decreases rounds,
{
    if s.current != q.target && rounds > 0 {
        let grown = q.expand(s);
        if grown.frontier.dom() != Set::<AStar>::empty() {
            run_settles(q, select(grown), (rounds - 1) as nat, more);
            assert(q.run(s, rounds + more) == q.run(select(grown), (rounds + more - 1) as nat));
        }
    }
}

/// A walk back that has ended within some number of links has ended the
/// same way within any larger number.
pub proof fn trace_settles(
    q: Quest,
    trail: Map<Grid, (Grid, AStar)>,
    tile: Grid,
    hops: nat,
    more: nat,
)
    requires
        q.trace(trail, tile, hops) is Some,
    ensures
        q.trace(trail, tile, hops + more) == q.trace(trail, tile, hops),
    decreases hops,
{
    if tile != q.start && trail.contains_key(tile) && hops > 0 {
        trace_settles(q, trail, trail[tile].0, (hops - 1) as nat, more);
        assert(q.trace(trail, tile, hops + more) == match q.trace(
            trail,
            trail[tile].0,
            (hops + more - 1) as nat,
        ) {
            Some(route) => Some(route.push(tile)),
            None => None,
        });
    }
}

/// A search has one result: whatever bounds on rounds and links let it
/// end, it ends with the same route and the same flag.
pub proof fn result_is_unique(q: Quest, rounds: nat, hops: nat, other_rounds: nat, other_hops: nat)
    requires
        q.result(rounds, hops) is Some,
        q.result(other_rounds, other_hops) is Some,
    ensures
        q.result(rounds, hops) == q.result(other_rounds, other_hops),
{
    let s = q.begin();
    if rounds <= other_rounds {
        run_settles(q, s, rounds, (other_rounds - rounds) as nat);
    } else {
        run_settles(q, s, other_rounds, (rounds - other_rounds) as nat);
    }
    match q.run(s, rounds) {
        Some(crate::search::Outcome::Arrived(end)) => {
            if hops <= other_hops {
                trace_settles(q, end.trail, q.target, hops, (other_hops - hops) as nat);
            } else {
                trace_settles(q, end.trail, q.target, other_hops, (hops - other_hops) as nat);
            }
        },
        _ => {},
    }
}

} // verus!
