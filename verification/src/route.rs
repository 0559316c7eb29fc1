//! Route planning over an agent's memory: a best-first search that steers
//! round occupied tiles.

use vstd::prelude::*;
use vstd::set_lib::set_int_range;

use crate::frontier::is_least;
use crate::frontier::Frontier;
use crate::grid::Grid;
use crate::knowledge::SpatialKnowledge;
use crate::score::AStar;
use crate::search::select;
use crate::search::Outcome;
use crate::search::Quest;
use crate::search::Search;
use crate::tables::tile_members;
use crate::tables::trail_links;
use crate::tables::TileSet;
use crate::tables::TrailTable;
use crate::trail::begin_budgeted;
use crate::trail::begin_sound;
use crate::trail::budgeted;
use crate::trail::consider_budgeted;
use crate::trail::consider_sound;
use crate::trail::least_found;
use crate::trail::opens;
use crate::trail::reach_is_interior;
use crate::trail::restamp;
use crate::trail::searchable;
use crate::trail::select_budgeted;
use crate::trail::select_sound;
use crate::trail::settled;
use crate::trail::slot_count;
use crate::trail::sound;
use crate::trail::spend;

verus! {

/// The search state that the working tables stand for.
spec fn state(
    current: Grid,
    trail: TrailTable,
    open: Frontier,
    visited: TileSet,
    obstruction: bool,
) -> Search {
    Search {
        current,
        trail: trail_links(trail),
        frontier: open@,
        visited: tile_members(visited),
        obstruction,
    }
}

/// A search that goes on from `s` ends as the whole search does, `rounds`
/// rounds earlier.
spec fn resumes(q: Quest, s: Search, rounds: nat) -> bool {
    forall|more: nat| q.run(q.begin(), rounds + more) == #[trigger] q.run(s, more)
}

proof fn round_resumes(q: Quest, s: Search, rounds: nat)
    requires
        resumes(q, s, rounds),
        s.current != q.target,
        q.expand(s).frontier.dom() != Set::<AStar>::empty(),
    ensures
        resumes(q, select(q.expand(s)), rounds + 1),
{
    assert forall|more: nat| q.run(q.begin(), rounds + 1 + more) == #[trigger] q.run(
        select(q.expand(s)),
        more,
    ) by {
        assert(q.run(q.begin(), rounds + (more + 1) as nat) == q.run(s, (more + 1) as nat));
    }
}

/// The route so far, once the walk back from `tile` is known.
spec fn joined(walk: Option<Seq<Grid>>, rest: Seq<Grid>) -> Option<Seq<Grid>> {
    match walk {
        Some(first) => Some(first + rest),
        None => None,
    }
}

/// The walk back from the goal is the walk back from `tile` followed by
/// `rest`, `hops` links longer.
spec fn retraces(q: Quest, trail: Map<Grid, (Grid, AStar)>, tile: Grid, rest: Seq<Grid>, hops: nat) -> bool {
    forall|more: nat|
        q.trace(trail, q.target, hops + more) == joined(#[trigger] q.trace(trail, tile, more), rest)
}

proof fn hop_retraces(
    q: Quest,
    trail: Map<Grid, (Grid, AStar)>,
    tile: Grid,
    rest: Seq<Grid>,
    hops: nat,
)
    requires
        retraces(q, trail, tile, rest, hops),
        tile != q.start,
        trail.contains_key(tile),
    ensures
        retraces(q, trail, trail[tile].0, seq![tile] + rest, hops + 1),
{
    let prev = trail[tile].0;
    assert forall|more: nat| q.trace(trail, q.target, hops + 1 + more) == joined(
        #[trigger] q.trace(trail, prev, more),
        seq![tile] + rest,
    ) by {
        assert(q.trace(trail, q.target, hops + (more + 1) as nat) == joined(
            q.trace(trail, tile, (more + 1) as nat),
            rest,
        ));
        match q.trace(trail, prev, more) {
            Some(first) => {
                assert(first.push(tile) + rest =~= first + (seq![tile] + rest));
            },
            None => {},
        }
    }
}

/// The search is sound; kept folded while the route is walked back.
#[verifier::opaque]
spec fn steady(q: Quest, s: Search, stamp: Map<Grid, int>, clock: int) -> bool {
    sound(q, s, stamp, clock)
}

proof fn hop_back(q: Quest, s: Search, stamp: Map<Grid, int>, clock: int, tile: Grid)
    requires
        steady(q, s, stamp, clock),
        settled(q, s, tile),
        tile != q.start,
    ensures
        s.trail.contains_key(tile),
        settled(q, s, s.trail[tile].0),
        s.trail[tile].0.touches(tile),
        !q.occupied.contains(tile),
        0 <= stamp[s.trail[tile].0] < stamp[tile],
{
    reveal(steady);
    assert(s.visited.contains(tile));
    assert(s.trail.contains_key(tile));
    let prev = s.trail[tile].0;
    assert(settled(q, s, prev));
    if prev != q.start {
        assert(s.visited.contains(prev));
    }
}

proof fn turn_pushed(path: Seq<Grid>, prev: Grid)
    requires
        path.len() >= 1,
    ensures
        path.push(prev).reverse().drop_first() == seq![path.last()] + path.reverse().drop_first(),
        path.push(prev).reverse().drop_first() == path.reverse(),
{
    assert(path.push(prev).reverse().drop_first() =~= path.reverse());
    assert(seq![path.last()] + path.reverse().drop_first() =~= path.reverse());
}

/// The tiles of `tiles` in the opposite order.
pub fn reversed(tiles: &Vec<Grid>) -> (turned: Vec<Grid>)
    ensures
        turned@ == tiles@.reverse(),
{
    let mut turned: Vec<Grid> = Vec::new();
    let mut i: usize = tiles.len();
    while i > 0
        invariant
            i <= tiles.len(),
            turned@.len() == tiles.len() - i,
            forall|j: int| 0 <= j < turned@.len() ==> turned@[j] == tiles@[tiles.len() - 1 - j],
        decreases i,
    {
        i -= 1;
        turned.push(tiles[i]);
    }
    assert(turned@ =~= tiles@.reverse());
    turned
}

/// Whether the search between `start` and `target` stays clear of the edge
/// of the coordinate range.
pub fn can_search(start: Grid, target: Grid) -> (ok: bool)
    ensures
        ok == searchable(start, target),
{
    let reach = (start.distance(target) * 2) / 10;
    let inside = i32::MIN < start.x && start.x < i32::MAX && i32::MIN < start.y && start.y
        < i32::MAX;
    let low: i64 = i32::MIN as i64;
    let high: i64 = i32::MAX as i64;
    let x: i64 = target.x as i64;
    let y: i64 = target.y as i64;
    inside && low < x - reach && x + reach < high && low < y - reach && y + reach < high
}

/// Looks at one neighbour of the current tile.
fn look_at(
    memory: &SpatialKnowledge,
    current: Grid,
    target: Grid,
    radius: i64,
    n: Grid,
    trail: &mut TrailTable,
    open: &mut Frontier,
    visited: &TileSet,
    obstruction: &mut bool,
    Ghost(q): Ghost<Quest>,
)
    requires
        q.target == target,
        q.radius == radius,
        q.occupied == memory@.occupied_tiles(),
        old(open).wf(),
    ensures
        final(open).wf(),
        state(current, *final(trail), *final(open), *visited, *final(obstruction)) == q.consider(
            state(current, *old(trail), *old(open), *visited, *old(obstruction)),
            n,
        ),
        final(open).count() == old(open).count() + (if opens(
            q,
            state(current, *old(trail), *old(open), *visited, *old(obstruction)),
            n,
        ) {
            1nat
        } else {
            0nat
        }),
{
    if n.distance(target) > radius {
        return ;
    }
    if visited.contains(n) {
        return ;
    }
    if memory.occupied(n) {
        *obstruction = true;
        return ;
    }
    let score = AStar::calc(0, current, target, n);
    let relink = match trail.get(n) {
        Some(link) => score.origin_score < link.1.origin_score,
        None => true,
    };
    if relink {
        trail.insert(n, current, score);
    }
    open.insert_if_absent(score, n);
}

impl SpatialKnowledge {
    /// Plans a route from tile `my_pos` to tile `target` over what is
    /// known. The search looks no farther from the goal than twice the
    /// distance between the two tiles and never enters a tile on which an
    /// entity is recorded. It returns the tiles of the route in the order
    /// of travel, from `my_pos` to `target`, and whether it met an occupied
    /// tile on the way; where no open tile is left before the goal is
    /// selected, it returns no tile and no flag.
    pub fn path(&self, my_pos: Grid, target: Grid) -> (found: (Vec<Grid>, bool))
        requires
            searchable(my_pos, target),
        ensures
            exists|rounds: nat, hops: nat|
                Quest::new(my_pos, target, self@.occupied_tiles()).result(rounds, hops) == Some(
                    (found.0@, found.1),
                ),
            found.0@.len() == 0 ==> !found.1,
            my_pos == target ==> found.0@ == seq![my_pos] && !found.1,
            found.0@.len() > 0 ==> found.0@.first() == my_pos && found.0@.last() == target,
            forall|i: int|
                0 <= i < found.0@.len() - 1 ==> (#[trigger] found.0@[i]).touches(found.0@[i + 1]),
            forall|i: int| 1 <= i < found.0@.len() ==> !self@.occupied(#[trigger] found.0@[i]),
    {
        let ghost q = Quest::new(my_pos, target, self@.occupied_tiles());
        let start_tile = my_pos;
        let mut current = start_tile;
        let radius = start_tile.distance(target) * 2;
        let mut trail = TrailTable::new();
        let mut open = Frontier::new();
        let mut visited = TileSet::new();
        let mut obstruction = false;
        let ghost mut rounds: nat = 0;
        let ghost mut stamp: Map<Grid, int> = map![start_tile => 0int];
        let ghost mut clock: int = 0;
        let ghost mut slots: Set<int> = set_int_range(0, slot_count(q));
        proof {
            begin_sound(q);
            begin_budgeted(q);
            assert(state(current, trail, open, visited, obstruction) == q.begin());
        }
        while target != current
            invariant
                q == Quest::new(my_pos, target, self@.occupied_tiles()),
                start_tile == my_pos,
                radius == q.radius,
                searchable(my_pos, target),
                open.wf(),
                sound(q, state(current, trail, open, visited, obstruction), stamp, clock),
                budgeted(q, state(current, trail, open, visited, obstruction), slots),
                resumes(q, state(current, trail, open, visited, obstruction), rounds),
            decreases open.count() + slots.len(),
        {
            let ghost round_start = state(current, trail, open, visited, obstruction);
            proof {
                if current != start_tile {
                    assert(round_start.visited.contains(current));
                    if current != q.start {
                        assert(round_start.trail.contains_key(current));
                        reach_is_interior(q, current);
                    }
                }
            }
            let around = current.neighbors();
            let mut i: usize = 0;
            let ghost budget = open.count() + slots.len();
            while i < 8
                invariant
                    i <= 8,
                    q == Quest::new(my_pos, target, self@.occupied_tiles()),
                    radius == q.radius,
                    around@ == current.ring(),
                    forall|j: int| 0 <= j < 8 ==> current.touches(#[trigger] around@[j]),
                    round_start.current == current,
                    open.wf(),
                    state(current, trail, open, visited, obstruction) == q.consider_all(
                        round_start,
                        around@,
                        i as nat,
                    ),
                    sound(q, state(current, trail, open, visited, obstruction), stamp, clock),
                    budgeted(q, state(current, trail, open, visited, obstruction), slots),
                    open.count() + slots.len() == budget,
                decreases 8 - i,
            {
                let ghost prior = state(current, trail, open, visited, obstruction);
                let n = around[i];
                look_at(
                    self,
                    current,
                    target,
                    radius,
                    n,
                    &mut trail,
                    &mut open,
                    &visited,
                    &mut obstruction,
                    Ghost(q),
                );
                proof {
                    consider_sound(q, prior, stamp, clock, n);
                    consider_budgeted(q, prior, slots, n);
                    slots = spend(q, prior, n, slots);
                }
                i += 1;
            }
            let ghost grown = state(current, trail, open, visited, obstruction);
            assert(grown == q.expand(round_start));
            match open.pop_least() {
                None => {
                    proof {
                        assert(grown.frontier.dom() =~= Set::<AStar>::empty());
                        assert(q.run(q.begin(), rounds + 1nat) == q.run(round_start, 1nat));
                        assert(q.run(round_start, 1nat) == Some(Outcome::Stranded));
                        assert(q.result((rounds + 1) as nat, 0) == Some(
                            (Seq::<Grid>::empty(), false),
                        ));
                    }
                    return (Vec::new(), false);
                },
                Some(taken) => {
                    let tile = taken.1;
                    proof {
                        assert(is_least(grown.frontier, taken.0));
                        assert(grown.frontier.dom().contains(taken.0));
                        least_found(grown.frontier, taken.0);
                        select_sound(q, grown, stamp, clock);
                        select_budgeted(q, grown, slots);
                        round_resumes(q, round_start, rounds);
                        stamp = restamp(q, grown, stamp, clock, tile);
                        clock = clock + 1;
                        rounds = rounds + 1;
                    }
                    current = tile;
                    visited.insert(current);
                    assert(state(current, trail, open, visited, obstruction) == select(grown));
                },
            }
        }
        let ghost arrived = state(current, trail, open, visited, obstruction);
        assert(q.run(q.begin(), rounds + 0nat) == q.run(arrived, 0nat));
        let mut path: Vec<Grid> = Vec::new();
        path.push(current);
        let ghost mut hops: nat = 0;
        proof {
            reveal(steady);
            assert(steady(q, arrived, stamp, clock));
            assert(path@.reverse().drop_first() =~= Seq::<Grid>::empty());
            assert forall|more: nat|
                q.trace(arrived.trail, q.target, hops + more) == joined(
                    #[trigger] q.trace(arrived.trail, current, more),
                    Seq::<Grid>::empty(),
                ) by {
                match q.trace(arrived.trail, current, more) {
                    Some(first) => {
                        assert(first + Seq::<Grid>::empty() =~= first);
                    },
                    None => {},
                }
            }
        }
        while current != start_tile
            invariant
                q == Quest::new(my_pos, target, self@.occupied_tiles()),
                start_tile == my_pos,
                trail_links(trail) == arrived.trail,
                steady(q, arrived, stamp, clock),
                settled(q, arrived, current),
                path@.len() >= 1,
                path@[0] == target,
                path@.last() == current,
                forall|i: int|
                    0 <= i < path@.len() - 1 ==> (#[trigger] path@[i + 1]).touches(path@[i]),
                forall|i: int|
                    0 <= i < path@.len() - 1 ==> !q.occupied.contains(#[trigger] path@[i]),
                retraces(q, arrived.trail, current, path@.reverse().drop_first(), hops),
            ensures
                current == start_tile,
                path@.len() >= 1,
                path@[0] == target,
                path@.last() == current,
                forall|i: int|
                    0 <= i < path@.len() - 1 ==> (#[trigger] path@[i + 1]).touches(path@[i]),
                forall|i: int|
                    0 <= i < path@.len() - 1 ==> !q.occupied.contains(#[trigger] path@[i]),
                retraces(q, arrived.trail, current, path@.reverse().drop_first(), hops),
            decreases stamp[current],
        {
            proof {
                hop_back(q, arrived, stamp, clock, current);
            }
            match trail.get(current) {
                Some(link) => {
                    let prev = link.0;
                    proof {
                        hop_retraces(
                            q,
                            arrived.trail,
                            current,
                            path@.reverse().drop_first(),
                            hops,
                        );
                        turn_pushed(path@, prev);
                        hops = hops + 1;
                    }
                    current = prev;
                    path.push(current);
                },
                None => {
                    // Every selected tile has a link; the walk back cannot break.
                    break ;
                },
            }
        }
        let route = reversed(&path);
        proof {
            assert(q.trace(arrived.trail, q.target, hops + 0nat) == joined(
                q.trace(arrived.trail, current, 0nat),
                path@.reverse().drop_first(),
            ));
            assert(seq![current] + path@.reverse().drop_first() =~= path@.reverse());
            assert(q.result(rounds, hops) == Some((route@, obstruction)));
            assert forall|i: int| 0 <= i < route@.len() - 1 implies (#[trigger] route@[i]).touches(
                route@[i + 1],
            ) by {
                let j = path@.len() - 2 - i;
                assert(path@[j + 1].touches(path@[j]));
            }
            assert forall|i: int| 1 <= i < route@.len() implies !self@.occupied(
                #[trigger] route@[i],
            ) by {
                let j = path@.len() - 1 - i;
                assert(!q.occupied.contains(path@[j]));
            }
        }
        (route, obstruction)
    }
}

} // verus!
