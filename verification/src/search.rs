//! The route search as a mathematical object: its state, one round of it,
//! and the route it ends with.

use vstd::prelude::*;

use crate::frontier::least;
use crate::grid::Grid;
use crate::score::AStar;

verus! {

/// What a search is asked: from where, to where, around which occupied
/// tiles, and how far from the goal it may look.
pub struct Quest {
    pub start: Grid,
    pub target: Grid,
    pub occupied: Set<Grid>,
    pub radius: int,
}

/// The state of a search between two rounds.
pub struct Search {
    /// The tile being expanded.
    pub current: Grid,
    /// For each tile reached, the tile it was reached from and its score.
    pub trail: Map<Grid, (Grid, AStar)>,
    /// The open tiles by score.
    pub frontier: Map<AStar, Grid>,
    /// The tiles already selected.
    pub visited: Set<Grid>,
    /// Whether an occupied tile was met.
    pub obstruction: bool,
}

/// How a search ends.
pub enum Outcome {
    /// The goal was selected; the state at that moment.
    Arrived(Search),
    /// No open tile was left.
    Stranded,
}

impl Quest {
    /// The search for a route from `start` to `target`: tiles farther from
    /// the goal than twice the distance between the two are never looked at.
    pub open spec fn new(start: Grid, target: Grid, occupied: Set<Grid>) -> Quest {
        Quest { start, target, occupied, radius: 2 * start.spacing(target) }
    }

    /// The tile is close enough to the goal to be looked at.
    pub open spec fn in_reach(self, g: Grid) -> bool {
        g.spacing(self.target) <= self.radius
    }

    /// The state before the first round.
    pub open spec fn begin(self) -> Search {
        Search {
            current: self.start,
            trail: Map::empty(),
            frontier: Map::empty(),
            visited: Set::empty(),
            obstruction: false,
        }
    }

    /// The state after neighbour `n` of the current tile has been looked
    /// at. A neighbour out of reach or already selected is passed over. An
    /// occupied one raises the obstruction flag and is passed over. Any
    /// other is scored from the current tile: it is linked to the current
    /// tile unless it has a link with an `origin_score` that is no higher,
    /// and it is opened under its score unless that score is taken.
    pub open spec fn consider(self, s: Search, n: Grid) -> Search {
        if !self.in_reach(n) || s.visited.contains(n) {
            s
        } else if self.occupied.contains(n) {
            Search { obstruction: true, ..s }
        } else {
            let score = AStar::rate(0, s.current, self.target, n);
            let relink = !s.trail.contains_key(n) || score.origin_score
                < s.trail[n].1.origin_score;
            Search {
                trail: if relink {
                    s.trail.insert(n, (s.current, score))
                } else {
                    s.trail
                },
                frontier: if s.frontier.contains_key(score) {
                    s.frontier
                } else {
                    s.frontier.insert(score, n)
                },
                ..s
            }
        }
    }

    /// The state after the first `upto` tiles of `around` have been looked at.
    pub open spec fn consider_all(self, s: Search, around: Seq<Grid>, upto: nat) -> Search
        decreases upto,
    {
        if upto == 0 {
            s
        } else {
            self.consider(self.consider_all(s, around, (upto - 1) as nat), around[upto - 1])
        }
    }

    /// The state after all eight neighbours of the current tile have been
    /// looked at, the orthogonal ones first.
    pub open spec fn expand(self, s: Search) -> Search {
        self.consider_all(s, s.current.ring(), 8)
    }

    /// The outcome of a search that goes on from state `s`, if it ends
    /// within `rounds` rounds; `None` if it takes more.
    pub open spec fn run(self, s: Search, rounds: nat) -> Option<Outcome>
        decreases rounds,
    {
        if s.current == self.target {
            Some(Outcome::Arrived(s))
        } else if rounds == 0 {
            None
        } else {
            let grown = self.expand(s);
            if grown.frontier.dom() == Set::<AStar>::empty() {
                Some(Outcome::Stranded)
            } else {
                self.run(select(grown), (rounds - 1) as nat)
            }
        }
    }

    /// The tiles from `tile` back to the start along the links of `trail`,
    /// in the order of travel, if the start is that close; `None` if the
    /// walk takes more than `hops` links. A tile without a link ends the
    /// walk where it stands.
    pub open spec fn trace(self, trail: Map<Grid, (Grid, AStar)>, tile: Grid, hops: nat) -> Option<
        Seq<Grid>,
    >
        decreases hops,
    {
        if tile == self.start || !trail.contains_key(tile) {
            Some(seq![tile])
        } else if hops == 0 {
            None
        } else {
            match self.trace(trail, trail[tile].0, (hops - 1) as nat) {
                Some(route) => Some(route.push(tile)),
                None => None,
            }
        }
    }

    /// The route and the obstruction flag that the search returns, if it
    /// ends within `rounds` rounds and its route within `hops` links. A
    /// stranded search returns no tile and no flag.
    pub open spec fn result(self, rounds: nat, hops: nat) -> Option<(Seq<Grid>, bool)> {
        match self.run(self.begin(), rounds) {
            None => None,
            Some(Outcome::Stranded) => Some((Seq::empty(), false)),
            Some(Outcome::Arrived(s)) => match self.trace(s.trail, self.target, hops) {
                None => None,
                Some(route) => Some((route, s.obstruction)),
            },
        }
    }
}

/// The state after the open tile with the least score has been selected:
/// it becomes the current tile, counts as visited and is no longer open.
pub open spec fn select(s: Search) -> Search {
    let key = least(s.frontier);
    Search {
        current: s.frontier[key],
        frontier: s.frontier.remove(key),
        visited: s.visited.insert(s.frontier[key]),
        ..s
    }
}

} // verus!
