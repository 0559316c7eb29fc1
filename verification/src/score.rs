//! The composite score by which the route search ranks its open tiles.

use vstd::prelude::*;

use crate::grid::Grid;

verus! {

/// Score of an open tile. `origin_score` is the cost of the step from the
/// tile it was reached from, `target_score` the octile distance to the
/// goal, and `score` their sum.
#[derive(Clone, Copy, Debug, PartialEq, Eq, Structural, Hash)]
pub struct AStar {
    pub origin_score: i64,
    pub target_score: i64,
    pub score: i64,
}

impl AStar {
    /// The score with the given parts.
    pub open spec fn of(origin_score: int, target_score: int) -> AStar {
        AStar {
            origin_score: origin_score as i64,
            target_score: target_score as i64,
            score: (origin_score + target_score) as i64,
        }
    }

    /// The score of tile `scoring` when it is reached from `prev` on the way
    /// to `target`, after a cost of `cost` already paid.
    pub open spec fn rate(cost: int, prev: Grid, target: Grid, scoring: Grid) -> AStar {
        AStar::of(scoring.spacing(prev) + cost, scoring.spacing(target))
    }

    /// Strict order of selection: by `score`, then by `origin_score`, then
    /// by `target_score`, each ascending.
    pub open spec fn before(self, other: AStar) -> bool {
        ||| self.score < other.score
        ||| self.score == other.score && self.origin_score < other.origin_score
        ||| self.score == other.score && self.origin_score == other.origin_score
            && self.target_score < other.target_score
    }

    /// The score with the given parts and their sum.
    pub fn new(origin_score: i64, target_score: i64) -> (rated: AStar)
        requires
            i64::MIN <= origin_score + target_score <= i64::MAX,
        ensures
            rated == AStar::of(origin_score as int, target_score as int),
            rated.score == rated.origin_score + rated.target_score,
    {
        AStar { origin_score, target_score, score: origin_score + target_score }
    }

    /// Scores tile `scoring`, reached from `prev_grid`, on the way to
    /// `target`.
    pub fn calc(accumulating_cost: i64, prev_grid: Grid, target: Grid, scoring: Grid) -> (rated:
        AStar)
        requires
            i64::MIN <= scoring.spacing(prev_grid) + accumulating_cost <= i64::MAX,
            i64::MIN <= scoring.spacing(prev_grid) + accumulating_cost + scoring.spacing(target)
                <= i64::MAX,
        ensures
            rated == AStar::rate(accumulating_cost as int, prev_grid, target, scoring),
            rated.score == rated.origin_score + rated.target_score,
    {
        let origin_score = scoring.distance(prev_grid) + accumulating_cost;
        let target_score = scoring.distance(target);
        AStar::new(origin_score, target_score)
    }

    /// Whether this score is selected strictly before `other`.
    pub fn precedes(&self, other: &AStar) -> (first: bool)
        ensures
            first == self.before(*other),
    {
        if self.score == other.score {
            if self.origin_score == other.origin_score {
                self.target_score < other.target_score
            } else {
                self.origin_score < other.origin_score
            }
        } else {
            self.score < other.score
        }
    }
}

/// The order of selection is transitive.
pub proof fn before_transitive(a: AStar, b: AStar, c: AStar)
    requires
        a.before(b),
        b.before(c),
    ensures
        a.before(c),
{
}

/// Of two different scores exactly one comes before the other.
pub proof fn before_total(a: AStar, b: AStar)
    ensures
        a == b || a.before(b) || b.before(a),
        !(a.before(b) && b.before(a)),
{
}

} // verus!
