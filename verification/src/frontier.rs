//! The open tiles of a route search, keyed by score.

use vstd::prelude::*;

use crate::grid::Grid;
use crate::score::before_total;
use crate::score::before_transitive;
use crate::score::AStar;

verus! {

/// `key` is a key of `open` and no other key comes before it.
pub open spec fn is_least(open: Map<AStar, Grid>, key: AStar) -> bool {
    &&& open.contains_key(key)
    &&& forall|other: AStar| #[trigger]
        open.contains_key(other) ==> other == key || key.before(other)
}

/// The key selected next from a frontier that is not empty.
pub open spec fn least(open: Map<AStar, Grid>) -> AStar {
    choose|key: AStar| is_least(open, key)
}

/// A frontier has at most one least key.
pub proof fn least_is_unique(open: Map<AStar, Grid>, a: AStar, b: AStar)
    requires
        is_least(open, a),
        is_least(open, b),
    ensures
        a == b,
{
}

spec fn key_at(entries: Seq<(AStar, Grid)>, key: AStar) -> int {
    choose|i: int| 0 <= i < entries.len() && entries[i].0 == key
}

spec fn has_key(entries: Seq<(AStar, Grid)>, key: AStar) -> bool {
    exists|i: int| 0 <= i < entries.len() && #[trigger] entries[i].0 == key
}

spec fn distinct_keys(entries: Seq<(AStar, Grid)>) -> bool {
    forall|i: int, j: int|
        0 <= i < j < entries.len() ==> (#[trigger] entries[i]).0 != (#[trigger] entries[j]).0
}

spec fn as_map(entries: Seq<(AStar, Grid)>) -> Map<AStar, Grid> {
    Map::new(|key: AStar| has_key(entries, key), |key: AStar| entries[key_at(entries, key)].1)
}

proof fn entry_in_map(entries: Seq<(AStar, Grid)>, i: int)
    requires
        distinct_keys(entries),
        0 <= i < entries.len(),
    ensures
        as_map(entries).contains_key(entries[i].0),
        as_map(entries)[entries[i].0] == entries[i].1,
{
    let key = entries[i].0;
    assert(has_key(entries, key));
    let j = key_at(entries, key);
    assert(0 <= j < entries.len() && entries[j].0 == key);
    if j != i {
        if j < i {
            assert(entries[j].0 != entries[i].0);
        } else {
            assert(entries[i].0 != entries[j].0);
        }
    }
}

proof fn push_is_insert(entries: Seq<(AStar, Grid)>, key: AStar, tile: Grid)
    requires
        distinct_keys(entries),
        !has_key(entries, key),
    ensures
        distinct_keys(entries.push((key, tile))),
        as_map(entries.push((key, tile))) == as_map(entries).insert(key, tile),
{
    let longer = entries.push((key, tile));
    assert forall|i: int, j: int| 0 <= i < j < longer.len() implies (#[trigger] longer[i]).0 != (
    #[trigger] longer[j]).0 by {
        if j == entries.len() {
            assert(entries[i].0 != key);
        } else {
            assert(entries[i].0 != entries[j].0);
        }
    }
    assert forall|k: AStar| has_key(longer, k) <==> (k == key || has_key(entries, k)) by {
        if has_key(longer, k) {
            let i = choose|i: int| 0 <= i < longer.len() && #[trigger] longer[i].0 == k;
            if i < entries.len() {
                assert(entries[i].0 == k);
            }
        }
        if has_key(entries, k) {
            let i = choose|i: int| 0 <= i < entries.len() && #[trigger] entries[i].0 == k;
            assert(longer[i].0 == k);
        }
        if k == key {
            assert(longer[entries.len() as int].0 == k);
        }
    }
    assert forall|k: AStar| has_key(longer, k) implies as_map(longer)[k] == as_map(
        entries,
    ).insert(key, tile)[k] by {
        let i = choose|i: int| 0 <= i < longer.len() && #[trigger] longer[i].0 == k;
        entry_in_map(longer, i);
        if i < entries.len() {
            entry_in_map(entries, i);
        }
    }
    assert(as_map(longer) =~= as_map(entries).insert(key, tile));
}

proof fn remove_is_remove(entries: Seq<(AStar, Grid)>, at: int)
    requires
        distinct_keys(entries),
        0 <= at < entries.len(),
    ensures
        distinct_keys(entries.remove(at)),
        as_map(entries.remove(at)) == as_map(entries).remove(entries[at].0),
{
    let shorter = entries.remove(at);
    let key = entries[at].0;
    assert forall|i: int| 0 <= i < shorter.len() implies #[trigger] shorter[i] == entries[if i
        < at {
        i
    } else {
        i + 1
    }] by {}
    assert forall|i: int, j: int| 0 <= i < j < shorter.len() implies (#[trigger] shorter[i]).0
        != (#[trigger] shorter[j]).0 by {
        let a = if i < at {
            i
        } else {
            i + 1
        };
        let b = if j < at {
            j
        } else {
            j + 1
        };
        assert(entries[a].0 != entries[b].0);
    }
    assert forall|k: AStar| has_key(shorter, k) <==> (k != key && has_key(entries, k)) by {
        if has_key(shorter, k) {
            let i = choose|i: int| 0 <= i < shorter.len() && #[trigger] shorter[i].0 == k;
            let a = if i < at {
                i
            } else {
                i + 1
            };
            assert(entries[a].0 == k);
            if a < at {
                assert(entries[a].0 != entries[at].0);
            } else {
                assert(entries[at].0 != entries[a].0);
            }
        }
        if k != key && has_key(entries, k) {
            let a = choose|a: int| 0 <= a < entries.len() && #[trigger] entries[a].0 == k;
            let i = if a < at {
                a
            } else {
                a - 1
            };
            assert(shorter[i].0 == k);
        }
    }
    assert forall|k: AStar| has_key(shorter, k) implies as_map(shorter)[k] == as_map(entries)[k] by {
        let i = choose|i: int| 0 <= i < shorter.len() && #[trigger] shorter[i].0 == k;
        let a = if i < at {
            i
        } else {
            i + 1
        };
        entry_in_map(shorter, i);
        entry_in_map(entries, a);
    }
    assert(as_map(shorter) =~= as_map(entries).remove(key));
}

/// The open tiles of a search: at most one tile per score.
pub struct Frontier {
    entries: Vec<(AStar, Grid)>,
}

impl View for Frontier {
    type V = Map<AStar, Grid>;

    closed spec fn view(&self) -> Map<AStar, Grid> {
        as_map(self.entries@)
    }
}

impl Frontier {
    /// No score is held twice.
    pub closed spec fn wf(&self) -> bool {
        distinct_keys(self.entries@)
    }

    /// The number of open tiles.
    pub closed spec fn count(&self) -> nat {
        self.entries@.len()
    }

    /// A frontier without open tiles.
    pub fn new() -> (open: Frontier)
        ensures
            open.wf(),
            open@ == (Map::<AStar, Grid>::empty()),
            open.count() == 0,
    {
        let open = Frontier { entries: Vec::new() };
        assert(open@ =~= Map::<AStar, Grid>::empty());
        open
    }

    /// Opens `tile` under `score`, unless a tile is open under that score
    /// already; says whether it did.
    pub fn insert_if_absent(&mut self, score: AStar, tile: Grid) -> (added: bool)
        requires
            old(self).wf(),
        ensures
            final(self).wf(),
            added == !old(self)@.contains_key(score),
            added ==> final(self)@ == old(self)@.insert(score, tile),
            added ==> final(self).count() == old(self).count() + 1,
            !added ==> final(self)@ == old(self)@,
            !added ==> final(self).count() == old(self).count(),
    {
        let mut i: usize = 0;
        while i < self.entries.len()
            invariant
                i <= self.entries.len(),
                self.entries == old(self).entries,
                distinct_keys(self.entries@),
                forall|j: int| 0 <= j < i ==> (#[trigger] self.entries@[j]).0 != score,
            decreases self.entries.len() - i,
        {
            if self.entries[i].0 == score {
                assert(has_key(self.entries@, score));
                return false;
            }
            i += 1;
        }
        assert(!has_key(self.entries@, score));
        proof {
            push_is_insert(self.entries@, score, tile);
        }
        self.entries.push((score, tile));
        true
    }

    /// Takes out the tile open under the least score, if any tile is open.
    pub fn pop_least(&mut self) -> (taken: Option<(AStar, Grid)>)
        requires
            old(self).wf(),
        ensures
            final(self).wf(),
            taken is None ==> old(self).count() == 0 && final(self)@ == old(self)@ && old(self)@
                == (Map::<AStar, Grid>::empty()),
            taken is Some ==> is_least(old(self)@, (taken->0).0),
            taken is Some ==> (taken->0).1 == old(self)@[(taken->0).0],
            taken is Some ==> final(self)@ == old(self)@.remove((taken->0).0),
            taken is Some ==> final(self).count() + 1 == old(self).count(),
    {
        if self.entries.len() == 0 {
            assert(self@ =~= Map::<AStar, Grid>::empty());
            return None;
        }
        let mut best: usize = 0;
        let mut i: usize = 1;
        while i < self.entries.len()
            invariant
                1 <= i <= self.entries.len(),
                best < i,
                self.entries == old(self).entries,
                distinct_keys(self.entries@),
                forall|j: int|
                    0 <= j < i ==> j == best || self.entries@[best as int].0.before(
                        (#[trigger] self.entries@[j]).0,
                    ),
            decreases self.entries.len() - i,
        {
            let ghost prior = best;
            if self.entries[i].0.precedes(&self.entries[best].0) {
                best = i;
                assert forall|j: int| 0 <= j < i + 1 implies j == best || self.entries@[best as int].0.before(
                    (#[trigger] self.entries@[j]).0,
                ) by {
                    if j != best && j != prior {
                        before_transitive(
                            self.entries@[best as int].0,
                            self.entries@[prior as int].0,
                            self.entries@[j].0,
                        );
                    }
                }
            } else {
                proof {
                    assert(self.entries@[best as int].0 != self.entries@[i as int].0);
                    before_total(self.entries@[best as int].0, self.entries@[i as int].0);
                }
            }
            i += 1;
        }
        proof {
            entry_in_map(self.entries@, best as int);
            remove_is_remove(self.entries@, best as int);
            assert forall|other: AStar| #[trigger]
                self@.contains_key(other) implies other == self.entries@[best as int].0
                || self.entries@[best as int].0.before(other) by {
                let j = choose|j: int|
                    0 <= j < self.entries@.len() && #[trigger] self.entries@[j].0 == other;
                assert(j == best || self.entries@[best as int].0.before(self.entries@[j].0));
            }
        }
        let taken = self.entries.remove(best);
        Some(taken)
    }
}

} // verus!
