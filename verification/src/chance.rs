//! Randomness, drawn from the thread-local generator of the `rand` crate.

use rand::seq::SliceRandom;
use rand::Rng;
use vstd::prelude::*;

verus! {

/// Reorders `items` with `rand::seq::SliceRandom::shuffle`, driven by
/// `rand::thread_rng`. The shuffle only swaps elements in place, so the
/// outcome holds exactly the items that went in; which order comes out is
/// left open.
#[verifier::external_body]
pub(crate) fn shuffled<T>(items: Vec<T>) -> (mixed: Vec<T>)
    ensures
        mixed@.to_multiset() == items@.to_multiset(),
        mixed@.len() == items@.len(),
{
    let mut mixed = items;
    mixed.shuffle(&mut rand::thread_rng());
    mixed
}

/// Draws a number with `rand::Rng::gen_range` over the inclusive range
/// `0..=last`, which is never empty. The draw stays inside the range; which
/// number comes out is left open.
#[verifier::external_body]
pub(crate) fn roll(last: u32) -> (drawn: u32)
    ensures
        drawn <= last,
{
    rand::thread_rng().gen_range(0..=last)
}

} // verus!
