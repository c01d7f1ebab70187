use vstd::prelude::*;

use core::hash::Hash;
use hashbag::HashBag;
use multiset::HashMultiSet;

verus! {

/// Relies on the multiset crate's `Sub for HashMultiSet`: the counts of
/// `held` are subtracted from the counts of `all`, bottoming out at zero
/// (exactly vstd's `Multiset::sub`), and `HashMultiSet::iter` yields every
/// remaining element with its multiplicity, in arbitrary order.
#[verifier::external_body]
pub(crate) fn free_values<T: Eq + Hash + Copy>(all: &Vec<T>, held: &Vec<T>) -> (r: Vec<T>)
    ensures
        r@.to_multiset() == all@.to_multiset().sub(held@.to_multiset()),
{
    let full: HashMultiSet<T> = all.iter().copied().collect();
    let taken: HashMultiSet<T> = held.iter().copied().collect();
    (full - taken).iter().copied().collect()
}

/// Relies on hashbag's `HashBag`: collecting the votes counts each distinct
/// target's multiplicity, and `set_iter` yields every distinct target
/// exactly once, paired with its count, in arbitrary order.
#[verifier::external_body]
pub(crate) fn tally(votes: &Vec<usize>) -> (r: Vec<(usize, usize)>)
    ensures
        forall|i: int|
            0 <= i < r@.len() ==> (#[trigger] r@[i]).1 == votes@.to_multiset().count(r@[i].0),
        forall|j: int|
            0 <= j < votes@.len() ==> exists|i: int|
                0 <= i < r@.len() && (#[trigger] r@[i]).0 == #[trigger] votes@[j],
{
    let bag: HashBag<usize> = votes.iter().copied().collect();
    bag.set_iter().map(|(s, c)| (*s, c)).collect()
}

} // verus!
