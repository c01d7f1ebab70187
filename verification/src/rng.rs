use vstd::prelude::*;

use rand::seq::SliceRandom;
use rand::RngExt;

verus! {

/// Relies on rand's `SliceRandom::shuffle`: an in-place permutation of the
/// slice, picked uniformly, so the multiset of elements is unchanged.
#[verifier::external_body]
pub(crate) fn shuffle_values<T>(v: &mut Vec<T>)
    ensures
        final(v)@.to_multiset() == old(v)@.to_multiset(),
{
    v.shuffle(&mut rand::rng());
}

/// Relies on rand's `Rng::random_range`: a value drawn uniformly from
/// `0..bound`, so strictly below `bound`. `random_range` panics on an empty
/// range, hence the requirement.
#[verifier::external_body]
pub(crate) fn random_index(bound: usize) -> (r: usize)
    requires
        bound > 0,
    ensures
        r < bound,
{
    rand::rng().random_range(0..bound)
}

} // verus!
