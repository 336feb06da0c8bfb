//! The coordinator's source of randomness, behind trusted wrappers.
//!
//! Nothing downstream depends on which value comes back, only on the
//! bounds stated here: every verified property holds for every outcome.

use vstd::prelude::*;

verus! {

/// Relies on `rand::Rng::gen_range` over `rand::thread_rng()`: a value
/// uniformly drawn from `[0, n)`; it panics only on an empty range, which
/// the precondition rules out.
#[verifier::external_body]
pub(crate) fn rand_below(n: usize) -> (r: usize)
    requires
        n > 0,
    ensures
        r < n,
{
    rand::Rng::gen_range(&mut rand::thread_rng(), 0..n)
}

/// Relies on `rand::seq::SliceRandom::shuffle` with `rand::thread_rng()`:
/// a uniformly random in-place permutation, so the elements are preserved
/// as a multiset.
#[verifier::external_body]
pub(crate) fn shuffle_ids(ids: &mut Vec<i64>)
    ensures
        final(ids)@.len() == old(ids)@.len(),
        final(ids)@.to_multiset() == old(ids)@.to_multiset(),
{
    rand::seq::SliceRandom::shuffle(ids.as_mut_slice(), &mut rand::thread_rng());
}

} // verus!
