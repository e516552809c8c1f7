//! Random choice and shuffling, supplied by the `fastrand` crate.
//!
//! Randomness is inherently outside what the verifier can pin down, so these
//! wrappers state only what holds of every outcome: a shuffle is a permutation
//! of its input, and a choice, when the pool is non-empty, is an element of
//! the pool. Everything built on top is verified for every such outcome.

use vstd::prelude::*;

verus! {

/// Relies on fastrand::shuffle: an in-place Fisher-Yates pass of element
/// swaps, so the slice afterwards is a permutation of the slice before.
#[verifier::external_body]
pub fn shuffle<T>(v: &mut Vec<T>)
    ensures
        final(v)@.len() == old(v)@.len(),
        final(v)@.to_multiset() == old(v)@.to_multiset(),
{
    fastrand::shuffle(v);
}

/// Relies on fastrand::choice: `None` exactly when the iterator is empty,
/// otherwise the item at a freshly drawn index below its length.
#[verifier::external_body]
pub fn choice_char(v: &Vec<char>) -> (r: Option<char>)
    ensures
        r is Some <==> v@.len() > 0,
        r is Some ==> v@.contains(r->0),
{
    fastrand::choice(v.iter()).copied()
}

} // verus!
