//! Randomness, drawn from the thread-local generator.

use crate::stun_servers::StunServer;
use vstd::prelude::*;

verus! {

/// Relies on `rand::Rng::gen_range` on `rand::thread_rng()`: a value drawn from
/// `0..bound`; it panics only on an empty range, which `requires` excludes.
#[verifier::external_body]
pub(crate) fn random_below(bound: usize) -> (r: usize)
    requires
        bound > 0,
    ensures
        r < bound,
{
    rand::Rng::gen_range(&mut rand::thread_rng(), 0..bound)
}

/// Relies on `rand::seq::SliceRandom::shuffle` on `rand::thread_rng()`: the
/// slice is permuted in place by swaps, so it keeps the same elements.
#[verifier::external_body]
pub(crate) fn shuffle_servers(v: &mut Vec<StunServer>)
    ensures
        final(v)@.to_multiset() == old(v)@.to_multiset(),
{
    rand::seq::SliceRandom::shuffle(v.as_mut_slice(), &mut rand::thread_rng())
}

} // verus!
