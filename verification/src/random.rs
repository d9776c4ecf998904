//! The source of randomness.
//!
//! Random numbers come from the `rand` crate. Its functions are called here
//! and nowhere else; what is stated of them below is taken on trust from the
//! crate's source, not proved.

use vstd::prelude::*;
use rand::Rng;

verus! {

/// The `rand` crate's handle to the thread-local generator. Nothing is known
/// of its inside.
#[verifier::external_type_specification]
#[verifier::external_body]
pub struct ExThreadRng(rand::rngs::ThreadRng);

/// Calls `rand::thread_rng`, which hands out the calling thread's generator.
/// Nothing is claimed of the handle. The call gives up only where the
/// operating system has no seed to offer.
#[verifier::external_body]
pub(crate) fn thread_rng() -> (rng: rand::rngs::ThreadRng) {
    rand::thread_rng()
}

/// Calls `Rng::gen_range` on the half-open range `0..bound`. The crate's
/// source rejects an empty range, which `bound > 0` rules out, and returns a
/// number of the range; which one is left open.
#[verifier::external_body]
pub(crate) fn random_below(rng: &mut rand::rngs::ThreadRng, bound: u64) -> (r: u64)
    requires
        bound > 0,
    ensures
        r < bound,
{
    rng.gen_range(0..bound)
}

/// Calls `rand::seq::index::sample`. The crate documents that it samples
/// exactly `amount` distinct indices from `0..length` and that it panics
/// where `amount` exceeds `length`, which the precondition rules out. Which
/// indices come out, and in which order, is left open.
#[verifier::external_body]
pub(crate) fn sample_indices(rng: &mut rand::rngs::ThreadRng, length: usize, amount: usize) -> (r:
    Vec<usize>)
    requires
        amount <= length,
    ensures
        r@.len() == amount,
        forall|i: int| 0 <= i < r@.len() ==> r@[i] < length,
        forall|i: int, j: int| 0 <= i < j < r@.len() ==> r@[i] != r@[j],
{
    rand::seq::index::sample(rng, length, amount).into_vec()
}

} // verus!
