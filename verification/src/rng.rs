//! Trusted randomness: thin wrappers over the `rand` crate. The contracts
//! state only the range and distinctness of what comes back, never which
//! values: to the verifier two draws on equal inputs may differ.

use vstd::prelude::*;
use rand::RngExt;

verus! {

/// Relies on rand's `RngExt::random_range` over `0..n`, which returns a value
/// inside the range and panics only on an empty range, ruled out here. (Like
/// every draw, this aborts if the operating system's random source fails at
/// the thread's first draw.)
#[verifier::external_body]
pub fn rand_below(n: usize) -> (r: usize)
    requires
        n > 0,
    ensures
        r < n,
{
    rand::rng().random_range(0..n)
}

/// Relies on rand's `seq::index::sample`: `amount` distinct indices sampled
/// without replacement from `0..length`; it panics only when
/// `amount > length`, ruled out here.
#[verifier::external_body]
pub fn sample_indices(length: usize, amount: usize) -> (r: Vec<usize>)
    requires
        amount <= length,
    ensures
        r@.len() == amount,
        forall|i: int| 0 <= i < r@.len() ==> r@[i] < length,
        forall|i: int, j: int| 0 <= i < j < r@.len() ==> r@[i] != r@[j],
{
    let mut rng = rand::rng();
    rand::seq::index::sample(&mut rng, length, amount).into_vec()
}

} // verus!
