//! The source of chance for the probabilistic composer steps.

use rand::Rng;
use vstd::prelude::*;

verus! {

/// One sample below `bound` from the thread-local generator
/// (`rand::thread_rng().gen_range(0..bound)`).
///
/// `gen_range` returns a value inside the half-open range it is given and
/// panics on an empty range, which `bound > 0` rules out. Nothing more is
/// claimed: two calls may differ.
#[verifier::external_body]
pub(crate) fn random_below(bound: usize) -> (r: usize)
    requires
        bound > 0,
    ensures
        r < bound,
{
    rand::thread_rng().gen_range(0..bound)
}

} // verus!
