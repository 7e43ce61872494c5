//! Random draws, made by the `rand` crate.

use rand::Rng;
use vstd::prelude::*;

verus! {

/// Calls `rand::Rng::gen_range` on the thread's generator for a number from
/// zero up to, and without, `bound`. Believed, not proved: the number is
/// below `bound`. Which one it is nobody knows beforehand.
#[verifier::external_body]
pub(crate) fn random_below(bound: usize) -> (r: usize)
    requires
        bound > 0,
    ensures
        r < bound,
{
    rand::thread_rng().gen_range(0, bound)
}

} // verus!
