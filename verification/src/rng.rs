//! Randomness for the simulation, drawn from the process-wide generator
//! of the `rand` crate.

use rand::Rng;
use vstd::prelude::*;

verus! {

/// Draws a uniformly random value from the half-open range `[lo, hi)`.
///
/// Relies on `rand::thread_rng` and `rand::Rng::gen_range`: `gen_range`
/// returns a value inside the given range and panics only when the range
/// is empty, which the precondition rules out.
#[verifier::external_body]
pub(crate) fn sample_range(lo: i64, hi: i64) -> (r: i64)
    requires
        lo < hi,
    ensures
        lo <= r < hi,
{
    rand::thread_rng().gen_range(lo..hi)
}

} // verus!
