//! The source of randomness.

use vstd::prelude::*;
use rand::Rng;

verus! {

/// Calls `rand::Rng::gen_range` on the generator of the current thread with
/// the inclusive range from `lo` to `hi`. The call panics on an empty range,
/// which `requires` leaves out; all that is claimed of its result is that it
/// lies in the range. The generator of the thread is seeded from the
/// system on first use, and `rand` panics if the system gives no seed.
#[verifier::external_body]
pub(crate) fn random_in_range(lo: i64, hi: i64) -> (r: i64)
    requires
        lo <= hi,
    ensures
        lo <= r <= hi,
{
    rand::thread_rng().gen_range(lo..=hi)
}

} // verus!
