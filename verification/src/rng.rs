//! The random source, which comes from the `rand` crate. Nothing in this file is
//! proved: each contract here is taken from that crate's documentation and
//! source.

use rand::rngs::ThreadRng;
use rand::Rng;
use vstd::prelude::*;

verus! {

/// `rand::rngs::ThreadRng`, a handle to the generator of the current thread.
/// Nothing is known of what it holds.
#[verifier::external_type_specification]
#[verifier::external_body]
pub struct ExThreadRng(ThreadRng);

/// Calls `rand::thread_rng`, which hands out the generator of the current
/// thread, seeded by the system. Nothing is claimed of the handle. (Where the
/// system gives no seed, `rand` panics.)
#[verifier::external_body]
pub(crate) fn thread_rng() -> ThreadRng {
    rand::thread_rng()
}

/// Calls `rand::Rng::gen_range` with the bounds `0` and `high`, which draws a
/// number from 0 up to but not including `high`. The contract claims that
/// range and no more: which number comes out is left open, and two calls may
/// differ. `gen_range` panics where the range is empty, so `high` must be
/// positive.
#[verifier::external_body]
pub(crate) fn gen_below(rng: &mut ThreadRng, high: u8) -> (n: u8)
    requires
        high > 0,
    ensures
        n < high,
{
    rng.gen_range(0, high)
}

} // verus!
