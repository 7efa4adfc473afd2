//! The source of chance: the thread's random number generator of the `rand`
//! crate. Nothing here is proved; the contracts say what `rand` documents.

use vstd::prelude::*;
use rand::rngs::ThreadRng;
use rand::Rng;

verus! {

/// `rand::rngs::ThreadRng`, a handle to the generator that belongs to the
/// current thread. Nothing is known of what it holds.
#[verifier::external_type_specification]
#[verifier::external_body]
pub struct ExThreadRng(ThreadRng);

/// `rand::thread_rng`: hands out the handle. Nothing is claimed of it. The
/// generator is seeded from the operating system on first use, and the call
/// panics where the system has no randomness to give.
pub assume_specification[ rand::thread_rng ]() -> (rng: ThreadRng)
;

/// `Rng::gen_range` on an inclusive range of `i32`: some number of the range.
/// Which one is left open, so two calls with the same ends may differ. The
/// range must not be empty, since `gen_range` panics on an empty one.
#[verifier::external_body]
pub(crate) fn sample_between(rng: &mut ThreadRng, low: i32, high: i32) -> (drawn: i32)
    requires
        low <= high,
    ensures
        low <= drawn <= high,
{
    rng.gen_range(low..=high)
}

} // verus!
