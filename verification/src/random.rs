//! The source of chance. Nothing here is proved: these items state what the
//! `rand` crate is trusted to do.

use vstd::prelude::*;
use rand::Rng;
use rand::rngs::ThreadRng;

verus! {

/// `rand::rngs::ThreadRng`, the handle to the thread's generator. Nothing is
/// known of what it holds.
#[verifier::external_type_specification]
#[verifier::external_body]
pub struct ExThreadRng(ThreadRng);

/// `rand::thread_rng` hands out the handle to the calling thread's generator.
/// Nothing is claimed of it.
pub assume_specification[ rand::thread_rng ]() -> (rng: ThreadRng);

/// `Rng::gen_range` on the half-open range `low..high` of `u16`. It refuses
/// an empty range, hence the precondition; the number it draws lies in the
/// range. Which number that is depends on the generator, and nothing is
/// claimed of it.
#[verifier::external_body]
pub(crate) fn gen_range(rng: &mut ThreadRng, low: u16, high: u16) -> (r: u16)
    requires
        low < high,
    ensures
        low <= r < high,
{
    rng.gen_range(low..high)
}

} // verus!
