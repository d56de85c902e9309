//! The source of randomness behind piece selection.

use vstd::prelude::*;
use rand::rngs::ThreadRng;
use rand::Rng;

verus! {

/// `rand::rngs::ThreadRng`: a handle to the calling thread's generator.
/// Nothing inside it is looked at: a board carries the handle and hands
/// it to the draws.
#[verifier::external_type_specification]
#[verifier::external_body]
pub struct ExThreadRng(ThreadRng);

/// `rand::thread_rng`: hands out the calling thread's generator, which
/// the operating system seeds on first use.  Nothing is claimed of the
/// handle that comes back.  Where the operating system cannot seed the
/// generator the call panics; nothing a caller passes decides that.
pub assume_specification[ rand::thread_rng ]() -> (rng: ThreadRng);

/// `Rng::gen_range` over the half-open range `0..bound`: draws a number
/// below `bound`.  The call panics on an empty range, which `bound > 0`
/// rules out; the number drawn lies inside the range, and which number
/// comes is left open.
#[verifier::external_body]
pub(crate) fn draw_below(rng: &mut ThreadRng, bound: usize) -> (drawn: usize)
    requires
        bound > 0,
    ensures
        drawn < bound,
{
    rng.gen_range(0..bound)
}

} // verus!
