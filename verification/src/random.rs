//! The source of the random draws that populate a new board. The draws come
//! from the `rand` crate; what is said of them here is taken on trust.

use rand::Rng;
use vstd::prelude::*;

verus! {

/// The generator that `rand` keeps for each thread. Nothing is known of its
/// state: it is only carried from one draw to the next.
#[verifier::external_type_specification]
#[verifier::external_body]
pub struct ExThreadRng(rand::rngs::ThreadRng);

/// `rand::thread_rng` hands out the generator of the calling thread. Nothing
/// is claimed of it. The first call on a thread seeds the generator from the
/// operating system and panics if the system gives no seed.
pub assume_specification[ rand::thread_rng ]() -> (rng: rand::rngs::ThreadRng);

/// `rand::Rng::gen_range` on a thread's generator, for `u32`: a draw from
/// `low` inclusive to `high` exclusive. The bounds of the draw are all that is
/// claimed; which value comes is left open. The outside method panics unless
/// `low < high`.
#[verifier::external_body]
pub(crate) fn gen_range(rng: &mut rand::rngs::ThreadRng, low: u32, high: u32) -> (draw: u32)
    requires
        low < high,
    ensures
        low <= draw < high,
{
    rng.gen_range(low, high)
}

} // verus!
