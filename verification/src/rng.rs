use rand::rngs::ThreadRng;
use rand::Rng;
use vstd::prelude::*;

verus! {

/// The generator of `rand` that each thread keeps for itself. Nothing is known of what is in it.
#[verifier::external_type_specification]
#[verifier::external_body]
pub struct ExThreadRng(ThreadRng);

/// `rand::thread_rng` hands out the calling thread's generator, which the system seeds when
/// the thread first asks for it. Nothing is claimed of it.
pub assume_specification[ rand::thread_rng ]() -> (rng: ThreadRng)
;

/// `Rng::gen_range` on a half-open range of `usize`: `rand` draws from `low..high`, so the
/// result is at least `low` and below `high`. It panics on an empty range, which `requires`
/// leaves out. Which number of the range comes is left open.
#[verifier::external_body]
pub(crate) fn gen_range(rng: &mut ThreadRng, low: usize, high: usize) -> (drawn: usize)
    requires
        low < high,
    ensures
        low <= drawn < high,
{
    rng.gen_range(low..high)
}

/// `rand::random` for a `u128`. Every number of the type may come, so nothing is claimed of it.
#[verifier::external_body]
pub(crate) fn random_u128() -> (drawn: u128) {
    rand::random()
}

} // verus!
