//! The random number generator of the `rand` crate, as the library uses it.
//!
//! Each item here is trusted: its contract is what `rand`'s source and
//! documentation show, not something proved.
use vstd::prelude::*;
use rand::Rng;

verus! {

/// `rand::rngs::ThreadRng`, the thread-local generator; opaque here.
#[verifier::external_type_specification]
#[verifier::external_body]
pub struct ExThreadRng(rand::rngs::ThreadRng);

/// Calls `rand::thread_rng()`. Nothing is claimed of the generator it
/// hands out.
#[verifier::external_body]
pub(crate) fn thread_rng() -> rand::rngs::ThreadRng {
    rand::thread_rng()
}

/// Calls `Rng::gen_range` on the half-open range `low..high` of `usize`.
/// `gen_range` asserts that the range is not empty, so `low < high` is
/// required; the value it returns lies in the range. Which value comes
/// back depends on the generator's state and is not stated.
#[verifier::external_body]
pub(crate) fn gen_range_usize(rng: &mut rand::rngs::ThreadRng, low: usize, high: usize) -> (r: usize)
    requires
        low < high,
    ensures
        low <= r < high,
{
    rng.gen_range(low..high)
}

} // verus!
