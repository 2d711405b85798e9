//! The source of chance that the movement rules draw from.

use vstd::prelude::*;
use rand::Rng;
use rand::rngs::ThreadRng;

verus! {

/// `rand::rngs::ThreadRng`, the generator of the current thread. Nothing is
/// known of its state.
#[verifier::external_type_specification]
#[verifier::external_body]
pub struct ExThreadRng(rand::rngs::ThreadRng);

/// `rand::thread_rng` hands out the generator of the current thread. Nothing
/// is claimed of the generator it returns.
pub assume_specification[ rand::thread_rng ]() -> (rng: ThreadRng);

/// `rand::Rng::gen_range` on the half-open range `low..high` of `isize`.
/// The call panics on an empty range, which the precondition rules out. What
/// is claimed of the outcome is only that it lies in the range; which value
/// of the range comes out is left open.
#[verifier::external_body]
pub(crate) fn gen_range(rng: &mut ThreadRng, low: isize, high: isize) -> (drawn: isize)
    requires
        low < high,
    ensures
        low <= drawn < high,
{
    rng.gen_range(low..high)
}

} // verus!
