use rand::rngs::StdRng;
use rand::{Rng, RngCore};
use vstd::prelude::*;

verus! {

/// rand's seedable generator; every random choice of the library draws from one.
#[verifier::external_type_specification]
#[verifier::external_body]
pub struct ExStdRng(StdRng);

/// Relies on rand's `Rng::gen_range` over `0..bound`: a value below `bound`.
/// It panics on an empty range, which `requires` leaves out.
#[verifier::external_body]
pub(crate) fn draw_below(rng: &mut StdRng, bound: usize) -> (r: usize)
    requires
        0 < bound,
    ensures
        r < bound,
{
    rng.gen_range(0..bound)
}

/// Relies on rand's `RngCore::next_u32`: any 32-bit value.
#[verifier::external_body]
pub(crate) fn draw_u32(rng: &mut StdRng) -> u32 {
    rng.next_u32()
}

/// Relies on rand's `Rng::gen::<usize>`: any `usize` value.
#[verifier::external_body]
pub(crate) fn draw_usize(rng: &mut StdRng) -> usize {
    rng.gen::<usize>()
}

} // verus!
