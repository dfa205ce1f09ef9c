//! The random draws that the game makes.
use vstd::prelude::*;

verus! {

/// Calls `rand::random_range` on the half-open range from zero to `bound`. The range
/// must not be empty; the draw lies in it, and nothing else is known of it.
#[verifier::external_body]
pub(crate) fn random_below(bound: u64) -> (draw: u64)
    requires
        bound > 0,
    ensures
        draw < bound,
{
    rand::random_range(0..bound)
}

/// Calls `rand::random` for one byte. Nothing is known of the byte.
#[verifier::external_body]
pub(crate) fn random_byte() -> u8 {
    rand::random::<u8>()
}

} // verus!
