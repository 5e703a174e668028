//! The random stream that generation and mutation draw from.

use vstd::prelude::*;

verus! {

/// The caller-owned, seedable generator that every random choice reads from.
pub type ExprRng = rand_chacha::ChaCha20Rng;

/// Declares rand_chacha's `ChaCha20Rng` so that the generator can be passed
/// through; nothing is assumed about its state.
#[verifier::external_type_specification]
#[verifier::external_body]
pub struct ExChaCha20Rng(rand_chacha::ChaCha20Rng);

/// Relies on `rand::Rng::gen_range` over `0..bound`: a draw from a non-empty
/// half-open range lies inside it (the call panics on an empty range, hence
/// the precondition).
#[verifier::external_body]
pub(crate) fn random_below(rng: &mut ExprRng, bound: u64) -> (r: u64)
    requires
        bound > 0,
    ensures
        r < bound,
{
    rand::Rng::gen_range(rng, 0..bound)
}

} // verus!
