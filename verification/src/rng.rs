//! Randomness for the protocol: a seedable generator for fresh commitments
//! and for the jointly seeded expansions (challenge coefficients, shuffle).

use rand::rngs::StdRng;
use rand::{Rng, SeedableRng};
use vstd::prelude::*;

verus! {

#[verifier::external_type_specification]
#[verifier::external_body]
pub struct ExStdRng(StdRng);

/// Relies on rand's `StdRng::from_seed`: a deterministic generator that is a
/// function of the seed alone, used to expand a jointly chosen 128-bit seed.
#[verifier::external_body]
pub fn rng_from_seed(seed: &[u8; 16]) -> (r: StdRng)
{
    let mut s = [0u8; 32];
    s[..16].copy_from_slice(seed);
    StdRng::from_seed(s)
}

/// Relies on rand's `Rng::gen::<bool>`: a fresh bit; nothing is promised of
/// its value.
#[verifier::external_body]
pub fn gen_bool(rng: &mut StdRng) -> (r: bool)
{
    rng.gen()
}

/// Relies on rand's `Rng::gen::<[u8; 16]>`: a fresh 128-bit seed block;
/// nothing is promised of its value.
#[verifier::external_body]
pub fn gen_seed(rng: &mut StdRng) -> (r: [u8; 16])
{
    rng.gen()
}

/// Relies on rand's `Rng::gen_range` over `0..bound`: the draw lies below the
/// bound. The call panics on an empty range, so the bound must be positive.
#[verifier::external_body]
pub fn gen_index(rng: &mut StdRng, bound: usize) -> (r: usize)
    requires
        bound > 0,
    ensures
        r < bound,
{
    rng.gen_range(0..bound)
}

} // verus!
