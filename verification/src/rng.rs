use vstd::prelude::*;
use rand::Rng;

verus! {

/// The standard seeded random number generator of the `rand` crate, carried through opaquely.
#[verifier::external_type_specification]
#[verifier::external_body]
pub struct ExStdRng(rand::rngs::StdRng);

/// Draws a value uniformly from `0..n` with `rand::Rng::gen_range`.
///
/// The contract claims only what `gen_range` documents for a half-open range: the value
/// lies in the range (the range is non-empty, otherwise `gen_range` panics). Which value
/// comes out depends on the generator's state and is left unsaid.
#[verifier::external_body]
pub(crate) fn random_below(rng: &mut rand::rngs::StdRng, n: usize) -> (r: usize)
    requires
        n > 0,
    ensures
        r < n,
{
    rng.gen_range(0..n)
}

/// Draws a byte uniformly from `0..n` with `rand::Rng::gen_range`, sampling at type `u8`.
///
/// As for `random_below`, the contract claims only that the value lies in the non-empty
/// range; which value comes out depends on the generator's state.
#[verifier::external_body]
pub(crate) fn random_u8_below(rng: &mut rand::rngs::StdRng, n: u8) -> (r: u8)
    requires
        n > 0,
    ensures
        r < n,
{
    rng.gen_range(0..n)
}

} // verus!
