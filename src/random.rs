//! The random source of the generator: `rand`'s standard generator, seeded
//! by the caller for reproducible runs or from the operating system.
//! Nothing is promised of a drawn value beyond its range.

use rand::rngs::StdRng;
use rand::{Rng, SeedableRng};
use vstd::prelude::*;

verus! {

#[verifier::external_type_specification]
#[verifier::external_body]
pub struct ExStdRng(StdRng);

/// Relies on `rand::SeedableRng::seed_from_u64` for `StdRng`: a generator
/// whose draws are fixed by `seed`.
#[verifier::external_body]
pub(crate) fn seeded_rng(seed: u64) -> (r: StdRng) {
    StdRng::seed_from_u64(seed)
}

/// Relies on `rand::SeedableRng::from_entropy` for `StdRng`: a generator
/// seeded by the operating system.
#[verifier::external_body]
pub(crate) fn entropy_rng() -> (r: StdRng) {
    StdRng::from_entropy()
}

/// Relies on `rand::Rng::gen_range` over `lo..hi`: a value in the half-open
/// range, which must not be empty (the call panics on an empty range).
#[verifier::external_body]
pub(crate) fn random_range(rng: &mut StdRng, lo: u32, hi: u32) -> (r: u32)
    requires
        lo < hi,
    ensures
        lo <= r < hi,
{
    rng.gen_range(lo..hi)
}

/// Relies on `rand::Rng::sample_iter` with the `Standard` distribution, an
/// endless stream of bytes, of which exactly `len` are taken.
#[verifier::external_body]
pub(crate) fn random_bytes(rng: &mut StdRng, len: usize) -> (r: Vec<u8>)
    ensures
        r@.len() == len,
{
    rng.sample_iter(rand::distributions::Standard).take(len).collect()
}

} // verus!
