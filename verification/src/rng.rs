//! The crate's only source of randomness: thin trusted wrappers around the
//! `rand` crate.  Everything that consumes a draw is verified against the
//! range promise stated here; nothing else is assumed of the generator.

use rand::Rng;
use rand::SeedableRng;
use vstd::prelude::*;

verus! {

#[verifier::external_type_specification]
#[verifier::external_body]
pub struct ExStdRng(rand::rngs::StdRng);

#[verifier::external_type_specification]
#[verifier::external_body]
pub struct ExThreadRng(rand::rngs::ThreadRng);

/// Relies on rand::SeedableRng::from_os_rng for StdRng: a fresh generator
/// seeded from the operating system's entropy source.  Nothing is promised
/// of the state it starts in.
#[verifier::external_body]
pub(crate) fn rng_from_os() -> rand::rngs::StdRng {
    rand::rngs::StdRng::from_os_rng()
}

/// Relies on rand::SeedableRng::seed_from_u64 for StdRng: a generator
/// deterministically derived from the seed.  Nothing is promised of the
/// state, since the derivation is documented as non-portable.
#[verifier::external_body]
pub(crate) fn rng_from_seed(seed: u64) -> rand::rngs::StdRng {
    rand::rngs::StdRng::seed_from_u64(seed)
}

/// Relies on rand::Rng::random_range over a half-open `i32` range: the
/// result lies inside the range; the call panics only on an empty range,
/// which the precondition rules out.
#[verifier::external_body]
pub(crate) fn draw_std(rng: &mut rand::rngs::StdRng, lo: i32, hi: i32) -> (r: i32)
    requires
        lo <= hi < i32::MAX,
    ensures
        lo <= r <= hi,
{
    rng.random_range(lo..hi + 1)
}

/// Relies on rand::Rng::random_range over a half-open `i32` range, for the
/// thread-local generator: the result lies inside the range; the call panics
/// only on an empty range, which the precondition rules out.
#[verifier::external_body]
pub(crate) fn draw_thread(rng: &mut rand::rngs::ThreadRng, lo: i32, hi: i32) -> (r: i32)
    requires
        lo <= hi < i32::MAX,
    ensures
        lo <= r <= hi,
{
    rng.random_range(lo..hi + 1)
}

} // verus!
