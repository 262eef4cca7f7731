//! The crate's only sources of randomness, as thin wrappers over the
//! `rand` crate. Every caller is verified against the stated ranges; the
//! drawn values themselves are, of course, unconstrained.

use vstd::prelude::*;
use rand::Rng;

verus! {

/// Relies on rand::Rng::random_range over the inclusive range `lo..=hi`:
/// the sample lies in the range; it panics only on an empty range, which
/// the precondition rules out.
#[verifier::external_body]
pub fn rand_in_range(lo: i64, hi: i64) -> (r: i64)
    requires
        lo <= hi,
    ensures
        lo <= r <= hi,
{
    rand::rng().random_range(lo..=hi)
}

/// Relies on rand::Rng::random::<bool>, a fair coin; nothing is assumed
/// about the outcome.
#[verifier::external_body]
pub fn rand_coin() -> bool {
    rand::rng().random()
}

} // verus!
