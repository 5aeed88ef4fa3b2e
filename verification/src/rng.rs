//! Trusted draws from the system random number generator.

use vstd::prelude::*;

verus! {

/// Relies on `rand::Rng::gen_range` on a fresh `rand::thread_rng`: a draw
/// from the inclusive range, which is all the callers depend on.
#[verifier::external_body]
pub(crate) fn random_u16_inclusive(lo: u16, hi: u16) -> (r: u16)
    requires
        lo <= hi,
    ensures
        lo <= r <= hi,
{
    rand::Rng::gen_range(&mut rand::thread_rng(), lo..=hi)
}

/// Relies on `rand::Rng::gen_range` on a fresh `rand::thread_rng`: a draw
/// from the half-open range, which is all the callers depend on.
#[verifier::external_body]
pub(crate) fn random_i8_range(lo: i8, hi: i8) -> (r: i8)
    requires
        lo < hi,
    ensures
        lo <= r < hi,
{
    rand::Rng::gen_range(&mut rand::thread_rng(), lo..hi)
}

} // verus!
