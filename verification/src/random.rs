//! The source of randomness. Nothing here is proved: each function states
//! what the `rand` crate guarantees of every value it may hand out.

use crate::value::is_alphanumeric;
use rand::Rng;
use vstd::prelude::*;

verus! {

/// `rand::Rng::gen_range` on `rand::thread_rng()`, for a half-open range of
/// `u64`. The outside function panics on an empty range, which the
/// precondition rules out. The only claim is that the value lies in the
/// range; which value comes is left open.
#[verifier::external_body]
pub(crate) fn random_in_range(low: u64, high: u64) -> (drawn: u64)
    requires
        low < high,
    ensures
        low <= drawn < high,
{
    rand::thread_rng().gen_range(low..high)
}

/// `rand::Rng::sample` on `rand::thread_rng()` with the distribution
/// `rand::distributions::Alphanumeric`, which picks a byte from the ASCII
/// letters and digits. The only claim is that the byte is one of those.
#[verifier::external_body]
pub(crate) fn random_alphanumeric() -> (byte: u8)
    ensures
        is_alphanumeric(byte as char),
{
    rand::thread_rng().sample(rand::distributions::Alphanumeric)
}

} // verus!
