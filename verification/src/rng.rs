//! The one place the crate draws randomness: spawn-time phase offsets and
//! initial weapon cooldowns, so a wave of identical hulls does not move and
//! fire in lockstep.

use vstd::prelude::*;

verus! {

/// Relies on `fastrand::u64` with the half-open range `0..n`: it samples a
/// value of that range and panics only when the range is empty.
#[verifier::external_body]
pub fn random_below(n: u64) -> (r: u64)
    requires
        n >= 1,
    ensures
        r < n,
{
    fastrand::u64(0..n)
}

} // verus!
