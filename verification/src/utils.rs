//! Narrowing of wide intermediate results.

use vstd::prelude::*;

verus! {

/// The `u64` that holds the number `v`, if there is one.
pub open spec fn checked_u64(v: nat) -> Option<u64> {
    if v <= u64::MAX {
        Some(v as u64)
    } else {
        None
    }
}

/// `v`, or the largest `u64` where `v` exceeds it.
pub open spec fn saturated(v: nat) -> nat {
    if v > u64::MAX {
        u64::MAX as nat
    } else {
        v
    }
}

/// Narrows `x` to 64 bits, or reports that it does not fit.
pub fn u128_to_u64_checked(x: u128) -> (narrowed: Option<u64>)
    ensures
        narrowed == checked_u64(x as nat),
{
    if x > u64::MAX as u128 {
        None
    } else {
        Some(x as u64)
    }
}

/// Narrows `x` to 64 bits, or gives the largest `u64` where it does not fit.
pub fn u128_to_u64_saturating(x: u128) -> (narrowed: u64)
    ensures
        narrowed == saturated(x as nat),
{
    if x > u64::MAX as u128 {
        u64::MAX
    } else {
        x as u64
    }
}

} // verus!
