//! The wall clock, read once per build and handed on as a plain number.

use vstd::prelude::*;

verus! {

/// Whole seconds since the Unix epoch as `std::time::SystemTime::now` reports them, or
/// `None` when the system clock stands before the epoch.
///
/// Nothing is claimed of the value: it differs from call to call.
#[verifier::external_body]
pub(crate) fn unix_time_secs() -> Option<u64> {
    std::time::SystemTime::now().duration_since(std::time::UNIX_EPOCH).ok().map(|d| d.as_secs())
}

/// The 32-bit timestamp that stands for `now_secs`: the value itself, or the largest
/// 32-bit value once the clock has passed it.
pub open spec fn saturated_secs(now_secs: u64) -> u32 {
    if now_secs > u32::MAX {
        u32::MAX
    } else {
        now_secs as u32
    }
}

/// Clamps a second count into 32 bits.
pub fn saturate_secs(now_secs: u64) -> (secs: u32)
    ensures
        secs == saturated_secs(now_secs),
{
    if now_secs > u32::MAX as u64 {
        u32::MAX
    } else {
        now_secs as u32
    }
}

} // verus!
