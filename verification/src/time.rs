//! Nanosecond arithmetic on monotonic instants.
use vstd::prelude::*;

verus! {

/// Nanoseconds in one millisecond.
pub const NANOS_PER_MILLI: u64 = 1_000_000;

/// `later - earlier`, or zero when `later` comes first.
pub open spec fn nanos_since(later: u64, earlier: u64) -> u64 {
    if later >= earlier {
        (later - earlier) as u64
    } else {
        0
    }
}

/// The nanoseconds that elapsed from `earlier` to `later`, saturating at zero
/// when `later` is the earlier of the two.
pub fn saturating_nanos_since(later: u64, earlier: u64) -> (ns: u64)
    ensures
        ns == nanos_since(later, earlier),
{
    if later >= earlier {
        later - earlier
    } else {
        0
    }
}

/// A whole number of milliseconds as nanoseconds.
pub fn millis_to_nanos(ms: u32) -> (ns: u64)
    ensures
        ns == ms * NANOS_PER_MILLI,
{
    (ms as u64) * NANOS_PER_MILLI
}

} // verus!
