//! Readings of the clock.
use vstd::prelude::*;

verus! {

/// The seconds since the epoch; zero for a clock that is set before it, which
/// has no reading.
pub fn unix_seconds(reading: Option<u64>) -> (seconds: u64)
    ensures
        seconds == (match reading {
            Some(seconds) => seconds,
            None => 0,
        }),
{
    match reading {
        Some(seconds) => seconds,
        None => 0,
    }
}

/// The nanoseconds since the epoch; zero for a clock that is set before it,
/// which has no reading.
pub fn monotonic_nanos(reading: Option<u128>) -> (nanos: u128)
    ensures
        nanos == (match reading {
            Some(nanos) => nanos,
            None => 0,
        }),
{
    match reading {
        Some(nanos) => nanos,
        None => 0,
    }
}

} // verus!
