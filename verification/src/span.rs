//! Spans of time: the calls into the standard library's `Duration`.
use std::time::Duration;

use vstd::prelude::*;

verus! {

/// The length of a duration in nanoseconds: what `Duration::as_nanos` returns.
pub uninterp spec fn nanos_of(duration: Duration) -> u128;

/// Calls `Duration::as_nanos`.
#[verifier::external_body]
pub(crate) fn as_nanos(duration: &Duration) -> (nanos: u128)
    ensures
        nanos == nanos_of(*duration),
{
    duration.as_nanos()
}

/// Calls `Duration::from_millis`: a thousandth of a second has a million nanoseconds.
#[verifier::external_body]
pub(crate) fn from_millis(millis: u64) -> (duration: Duration)
    ensures
        nanos_of(duration) == millis * 1_000_000,
{
    Duration::from_millis(millis)
}

/// Subtracts durations with `-`, which panics where the second is the longer one.
#[verifier::external_body]
pub(crate) fn minus(whole: &Duration, part: &Duration) -> (rest: Duration)
    requires
        nanos_of(*part) <= nanos_of(*whole),
    ensures
        nanos_of(rest) == nanos_of(*whole) - nanos_of(*part),
{
    *whole - *part
}

} // verus!
