//! Spans of time, read as the whole nanoseconds they hold.

use vstd::prelude::*;
use std::time::Duration;

verus! {

/// The whole nanoseconds `duration` spans: what `Duration::as_nanos` returns.
pub uninterp spec fn duration_nanos(duration: Duration) -> u128;

/// `Duration::as_nanos`: the total number of whole nanoseconds the duration
/// contains. Two durations compare, and a duration is zero, exactly as these
/// counts do.
#[verifier::external_body]
pub(crate) fn nanos_of(duration: &Duration) -> (nanos: u128)
    ensures
        nanos == duration_nanos(*duration),
{
    duration.as_nanos()
}

/// `Duration::as_secs`: the whole seconds the duration contains, which are
/// its whole nanoseconds divided by a billion.
#[verifier::external_body]
pub(crate) fn whole_secs_of(duration: &Duration) -> (secs: u64)
    ensures
        secs == duration_nanos(*duration) / 1_000_000_000,
{
    duration.as_secs()
}

/// `Duration::subsec_nanos`: the nanoseconds past the whole seconds, which
/// are its whole nanoseconds modulo a billion.
#[verifier::external_body]
pub(crate) fn subsec_nanos_of(duration: &Duration) -> (nanos: u32)
    ensures
        nanos == duration_nanos(*duration) % 1_000_000_000,
{
    duration.subsec_nanos()
}

} // verus!
