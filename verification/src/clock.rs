//! The wall clock, read through the `time` crate. Times are unix nanoseconds.
use vstd::prelude::*;

verus! {

/// The largest distance from the epoch, in nanoseconds, that a time the clock
/// reports can have: beyond a million years either way.
pub const CLOCK_BOUND_NANOS: i128 = 1_000_000_000_000_000_000_000_000;

/// The current time, from `time::OffsetDateTime::now_utc`, as unix nanoseconds
/// (`OffsetDateTime::unix_timestamp_nanos`). Which instant it reads is the
/// machine's; the contract claims only that it lies within the years an
/// `OffsetDateTime` can hold (at most 999,999 from the epoch).
#[verifier::external_body]
pub(crate) fn now_unix_nanos() -> (now: i128)
    ensures
        -CLOCK_BOUND_NANOS <= now <= CLOCK_BOUND_NANOS,
{
    time::OffsetDateTime::now_utc().unix_timestamp_nanos()
}

} // verus!
