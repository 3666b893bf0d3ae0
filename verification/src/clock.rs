//! The wall clock.

use vstd::prelude::*;

verus! {

/// No reading of the clock lies further from the Unix epoch than this many
/// seconds.
pub const CLOCK_LIMIT: i64 = 32_000_000_000_000;

/// Whether a number of seconds since the Unix epoch is one that the clock
/// can show.
pub open spec fn clock_shows(now: int) -> bool {
    -CLOCK_LIMIT <= now <= CLOCK_LIMIT
}

/// The current time as seconds since the Unix epoch, read with
/// `time::OffsetDateTime::now_utc` and turned into a number with
/// `unix_timestamp`. Which time it is, the clock decides. The time crate
/// holds no date outside the years -999,999 to 999,999, and a year has at
/// most 366 days of 86,400 seconds, so the number lies within 1,001,970
/// such years of the epoch, which is less than the limit.
#[verifier::external_body]
pub(crate) fn unix_now() -> (now: i64)
    ensures
        clock_shows(now as int),
{
    time::OffsetDateTime::now_utc().unix_timestamp()
}

} // verus!
