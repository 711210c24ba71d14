//! Calendar timestamps at one-second resolution.

use crate::file_tree::Timestamp;
use vstd::prelude::*;

verus! {

/// A moment of the UTC calendar, as whole seconds since the Unix epoch.
#[derive(Clone, Copy, Debug, PartialEq, Eq, Structural)]
pub struct UtcDateTime {
    pub secs: i64,
}

/// The Unix timestamp of the calendar moment that `chrono` makes of `secs`
/// seconds since the epoch, or `None` where its calendar does not reach that far.
pub uninterp spec fn utc_timestamp(secs: i64) -> Option<i64>;

/// Calls `chrono::DateTime::from_timestamp` with no nanoseconds and reads the
/// moment's `timestamp` back. Whether a moment comes out depends on the seconds
/// alone, and the two calls round-trip: a moment that comes out has the
/// timestamp it was made of.
#[verifier::external_body]
fn checked_utc(secs: i64) -> (r: Option<i64>)
    ensures
        r == utc_timestamp(secs),
        r is Some ==> r == Some(secs),
{
    match chrono::DateTime::from_timestamp(secs, 0) {
        Some(moment) => Some(moment.timestamp()),
        None => None,
    }
}

/// The whole seconds of a point in time, capped at the largest signed count.
pub open spec fn whole_seconds(timestamp: Timestamp) -> i64 {
    if timestamp.secs > i64::MAX as u64 {
        i64::MAX
    } else {
        timestamp.secs as i64
    }
}

/// What the calendar made of a count of seconds, as a moment.
pub open spec fn calendar_moment(converted: Option<i64>) -> Option<UtcDateTime> {
    match converted {
        Some(secs) => Some(UtcDateTime { secs }),
        None => None,
    }
}

/// Whether the calendar reaches the whole seconds of a point in time.
pub open spec fn has_moment(timestamp: Timestamp) -> bool {
    utc_timestamp(whole_seconds(timestamp)) is Some
}

/// The calendar moment of a point in time: its whole seconds, where the calendar
/// reaches that far.
pub open spec fn iso_of(timestamp: Timestamp) -> Option<UtcDateTime> {
    if has_moment(timestamp) {
        Some(UtcDateTime { secs: whole_seconds(timestamp) })
    } else {
        None
    }
}

/// The moment of the epoch itself.
pub open spec fn epoch() -> UtcDateTime {
    UtcDateTime { secs: 0 }
}

impl UtcDateTime {
    /// The moment of the epoch itself.
    pub fn unix_epoch() -> (r: UtcDateTime)
        ensures
            r == epoch(),
    {
        UtcDateTime { secs: 0 }
    }

    /// The seconds since the epoch.
    pub fn timestamp(&self) -> (r: i64)
        ensures
            r == self.secs,
    {
        self.secs
    }
}

/// Wraps what the calendar made of a count of seconds.
pub fn moment_from(converted: Option<i64>) -> (r: Option<UtcDateTime>)
    ensures
        r == calendar_moment(converted),
{
    match converted {
        Some(secs) => Some(UtcDateTime { secs }),
        None => None,
    }
}

/// Turns a point in time into a calendar moment; what lies past the whole
/// second is dropped. Fails where the calendar does not reach that far.
pub fn unix_time_to_iso(timestamp: Timestamp) -> (r: Option<UtcDateTime>)
    ensures
        r == iso_of(timestamp),
{
    let secs: i64 = if timestamp.secs > i64::MAX as u64 {
        i64::MAX
    } else {
        timestamp.secs as i64
    };
    moment_from(checked_utc(secs))
}

} // verus!
