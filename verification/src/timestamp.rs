//! Points in time, as seconds and nanoseconds since the Unix epoch.

use vstd::prelude::*;
use chrono::Utc;

verus! {

/// The first second that a timestamp can hold: the start of the year -262143.
pub const MIN_SECS: i64 = -8_334_601_228_800;

/// The last second that a timestamp can hold: the end of the year 262142.
pub const MAX_SECS: i64 = 8_210_266_876_799;

/// A point in time in UTC.
///
/// `secs` counts non-leap seconds since 1970-01-01T00:00:00Z, `nanos` the
/// nanoseconds since the last second boundary. During a leap second, which
/// can only follow a 59th second, `nanos` runs from 1,000,000,000 to
/// 1,999,999,999.
#[derive(Clone, Copy, Debug, PartialEq, Eq, Structural)]
pub struct Timestamp {
    pub secs: i64,
    pub nanos: u32,
}

impl Timestamp {
    /// The timestamp lies in the supported range and its nanoseconds fit its second.
    pub open spec fn valid(self) -> bool {
        &&& MIN_SECS <= self.secs <= MAX_SECS
        &&& self.nanos < 2_000_000_000
        &&& (self.nanos < 1_000_000_000 || self.secs % 60 == 59)
    }

    /// `self` is strictly earlier than `other`.
    pub open spec fn is_before(self, other: Timestamp) -> bool {
        self.secs < other.secs || (self.secs == other.secs && self.nanos < other.nanos)
    }

    /// `self` is `other` or later.
    pub open spec fn is_at_or_after(self, other: Timestamp) -> bool {
        !self.is_before(other)
    }

    /// Whole milliseconds since the epoch.
    pub open spec fn epoch_millis(self) -> int {
        self.secs * 1000 + self.nanos / 1_000_000
    }

    /// Builds a timestamp, or nothing when the parts are out of range.
    pub fn new(secs: i64, nanos: u32) -> (result: Option<Timestamp>)
        ensures
            result == if (Timestamp { secs, nanos }).valid() {
                Some(Timestamp { secs, nanos })
            } else {
                None
            },
    {
        if secs < MIN_SECS || secs > MAX_SECS || nanos >= 2_000_000_000 {
            return None;
        }
        if nanos >= 1_000_000_000 {
            let minute_second = secs - (secs / 60) * 60;
            let minute_second = if minute_second < 0 { minute_second + 60 } else { minute_second };
            if minute_second != 59 {
                return None;
            }
        }
        Some(Timestamp { secs, nanos })
    }

    /// Whether `self` is strictly earlier than `other`.
    pub fn before(&self, other: &Timestamp) -> (earlier: bool)
        ensures
            earlier == self.is_before(*other),
    {
        self.secs < other.secs || (self.secs == other.secs && self.nanos < other.nanos)
    }

    /// Whole milliseconds since the epoch.
    pub fn millis(&self) -> (ms: i64)
        requires
            self.valid(),
        ensures
            ms == self.epoch_millis(),
    {
        let sub: i64 = (self.nanos / 1_000_000) as i64;
        self.secs * 1000 + sub
    }

    /// Reads the system clock.
    pub fn now() -> (now: Timestamp)
        ensures
            now.valid(),
            now.secs >= 0,
            now.nanos < 1_000_000_000,
    {
        utc_now()
    }
}

/// Reads the current time in UTC.
///
/// Calls `chrono::Utc::now` and takes the result apart with
/// `DateTime::timestamp` and `DateTime::timestamp_subsec_nanos`. The clock
/// is read as a duration since the epoch, so the seconds are not negative
/// and the nanoseconds stay below one second; the result is a `DateTime`,
/// so it lies in the supported range. The call panics if the system clock
/// is set before 1970.
#[verifier::external_body]
fn utc_now() -> (now: Timestamp)
    ensures
        now.valid(),
        now.secs >= 0,
        now.nanos < 1_000_000_000,
{
    let now = Utc::now();
    Timestamp { secs: now.timestamp(), nanos: now.timestamp_subsec_nanos() }
}

} // verus!
