//! Wall-clock times of the itinerary model.
use vstd::prelude::*;
use crate::number::digit_char;

verus! {

/// Largest magnitude, in seconds from 1970-01-01T00:00:00, of a timestamp:
/// about thirty thousand years either way.
pub const TIMESTAMP_LIMIT: i64 = 1_099_511_627_776;

/// A wall-clock time with whole-second precision: the seconds from
/// 1970-01-01T00:00:00 on the same clock, at most `TIMESTAMP_LIMIT` either way.
#[derive(Debug, Clone, Copy, PartialEq, Eq, Hash)]
pub struct Timestamp {
    seconds: i64,
}

impl View for Timestamp {
    type V = int;

    closed spec fn view(&self) -> int {
        self.seconds as int
    }
}

impl Timestamp {
    #[verifier::type_invariant]
    spec fn in_range(self) -> bool {
        -TIMESTAMP_LIMIT <= self.seconds <= TIMESTAMP_LIMIT
    }

    /// The timestamp `seconds` after the epoch, where it is in range.
    pub fn from_seconds(seconds: i64) -> (r: Option<Timestamp>)
        ensures
            r is Some <==> -TIMESTAMP_LIMIT <= seconds <= TIMESTAMP_LIMIT,
            r matches Some(t) ==> t@ == seconds,
    {
        if -TIMESTAMP_LIMIT <= seconds && seconds <= TIMESTAMP_LIMIT {
            Some(Timestamp { seconds })
        } else {
            None
        }
    }

    /// The first whole-second timestamp not before the instant `seconds`
    /// plus `nanos` nanoseconds, where it is in range.
    pub fn ceil_from(seconds: i64, nanos: u32) -> (r: Option<Timestamp>)
        ensures
            ({
                let s = if nanos > 0 { seconds + 1 } else { seconds as int };
                &&& r is Some <==> -TIMESTAMP_LIMIT <= s <= TIMESTAMP_LIMIT
                &&& r matches Some(t) ==> t@ == s
            }),
    {
        if nanos == 0 {
            Timestamp::from_seconds(seconds)
        } else if seconds >= TIMESTAMP_LIMIT {
            None
        } else {
            Timestamp::from_seconds(seconds + 1)
        }
    }

    /// Seconds from the epoch.
    pub fn seconds(&self) -> (r: i64)
        ensures
            r == self@,
            -TIMESTAMP_LIMIT <= r <= TIMESTAMP_LIMIT,
    {
        proof {
            use_type_invariant(self);
        }
        self.seconds
    }

    /// The time `delta` seconds later, where it is in range.
    pub fn checked_add(&self, delta: i64) -> (r: Option<Timestamp>)
        ensures
            r is Some <==> -TIMESTAMP_LIMIT <= self@ + delta <= TIMESTAMP_LIMIT,
            r matches Some(t) ==> t@ == self@ + delta,
    {
        proof {
            use_type_invariant(self);
        }
        if delta > 2 * TIMESTAMP_LIMIT || delta < -2 * TIMESTAMP_LIMIT {
            return None;
        }
        Timestamp::from_seconds(self.seconds + delta)
    }

    /// Seconds from `earlier` to `self`.
    pub fn seconds_since(&self, earlier: &Timestamp) -> (r: i64)
        ensures
            r == self@ - earlier@,
    {
        proof {
            use_type_invariant(self);
            use_type_invariant(earlier);
        }
        self.seconds - earlier.seconds
    }
}

/// A number below one hundred written with two digits.
pub open spec fn two_digits(n: int) -> Seq<char> {
    seq![digit_char(n / 10), digit_char(n % 10)]
}

/// Hour and minute of a timestamp, as `HH:MM`.
pub open spec fn clock_text(seconds: int) -> Seq<char> {
    let in_day = seconds % 86400;
    two_digits(in_day / 3600) + seq![':'] + two_digits((in_day % 3600) / 60)
}

/// What chrono's `Display` of a `NaiveDateTime` gives for the timestamp
/// `seconds` (`2025-11-19 10:00:00`).
pub uninterp spec fn datetime_text(seconds: int) -> Seq<char>;

/// Relies on chrono's `DateTime::from_timestamp`, which gives a time for
/// every timestamp within `TIMESTAMP_LIMIT`, and its `%H:%M` format: the hour
/// and minute of the time of day of `t`.
#[verifier::external_body]
pub(crate) fn format_clock(t: Timestamp) -> (r: String)
    ensures
        r@ == clock_text(t@),
{
    match chrono::DateTime::from_timestamp(t.seconds, 0) {
        Some(dt) => dt.naive_utc().format("%H:%M").to_string(),
        None => String::new(),
    }
}

/// Relies on chrono's `DateTime::from_timestamp`, which gives a time for
/// every timestamp within `TIMESTAMP_LIMIT`, and the `Display` of
/// `NaiveDateTime`: the date and time of `t` as text.
#[verifier::external_body]
pub(crate) fn format_datetime(t: Timestamp) -> (r: String)
    ensures
        r@ == datetime_text(t@),
{
    match chrono::DateTime::from_timestamp(t.seconds, 0) {
        Some(dt) => dt.naive_utc().to_string(),
        None => String::new(),
    }
}

} // verus!
