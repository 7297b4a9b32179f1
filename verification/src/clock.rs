//! Readings of the clock.

use vstd::prelude::*;
use crate::calendar::{stamp, stamp_text, valid_instant};

verus! {

/// An instant of the years 1970 to 9999: the whole seconds since the start
/// of 1970 in UTC, and the nanoseconds within the second.
#[derive(Debug, Clone, Copy, PartialEq, Eq)]
pub struct Timestamp {
    seconds: i64,
    nanos: u32,
}

/// What a `Timestamp` stands for.
pub struct TimestampView {
    pub seconds: int,
    pub nanos: int,
}

impl View for Timestamp {
    type V = TimestampView;

    closed spec fn view(&self) -> TimestampView {
        TimestampView { seconds: self.seconds as int, nanos: self.nanos as int }
    }
}

/// Reads the system clock with `std::time::SystemTime::now`, takes the time
/// since `UNIX_EPOCH` with `duration_since`, and hands its seconds and
/// nanoseconds to `chrono::DateTime::from_timestamp`; the reading is the
/// `timestamp()` and the `timestamp_subsec_nanos()` of what comes back.
/// There is no reading where the clock stands before 1970 or beyond what
/// chrono can hold. Nothing is claimed of the reading: it differs from call
/// to call.
#[verifier::external_body]
fn clock_reading() -> Option<(i64, u32)> {
    let since = std::time::SystemTime::now().duration_since(std::time::UNIX_EPOCH).ok()?;
    let seconds = i64::try_from(since.as_secs()).ok()?;
    let instant = chrono::DateTime::from_timestamp(seconds, since.subsec_nanos())?;
    Some((instant.timestamp(), instant.timestamp_subsec_nanos()))
}

impl Timestamp {
    #[verifier::type_invariant]
    spec fn in_range(self) -> bool {
        valid_instant(self.seconds as int, self.nanos as int)
    }

    /// The instant that lies `seconds` seconds and `nanos` nanoseconds after
    /// the start of 1970, if it is one of the years 1970 to 9999 and `nanos`
    /// is less than a second.
    pub fn new(seconds: i64, nanos: u32) -> (r: Option<Timestamp>)
        ensures
            match r {
                Some(instant) => valid_instant(seconds as int, nanos as int) && instant@ == (
                TimestampView { seconds: seconds as int, nanos: nanos as int }),
                None => !valid_instant(seconds as int, nanos as int),
            },
    {
        if 0 <= seconds && seconds < 253402300800 && nanos < 1000000000 {
            Some(Timestamp { seconds, nanos })
        } else {
            None
        }
    }

    /// The instant that the clock shows, if the clock can be read and shows
    /// an instant of the years 1970 to 9999.
    pub fn now() -> (reading: Option<Timestamp>)
        ensures
            reading matches Some(instant) ==> valid_instant(instant@.seconds, instant@.nanos),
    {
        match clock_reading() {
            Some(reading) => Timestamp::new(reading.0, reading.1),
            None => None,
        }
    }

    /// The whole seconds since the start of 1970.
    pub fn seconds(&self) -> (seconds: i64)
        ensures
            seconds == self@.seconds,
            valid_instant(self@.seconds, self@.nanos),
    {
        proof {
            use_type_invariant(self);
        }
        self.seconds
    }

    /// The nanoseconds within the second.
    pub fn nanos(&self) -> (nanos: u32)
        ensures
            nanos == self@.nanos,
            valid_instant(self@.seconds, self@.nanos),
    {
        proof {
            use_type_invariant(self);
        }
        self.nanos
    }

    /// The instant written out: `YYYY-MM-DD HH:MM:SS.NNNNNNNNN UTC`.
    pub fn text(&self) -> (text: String)
        ensures
            text@ == stamp_text(self@.seconds, self@.nanos),
    {
        proof {
            use_type_invariant(self);
        }
        stamp(self.seconds, self.nanos)
    }
}

} // verus!
