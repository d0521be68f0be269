use chrono::{LocalResult, TimeZone, Utc};
use vstd::prelude::*;

verus! {

/// The exchange's clock counted milliseconds up to the first instant of 2025
/// and has counted microseconds since. This is that instant in milliseconds;
/// every later reading is in microseconds.
pub const TIMESTAMP_CHANGE_2025_MS: i64 = 1735689600000;

/// An instant as whole seconds since the epoch and the nanoseconds into that
/// second.
#[derive(Debug, Clone, Copy, PartialEq, Eq, Structural)]
pub struct EpochTime {
    pub seconds: i64,
    pub nanoseconds: u32,
}

/// A reading of the exchange's clock in milliseconds: a reading after the
/// change of unit is in microseconds and loses its last three digits.
pub open spec fn reading_millis(reading: i64) -> int {
    if reading > TIMESTAMP_CHANGE_2025_MS {
        reading / 1000
    } else {
        reading as int
    }
}

/// The instant of a reading. A reading before the epoch has one only on a
/// whole second.
pub open spec fn reading_time(reading: i64) -> Option<EpochTime> {
    let millis = reading_millis(reading);
    if millis < 0 && millis % 1000 != 0 {
        None
    } else {
        Some(
            EpochTime {
                seconds: (millis / 1000) as i64,
                nanoseconds: ((millis % 1000) * 1_000_000) as u32,
            },
        )
    }
}

/// Splits a reading of the exchange's clock into seconds and nanoseconds.
pub fn binance_timestamp_parts(reading: i64) -> (time: Option<EpochTime>)
    ensures
        time == reading_time(reading),
        time matches Some(parts) ==> parts.nanoseconds < 1_000_000_000,
{
    let millis = if reading > TIMESTAMP_CHANGE_2025_MS {
        reading / 1000
    } else {
        reading
    };
    if millis >= 0 {
        Some(
            EpochTime {
                seconds: millis / 1000,
                nanoseconds: ((millis % 1000) * 1_000_000) as u32,
            },
        )
    } else if millis == i64::MIN {
        None
    } else {
        let back = -millis;
        if back % 1000 != 0 {
            None
        } else {
            Some(EpochTime { seconds: -(back / 1000), nanoseconds: 0 })
        }
    }
}

/// Whether the calendar of `chrono` reaches the instant that lies `seconds`
/// and `nanoseconds` after the epoch.
pub uninterp spec fn utc_reaches(seconds: i64, nanoseconds: u32) -> bool;

/// Asks `chrono::TimeZone::timestamp_opt` on `Utc` whether it has a date and
/// time for an instant. It gives one or none, and which depends on the
/// arguments alone: on whether the seconds fall inside the calendar's range
/// and the nanoseconds are valid. That condition is named `utc_reaches` here,
/// not spelled out.
#[verifier::external_body]
fn utc_has_datetime(seconds: i64, nanoseconds: u32) -> (reached: bool)
    ensures
        reached == utc_reaches(seconds, nanoseconds),
{
    match Utc.timestamp_opt(seconds, nanoseconds) {
        LocalResult::Single(_) => true,
        LocalResult::Ambiguous(_, _) => false,
        LocalResult::None => false,
    }
}

/// The instant of a reading, where it has one that the calendar reaches.
pub open spec fn reading_datetime(reading: i64) -> Option<EpochTime> {
    match reading_time(reading) {
        Some(time) if utc_reaches(time.seconds, time.nanoseconds) => Some(time),
        _ => None,
    }
}

/// The instant of a reading of the exchange's clock, in the parts from which
/// `chrono` makes its date and time, or `None` where the reading has no
/// instant or the calendar does not reach it.
pub fn binance_timestamp_to_datetime(t: &i64) -> (datetime: Option<EpochTime>)
    ensures
        datetime == reading_datetime(*t),
{
    match binance_timestamp_parts(*t) {
        Some(time) => {
            if utc_has_datetime(time.seconds, time.nanoseconds) {
                Some(time)
            } else {
                None
            }
        },
        None => None,
    }
}

} // verus!
