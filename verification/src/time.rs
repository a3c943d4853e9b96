//! Moments: the readings of the store's clock, and the same readings taken
//! as instants of UTC.
//!
//! The store keeps a date and a time of day and says nothing of a zone. The
//! graph shows instants of UTC. Between the two nothing is converted: the
//! reading is taken to be a reading of a clock that shows UTC.

use vstd::prelude::*;

verus! {

/// The first day of the calendar, counted from 0001-01-01, which is day 1.
pub const MIN_DAY: i32 = -95_746_129;

/// The last day of the calendar.
pub const MAX_DAY: i32 = 95_745_399;

/// The day 1970-01-01.
pub const EPOCH_DAY: i32 = 719_163;

/// Whether a day, a second of that day and the nanoseconds into that second
/// are a reading of the clock. The nanoseconds stay below one second, but
/// for a leap second, which is written into the last second of a minute.
pub open spec fn is_reading(day: int, second: int, nanos: int) -> bool {
    &&& MIN_DAY <= day <= MAX_DAY
    &&& 0 <= second < 86_400
    &&& 0 <= nanos < 2_000_000_000
    &&& (nanos >= 1_000_000_000 ==> second % 60 == 59)
}

/// The seconds from 1970-01-01T00:00:00 to the second `second` of the day
/// `day`.
pub open spec fn seconds_since_epoch(day: int, second: int) -> int {
    (day - EPOCH_DAY) * 86_400 + second
}

/// A reading of the store's clock: a date and a time of day with no zone.
#[derive(Clone, Copy, Debug, PartialEq, Eq)]
pub struct Timestamp {
    day: i32,
    second: u32,
    nanos: u32,
}

/// An instant of UTC, in seconds and nanoseconds since 1970-01-01T00:00:00Z.
#[derive(Clone, Copy, Debug, PartialEq, Eq)]
pub struct UtcInstant {
    pub secs: i64,
    pub nanos: u32,
}

/// Has chrono take a reading as an instant of UTC. The date comes from
/// `chrono::NaiveDate::from_num_days_from_ce_opt` and the time of day from
/// `chrono::NaiveTime::from_num_seconds_from_midnight_opt`, which refuse what
/// is no date of chrono's calendar and no time of a day.
/// `chrono::DateTime::from_naive_utc_and_offset` attaches `chrono::Utc` to the
/// two without moving the clock, and `timestamp` counts the seconds of the
/// result from 1970-01-01T00:00:00Z: 86 400 for each day since day 719 163,
/// and the seconds of the last day. `timestamp_subsec_nanos` gives the
/// nanoseconds back.
#[verifier::external_body]
fn utc_of_reading(day: i32, second: u32, nanos: u32) -> (r: Option<(i64, u32)>)
    ensures
        r is Some <==> is_reading(day as int, second as int, nanos as int),
        r matches Some(instant) ==> instant.0 == seconds_since_epoch(day as int, second as int)
            && instant.1 == nanos,
{
    let date = chrono::NaiveDate::from_num_days_from_ce_opt(day)?;
    let time = chrono::NaiveTime::from_num_seconds_from_midnight_opt(second, nanos)?;
    let naive = chrono::NaiveDateTime::new(date, time);
    let utc = chrono::DateTime::<chrono::Utc>::from_naive_utc_and_offset(naive, chrono::Utc);
    Some((utc.timestamp(), utc.timestamp_subsec_nanos()))
}

impl Timestamp {
    #[verifier::type_invariant]
    spec fn well_formed(self) -> bool {
        is_reading(self.day as int, self.second as int, self.nanos as int)
    }

    /// The day of the reading, counted from 0001-01-01, which is day 1.
    pub closed spec fn day_number(self) -> int {
        self.day as int
    }

    /// The second of the day, counted from midnight.
    pub closed spec fn second_of_day(self) -> int {
        self.second as int
    }

    /// The nanoseconds since the last whole second.
    pub closed spec fn subsec_nanos(self) -> int {
        self.nanos as int
    }

    /// The reading as an instant of UTC: the clock is not moved.
    pub open spec fn taken_as_utc(self) -> (int, int) {
        (seconds_since_epoch(self.day_number(), self.second_of_day()), self.subsec_nanos())
    }

    /// The reading of `second` seconds and `nanos` nanoseconds into the day
    /// `day`, if there is such a reading.
    pub fn new(day: i32, second: u32, nanos: u32) -> (r: Option<Timestamp>)
        ensures
            r is Some <==> is_reading(day as int, second as int, nanos as int),
            r matches Some(t) ==> t.day_number() == day && t.second_of_day() == second
                && t.subsec_nanos() == nanos,
    {
        if day < MIN_DAY || day > MAX_DAY || second >= 86_400 || nanos >= 2_000_000_000 {
            return None;
        }
        if nanos >= 1_000_000_000 && second % 60 != 59 {
            return None;
        }
        Some(Timestamp { day, second, nanos })
    }

    pub fn day(&self) -> (day: i32)
        ensures
            day == self.day_number(),
            MIN_DAY <= day <= MAX_DAY,
    {
        proof {
            use_type_invariant(self);
        }
        self.day
    }

    pub fn second(&self) -> (second: u32)
        ensures
            second == self.second_of_day(),
            second < 86_400,
    {
        proof {
            use_type_invariant(self);
        }
        self.second
    }

    pub fn nanos(&self) -> (nanos: u32)
        ensures
            nanos == self.subsec_nanos(),
            is_reading(self.day_number(), self.second_of_day(), nanos as int),
    {
        proof {
            use_type_invariant(self);
        }
        self.nanos
    }

    /// The reading taken as an instant of UTC.
    pub fn as_utc(&self) -> (instant: UtcInstant)
        ensures
            (instant.secs as int, instant.nanos as int) == self.taken_as_utc(),
    {
        proof {
            use_type_invariant(self);
        }
        match utc_of_reading(self.day, self.second, self.nanos) {
            Some(instant) => UtcInstant { secs: instant.0, nanos: instant.1 },
            None => UtcInstant { secs: 0, nanos: 0 },
        }
    }
}

} // verus!
