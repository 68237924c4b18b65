//! Instants on the UTC time line and their calendar minute.

use chrono::{Datelike, Timelike};
use vstd::prelude::*;

verus! {

/// The first second of the proleptic Gregorian calendar that can be
/// decomposed: midnight of 1 January of the year -262143.
pub const MIN_UNIX_SECONDS: i64 = -8_334_601_228_800;

/// The last such second: 23:59:59 of 31 December of the year 262142.
pub const MAX_UNIX_SECONDS: i64 = 8_210_266_876_799;

/// Nanoseconds in one second.
pub const NANOS_PER_SECOND: u32 = 1_000_000_000;

/// Nanoseconds in one minute.
pub const NANOS_PER_MINUTE: i128 = 60_000_000_000;

/// A point in time: whole seconds since 1970-01-01T00:00:00 UTC and the
/// nanoseconds into that second.
#[derive(Clone, Copy, Debug, PartialEq, Eq, Structural)]
pub struct Timestamp {
    pub secs: i64,
    pub nanos: u32,
}

/// The calendar fields of a minute in UTC.
#[derive(Clone, Copy, Debug, PartialEq, Eq, Structural)]
pub struct CalendarMinute {
    pub year: i32,
    pub month: u32,
    pub day: u32,
    pub hour: u32,
    pub minute: u32,
}

/// Year, month and day, in UTC, of the day that lies `days` whole days after
/// 1 January 1970, as the proleptic Gregorian calendar has them.
pub uninterp spec fn civil_date(days: int) -> (i32, u32, u32);

/// The hour of the day that holds the second `secs` after the Unix epoch.
pub open spec fn hour_of(secs: int) -> int {
    (secs % 86_400) / 3_600
}

/// The minute of the hour that holds the second `secs` after the Unix epoch.
pub open spec fn minute_of(secs: int) -> int {
    (secs % 3_600) / 60
}

/// Calls `chrono::DateTime::from_timestamp` and reads the date and time fields
/// of what it returns. Trusted: year, month and day are a function of the
/// number of whole days since the epoch, rounded down, and month and day lie
/// in the ranges that `Datelike` documents; hour and minute are the seconds
/// into that day divided by 3600 and by 60, the latter within the hour. The
/// bounds required are those inside which `from_timestamp` returns a value.
#[verifier::external_body]
fn utc_fields(secs: i64) -> (r: (i32, u32, u32, u32, u32))
    requires
        MIN_UNIX_SECONDS <= secs <= MAX_UNIX_SECONDS,
    ensures
        (r.0, r.1, r.2) == civil_date(secs as int / 86_400),
        1 <= r.1 <= 12,
        1 <= r.2 <= 31,
        r.3 == hour_of(secs as int),
        r.4 == minute_of(secs as int),
{
    let dt = chrono::DateTime::from_timestamp(secs, 0).unwrap();
    (dt.year(), dt.month(), dt.day(), dt.hour(), dt.minute())
}

impl CalendarMinute {
    /// The fields lie in their calendar ranges.
    pub open spec fn wf(self) -> bool {
        &&& 1 <= self.month <= 12
        &&& 1 <= self.day <= 31
        &&& self.hour < 24
        &&& self.minute < 60
    }

    /// The calendar minute that holds the second `secs`.
    pub open spec fn of_second(secs: int) -> CalendarMinute {
        let date = civil_date(secs / 86_400);
        CalendarMinute {
            year: date.0,
            month: date.1,
            day: date.2,
            hour: hour_of(secs) as u32,
            minute: minute_of(secs) as u32,
        }
    }
}

impl Timestamp {
    /// The instant can be decomposed into calendar fields.
    pub open spec fn wf(self) -> bool {
        &&& MIN_UNIX_SECONDS <= self.secs <= MAX_UNIX_SECONDS
        &&& self.nanos < NANOS_PER_SECOND
    }

    /// Nanoseconds since the Unix epoch.
    pub open spec fn as_nanos(self) -> int {
        self.secs * 1_000_000_000 + self.nanos
    }

    /// The first second of the minute that holds the instant: the seconds
    /// rounded down to a multiple of sixty.
    pub open spec fn spec_minute_start(self) -> int {
        self.secs - self.secs % 60
    }

    /// The instant lies on a minute boundary.
    pub open spec fn on_minute(self) -> bool {
        self.secs % 60 == 0 && self.nanos == 0
    }

    /// The first instant of the minute that holds this one.
    pub open spec fn spec_floor_minute(self) -> Timestamp {
        Timestamp { secs: self.spec_minute_start() as i64, nanos: 0 }
    }

    /// The calendar minute that holds the instant.
    pub open spec fn spec_calendar(self) -> CalendarMinute {
        CalendarMinute::of_second(self.spec_minute_start())
    }

    /// The instant `minutes` minutes later.
    pub open spec fn spec_plus_minutes(self, minutes: int) -> Timestamp {
        Timestamp { secs: (self.secs + 60 * minutes) as i64, nanos: self.nanos }
    }

    /// Whole minutes that have passed from `self` to `later`; zero when
    /// `later` is not after `self`.
    pub open spec fn spec_minutes_until(self, later: Timestamp) -> int {
        let d = later.as_nanos() - self.as_nanos();
        if d <= 0 {
            0
        } else {
            d / 60_000_000_000
        }
    }

    /// `self` lies more than `minutes` minutes before `now`.
    pub open spec fn spec_older_than(self, now: Timestamp, minutes: int) -> bool {
        now.as_nanos() - self.as_nanos() > minutes * 60_000_000_000
    }

    /// Two instants lie in the same minute.
    pub open spec fn same_minute(self, other: Timestamp) -> bool {
        self.secs / 60 == other.secs / 60
    }

    /// An instant from seconds and nanoseconds, if the calendar reaches it.
    pub fn new(secs: i64, nanos: u32) -> (r: Option<Timestamp>)
        ensures
            r == if MIN_UNIX_SECONDS <= secs <= MAX_UNIX_SECONDS && nanos < NANOS_PER_SECOND {
                Some(Timestamp { secs, nanos })
            } else {
                None
            },
    {
        if MIN_UNIX_SECONDS <= secs && secs <= MAX_UNIX_SECONDS && nanos < NANOS_PER_SECOND {
            Some(Timestamp { secs, nanos })
        } else {
            None
        }
    }

    /// The first second of the minute that holds the instant.
    pub fn minute_start(&self) -> (r: i64)
        requires
            self.wf(),
        ensures
            r == self.spec_minute_start(),
            MIN_UNIX_SECONDS <= r <= self.secs,
    {
        let offset: i64 = self.secs - MIN_UNIX_SECONDS;
        let into: i64 = offset % 60;
        self.secs - into
    }

    /// The first instant of the minute that holds this one: seconds and
    /// nanoseconds are dropped, never rounded up.
    pub fn floor_minute(&self) -> (r: Timestamp)
        requires
            self.wf(),
        ensures
            r == self.spec_floor_minute(),
            r.wf(),
            r.on_minute(),
            r.same_minute(*self),
            r.spec_floor_minute() == r,
    {
        Timestamp { secs: self.minute_start(), nanos: 0 }
    }

    /// The calendar minute that holds the instant.
    pub fn calendar(&self) -> (r: CalendarMinute)
        requires
            self.wf(),
        ensures
            r == self.spec_calendar(),
            r.wf(),
    {
        let f = utc_fields(self.minute_start());
        CalendarMinute { year: f.0, month: f.1, day: f.2, hour: f.3, minute: f.4 }
    }

    /// The instant `minutes` minutes later, or earlier if `minutes` is
    /// negative.
    pub fn plus_minutes(&self, minutes: i64) -> (r: Timestamp)
        requires
            self.wf(),
            MIN_UNIX_SECONDS <= self.secs + 60 * minutes <= MAX_UNIX_SECONDS,
        ensures
            r == self.spec_plus_minutes(minutes as int),
            r.wf(),
            r.as_nanos() == self.as_nanos() + minutes * 60_000_000_000,
    {
        Timestamp { secs: self.secs + 60 * minutes, nanos: self.nanos }
    }

    /// Whole minutes that have passed from `self` to `later`.
    pub fn minutes_until(&self, later: &Timestamp) -> (r: i64)
        requires
            self.wf(),
            later.wf(),
        ensures
            r == self.spec_minutes_until(*later),
            r >= 0,
    {
        let d: i128 = (later.secs as i128 - self.secs as i128) * 1_000_000_000 + (later.nanos as i128
            - self.nanos as i128);
        if d <= 0 {
            0
        } else {
            (d / NANOS_PER_MINUTE) as i64
        }
    }

    /// Whether `self` lies more than `minutes` minutes before `now`.
    pub fn older_than(&self, now: &Timestamp, minutes: u32) -> (r: bool)
        requires
            self.wf(),
            now.wf(),
        ensures
            r == self.spec_older_than(*now, minutes as int),
    {
        let d: i128 = (now.secs as i128 - self.secs as i128) * 1_000_000_000 + (now.nanos as i128
            - self.nanos as i128);
        d > (minutes as i128) * NANOS_PER_MINUTE
    }
}

/// Instants of one minute start that minute at the same second, and so share
/// their calendar fields.
pub proof fn lemma_same_minute_same_calendar(a: Timestamp, b: Timestamp)
    requires
        a.same_minute(b),
    ensures
        a.spec_minute_start() == b.spec_minute_start(),
        a.spec_calendar() == b.spec_calendar(),
{
}

/// Two instants of one day that lie in different minutes differ in their hour
/// or in their minute of the hour.
pub proof fn lemma_minutes_of_a_day_differ(a: Timestamp, b: Timestamp)
    requires
        a.secs / 86_400 == b.secs / 86_400,
        !a.same_minute(b),
    ensures
        hour_of(a.spec_minute_start()) != hour_of(b.spec_minute_start()) || minute_of(
            a.spec_minute_start(),
        ) != minute_of(b.spec_minute_start()),
{
}

/// Seconds and nanoseconds do not move an instant out of its minute.
pub proof fn lemma_minute_start_in_same_minute(t: Timestamp)
    ensures
        t.spec_minute_start() % 60 == 0,
        t.spec_minute_start() <= t.secs < t.spec_minute_start() + 60,
        t.spec_minute_start() / 60 == t.secs / 60,
{
}

} // verus!
