//! Calendar dates, times of day and weekdays as plain values.
//!
//! Parsing, the day of the week and the shift of a time by a delay are done by
//! `chrono`; the values that the rest of the library computes with are the
//! plain structs of this module.

use chrono::{Datelike, Timelike};
use vstd::prelude::*;

verus! {

/// Seconds in a day.
pub const SECONDS_PER_DAY: u32 = 86_400;

/// Nanoseconds in a second.
pub const NANOS_PER_SECOND: u32 = 1_000_000_000;

/// The largest number of seconds, in either direction, by which a time of day
/// can be shifted.
pub const MAX_SHIFT_SECONDS: i64 = 9_223_372_036_854_775;

/// The format of a wall-clock time in a schedule table: hours (one or two
/// digits, a single digit may follow a space), minutes, seconds.
pub const SCHEDULE_TIME_FORMAT: &'static str = "%k:%M:%S";

/// The format of a date in a schedule table: eight digits, year, month, day.
pub const SCHEDULE_DATE_FORMAT: &'static str = "%Y%m%d";

/// A day of the week.
#[derive(Clone, Copy, Debug, PartialEq, Eq, Structural)]
pub enum Weekday {
    Mon,
    Tue,
    Wed,
    Thu,
    Fri,
    Sat,
    Sun,
}

/// A calendar date: year, month (from 1) and day of the month (from 1).
///
/// Dates are ordered by year, then month, then day.
#[derive(Clone, Copy, Debug, PartialEq, Eq, Structural)]
pub struct Date {
    pub year: i32,
    pub month: u32,
    pub day: u32,
}

impl Date {
    /// `self` is an earlier date than `other`.
    pub open spec fn before(self, other: Date) -> bool {
        ||| self.year < other.year
        ||| self.year == other.year && self.month < other.month
        ||| self.year == other.year && self.month == other.month && self.day < other.day
    }

    /// The date of the given year, month and day of the month.
    pub fn new(year: i32, month: u32, day: u32) -> (d: Date)
        ensures
            d == (Date { year, month, day }),
    {
        Date { year, month, day }
    }

    /// Whether `self` is an earlier date than `other`.
    pub fn is_before(&self, other: &Date) -> (r: bool)
        ensures
            r == self.before(*other),
    {
        self.year < other.year || (self.year == other.year && (self.month < other.month || (
        self.month == other.month && self.day < other.day)))
    }
}

/// A wall-clock time without a date: whole seconds since midnight and the
/// nanoseconds past them.
///
/// A leap second is the last second of a minute with a nanosecond part of one
/// second or more. Times are ordered by seconds, then nanoseconds.
#[derive(Clone, Copy, Debug, PartialEq, Eq, Structural)]
pub struct TimeOfDay {
    pub secs: u32,
    pub nanos: u32,
}

impl TimeOfDay {
    /// The value is a time of day: less than a day, and a nanosecond part
    /// that only runs into the next second within a leap second.
    pub open spec fn wf(self) -> bool {
        &&& self.secs < SECONDS_PER_DAY
        &&& self.nanos < 2 * NANOS_PER_SECOND
        &&& (self.nanos >= NANOS_PER_SECOND ==> self.secs % 60 == 59)
    }

    /// `self` is an earlier time than `other`.
    pub open spec fn before(self, other: TimeOfDay) -> bool {
        self.secs < other.secs || (self.secs == other.secs && self.nanos < other.nanos)
    }

    /// 00:00:00.
    pub open spec fn spec_midnight() -> TimeOfDay {
        TimeOfDay { secs: 0, nanos: 0 }
    }

    /// The time `hour:minute:second` as a value, if it is a time of day.
    pub open spec fn spec_from_hms(hour: u32, minute: u32, second: u32) -> Option<TimeOfDay> {
        if hour < 24 && minute < 60 && second < 60 {
            Some(TimeOfDay { secs: (hour * 3600 + minute * 60 + second) as u32, nanos: 0 })
        } else {
            None
        }
    }

    /// 00:00:00.
    #[verifier::when_used_as_spec(spec_midnight)]
    pub fn midnight() -> (t: TimeOfDay)
        ensures
            t == Self::spec_midnight(),
            t.wf(),
    {
        TimeOfDay { secs: 0, nanos: 0 }
    }

    /// The time `hour:minute:second`, or `None` if an hour of 24 or more, or a
    /// minute or second of 60 or more, is given.
    #[verifier::when_used_as_spec(spec_from_hms)]
    pub fn from_hms(hour: u32, minute: u32, second: u32) -> (r: Option<TimeOfDay>)
        ensures
            r == Self::spec_from_hms(hour, minute, second),
            r matches Some(t) ==> t.wf(),
    {
        if hour < 24 && minute < 60 && second < 60 {
            let secs: u32 = hour * 3600 + minute * 60 + second;
            Some(TimeOfDay { secs, nanos: 0 })
        } else {
            None
        }
    }

    /// Whether `self` is an earlier time than `other`.
    pub fn is_before(&self, other: &TimeOfDay) -> (r: bool)
        ensures
            r == self.before(*other),
    {
        self.secs < other.secs || (self.secs == other.secs && self.nanos < other.nanos)
    }
}

/// A date and a time of day on a local wall clock.
#[derive(Clone, Copy, Debug, PartialEq, Eq, Structural)]
pub struct DateTime {
    pub date: Date,
    pub time: TimeOfDay,
}

/// What `chrono::NaiveTime::parse_from_str` makes of `text` under `format`:
/// the time, or the words of its error.
pub uninterp spec fn parsed_time(text: Seq<char>, format: Seq<char>) -> Result<
    TimeOfDay,
    Seq<char>,
>;

/// What `chrono::NaiveDate::parse_from_str` makes of `text` under `format`:
/// the date, or `None` where it fails.
pub uninterp spec fn parsed_date(text: Seq<char>, format: Seq<char>) -> Option<Date>;

/// The day of the week on which `chrono` places a date of the proleptic
/// Gregorian calendar, or `None` where the calendar has no such date.
pub uninterp spec fn weekday_on(date: Date) -> Option<Weekday>;

/// A time of day moved by a whole number of seconds: the time on the clock
/// after the move, and the seconds of the whole days that the move went
/// through (negative when it went back past midnight).
///
/// A leap second that is moved counts as the second before it when moved
/// forward and as the second after it when moved back.
pub open spec fn shifted(time: TimeOfDay, seconds: int) -> (TimeOfDay, int) {
    let leap = time.nanos >= NANOS_PER_SECOND;
    if leap && seconds == 0 {
        (time, 0)
    } else {
        let from: int = if leap && seconds < 0 {
            time.secs + 1
        } else {
            time.secs as int
        };
        let nanos: int = if leap {
            time.nanos - NANOS_PER_SECOND
        } else {
            time.nanos as int
        };
        let total = from + seconds;
        let on_clock = total % (SECONDS_PER_DAY as int);
        (TimeOfDay { secs: on_clock as u32, nanos: nanos as u32 }, total - on_clock)
    }
}

/// The outcome of parsing a time, with the words of the error as a sequence
/// of characters.
pub open spec fn parse_outcome(r: Result<TimeOfDay, String>) -> Result<TimeOfDay, Seq<char>> {
    match r {
        Ok(t) => Ok(t),
        Err(e) => Err(e@),
    }
}

/// Calls `chrono::NaiveTime::parse_from_str`.
///
/// Trusted: the result is what `parsed_time` names, the error given by its
/// `Display` text, and a time that comes back is a time of day as `chrono`
/// keeps it (seconds under a day, nanoseconds under two seconds and over one
/// only in the last second of a minute).
#[verifier::external_body]
pub(crate) fn parse_time(text: &str, format: &str) -> (r: Result<TimeOfDay, String>)
    ensures
        parse_outcome(r) == parsed_time(text@, format@),
        r matches Ok(t) ==> t.wf(),
{
    match chrono::NaiveTime::parse_from_str(text, format) {
        Ok(t) => Ok(TimeOfDay { secs: t.num_seconds_from_midnight(), nanos: t.nanosecond() }),
        Err(e) => Err(e.to_string()),
    }
}

/// Calls `chrono::NaiveDate::parse_from_str`.
///
/// Trusted: the result is what `parsed_date` names.
#[verifier::external_body]
pub(crate) fn parse_date(text: &str, format: &str) -> (r: Option<Date>)
    ensures
        r == parsed_date(text@, format@),
{
    match chrono::NaiveDate::parse_from_str(text, format) {
        Ok(d) => Some(Date { year: d.year(), month: d.month(), day: d.day() }),
        Err(_) => None,
    }
}

/// Calls `chrono::NaiveDate::from_ymd_opt` and `chrono::Datelike::weekday`.
///
/// Trusted: the result is what `weekday_on` names.
#[verifier::external_body]
pub(crate) fn weekday_of(date: &Date) -> (r: Option<Weekday>)
    ensures
        r == weekday_on(*date),
{
    match chrono::NaiveDate::from_ymd_opt(date.year, date.month, date.day)?.weekday() {
        chrono::Weekday::Mon => Some(Weekday::Mon),
        chrono::Weekday::Tue => Some(Weekday::Tue),
        chrono::Weekday::Wed => Some(Weekday::Wed),
        chrono::Weekday::Thu => Some(Weekday::Thu),
        chrono::Weekday::Fri => Some(Weekday::Fri),
        chrono::Weekday::Sat => Some(Weekday::Sat),
        chrono::Weekday::Sun => Some(Weekday::Sun),
    }
}

/// Calls `chrono::NaiveTime::overflowing_add_signed` with a `TimeDelta` of
/// whole seconds.
///
/// Trusted: the result is `shifted(time, seconds)`, that is the seconds of
/// the time and of the move added up and taken within one day, the
/// nanoseconds as they were, and what was left out as seconds of whole
/// days; of a leap second, its nanoseconds without the one second, counted
/// from the second after it when moved back, and the time itself when moved
/// by nothing. The bounds on `seconds` are those outside which
/// `chrono::TimeDelta::seconds` panics, and a time that is no time of day
/// cannot be handed to `chrono`.
#[verifier::external_body]
pub(crate) fn shift(time: TimeOfDay, seconds: i64) -> (r: (TimeOfDay, i64))
    requires
        time.wf(),
        -MAX_SHIFT_SECONDS <= seconds <= MAX_SHIFT_SECONDS,
    ensures
        r.0 == shifted(time, seconds as int).0,
        r.1 == shifted(time, seconds as int).1,
{
    let (t, days) = chrono::NaiveTime::from_num_seconds_from_midnight_opt(time.secs, time.nanos)
        .unwrap()
        .overflowing_add_signed(chrono::TimeDelta::seconds(seconds));
    (TimeOfDay { secs: t.num_seconds_from_midnight(), nanos: t.nanosecond() }, days)
}

/// Calls `chrono::Local::now`: the date and time on the local wall clock.
///
/// Trusted: nothing is claimed of the result.
#[verifier::external_body]
pub(crate) fn local_now() -> DateTime {
    let now = chrono::Local::now();
    DateTime {
        date: Date { year: now.year(), month: now.month(), day: now.day() },
        time: TimeOfDay { secs: now.num_seconds_from_midnight(), nanos: now.nanosecond() },
    }
}

/// Calls `chrono::Local::today` and `chrono::Date::and_time`: whether the
/// local clock shows `time` exactly once today.
///
/// Trusted: nothing is claimed of the result, which goes by the time zone of
/// the machine and by the day.
#[allow(deprecated)]
#[verifier::external_body]
pub(crate) fn exists_today(time: &TimeOfDay) -> bool
    requires
        time.wf(),
{
    let naive = chrono::NaiveTime::from_num_seconds_from_midnight_opt(time.secs, time.nanos);
    chrono::Local::today().and_time(naive.unwrap()).is_some()
}

} // verus!
