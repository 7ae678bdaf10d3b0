//! Service calendars: on which dates a service runs.

use crate::days::Days;
use crate::text::is_char;
use crate::time::{parse_date, parsed_date, weekday_of, weekday_on, Date, SCHEDULE_DATE_FORMAT};
use vstd::prelude::*;

verus! {

/// Why a schedule could not be loaded.
#[derive(Clone, Copy, Debug, PartialEq, Eq, Structural)]
pub enum LoadError {
    /// A date field is not eight digits of year, month and day that name a
    /// date.
    MalformedDate,
    /// A calendar exception names a service that the calendar table lacks.
    UnknownService,
}

impl LoadError {
    /// The error in words.
    pub fn message(&self) -> (r: String)
        ensures
            r@ == match *self {
                LoadError::MalformedDate => "Error parsing date"@,
                LoadError::UnknownService => "No such service."@,
            },
    {
        match self {
            LoadError::MalformedDate => "Error parsing date".to_owned(),
            LoadError::UnknownService => "No such service.".to_owned(),
        }
    }
}

/// What a calendar exception does to its date.
#[derive(Clone, Copy, Debug, PartialEq, Eq, Structural)]
pub enum ExceptionType {
    /// The service runs on the date whatever the weekly pattern says.
    Added,
    /// The service does not run on the date.
    Removed,
}

/// A row of the calendar-dates table, as text.
pub struct CalendarDateRaw {
    pub date: String,
    pub exception_type: String,
    pub service_id: String,
}

/// A row of the calendar-dates table as sequences of characters.
pub struct CalendarDateRawView {
    pub date: Seq<char>,
    pub exception_type: Seq<char>,
    pub service_id: Seq<char>,
}

impl View for CalendarDateRaw {
    type V = CalendarDateRawView;

    open spec fn view(&self) -> CalendarDateRawView {
        CalendarDateRawView {
            date: self.date@,
            exception_type: self.exception_type@,
            service_id: self.service_id@,
        }
    }
}

/// An exception to a service calendar on one date.
#[derive(Debug)]
pub struct CalendarDate {
    pub date: Date,
    pub exception_type: ExceptionType,
    pub service_id: String,
}

/// A calendar exception with its service identifier as a sequence of
/// characters.
pub struct CalendarDateView {
    pub date: Date,
    pub exception_type: ExceptionType,
    pub service_id: Seq<char>,
}

impl View for CalendarDate {
    type V = CalendarDateView;

    open spec fn view(&self) -> CalendarDateView {
        CalendarDateView {
            date: self.date,
            exception_type: self.exception_type,
            service_id: self.service_id@,
        }
    }
}

impl Clone for CalendarDate {
    fn clone(&self) -> (r: Self)
        ensures
            r@ == self@,
    {
        CalendarDate {
            date: self.date,
            exception_type: self.exception_type,
            service_id: self.service_id.clone(),
        }
    }
}

impl CalendarDateRawView {
    /// The exception that the row stands for, or the error where its date
    /// does not parse. A type of `1` is an addition, any other a removal.
    pub open spec fn parsed(self) -> Result<CalendarDateView, LoadError> {
        match parsed_date(self.date, SCHEDULE_DATE_FORMAT@) {
            Some(date) => Ok(
                CalendarDateView {
                    date,
                    exception_type: if self.exception_type == seq!['1'] {
                        ExceptionType::Added
                    } else {
                        ExceptionType::Removed
                    },
                    service_id: self.service_id,
                },
            ),
            None => Err(LoadError::MalformedDate),
        }
    }
}

/// The outcome of reading a calendar exception, with the exception as its
/// view.
pub open spec fn exception_outcome(r: Result<CalendarDate, LoadError>) -> Result<
    CalendarDateView,
    LoadError,
> {
    match r {
        Ok(e) => Ok(e@),
        Err(e) => Err(e),
    }
}

impl CalendarDate {
    /// Reads a row of the calendar-dates table.
    ///
    /// Fails with `MalformedDate` exactly where the date does not parse.
    pub fn from_raw(raw: CalendarDateRaw) -> (r: Result<CalendarDate, LoadError>)
        ensures
            exception_outcome(r) == raw@.parsed(),
    {
        match parse_date(raw.date.as_str(), SCHEDULE_DATE_FORMAT) {
            Some(date) => {
                let exception_type = if is_char(raw.exception_type.as_str(), '1') {
                    ExceptionType::Added
                } else {
                    ExceptionType::Removed
                };
                Ok(CalendarDate { date, exception_type, service_id: raw.service_id })
            },
            None => Err(LoadError::MalformedDate),
        }
    }
}

/// A row of the calendar table, as text.
pub struct CalendarRaw {
    pub service_id: String,
    pub service_name: String,
    pub monday: String,
    pub tuesday: String,
    pub wednesday: String,
    pub thursday: String,
    pub friday: String,
    pub saturday: String,
    pub sunday: String,
    pub start_date: String,
    pub end_date: String,
}

/// A row of the calendar table as sequences of characters.
pub struct CalendarRawView {
    pub service_id: Seq<char>,
    pub service_name: Seq<char>,
    pub monday: Seq<char>,
    pub tuesday: Seq<char>,
    pub wednesday: Seq<char>,
    pub thursday: Seq<char>,
    pub friday: Seq<char>,
    pub saturday: Seq<char>,
    pub sunday: Seq<char>,
    pub start_date: Seq<char>,
    pub end_date: Seq<char>,
}

impl View for CalendarRaw {
    type V = CalendarRawView;

    open spec fn view(&self) -> CalendarRawView {
        CalendarRawView {
            service_id: self.service_id@,
            service_name: self.service_name@,
            monday: self.monday@,
            tuesday: self.tuesday@,
            wednesday: self.wednesday@,
            thursday: self.thursday@,
            friday: self.friday@,
            saturday: self.saturday@,
            sunday: self.sunday@,
            start_date: self.start_date@,
            end_date: self.end_date@,
        }
    }
}

/// The dates on which a service runs: a weekly pattern within a range of
/// dates, and the exceptions to it.
#[derive(Debug)]
pub struct Calendar {
    pub service_id: String,
    pub service_name: String,
    pub start_date: Date,
    pub end_date: Date,
    pub days: Days,
    pub exceptions: Vec<CalendarDate>,
}

/// A service calendar with its texts as sequences of characters.
pub struct CalendarView {
    pub service_id: Seq<char>,
    pub service_name: Seq<char>,
    pub start_date: Date,
    pub end_date: Date,
    pub days: Days,
    pub exceptions: Seq<CalendarDateView>,
}

impl View for Calendar {
    type V = CalendarView;

    open spec fn view(&self) -> CalendarView {
        CalendarView {
            service_id: self.service_id@,
            service_name: self.service_name@,
            start_date: self.start_date,
            end_date: self.end_date,
            days: self.days,
            exceptions: Seq::new(self.exceptions@.len(), |i: int| self.exceptions@[i]@),
        }
    }
}

impl CalendarView {
    /// An exception takes the service off `date`.
    pub open spec fn removed_on(self, date: Date) -> bool {
        exists|i: int|
            0 <= i < self.exceptions.len() && (#[trigger] self.exceptions[i]).date == date
                && self.exceptions[i].exception_type == ExceptionType::Removed
    }

    /// The service runs on `date`: the date lies within the range of the
    /// calendar, its day of the week is one of the calendar's days, and no
    /// exception takes the service off it.
    ///
    /// An exception that adds a date is not looked at: a date off the weekly
    /// pattern stays without service.
    pub open spec fn active_on(self, date: Date) -> bool {
        &&& !date.before(self.start_date)
        &&& !self.end_date.before(date)
        &&& weekday_on(date) matches Some(day) && self.days.has(day)
        &&& !self.removed_on(date)
    }

    /// The calendar with one more exception at the end of its list.
    pub open spec fn with_exception(self, exception: CalendarDateView) -> CalendarView {
        CalendarView { exceptions: self.exceptions.push(exception), ..self }
    }
}

impl CalendarRawView {
    /// The calendar that the row stands for, without exceptions, or the
    /// error where one of its two dates does not parse. A weekday is among
    /// the days of the calendar exactly where its field is `1`.
    pub open spec fn parsed(self) -> Result<CalendarView, LoadError> {
        match (
            parsed_date(self.start_date, SCHEDULE_DATE_FORMAT@),
            parsed_date(self.end_date, SCHEDULE_DATE_FORMAT@),
        ) {
            (Some(start_date), Some(end_date)) => Ok(
                CalendarView {
                    service_id: self.service_id,
                    service_name: self.service_name,
                    start_date,
                    end_date,
                    days: self.days(),
                    exceptions: Seq::empty(),
                },
            ),
            _ => Err(LoadError::MalformedDate),
        }
    }

    /// The set of the weekdays whose field is `1`.
    pub open spec fn days(self) -> Days {
        Days::spec_from_flags(
            self.monday == seq!['1'],
            self.tuesday == seq!['1'],
            self.wednesday == seq!['1'],
            self.thursday == seq!['1'],
            self.friday == seq!['1'],
            self.saturday == seq!['1'],
            self.sunday == seq!['1'],
        )
    }
}

/// The outcome of reading a calendar, with the calendar as its view.
pub open spec fn calendar_outcome(r: Result<Calendar, LoadError>) -> Result<
    CalendarView,
    LoadError,
> {
    match r {
        Ok(c) => Ok(c@),
        Err(e) => Err(e),
    }
}

impl Calendar {
    /// Reads a row of the calendar table into a calendar without exceptions.
    ///
    /// Fails with `MalformedDate` exactly where the start or the end date
    /// does not parse.
    pub fn from_calendar(calendar: CalendarRaw) -> (r: Result<Calendar, LoadError>)
        ensures
            calendar_outcome(r) == calendar@.parsed(),
            r matches Ok(c) ==> c.days.wf(),
    {
        let days = Days::from_flags(
            is_char(calendar.monday.as_str(), '1'),
            is_char(calendar.tuesday.as_str(), '1'),
            is_char(calendar.wednesday.as_str(), '1'),
            is_char(calendar.thursday.as_str(), '1'),
            is_char(calendar.friday.as_str(), '1'),
            is_char(calendar.saturday.as_str(), '1'),
            is_char(calendar.sunday.as_str(), '1'),
        );
        let start = parse_date(calendar.start_date.as_str(), SCHEDULE_DATE_FORMAT);
        let end = parse_date(calendar.end_date.as_str(), SCHEDULE_DATE_FORMAT);
        match (start, end) {
            (Some(start_date), Some(end_date)) => {
                let c = Calendar {
                    service_id: calendar.service_id,
                    service_name: calendar.service_name,
                    start_date,
                    end_date,
                    days,
                    exceptions: Vec::new(),
                };
                assert(c@.exceptions =~= Seq::empty());
                Ok(c)
            },
            _ => Err(LoadError::MalformedDate),
        }
    }

    /// Whether the service runs on `date`.
    pub fn is_active(&self, date: &Date) -> (r: bool)
        ensures
            r == self@.active_on(*date),
    {
        if date.is_before(&self.start_date) {
            return false;
        }
        if self.end_date.is_before(date) {
            return false;
        }
        let on_pattern = match weekday_of(date) {
            Some(day) => self.days.has_day(day),
            None => false,
        };
        if !on_pattern {
            return false;
        }
        !self.is_removed_on(date)
    }

    /// Whether an exception takes the service off `date`.
    pub fn is_removed_on(&self, date: &Date) -> (r: bool)
        ensures
            r == self@.removed_on(*date),
    {
        let mut i: usize = 0;
        while i < self.exceptions.len()
            invariant
                i <= self.exceptions@.len(),
                forall|j: int|
                    0 <= j < i ==> !((#[trigger] self@.exceptions[j]).date == *date
                        && self@.exceptions[j].exception_type == ExceptionType::Removed),
            decreases self.exceptions@.len() - i,
        {
            let e = &self.exceptions[i];
            if e.date == *date && e.exception_type == ExceptionType::Removed {
                assert(self@.exceptions[i as int] == e@);
                return true;
            }
            i += 1;
        }
        false
    }
}

/// A service whose calendar has a removal on a date does not run on that
/// date, whatever its weekly pattern and its range of dates.
pub proof fn lemma_removed_date_is_inactive(calendar: CalendarView, date: Date, i: int)
    requires
        0 <= i < calendar.exceptions.len(),
        calendar.exceptions[i].date == date,
        calendar.exceptions[i].exception_type == ExceptionType::Removed,
    ensures
        !calendar.active_on(date),
{
}

/// A service does not run on a date before the start or after the end of
/// its calendar, whatever the day of the week.
pub proof fn lemma_outside_range_is_inactive(calendar: CalendarView, date: Date)
    requires
        date.before(calendar.start_date) || calendar.end_date.before(date),
    ensures
        !calendar.active_on(date),
{
}

} // verus!
