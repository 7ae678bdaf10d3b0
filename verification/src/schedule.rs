//! The records of a static schedule: trips, stops and stop times.

use crate::time::{parse_time, parsed_time, TimeOfDay, SCHEDULE_TIME_FORMAT};
use vstd::prelude::*;

verus! {

/// A scheduled run of a vehicle.
#[derive(Debug)]
pub struct Trip {
    /// The key of the trip.
    pub trip_id: String,
    /// The label of the route, as riders know it.
    pub route_short_name: String,
    /// The service calendar that says on which dates the trip runs.
    pub service_id: String,
    /// The destination shown to riders.
    pub trip_headsign: String,
}

/// A trip with its texts as sequences of characters.
pub struct TripView {
    pub trip_id: Seq<char>,
    pub route_short_name: Seq<char>,
    pub service_id: Seq<char>,
    pub trip_headsign: Seq<char>,
}

impl View for Trip {
    type V = TripView;

    open spec fn view(&self) -> TripView {
        TripView {
            trip_id: self.trip_id@,
            route_short_name: self.route_short_name@,
            service_id: self.service_id@,
            trip_headsign: self.trip_headsign@,
        }
    }
}

impl Clone for Trip {
    fn clone(&self) -> (r: Self)
        ensures
            r@ == self@,
    {
        Trip {
            trip_id: self.trip_id.clone(),
            route_short_name: self.route_short_name.clone(),
            service_id: self.service_id.clone(),
            trip_headsign: self.trip_headsign.clone(),
        }
    }
}

/// A place where riders board.
#[derive(Debug)]
pub struct Stop {
    /// The key of the stop.
    pub stop_id: String,
    /// The name shown to riders.
    pub stop_name: String,
}

/// A stop with its texts as sequences of characters.
pub struct StopView {
    pub stop_id: Seq<char>,
    pub stop_name: Seq<char>,
}

impl View for Stop {
    type V = StopView;

    open spec fn view(&self) -> StopView {
        StopView { stop_id: self.stop_id@, stop_name: self.stop_name@ }
    }
}

impl Clone for Stop {
    fn clone(&self) -> (r: Self)
        ensures
            r@ == self@,
    {
        Stop { stop_id: self.stop_id.clone(), stop_name: self.stop_name.clone() }
    }
}

/// A row of the stop-times table, as text.
pub struct StopTimeRaw {
    pub trip_id: String,
    pub stop_id: String,
    pub arrival_time: String,
    pub departure_time: String,
}

/// A row of the stop-times table as sequences of characters.
pub struct StopTimeRawView {
    pub trip_id: Seq<char>,
    pub stop_id: Seq<char>,
    pub arrival_time: Seq<char>,
    pub departure_time: Seq<char>,
}

impl View for StopTimeRaw {
    type V = StopTimeRawView;

    open spec fn view(&self) -> StopTimeRawView {
        StopTimeRawView {
            trip_id: self.trip_id@,
            stop_id: self.stop_id@,
            arrival_time: self.arrival_time@,
            departure_time: self.departure_time@,
        }
    }
}

/// One scheduled visit of a trip to a stop.
#[derive(Debug)]
pub struct StopTime {
    pub trip_id: String,
    pub stop_id: String,
    pub arrival_time: TimeOfDay,
    pub departure_time: TimeOfDay,
}

/// A stop time with its texts as sequences of characters.
pub struct StopTimeView {
    pub trip_id: Seq<char>,
    pub stop_id: Seq<char>,
    pub arrival_time: TimeOfDay,
    pub departure_time: TimeOfDay,
}

impl View for StopTime {
    type V = StopTimeView;

    open spec fn view(&self) -> StopTimeView {
        StopTimeView {
            trip_id: self.trip_id@,
            stop_id: self.stop_id@,
            arrival_time: self.arrival_time,
            departure_time: self.departure_time,
        }
    }
}

impl Clone for StopTime {
    fn clone(&self) -> (r: Self)
        ensures
            r@ == self@,
    {
        StopTime {
            trip_id: self.trip_id.clone(),
            stop_id: self.stop_id.clone(),
            arrival_time: self.arrival_time,
            departure_time: self.departure_time,
        }
    }
}

/// The time that a parsed time field stands for: the time where the field
/// parsed, midnight where it did not.
pub open spec fn spec_time_or_midnight(parsed: Result<TimeOfDay, Seq<char>>) -> TimeOfDay {
    match parsed {
        Ok(time) => time,
        Err(_) => TimeOfDay::spec_midnight(),
    }
}

/// The time that a parsed time field stands for: the time where the field
/// parsed, midnight where it did not.
pub fn time_or_midnight(parsed: Result<TimeOfDay, String>) -> (r: TimeOfDay)
    ensures
        r == spec_time_or_midnight(crate::time::parse_outcome(parsed)),
{
    match parsed {
        Ok(time) => time,
        Err(_) => TimeOfDay::midnight(),
    }
}

impl StopTimeRawView {
    /// The stop time that the row stands for. A time field that does not
    /// parse stands for midnight.
    pub open spec fn parsed(self) -> StopTimeView {
        StopTimeView {
            trip_id: self.trip_id,
            stop_id: self.stop_id,
            arrival_time: spec_time_or_midnight(
                parsed_time(self.arrival_time, SCHEDULE_TIME_FORMAT@),
            ),
            departure_time: spec_time_or_midnight(
                parsed_time(self.departure_time, SCHEDULE_TIME_FORMAT@),
            ),
        }
    }
}

impl StopTimeView {
    /// Both times are times of day.
    pub open spec fn wf(self) -> bool {
        self.arrival_time.wf() && self.departure_time.wf()
    }
}

impl StopTime {
    /// Reads a row of the stop-times table. A time field that does not parse
    /// is read as midnight.
    pub fn from_raw(raw: StopTimeRaw) -> (r: StopTime)
        ensures
            r@ == raw@.parsed(),
            r@.wf(),
    {
        let arrival = parse_time(raw.arrival_time.as_str(), SCHEDULE_TIME_FORMAT);
        let departure = parse_time(raw.departure_time.as_str(), SCHEDULE_TIME_FORMAT);
        StopTime {
            trip_id: raw.trip_id,
            stop_id: raw.stop_id,
            arrival_time: time_or_midnight(arrival),
            departure_time: time_or_midnight(departure),
        }
    }
}

} // verus!
