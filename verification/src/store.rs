//! The static schedule in memory: trips, stops, service calendars and stop
//! times, each under its key.

use crate::calendar::{Calendar, CalendarView};
use crate::schedule::{Stop, StopTime, StopTimeView, StopView, Trip, TripView};
use crate::table::Table;
use vstd::prelude::*;

verus! {

/// A static schedule.
pub struct Data {
    /// Trips by trip identifier.
    pub trips: Table<Trip>,
    /// Stops by stop identifier.
    pub stops: Table<Stop>,
    /// Service calendars by service identifier.
    pub calendar: Table<Calendar>,
    /// The stop times of each stop, by stop identifier, in the order in
    /// which they were loaded.
    pub stop_times: Table<Vec<StopTime>>,
}

/// A static schedule as maps from keys to the views of its records.
pub struct DataView {
    pub trips: Map<Seq<char>, TripView>,
    pub stops: Map<Seq<char>, StopView>,
    pub calendar: Map<Seq<char>, CalendarView>,
    pub stop_times: Map<Seq<char>, Seq<StopTimeView>>,
}

/// The views of a list of stop times.
pub open spec fn stop_time_views(entries: Seq<StopTime>) -> Seq<StopTimeView> {
    entries.map_values(|entry: StopTime| entry@)
}

/// A table of trips as a map of their views.
pub open spec fn trip_map(table: Table<Trip>) -> Map<Seq<char>, TripView> {
    table.map().map_values(|trip: Trip| trip@)
}

/// A table of stops as a map of their views.
pub open spec fn stop_map(table: Table<Stop>) -> Map<Seq<char>, StopView> {
    table.map().map_values(|stop: Stop| stop@)
}

/// A table of calendars as a map of their views.
pub open spec fn calendar_map(table: Table<Calendar>) -> Map<Seq<char>, CalendarView> {
    table.map().map_values(|calendar: Calendar| calendar@)
}

/// A table of lists of stop times as a map of the lists of their views.
pub open spec fn stop_time_map(table: Table<Vec<StopTime>>) -> Map<Seq<char>, Seq<StopTimeView>> {
    table.map().map_values(|entries: Vec<StopTime>| stop_time_views(entries@))
}

impl View for Data {
    type V = DataView;

    open spec fn view(&self) -> DataView {
        DataView {
            trips: trip_map(self.trips),
            stops: stop_map(self.stops),
            calendar: calendar_map(self.calendar),
            stop_times: stop_time_map(self.stop_times),
        }
    }
}

impl DataView {
    /// The stop times of a stop, in the order in which they were loaded;
    /// none for a stop that has no stop time.
    pub open spec fn entries_at(self, stop_id: Seq<char>) -> Seq<StopTimeView> {
        if self.stop_times.contains_key(stop_id) {
            self.stop_times[stop_id]
        } else {
            Seq::empty()
        }
    }

    /// The schedule has the trip of a stop time and the service calendar of
    /// that trip.
    pub open spec fn resolves(self, entry: StopTimeView) -> bool {
        &&& self.trips.contains_key(entry.trip_id)
        &&& self.calendar.contains_key(self.trips[entry.trip_id].service_id)
    }

    /// The schedule has the trip and the service calendar of every stop time
    /// of a stop.
    pub open spec fn intact_at(self, stop_id: Seq<char>) -> bool {
        forall|i: int|
            0 <= i < self.entries_at(stop_id).len() ==> self.resolves(
                #[trigger] self.entries_at(stop_id)[i],
            )
    }
}

/// Every trip stands under its own identifier.
pub open spec fn trips_keyed(table: Table<Trip>) -> bool {
    forall|i: int|
        0 <= i < table.keys@.len() ==> (#[trigger] table.keys@[i])@ == table.values@[i].trip_id@
}

/// Every stop stands under its own identifier.
pub open spec fn stops_keyed(table: Table<Stop>) -> bool {
    forall|i: int|
        0 <= i < table.keys@.len() ==> (#[trigger] table.keys@[i])@ == table.values@[i].stop_id@
}

/// Every calendar stands under its own service identifier, and every
/// exception is with the calendar of the service that it names.
pub open spec fn calendars_keyed(table: Table<Calendar>) -> bool {
    &&& forall|i: int|
        0 <= i < table.keys@.len() ==> (#[trigger] table.keys@[i])@
            == table.values@[i].service_id@
    &&& forall|i: int, j: int|
        0 <= i < table.values@.len() && 0 <= j < table.values@[i].exceptions@.len() ==> (
        #[trigger] table.values@[i].exceptions@[j]).service_id@ == table.keys@[i]@
}

/// Every stop time stands under the identifier of its stop, and every time
/// in it is a time of day.
pub open spec fn stop_times_keyed(table: Table<Vec<StopTime>>) -> bool {
    forall|i: int, j: int|
        0 <= i < table.values@.len() && 0 <= j < table.values@[i]@.len() ==> (
        #[trigger] table.values@[i]@[j])@.wf() && table.values@[i]@[j].stop_id@ == table.keys@[i]@
}

impl Data {
    /// The four tables are well formed, every record stands under its own
    /// key, and every time in a stop time is a time of day.
    pub open spec fn wf(&self) -> bool {
        &&& self.trips.wf()
        &&& self.stops.wf()
        &&& self.calendar.wf()
        &&& self.stop_times.wf()
        &&& trips_keyed(self.trips)
        &&& stops_keyed(self.stops)
        &&& calendars_keyed(self.calendar)
        &&& stop_times_keyed(self.stop_times)
    }

    /// Whether the schedule has the trip of `entry` and the service
    /// calendar of that trip.
    pub fn resolves(&self, entry: &StopTime) -> (r: bool)
        requires
            self.wf(),
        ensures
            r == self@.resolves(entry@),
    {
        match self.trips.get(entry.trip_id.as_str()) {
            Some(trip) => self.calendar.get(trip.service_id.as_str()).is_some(),
            None => false,
        }
    }

    /// Whether the schedule has the trip and the service calendar of every
    /// stop time of the stop `stop_id`.
    pub fn is_intact_at(&self, stop_id: &str) -> (r: bool)
        requires
            self.wf(),
        ensures
            r == self@.intact_at(stop_id@),
    {
        match self.stop_times.get(stop_id) {
            Some(entries) => {
                let mut i: usize = 0;
                while i < entries.len()
                    invariant
                        self.wf(),
                        i <= entries@.len(),
                        self@.entries_at(stop_id@) == stop_time_views(entries@),
                        forall|j: int|
                            0 <= j < i ==> self@.resolves(#[trigger] self@.entries_at(stop_id@)[j]),
                    decreases entries@.len() - i,
                {
                    if !self.resolves(&entries[i]) {
                        assert(!self@.resolves(self@.entries_at(stop_id@)[i as int]));
                        return false;
                    }
                    i += 1;
                }
                true
            },
            None => true,
        }
    }
}

} // verus!
