//! Loading a schedule from the rows of its four tables.

use crate::calendar::{
    Calendar, CalendarDate, CalendarDateRaw, CalendarDateRawView, CalendarRaw, CalendarRawView,
    CalendarView, LoadError,
};
use crate::schedule::{
    Stop, StopTime, StopTimeRaw, StopTimeRawView, StopTimeView, StopView, Trip, TripView,
};
use crate::store::{
    calendar_map, calendars_keyed, stop_map, stop_time_map, stop_time_views, stop_times_keyed,
    stops_keyed, trip_map, trips_keyed, Data, DataView,
};
use crate::table::Table;
use vstd::prelude::*;

verus! {

/// The views of a list of records.
pub open spec fn views_of<T: View>(rows: Seq<T>) -> Seq<T::V> {
    rows.map_values(|row: T| row@)
}

/// The trips of `rows` by trip identifier. Of two rows with one identifier
/// the later one stays.
pub open spec fn trips_by_id(rows: Seq<TripView>) -> Map<Seq<char>, TripView>
    decreases rows.len(),
{
    if rows.len() == 0 {
        Map::empty()
    } else {
        trips_by_id(rows.drop_last()).insert(rows.last().trip_id, rows.last())
    }
}

/// The stops of `rows` by stop identifier. Of two rows with one identifier
/// the later one stays.
pub open spec fn stops_by_id(rows: Seq<StopView>) -> Map<Seq<char>, StopView>
    decreases rows.len(),
{
    if rows.len() == 0 {
        Map::empty()
    } else {
        stops_by_id(rows.drop_last()).insert(rows.last().stop_id, rows.last())
    }
}

/// The calendars of `rows` by service identifier, without exceptions, or
/// the error of the first row that has one. Of two rows with one
/// identifier the later one stays.
pub open spec fn calendars_by_id(rows: Seq<CalendarRawView>) -> Result<
    Map<Seq<char>, CalendarView>,
    LoadError,
>
    decreases rows.len(),
{
    if rows.len() == 0 {
        Ok(Map::empty())
    } else {
        match calendars_by_id(rows.drop_last()) {
            Ok(calendars) => match rows.last().parsed() {
                Ok(calendar) => Ok(calendars.insert(calendar.service_id, calendar)),
                Err(e) => Err(e),
            },
            Err(e) => Err(e),
        }
    }
}

/// The calendars with each exception of `rows` at the end of the list of
/// the calendar that it names, in the order of `rows`; or the error of the
/// first row that has one: `MalformedDate` where its date does not parse,
/// `UnknownService` where no calendar has the identifier that it names.
pub open spec fn with_exceptions(
    calendars: Map<Seq<char>, CalendarView>,
    rows: Seq<CalendarDateRawView>,
) -> Result<Map<Seq<char>, CalendarView>, LoadError>
    decreases rows.len(),
{
    if rows.len() == 0 {
        Ok(calendars)
    } else {
        match with_exceptions(calendars, rows.drop_last()) {
            Ok(attached) => match rows.last().parsed() {
                Ok(exception) => if attached.contains_key(exception.service_id) {
                    Ok(
                        attached.insert(
                            exception.service_id,
                            attached[exception.service_id].with_exception(exception),
                        ),
                    )
                } else {
                    Err(LoadError::UnknownService)
                },
                Err(e) => Err(e),
            },
            Err(e) => Err(e),
        }
    }
}

/// The stop times of `rows` by stop identifier, those of one stop in the
/// order of `rows`.
pub open spec fn stop_times_by_stop(rows: Seq<StopTimeRawView>) -> Map<
    Seq<char>,
    Seq<StopTimeView>,
>
    decreases rows.len(),
{
    if rows.len() == 0 {
        Map::empty()
    } else {
        let before = stop_times_by_stop(rows.drop_last());
        let entry = rows.last().parsed();
        let at_stop = if before.contains_key(entry.stop_id) {
            before[entry.stop_id]
        } else {
            Seq::empty()
        };
        before.insert(entry.stop_id, at_stop.push(entry))
    }
}

/// The schedule that the rows of the four tables stand for, or the error
/// for which they stand for none: that of the calendar table where it has
/// one, else that of the calendar-dates table.
pub open spec fn loaded(
    calendar: Seq<CalendarRawView>,
    calendar_dates: Seq<CalendarDateRawView>,
    stop_times: Seq<StopTimeRawView>,
    trips: Seq<TripView>,
    stops: Seq<StopView>,
) -> Result<DataView, LoadError> {
    match calendars_by_id(calendar) {
        Ok(calendars) => match with_exceptions(calendars, calendar_dates) {
            Ok(attached) => Ok(
                DataView {
                    trips: trips_by_id(trips),
                    stops: stops_by_id(stops),
                    calendar: attached,
                    stop_times: stop_times_by_stop(stop_times),
                },
            ),
            Err(e) => Err(e),
        },
        Err(e) => Err(e),
    }
}

/// The outcome of loading a table of calendars, with the table as its map
/// of views.
pub open spec fn calendars_outcome(r: Result<Table<Calendar>, LoadError>) -> Result<
    Map<Seq<char>, CalendarView>,
    LoadError,
> {
    match r {
        Ok(table) => Ok(calendar_map(table)),
        Err(e) => Err(e),
    }
}

/// The outcome of loading a schedule, with the schedule as its view.
pub open spec fn load_outcome(r: Result<Data, LoadError>) -> Result<DataView, LoadError> {
    match r {
        Ok(data) => Ok(data@),
        Err(e) => Err(e),
    }
}

/// Puts the trips under their identifiers.
fn index_trips(rows: Vec<Trip>) -> (table: Table<Trip>)
    ensures
        table.wf(),
        trips_keyed(table),
        trip_map(table) == trips_by_id(views_of(rows@)),
{
    let mut table: Table<Trip> = Table::new();
    let ghost all = views_of(rows@);
    for row in it: rows
        invariant
            it.seq() == rows@,
            all == views_of(rows@),
            table.wf(),
            trips_keyed(table),
            trip_map(table) == trips_by_id(all.take(it.index() as int)),
    {
        proof {
            let i = it.index() as int;
            assert(all.take(i + 1).drop_last() =~= all.take(i));
        }
        let ghost before = table;
        let key = row.trip_id.clone();
        table.insert(key, row);
        proof {
            if before.has_key(key@) {
                before.lemma_key(key@);
            }
        }
    }
    assert(all.take(rows@.len() as int) =~= all);
    table
}

/// Puts the stops under their identifiers.
fn index_stops(rows: Vec<Stop>) -> (table: Table<Stop>)
    ensures
        table.wf(),
        stops_keyed(table),
        stop_map(table) == stops_by_id(views_of(rows@)),
{
    let mut table: Table<Stop> = Table::new();
    let ghost all = views_of(rows@);
    for row in it: rows
        invariant
            it.seq() == rows@,
            all == views_of(rows@),
            table.wf(),
            stops_keyed(table),
            stop_map(table) == stops_by_id(all.take(it.index() as int)),
    {
        proof {
            let i = it.index() as int;
            assert(all.take(i + 1).drop_last() =~= all.take(i));
        }
        let ghost before = table;
        let key = row.stop_id.clone();
        table.insert(key, row);
        proof {
            if before.has_key(key@) {
                before.lemma_key(key@);
            }
        }
    }
    assert(all.take(rows@.len() as int) =~= all);
    table
}

/// Reads the rows of the calendar table and puts the calendars under their
/// service identifiers.
fn index_calendars(rows: Vec<CalendarRaw>) -> (r: Result<Table<Calendar>, LoadError>)
    ensures
        calendars_outcome(r) == calendars_by_id(views_of(rows@)),
        r matches Ok(table) ==> table.wf() && calendars_keyed(table),
{
    let mut table: Table<Calendar> = Table::new();
    let ghost all = views_of(rows@);
    assert(calendar_map(table) =~= Map::<Seq<char>, CalendarView>::empty());
    for row in it: rows
        invariant
            it.seq() == rows@,
            all == views_of(rows@),
            table.wf(),
            calendars_keyed(table),
            calendars_by_id(all.take(it.index() as int)) == Ok::<
                Map<Seq<char>, CalendarView>,
                LoadError,
            >(calendar_map(table)),
    {
        proof {
            let i = it.index() as int;
            assert(all.take(i + 1).drop_last() =~= all.take(i));
            lemma_calendars_error_stays(all, i + 1);
        }
        match Calendar::from_calendar(row) {
            Ok(calendar) => {
                let ghost before = table;
                let key = calendar.service_id.clone();
                table.insert(key, calendar);
                proof {
                    assert(calendar@.exceptions.len() == 0);
                    if before.has_key(key@) {
                        before.lemma_key(key@);
                    }
                    assert(calendar_map(table) =~= calendar_map(before).insert(
                        calendar@.service_id,
                        calendar@,
                    ));
                }
            },
            Err(e) => {
                return Err(e);
            },
        }
    }
    assert(all.take(rows@.len() as int) =~= all);
    Ok(table)
}

/// An error among the first `n` rows of the calendar table is the error of
/// the whole table.
proof fn lemma_calendars_error_stays(rows: Seq<CalendarRawView>, n: int)
    requires
        0 <= n <= rows.len(),
    ensures
        calendars_by_id(rows.take(n)) matches Err(e) ==> calendars_by_id(rows) == Err::<
            Map<Seq<char>, CalendarView>,
            LoadError,
        >(e),
    decreases rows.len() - n,
{
    if n == rows.len() {
        assert(rows.take(n) =~= rows);
    } else {
        assert(rows.take(n + 1).drop_last() =~= rows.take(n));
        lemma_calendars_error_stays(rows, n + 1);
    }
}

/// An error among the first `n` rows of the calendar-dates table is the
/// error of the whole table.
proof fn lemma_exceptions_error_stays(
    calendars: Map<Seq<char>, CalendarView>,
    rows: Seq<CalendarDateRawView>,
    n: int,
)
    requires
        0 <= n <= rows.len(),
    ensures
        with_exceptions(calendars, rows.take(n)) matches Err(e) ==> with_exceptions(calendars, rows)
            == Err::<Map<Seq<char>, CalendarView>, LoadError>(e),
    decreases rows.len() - n,
{
    if n == rows.len() {
        assert(rows.take(n) =~= rows);
    } else {
        assert(rows.take(n + 1).drop_last() =~= rows.take(n));
        lemma_exceptions_error_stays(calendars, rows, n + 1);
    }
}

/// Puts `exception` at the end of the exceptions of `calendar`.
fn add_exception(calendar: &mut Calendar, exception: CalendarDate)
    ensures
        final(calendar)@ == old(calendar)@.with_exception(exception@),
        final(calendar).exceptions@ == old(calendar).exceptions@.push(exception),
{
    let ghost before = calendar@;
    calendar.exceptions.push(exception);
    assert(calendar@.exceptions =~= before.exceptions.push(exception@));
}

/// Reads the rows of the calendar-dates table and puts each exception at
/// the end of the exceptions of the calendar that it names.
///
/// Where the result is an error, `calendars` holds the exceptions of the
/// rows before the one that failed.
fn attach_exceptions(calendars: &mut Table<Calendar>, rows: Vec<CalendarDateRaw>) -> (r: Result<
    (),
    LoadError,
>)
    requires
        old(calendars).wf(),
        calendars_keyed(*old(calendars)),
    ensures
        final(calendars).wf(),
        calendars_keyed(*final(calendars)),
        match r {
            Ok(_) => with_exceptions(calendar_map(*old(calendars)), views_of(rows@)) == Ok::<
                Map<Seq<char>, CalendarView>,
                LoadError,
            >(calendar_map(*final(calendars))),
            Err(e) => with_exceptions(calendar_map(*old(calendars)), views_of(rows@)) == Err::<
                Map<Seq<char>, CalendarView>,
                LoadError,
            >(e),
        },
{
    let ghost start = calendar_map(*calendars);
    let ghost all = views_of(rows@);
    for row in it: rows
        invariant
            it.seq() == rows@,
            all == views_of(rows@),
            calendars.wf(),
            calendars_keyed(*calendars),
            start == calendar_map(*old(calendars)),
            with_exceptions(start, all.take(it.index() as int)) == Ok::<
                Map<Seq<char>, CalendarView>,
                LoadError,
            >(calendar_map(*calendars)),
    {
        proof {
            let i = it.index() as int;
            assert(all.take(i + 1).drop_last() =~= all.take(i));
            lemma_exceptions_error_stays(start, all, i + 1);
        }
        match CalendarDate::from_raw(row) {
            Ok(exception) => {
                match calendars.find(exception.service_id.as_str()) {
                    Some(at) => {
                        let ghost before = *calendars;
                        proof {
                            before.lemma_entry(at as int);
                        }
                        add_exception(&mut calendars.values[at], exception);
                        proof {
                            calendars.lemma_update(&before, at as int);
                            assert(calendar_map(*calendars) =~= calendar_map(before).insert(
                                exception@.service_id,
                                calendar_map(before)[exception@.service_id].with_exception(
                                    exception@,
                                ),
                            ));
                        }
                    },
                    None => {
                        return Err(LoadError::UnknownService);
                    },
                }
            },
            Err(e) => {
                return Err(e);
            },
        }
    }
    assert(all.take(rows@.len() as int) =~= all);
    Ok(())
}

/// Reads the rows of the stop-times table and groups the stop times by
/// stop.
fn group_stop_times(rows: Vec<StopTimeRaw>) -> (table: Table<Vec<StopTime>>)
    ensures
        table.wf(),
        stop_times_keyed(table),
        stop_time_map(table) == stop_times_by_stop(views_of(rows@)),
{
    let mut table: Table<Vec<StopTime>> = Table::new();
    let ghost all = views_of(rows@);
    for row in it: rows
        invariant
            it.seq() == rows@,
            all == views_of(rows@),
            table.wf(),
            stop_times_keyed(table),
            stop_time_map(table) == stop_times_by_stop(all.take(it.index() as int)),
    {
        proof {
            let i = it.index() as int;
            assert(all.take(i + 1).drop_last() =~= all.take(i));
        }
        let entry = StopTime::from_raw(row);
        let ghost before = table;
        let ghost view = entry@;
        match table.find(entry.stop_id.as_str()) {
            Some(at) => {
                proof {
                    before.lemma_entry(at as int);
                }
                table.values[at].push(entry);
                proof {
                    table.lemma_update(&before, at as int);
                    assert(stop_time_views(table.values@[at as int]@) =~= stop_time_views(
                        before.values@[at as int]@,
                    ).push(view));
                    assert(stop_time_map(table) =~= stop_time_map(before).insert(
                        view.stop_id,
                        stop_time_map(before)[view.stop_id].push(view),
                    ));
                }
            },
            None => {
                let key = entry.stop_id.clone();
                let mut entries: Vec<StopTime> = Vec::new();
                entries.push(entry);
                table.insert(key, entries);
                proof {
                    assert(stop_time_views(entries@) =~= Seq::<StopTimeView>::empty().push(view));
                    assert(stop_time_map(table) =~= stop_time_map(before).insert(
                        view.stop_id,
                        Seq::<StopTimeView>::empty().push(view),
                    ));
                }
            },
        }
    }
    assert(all.take(rows@.len() as int) =~= all);
    table
}

impl Data {
    /// Loads a schedule from the rows of its four tables.
    ///
    /// Every calendar row is read into a calendar, every calendar-dates row
    /// into an exception of the calendar that it names, every stop-times
    /// row into a stop time of its stop. A time field that does not parse
    /// is read as midnight. Loading fails with `MalformedDate` where a date
    /// field does not parse and with `UnknownService` where an exception
    /// names a service that the calendar table lacks; the first row at
    /// fault decides, the calendar table before the calendar-dates table.
    pub fn read(
        calendar: Vec<CalendarRaw>,
        calendar_dates: Vec<CalendarDateRaw>,
        stop_times: Vec<StopTimeRaw>,
        trips: Vec<Trip>,
        stops: Vec<Stop>,
    ) -> (r: Result<Data, LoadError>)
        ensures
            load_outcome(r) == loaded(
                views_of(calendar@),
                views_of(calendar_dates@),
                views_of(stop_times@),
                views_of(trips@),
                views_of(stops@),
            ),
            r matches Ok(data) ==> data.wf(),
    {
        let mut calendars = match index_calendars(calendar) {
            Ok(calendars) => calendars,
            Err(e) => {
                return Err(e);
            },
        };
        match attach_exceptions(&mut calendars, calendar_dates) {
            Ok(_) => {},
            Err(e) => {
                return Err(e);
            },
        }
        let stop_times = group_stop_times(stop_times);
        Ok(
            Data {
                trips: index_trips(trips),
                stops: index_stops(stops),
                stop_times,
                calendar: calendars,
            },
        )
    }
}

} // verus!
