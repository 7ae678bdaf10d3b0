use bus_schedule::calendar::{CalendarDateRaw, CalendarRaw, ExceptionType, LoadError};
use bus_schedule::schedule::{time_or_midnight, Stop, StopTime, StopTimeRaw, Trip};
use bus_schedule::store::Data;
use bus_schedule::time::{Date, TimeOfDay};

fn calendar(id: &str, start: &str, end: &str) -> CalendarRaw {
    CalendarRaw {
        service_id: id.to_string(),
        service_name: format!("service {}", id),
        monday: "1".to_string(),
        tuesday: "0".to_string(),
        wednesday: "1".to_string(),
        thursday: "0".to_string(),
        friday: "yes".to_string(),
        saturday: "".to_string(),
        sunday: "11".to_string(),
        start_date: start.to_string(),
        end_date: end.to_string(),
    }
}

fn exception(service: &str, date: &str, kind: &str) -> CalendarDateRaw {
    CalendarDateRaw {
        date: date.to_string(),
        exception_type: kind.to_string(),
        service_id: service.to_string(),
    }
}

fn trip(id: &str, route: &str, service: &str, headsign: &str) -> Trip {
    Trip {
        trip_id: id.to_string(),
        route_short_name: route.to_string(),
        service_id: service.to_string(),
        trip_headsign: headsign.to_string(),
    }
}

fn stop(id: &str, name: &str) -> Stop {
    Stop { stop_id: id.to_string(), stop_name: name.to_string() }
}

fn visit(trip: &str, stop: &str, arrival: &str, departure: &str) -> StopTimeRaw {
    StopTimeRaw {
        trip_id: trip.to_string(),
        stop_id: stop.to_string(),
        arrival_time: arrival.to_string(),
        departure_time: departure.to_string(),
    }
}

fn hms(h: u32, m: u32, s: u32) -> TimeOfDay {
    TimeOfDay::from_hms(h, m, s).unwrap()
}

#[test]
fn stop_time_reads_its_times() {
    let st = StopTime::from_raw(visit("T1", "100", "08:04:30", "08:05:00"));
    assert_eq!(st.trip_id, "T1");
    assert_eq!(st.stop_id, "100");
    assert_eq!(st.arrival_time, hms(8, 4, 30));
    assert_eq!(st.departure_time, hms(8, 5, 0));
}

#[test]
fn stop_time_takes_a_space_before_a_single_digit_hour() {
    let st = StopTime::from_raw(visit("T1", "100", " 6:05:00", "6:05:10"));
    assert_eq!(st.arrival_time, hms(6, 5, 0));
    assert_eq!(st.departure_time, hms(6, 5, 10));
}

#[test]
fn malformed_time_is_read_as_midnight() {
    let st = StopTime::from_raw(visit("T1", "100", "garbage", "garbage"));
    assert_eq!(st.arrival_time, TimeOfDay::midnight());
    assert_eq!(st.departure_time, TimeOfDay { secs: 0, nanos: 0 });
    let st = StopTime::from_raw(visit("T1", "100", "", "24:00:00"));
    assert_eq!(st.arrival_time, TimeOfDay::midnight());
    assert_eq!(st.departure_time, TimeOfDay::midnight());
    let st = StopTime::from_raw(visit("T1", "100", "08:61:00", "08:05"));
    assert_eq!(st.arrival_time, TimeOfDay::midnight());
    assert_eq!(st.departure_time, TimeOfDay::midnight());
}

#[test]
fn a_sixtieth_second_is_read_as_a_leap_second() {
    let st = StopTime::from_raw(visit("T1", "100", "23:59:60", "23:59:59"));
    assert_eq!(st.arrival_time, TimeOfDay { secs: 86_399, nanos: 1_000_000_000 });
    assert_eq!(st.departure_time, TimeOfDay { secs: 86_399, nanos: 0 });
}

#[test]
fn time_or_midnight_keeps_a_parsed_time() {
    assert_eq!(time_or_midnight(Ok(hms(9, 30, 0))), hms(9, 30, 0));
    let failed = Err("input contains invalid characters".to_string());
    assert_eq!(time_or_midnight(failed), hms(0, 0, 0));
}

#[test]
fn a_schedule_is_loaded_from_its_rows() {
    let data = Data::read(
        vec![calendar("A", "20240101", "20240630"), calendar("B", "20240701", "20241231")],
        vec![
            exception("A", "20240306", "2"),
            exception("B", "20240704", "1"),
            exception("A", "20240313", "2"),
        ],
        vec![
            visit("T1", "100", "08:00:00", "08:00:30"),
            visit("T1", "200", "08:10:00", "08:10:30"),
            visit("T2", "100", "07:00:00", "07:00:30"),
        ],
        vec![trip("T1", "2", "A", "North"), trip("T2", "3", "B", "South")],
        vec![stop("100", "Main & 1st"), stop("200", "Main & 2nd")],
    )
    .unwrap();

    let a = data.calendar.get("A").unwrap();
    assert_eq!(a.service_id, "A");
    assert_eq!(a.service_name, "service A");
    assert_eq!(a.start_date, Date::new(2024, 1, 1));
    assert_eq!(a.end_date, Date::new(2024, 6, 30));
    assert_eq!(a.days.bits, 1 | 4);
    assert_eq!(a.exceptions.len(), 2);
    assert_eq!(a.exceptions[0].date, Date::new(2024, 3, 6));
    assert_eq!(a.exceptions[0].exception_type, ExceptionType::Removed);
    assert_eq!(a.exceptions[0].service_id, "A");
    assert_eq!(a.exceptions[1].date, Date::new(2024, 3, 13));
    let b = data.calendar.get("B").unwrap();
    assert_eq!(b.exceptions.len(), 1);
    assert_eq!(b.exceptions[0].exception_type, ExceptionType::Added);
    assert!(data.calendar.get("C").is_none());

    assert_eq!(data.trips.get("T1").unwrap().trip_headsign, "North");
    assert_eq!(data.trips.get("T2").unwrap().route_short_name, "3");
    assert_eq!(data.stops.get("200").unwrap().stop_name, "Main & 2nd");
    assert!(data.stops.get("300").is_none());

    let at_100 = data.stop_times.get("100").unwrap();
    assert_eq!(at_100.len(), 2);
    assert_eq!(at_100[0].trip_id, "T1");
    assert_eq!(at_100[0].departure_time, hms(8, 0, 30));
    assert_eq!(at_100[1].trip_id, "T2");
    assert_eq!(at_100[1].arrival_time, hms(7, 0, 0));
    let at_200 = data.stop_times.get("200").unwrap();
    assert_eq!(at_200.len(), 1);
    assert_eq!(at_200[0].stop_id, "200");
    assert!(data.stop_times.get("300").is_none());
}

#[test]
fn a_malformed_time_does_not_stop_the_load() {
    let data = Data::read(
        vec![calendar("A", "20240101", "20240630")],
        vec![],
        vec![visit("T1", "100", "garbage", "garbage"), visit("T2", "100", "09:00:00", "09:00:00")],
        vec![trip("T1", "2", "A", "North"), trip("T2", "2", "A", "South")],
        vec![stop("100", "Main & 1st")],
    )
    .unwrap();
    let entries = data.stop_times.get("100").unwrap();
    assert_eq!(entries.len(), 2);
    assert_eq!(entries[0].departure_time, TimeOfDay::midnight());
    assert_eq!(entries[1].departure_time, hms(9, 0, 0));
}

#[test]
fn a_malformed_date_in_the_calendar_stops_the_load() {
    let r = Data::read(
        vec![calendar("A", "20240101", "20240630"), calendar("B", "2024-07-01", "20241231")],
        vec![],
        vec![],
        vec![],
        vec![],
    );
    assert_eq!(r.err(), Some(LoadError::MalformedDate));
    let r = Data::read(vec![calendar("A", "20240101", "20240631")], vec![], vec![], vec![], vec![]);
    assert_eq!(r.err(), Some(LoadError::MalformedDate));
    assert_eq!(LoadError::MalformedDate.message(), "Error parsing date");
}

#[test]
fn a_malformed_date_in_an_exception_stops_the_load() {
    let r = Data::read(
        vec![calendar("A", "20240101", "20240630")],
        vec![exception("A", "20240306", "2"), exception("A", "March 6", "2")],
        vec![],
        vec![],
        vec![],
    );
    assert_eq!(r.err(), Some(LoadError::MalformedDate));
}

#[test]
fn an_exception_for_an_unknown_service_stops_the_load() {
    let r = Data::read(
        vec![calendar("A", "20240101", "20240630")],
        vec![exception("A", "20240306", "2"), exception("Z", "20240306", "2")],
        vec![],
        vec![],
        vec![],
    );
    assert_eq!(r.err(), Some(LoadError::UnknownService));
    assert_eq!(LoadError::UnknownService.message(), "No such service.");
}

#[test]
fn the_first_row_at_fault_decides_the_error() {
    let r = Data::read(
        vec![calendar("A", "20240101", "20240630")],
        vec![exception("Z", "20240306", "2"), exception("A", "bad", "2")],
        vec![],
        vec![],
        vec![],
    );
    assert_eq!(r.err(), Some(LoadError::UnknownService));
    let r = Data::read(
        vec![calendar("A", "20240101", "20240630")],
        vec![exception("A", "bad", "2"), exception("Z", "20240306", "2")],
        vec![],
        vec![],
        vec![],
    );
    assert_eq!(r.err(), Some(LoadError::MalformedDate));
    // A row with both faults fails on its date.
    let r = Data::read(
        vec![calendar("A", "20240101", "20240630")],
        vec![exception("Z", "bad", "2")],
        vec![],
        vec![],
        vec![],
    );
    assert_eq!(r.err(), Some(LoadError::MalformedDate));
    // The calendar table is read before the calendar-dates table.
    let r = Data::read(
        vec![calendar("A", "bad", "20240630")],
        vec![exception("Z", "20240306", "2")],
        vec![],
        vec![],
        vec![],
    );
    assert_eq!(r.err(), Some(LoadError::MalformedDate));
}

#[test]
fn of_two_rows_with_one_key_the_later_stays() {
    let data = Data::read(
        vec![calendar("A", "20240101", "20240630"), calendar("A", "20250101", "20250630")],
        vec![exception("A", "20250306", "2")],
        vec![],
        vec![
            trip("T1", "2", "A", "old"),
            trip("T2", "2", "A", "other"),
            trip("T1", "9", "A", "new"),
        ],
        vec![stop("100", "Old Name"), stop("100", "New Name")],
    )
    .unwrap();
    assert_eq!(data.trips.len(), 2);
    assert_eq!(data.trips.get("T1").unwrap().trip_headsign, "new");
    assert_eq!(data.trips.get("T1").unwrap().route_short_name, "9");
    assert_eq!(data.stops.len(), 1);
    assert_eq!(data.stops.get("100").unwrap().stop_name, "New Name");
    assert_eq!(data.calendar.len(), 1);
    let a = data.calendar.get("A").unwrap();
    assert_eq!(a.start_date, Date::new(2025, 1, 1));
    assert_eq!(a.exceptions.len(), 1);
}

#[test]
fn an_empty_schedule_loads() {
    let data = Data::read(vec![], vec![], vec![], vec![], vec![]).unwrap();
    assert_eq!(data.trips.len(), 0);
    assert_eq!(data.stops.len(), 0);
    assert_eq!(data.calendar.len(), 0);
    assert_eq!(data.stop_times.len(), 0);
    assert!(data.is_intact_at("100"));
    assert!(data.search(vec![]).is_empty());
}
