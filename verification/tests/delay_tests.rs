use bus_schedule::delay::{
    parse_real_time_data, print_delay, DelayIndex, FeedError, StopTimeUpdate, TripUpdate,
};
use bus_schedule::time::MAX_SHIFT_SECONDS;

fn report(trip: &str, stops: &[(&str, i64)]) -> TripUpdate {
    TripUpdate {
        trip_id: trip.to_string(),
        stop_time_updates: stops
            .iter()
            .map(|(stop, delay)| StopTimeUpdate { stop_id: stop.to_string(), delay: *delay })
            .collect(),
    }
}

#[test]
fn an_empty_index_has_no_delay() {
    let index = DelayIndex::new();
    assert_eq!(index.lookup("100", "T1"), None);
}

#[test]
fn a_delay_is_found_under_its_stop_and_trip() {
    let mut index = DelayIndex::new();
    assert!(index.insert("100".to_string(), "T1".to_string(), 120));
    assert!(index.insert("100".to_string(), "T2".to_string(), 30));
    assert!(index.insert("200".to_string(), "T1".to_string(), 45));
    assert_eq!(index.lookup("100", "T1"), Some(120));
    assert_eq!(index.lookup("100", "T2"), Some(30));
    assert_eq!(index.lookup("200", "T1"), Some(45));
    assert_eq!(index.lookup("200", "T2"), None);
    assert_eq!(index.lookup("T1", "100"), None);
    assert_eq!(index.lookup("300", "T1"), None);
}

#[test]
fn the_last_delay_for_a_stop_and_trip_stays() {
    let mut index = DelayIndex::new();
    assert!(index.insert("100".to_string(), "T1".to_string(), 120));
    assert!(index.insert("100".to_string(), "T1".to_string(), 60));
    assert_eq!(index.lookup("100", "T1"), Some(60));
}

#[test]
fn a_delay_out_of_range_is_refused() {
    let mut index = DelayIndex::new();
    assert!(index.insert("100".to_string(), "T1".to_string(), 120));
    assert!(!index.insert("100".to_string(), "T1".to_string(), MAX_SHIFT_SECONDS + 1));
    assert!(!index.insert("100".to_string(), "T2".to_string(), i64::MIN));
    assert_eq!(index.lookup("100", "T1"), Some(120));
    assert_eq!(index.lookup("100", "T2"), None);
    assert!(index.insert("100".to_string(), "T2".to_string(), MAX_SHIFT_SECONDS));
    assert!(index.insert("100".to_string(), "T3".to_string(), -MAX_SHIFT_SECONDS));
    assert_eq!(index.lookup("100", "T2"), Some(MAX_SHIFT_SECONDS));
    assert_eq!(MAX_SHIFT_SECONDS, i64::MAX / 1000);
}

#[test]
fn a_feed_gives_the_delays_of_more_than_zero() {
    let feed = vec![
        report("T1", &[("100", 120), ("200", 0), ("300", -30)]),
        report("T2", &[("100", 15)]),
        report("T3", &[]),
    ];
    let index = parse_real_time_data(&feed).unwrap();
    assert_eq!(index.lookup("100", "T1"), Some(120));
    assert_eq!(index.lookup("200", "T1"), None);
    assert_eq!(index.lookup("300", "T1"), None);
    assert_eq!(index.lookup("100", "T2"), Some(15));
    assert_eq!(index.lookup("100", "T3"), None);
}

#[test]
fn of_two_reports_for_a_stop_and_trip_the_last_stays() {
    let feed = vec![
        report("T1", &[("100", 120), ("100", 90)]),
        report("T2", &[("100", 15)]),
        report("T1", &[("100", 300), ("100", 0)]),
    ];
    let index = parse_real_time_data(&feed).unwrap();
    assert_eq!(index.lookup("100", "T1"), Some(300));
    assert_eq!(index.lookup("100", "T2"), Some(15));
}

#[test]
fn an_empty_feed_gives_an_empty_index() {
    let index = parse_real_time_data(&vec![]).unwrap();
    assert_eq!(index.lookup("100", "T1"), None);
}

#[test]
fn a_feed_with_a_delay_out_of_range_gives_no_index() {
    let feed = vec![report("T1", &[("100", 120), ("200", i64::MAX)])];
    assert_eq!(parse_real_time_data(&feed).err(), Some(FeedError::DelayOutOfRange));
    assert_eq!(FeedError::DelayOutOfRange.message(), "Delay out of range");
    // A delay that is not above zero is passed over, whatever its size.
    let feed = vec![report("T1", &[("100", 120), ("200", i64::MIN)])];
    assert!(parse_real_time_data(&feed).is_ok());
}

#[test]
fn delays_are_printed_in_minutes_and_seconds() {
    assert_eq!(print_delay(45), "45s");
    assert_eq!(print_delay(59), "59s");
    assert_eq!(print_delay(60), "1m");
    assert_eq!(print_delay(61), "1m 1s");
    assert_eq!(print_delay(200), "3m 20s");
    assert_eq!(print_delay(120), "2m");
    assert_eq!(print_delay(3600), "60m");
    assert_eq!(print_delay(3725), "62m 5s");
    assert_eq!(print_delay(0), "0s");
    assert_eq!(print_delay(7), "7s");
    assert_eq!(print_delay(-5), "-5s");
    assert_eq!(print_delay(-90), "-90s");
    assert_eq!(print_delay(i64::MAX), "153722867280912930m 7s");
    assert_eq!(print_delay(i64::MIN), "-9223372036854775808s");
}
