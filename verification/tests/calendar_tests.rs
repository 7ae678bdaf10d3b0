use bus_schedule::calendar::{
    Calendar, CalendarDate, CalendarDateRaw, CalendarRaw, ExceptionType, LoadError,
};
use bus_schedule::days::Days;
use bus_schedule::time::{Date, Weekday};

fn weekdays_2024() -> CalendarRaw {
    CalendarRaw {
        service_id: "WK".to_string(),
        service_name: "Weekdays".to_string(),
        monday: "1".to_string(),
        tuesday: "1".to_string(),
        wednesday: "1".to_string(),
        thursday: "1".to_string(),
        friday: "1".to_string(),
        saturday: "0".to_string(),
        sunday: "0".to_string(),
        start_date: "20240101".to_string(),
        end_date: "20241231".to_string(),
    }
}

#[test]
fn calendar_reads_dates_and_days() {
    let calendar = Calendar::from_calendar(weekdays_2024()).unwrap();
    assert_eq!(calendar.start_date, Date::new(2024, 1, 1));
    assert_eq!(calendar.end_date, Date::new(2024, 12, 31));
    assert_eq!(calendar.days.bits, 0b0011111);
    assert!(calendar.days.has_day(Weekday::Mon));
    assert!(!calendar.days.has_day(Weekday::Sun));
    assert!(calendar.exceptions.is_empty());
}

#[test]
fn calendar_is_active_on_a_weekday_in_range() {
    let calendar = Calendar::from_calendar(weekdays_2024()).unwrap();
    // 2024-03-06 is a Wednesday.
    assert!(calendar.is_active(&Date::new(2024, 3, 6)));
    // 2024-03-09 is a Saturday.
    assert!(!calendar.is_active(&Date::new(2024, 3, 9)));
}

#[test]
fn calendar_is_inactive_outside_its_range() {
    let calendar = Calendar::from_calendar(weekdays_2024()).unwrap();
    // Both are Wednesdays.
    assert!(!calendar.is_active(&Date::new(2023, 12, 27)));
    assert!(!calendar.is_active(&Date::new(2025, 1, 1)));
    assert!(calendar.is_active(&Date::new(2024, 1, 1)));
    assert!(calendar.is_active(&Date::new(2024, 12, 31)));
}

#[test]
fn removed_exception_takes_the_service_off_its_date() {
    let mut calendar = Calendar::from_calendar(weekdays_2024()).unwrap();
    let raw = CalendarDateRaw {
        date: "20240306".to_string(),
        exception_type: "2".to_string(),
        service_id: "WK".to_string(),
    };
    let exception = CalendarDate::from_raw(raw).unwrap();
    assert_eq!(exception.exception_type, ExceptionType::Removed);
    calendar.exceptions.push(exception);
    assert!(!calendar.is_active(&Date::new(2024, 3, 6)));
    assert!(calendar.is_active(&Date::new(2024, 3, 7)));
}

#[test]
fn malformed_date_is_a_load_error() {
    let mut raw = weekdays_2024();
    raw.end_date = "2024-12-31".to_string();
    assert_eq!(Calendar::from_calendar(raw).unwrap_err(), LoadError::MalformedDate);
    assert_eq!(Days::from_weekday(Weekday::Sun).bits, 64);
}
