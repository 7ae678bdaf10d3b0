use bus_schedule::calendar::{Calendar, CalendarDate, CalendarDateRaw, CalendarRaw, ExceptionType};
use bus_schedule::days::Days;
use bus_schedule::time::{Date, TimeOfDay, Weekday};

const WEEK: [Weekday; 7] = [
    Weekday::Mon,
    Weekday::Tue,
    Weekday::Wed,
    Weekday::Thu,
    Weekday::Fri,
    Weekday::Sat,
    Weekday::Sun,
];

fn only(day: usize) -> CalendarRaw {
    let flag = |i: usize| if i == day { "1".to_string() } else { "0".to_string() };
    CalendarRaw {
        service_id: "S".to_string(),
        service_name: "one day a week".to_string(),
        monday: flag(0),
        tuesday: flag(1),
        wednesday: flag(2),
        thursday: flag(3),
        friday: flag(4),
        saturday: flag(5),
        sunday: flag(6),
        start_date: "19000101".to_string(),
        end_date: "21001231".to_string(),
    }
}

#[test]
fn times_are_made_from_hours_minutes_and_seconds() {
    assert_eq!(TimeOfDay::from_hms(0, 0, 0), Some(TimeOfDay { secs: 0, nanos: 0 }));
    assert_eq!(TimeOfDay::from_hms(8, 5, 30), Some(TimeOfDay { secs: 29_130, nanos: 0 }));
    assert_eq!(TimeOfDay::from_hms(23, 59, 59), Some(TimeOfDay { secs: 86_399, nanos: 0 }));
    assert_eq!(TimeOfDay::from_hms(24, 0, 0), None);
    assert_eq!(TimeOfDay::from_hms(0, 60, 0), None);
    assert_eq!(TimeOfDay::from_hms(0, 0, 60), None);
    assert_eq!(TimeOfDay::from_hms(u32::MAX, u32::MAX, u32::MAX), None);
    assert_eq!(TimeOfDay::midnight(), TimeOfDay { secs: 0, nanos: 0 });
}

#[test]
fn times_are_ordered_by_seconds_then_nanoseconds() {
    let a = TimeOfDay { secs: 10, nanos: 5 };
    let b = TimeOfDay { secs: 10, nanos: 6 };
    let c = TimeOfDay { secs: 11, nanos: 0 };
    assert!(a.is_before(&b));
    assert!(b.is_before(&c));
    assert!(a.is_before(&c));
    assert!(!b.is_before(&a));
    assert!(!a.is_before(&a));
    assert!(!c.is_before(&b));
}

#[test]
fn dates_are_ordered_by_year_month_and_day() {
    let dates = [
        Date::new(2023, 12, 31),
        Date::new(2024, 1, 1),
        Date::new(2024, 1, 2),
        Date::new(2024, 2, 1),
        Date::new(2025, 1, 1),
    ];
    for (i, a) in dates.iter().enumerate() {
        for (j, b) in dates.iter().enumerate() {
            assert_eq!(a.is_before(b), i < j);
        }
    }
    assert!(Date::new(-1, 12, 31).is_before(&Date::new(0, 1, 1)));
}

#[test]
fn days_hold_the_weekdays_of_their_flags() {
    let days = Days::from_flags(true, false, true, false, false, false, true);
    assert_eq!(days.bits, 1 | 4 | 64);
    assert!(days.has_day(Weekday::Mon));
    assert!(!days.has_day(Weekday::Tue));
    assert!(days.has_day(Weekday::Wed));
    assert!(days.has_day(Weekday::Sun));
    assert_eq!(Days::from_flags(false, false, false, false, false, false, false), Days::empty());
    assert_eq!(Days::from_flags(true, true, true, true, true, true, true).bits, 127);
    assert_eq!(Days::empty().bits, 0);
}

#[test]
fn each_weekday_has_a_bit_of_its_own() {
    for (i, day) in WEEK.iter().enumerate() {
        let one = Days::from_weekday(*day);
        assert_eq!(one.bits, 1 << i);
        for other in WEEK.iter() {
            assert_eq!(one.has_day(*other), other == day);
        }
    }
}

#[test]
fn union_and_contains_work_on_sets_of_days() {
    let weekend = Days::from_weekday(Weekday::Sat).union(Days::from_weekday(Weekday::Sun));
    assert_eq!(weekend.bits, 32 | 64);
    assert!(weekend.contains(Days::from_weekday(Weekday::Sat)));
    assert!(weekend.contains(Days::empty()));
    assert!(weekend.contains(weekend));
    assert!(!weekend.contains(Days::from_weekday(Weekday::Mon)));
    assert!(!Days::from_weekday(Weekday::Sat).contains(weekend));
    assert!(Days::empty().contains(Days::empty()));
}

#[test]
fn a_date_falls_on_its_day_of_the_week() {
    // 2024-03-04 is a Monday; the six days after it follow in order.
    for (i, _) in WEEK.iter().enumerate() {
        let calendar = Calendar::from_calendar(only(i)).unwrap();
        for offset in 0..7u32 {
            let date = Date::new(2024, 3, 4 + offset);
            assert_eq!(calendar.is_active(&date), offset as usize == i, "{:?}", date);
        }
    }
    // 2000-02-29 is a Tuesday, 1970-01-01 a Thursday.
    assert!(Calendar::from_calendar(only(1)).unwrap().is_active(&Date::new(2000, 2, 29)));
    assert!(Calendar::from_calendar(only(3)).unwrap().is_active(&Date::new(1970, 1, 1)));
}

#[test]
fn a_date_that_the_calendar_lacks_has_no_service() {
    let every_day = CalendarRaw {
        monday: "1".to_string(),
        tuesday: "1".to_string(),
        wednesday: "1".to_string(),
        thursday: "1".to_string(),
        friday: "1".to_string(),
        saturday: "1".to_string(),
        sunday: "1".to_string(),
        ..only(0)
    };
    let calendar = Calendar::from_calendar(every_day).unwrap();
    assert!(calendar.is_active(&Date::new(2024, 2, 29)));
    assert!(!calendar.is_active(&Date::new(2023, 2, 29)));
    assert!(!calendar.is_active(&Date::new(2024, 4, 31)));
    assert!(!calendar.is_active(&Date::new(2024, 13, 1)));
    assert!(!calendar.is_active(&Date::new(2024, 0, 1)));
    assert!(!calendar.is_active(&Date::new(2024, 1, 0)));
}

#[test]
fn an_added_exception_does_not_bring_a_day_back() {
    let mut calendar = Calendar::from_calendar(only(0)).unwrap();
    let added = CalendarDate::from_raw(CalendarDateRaw {
        date: "20240305".to_string(),
        exception_type: "1".to_string(),
        service_id: "S".to_string(),
    })
    .unwrap();
    assert_eq!(added.exception_type, ExceptionType::Added);
    assert_eq!(added.date, Date::new(2024, 3, 5));
    calendar.exceptions.push(added);
    // A Tuesday, off the weekly pattern, stays without service.
    assert!(!calendar.is_active(&Date::new(2024, 3, 5)));
    assert!(!calendar.is_removed_on(&Date::new(2024, 3, 5)));
    // An added exception on a day of the pattern does not take it off.
    let added = CalendarDate::from_raw(CalendarDateRaw {
        date: "20240304".to_string(),
        exception_type: "1".to_string(),
        service_id: "S".to_string(),
    })
    .unwrap();
    calendar.exceptions.push(added);
    assert!(calendar.is_active(&Date::new(2024, 3, 4)));
}

#[test]
fn any_exception_type_but_one_is_a_removal() {
    for kind in ["2", "", "0", "3", "removed", "11", " 1"] {
        let exception = CalendarDate::from_raw(CalendarDateRaw {
            date: "20240304".to_string(),
            exception_type: kind.to_string(),
            service_id: "S".to_string(),
        })
        .unwrap();
        assert_eq!(exception.exception_type, ExceptionType::Removed, "{:?}", kind);
    }
}

#[test]
fn a_removal_counts_whatever_service_it_names() {
    let mut calendar = Calendar::from_calendar(only(0)).unwrap();
    let removed = CalendarDate::from_raw(CalendarDateRaw {
        date: "20240304".to_string(),
        exception_type: "2".to_string(),
        service_id: "OTHER".to_string(),
    })
    .unwrap();
    calendar.exceptions.push(removed);
    assert!(calendar.is_removed_on(&Date::new(2024, 3, 4)));
    assert!(!calendar.is_active(&Date::new(2024, 3, 4)));
    assert!(calendar.is_active(&Date::new(2024, 3, 11)));
}
