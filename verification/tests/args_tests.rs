use bus_schedule::args::{is_time, is_usize, time_verdict};
use bus_schedule::query::{FilterConfig, DEFAULT_N};
use bus_schedule::time::{Date, DateTime, TimeOfDay};

#[test]
fn digits_are_a_count() {
    assert_eq!(is_usize("10".to_string()), Ok(()));
    assert_eq!(is_usize("0".to_string()), Ok(()));
    assert_eq!(is_usize("007".to_string()), Ok(()));
    assert_eq!(is_usize("+7".to_string()), Ok(()));
    assert_eq!(is_usize(usize::MAX.to_string()), Ok(()));
}

#[test]
fn other_texts_are_no_count() {
    let texts = ["", "+", "-", "-0", "-1", "abc", "1_0", " 1", "1 ", "1.5", "++1", "1e3", "١"];
    for text in texts {
        let expected = format!("{:?}", text.parse::<usize>().unwrap_err());
        assert_eq!(is_usize(text.to_string()), Err(expected), "{:?}", text);
    }
}

#[test]
fn a_number_too_large_is_no_count() {
    let text = format!("{}0", usize::MAX);
    let expected = format!("{:?}", text.parse::<usize>().unwrap_err());
    assert_eq!(is_usize(text), Err(expected));
    assert!(is_usize("340282366920938463463374607431768211456".to_string()).is_err());
}

#[test]
fn a_text_that_is_no_time_is_refused_with_the_reason() {
    let r = is_time("garbage".to_string());
    let message = r.unwrap_err();
    assert!(message.starts_with("Could not parse time: "), "{}", message);
    assert!(message.len() > "Could not parse time: ".len());
    assert!(is_time("25:00".to_string()).unwrap_err().starts_with("Could not parse time: "));
    assert!(is_time("08:30:00".to_string()).unwrap_err().starts_with("Could not parse time: "));
    assert!(is_time("".to_string()).unwrap_err().starts_with("Could not parse time: "));
}

#[test]
fn a_time_of_the_day_is_accepted_or_ambiguous() {
    for text in ["08:30", "8:30", "00:00", "23:59", "12:00"] {
        match is_time(text.to_string()) {
            Ok(()) => {}
            Err(message) => assert_eq!(message, "Ambiguous time"),
        }
    }
    // Noon is on the clock once on every day in every zone.
    assert_eq!(is_time("12:00".to_string()), Ok(()));
}

#[test]
fn the_verdict_on_a_time_goes_by_the_parse_and_the_clock() {
    let time = TimeOfDay::from_hms(8, 30, 0).unwrap();
    assert_eq!(time_verdict(Ok(time), true), Ok(()));
    assert_eq!(time_verdict(Ok(time), false), Err("Ambiguous time".to_string()));
    assert_eq!(
        time_verdict(Err("premature end of input".to_string()), false),
        Err("Could not parse time: premature end of input".to_string())
    );
    assert_eq!(
        time_verdict(Err("x".to_string()), true),
        Err("Could not parse time: x".to_string())
    );
}

#[test]
fn a_query_is_built_step_by_step() {
    let conf = FilterConfig::new("100");
    assert_eq!(conf.stop_id, "100");
    assert_eq!(conf.how_many, None);
    assert_eq!(conf.route, None);
    // The clock of the machine shows a time of the day of a year of our time.
    assert!(conf.after.time.secs < 86_400);
    assert!(conf.after.time.nanos < 2_000_000_000);
    assert!(conf.after.date.year >= 2024);
    assert!((1..=12).contains(&conf.after.date.month));
    assert!((1..=31).contains(&conf.after.date.day));

    let when = DateTime {
        date: Date::new(2024, 3, 6),
        time: TimeOfDay::from_hms(7, 0, 0).unwrap(),
    };
    let conf = conf.after(when).how_many(DEFAULT_N).route("2");
    assert_eq!(conf.stop_id, "100");
    assert_eq!(conf.after, when);
    assert_eq!(conf.how_many, Some(10));
    assert_eq!(conf.route, Some("2"));
    let conf = conf.how_many(3).route("5");
    assert_eq!(conf.how_many, Some(3));
    assert_eq!(conf.route, Some("5"));
    assert_eq!(conf.after, when);
}
