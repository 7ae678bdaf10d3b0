//! Checks on what a user types: a count, a time of the day.

use crate::time::{exists_today, parse_outcome, parse_time, parsed_time, TimeOfDay};
use vstd::prelude::*;
use vstd::string::*;

verus! {

/// The format of a time that a user types: hours and minutes.
pub const TYPED_TIME_FORMAT: &'static str = "%H:%M";

/// `c` is one of the digits `0` to `9`.
pub open spec fn is_digit(c: char) -> bool {
    48 <= c as int <= 57
}

/// The number that a sequence of digits stands for in decimal.
pub open spec fn digits_value(text: Seq<char>) -> nat
    decreases text.len(),
{
    if text.len() == 0 {
        0
    } else {
        digits_value(text.drop_last()) * 10 + (text.last() as int - 48) as nat
    }
}

/// The number that `text` stands for, where it is one or more digits, with
/// or without a plus sign before them; `None` for any other text.
pub open spec fn unsigned_text(text: Seq<char>) -> Option<nat> {
    let body = if text.len() > 0 && text[0] == '+' {
        text.drop_first()
    } else {
        text
    };
    if body.len() > 0 && (forall|i: int| 0 <= i < body.len() ==> is_digit(#[trigger] body[i])) {
        Some(digits_value(body))
    } else {
        None
    }
}

/// `text` stands for a number that a `usize` holds.
pub open spec fn is_usize_text(text: Seq<char>) -> bool {
    unsigned_text(text) matches Some(value) && value <= usize::MAX
}

/// The words in which `str::parse::<usize>` says why it fails on `text`:
/// the `Debug` text of its error.
pub uninterp spec fn usize_failure(text: Seq<char>) -> Seq<char>;

/// Calls `str::parse::<usize>`.
///
/// Trusted: the call succeeds exactly on one or more decimal digits, with
/// or without a plus sign before them, that stand for a number which a
/// `usize` holds, and gives that number; on any other text the result is
/// the `Debug` text of the error, which `usize_failure` names.
#[verifier::external_body]
fn parse_usize(text: &str) -> (r: Result<usize, String>)
    ensures
        r is Ok <==> is_usize_text(text@),
        r matches Ok(n) ==> unsigned_text(text@) == Some(n as nat),
        r matches Err(message) ==> message@ == usize_failure(text@),
{
    text.parse::<usize>().map_err(|e| format!("{:?}", e))
}

/// Whether `s` stands for a count: `Ok` exactly where it is one or more
/// decimal digits, with or without a plus sign before them, of a number
/// that a `usize` holds; else the reason in words.
pub fn is_usize(s: String) -> (r: Result<(), String>)
    ensures
        r is Ok <==> is_usize_text(s@),
        r matches Err(message) ==> message@ == usize_failure(s@),
{
    match parse_usize(s.as_str()) {
        Ok(_) => Ok(()),
        Err(message) => Err(message),
    }
}

/// The outcome of a check, with the words of the error as a sequence of
/// characters.
pub open spec fn check_outcome(r: Result<(), String>) -> Result<(), Seq<char>> {
    match r {
        Ok(_) => Ok(()),
        Err(message) => Err(message@),
    }
}

/// The verdict on a typed time, given what parsing made of it and whether
/// the local clock shows that time today: the parser's words behind
/// `Could not parse time: ` where it did not parse, `Ambiguous time` where
/// it parsed and the clock does not show it once.
pub open spec fn spec_time_verdict(parsed: Result<TimeOfDay, Seq<char>>, on_clock: bool) -> Result<
    (),
    Seq<char>,
> {
    match parsed {
        Err(words) => Err("Could not parse time: "@ + words),
        Ok(_) => if on_clock {
            Ok(())
        } else {
            Err("Ambiguous time"@)
        },
    }
}

/// The verdict on a typed time, given what parsing made of it and whether
/// the local clock shows that time today.
pub fn time_verdict(parsed: Result<TimeOfDay, String>, on_clock: bool) -> (r: Result<(), String>)
    ensures
        check_outcome(r) == spec_time_verdict(parse_outcome(parsed), on_clock),
{
    match parsed {
        Err(words) => {
            let message = "Could not parse time: ".to_owned().concat(words.as_str());
            Err(message)
        },
        Ok(_) => if on_clock {
            Ok(())
        } else {
            Err("Ambiguous time".to_owned())
        },
    }
}

/// Whether `s` is a time of the day, as hours and minutes, that the local
/// clock shows once today.
///
/// Where `s` does not parse, the result is the parser's words behind
/// `Could not parse time: `. Where it parses, the result is `Ok` or
/// `Ambiguous time`, by the local time zone and today's date.
pub fn is_time(s: String) -> (r: Result<(), String>)
    ensures
        parsed_time(s@, TYPED_TIME_FORMAT@) is Err ==> check_outcome(r) == spec_time_verdict(
            parsed_time(s@, TYPED_TIME_FORMAT@),
            false,
        ),
        parsed_time(s@, TYPED_TIME_FORMAT@) is Ok ==> r is Ok || check_outcome(r)
            == spec_time_verdict(parsed_time(s@, TYPED_TIME_FORMAT@), false),
{
    let parsed = parse_time(s.as_str(), TYPED_TIME_FORMAT);
    let on_clock = match &parsed {
        Ok(time) => exists_today(time),
        Err(_) => false,
    };
    time_verdict(parsed, on_clock)
}

} // verus!
