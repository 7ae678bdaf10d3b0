//! Next departures at a bus stop.
//!
//! The library holds a static transit schedule (trips, stops, service
//! calendars with their exceptions, stop times), decides on which dates a
//! service runs, and ranks the departures that are still to come at a stop by
//! their scheduled time shifted by the delay that a real-time feed reports.

pub mod args;
pub mod calendar;
pub mod days;
pub mod delay;
pub mod guarantees;
pub mod load;
pub mod query;
pub mod rank;
pub mod schedule;
pub mod search;
pub mod store;
pub mod table;
pub mod text;
pub mod time;

pub use calendar::{Calendar, CalendarDate, CalendarDateRaw, CalendarRaw, ExceptionType, LoadError};
pub use days::Days;
pub use delay::{DelayIndex, FeedError, StopTimeUpdate, TripUpdate};
pub use query::FilterConfig;
pub use rank::{Departure, QueryError, StopBusInfo};
pub use schedule::{Stop, StopTime, StopTimeRaw, Trip};
pub use store::Data;
pub use table::Table;
pub use time::{Date, DateTime, TimeOfDay, Weekday};
