//! The next departures at a stop: the stop times that run today and have
//! not left yet, in the order of their scheduled time shifted by the delay
//! that is known of them.

use crate::delay::{delay_at, in_shift_range, DelayIndex};
use crate::query::{FilterConfig, FilterView};
use crate::schedule::{StopTime, StopTimeView};
use crate::store::{stop_time_views, Data, DataView};
use crate::text::same_text;
use crate::time::{shift, shifted, TimeOfDay};
use vstd::prelude::*;

verus! {

/// Why a query has no answer.
#[derive(Clone, Copy, Debug, PartialEq, Eq, Structural)]
pub enum QueryError {
    /// The schedule has no stop of the identifier that was asked for.
    NoSuchStop,
}

impl QueryError {
    /// The error in words.
    pub fn message(&self) -> (r: String)
        ensures
            r@ == "No such bus stop"@,
    {
        "No such bus stop".to_owned()
    }
}

/// One departure from a stop.
#[derive(Debug)]
pub struct Departure {
    /// The label of the route.
    pub route: String,
    /// The destination shown to riders.
    pub headsign: String,
    /// The scheduled time of the departure.
    pub time: TimeOfDay,
    /// The delay in whole seconds, where one is known.
    pub delay: Option<i64>,
}

/// A departure with its texts as sequences of characters.
pub struct DepartureView {
    pub route: Seq<char>,
    pub headsign: Seq<char>,
    pub time: TimeOfDay,
    pub delay: Option<i64>,
}

impl View for Departure {
    type V = DepartureView;

    open spec fn view(&self) -> DepartureView {
        DepartureView {
            route: self.route@,
            headsign: self.headsign@,
            time: self.time,
            delay: self.delay,
        }
    }
}

/// The views of a list of departures.
pub open spec fn departure_views(departures: Seq<Departure>) -> Seq<DepartureView> {
    departures.map_values(|d: Departure| d@)
}

/// `a` comes before `b`, or is `b`, on a clock that keeps count of the days
/// gone through: the earlier time of day first, and of two equal times the
/// one that went through fewer days.
pub open spec fn no_later(a: (TimeOfDay, int), b: (TimeOfDay, int)) -> bool {
    a.0.before(b.0) || (a.0 == b.0 && a.1 <= b.1)
}

impl DepartureView {
    /// The scheduled time is a time of day, and the delay one by which a
    /// time of day can be shifted.
    pub open spec fn wf(self) -> bool {
        &&& self.time.wf()
        &&& (self.delay matches Some(seconds) ==> in_shift_range(seconds as int))
    }

    /// The delay in seconds, none counting as zero.
    pub open spec fn delay_seconds(self) -> int {
        match self.delay {
            Some(seconds) => seconds as int,
            None => 0,
        }
    }

    /// The effective departure: the scheduled time shifted by the delay, as
    /// a time on the clock and the seconds of the whole days that the delay
    /// ran through. A departure that its delay carries past midnight counts
    /// by its time on the clock, early in the day.
    pub open spec fn effective(self) -> (TimeOfDay, int) {
        shifted(self.time, self.delay_seconds())
    }

    /// `self` is due no later than `other`, by their effective departures.
    pub open spec fn due_no_later_than(self, other: DepartureView) -> bool {
        no_later(self.effective(), other.effective())
    }
}

/// The list `sorted` with `d` put behind the last departure that is due no
/// later than `d`.
pub open spec fn placed(sorted: Seq<DepartureView>, d: DepartureView) -> Seq<DepartureView>
    decreases sorted.len(),
{
    if sorted.len() == 0 {
        seq![d]
    } else if sorted.last().due_no_later_than(d) {
        sorted.push(d)
    } else {
        placed(sorted.drop_last(), d).push(sorted.last())
    }
}

/// The departures of `departures` in the order in which they are due.
/// Departures that are due at the same time keep the order in which they
/// stand in `departures`.
pub open spec fn in_due_order(departures: Seq<DepartureView>) -> Seq<DepartureView>
    decreases departures.len(),
{
    if departures.len() == 0 {
        Seq::empty()
    } else {
        placed(in_due_order(departures.drop_last()), departures.last())
    }
}

/// The first `how_many` departures of a list, or all of them where it has
/// fewer or no number is given.
pub open spec fn capped(departures: Seq<DepartureView>, how_many: Option<usize>) -> Seq<
    DepartureView,
> {
    match how_many {
        Some(n) => if n <= departures.len() {
            departures.subrange(0, n as int)
        } else {
            departures
        },
        None => departures,
    }
}

impl DataView {
    /// The stop time `entry` is listed for the query `conf`: its trip is of
    /// the route asked for, if one is, the service of its trip runs on the
    /// date of the query, and it is not scheduled before the time of the
    /// query.
    pub open spec fn lists(self, conf: FilterView, entry: StopTimeView) -> bool {
        let trip = self.trips[entry.trip_id];
        let service = self.calendar[trip.service_id];
        &&& (conf.route matches Some(route) ==> trip.route_short_name == route)
        &&& service.active_on(conf.after.date)
        &&& !entry.departure_time.before(conf.after.time)
    }

    /// The departure that the stop time `entry` stands for at the stop
    /// `stop_id`, with the delay that `delays` has for its trip there.
    pub open spec fn departure(
        self,
        delays: Map<Seq<char>, Map<Seq<char>, i64>>,
        stop_id: Seq<char>,
        entry: StopTimeView,
    ) -> DepartureView {
        let trip = self.trips[entry.trip_id];
        DepartureView {
            route: trip.route_short_name,
            headsign: trip.trip_headsign,
            time: entry.departure_time,
            delay: delay_at(delays, stop_id, entry.trip_id),
        }
    }

    /// The departures of those of `entries` that are listed for `conf`, in
    /// the order of `entries`.
    pub open spec fn upcoming(
        self,
        delays: Map<Seq<char>, Map<Seq<char>, i64>>,
        conf: FilterView,
        entries: Seq<StopTimeView>,
    ) -> Seq<DepartureView>
        decreases entries.len(),
    {
        if entries.len() == 0 {
            Seq::empty()
        } else {
            let before = self.upcoming(delays, conf, entries.drop_last());
            if self.lists(conf, entries.last()) {
                before.push(self.departure(delays, conf.stop_id, entries.last()))
            } else {
                before
            }
        }
    }

    /// The answer to the query `conf`: the departures of the stop times of
    /// the stop that are listed, in the order in which they are due, cut to
    /// the number asked for once they are in that order.
    pub open spec fn ranked(
        self,
        delays: Map<Seq<char>, Map<Seq<char>, i64>>,
        conf: FilterView,
    ) -> Seq<DepartureView> {
        capped(
            in_due_order(self.upcoming(delays, conf, self.entries_at(conf.stop_id))),
            conf.how_many,
        )
    }
}

/// The departures at a stop.
#[derive(Debug)]
pub struct StopBusInfo {
    /// The name of the stop.
    pub stop_name: String,
    /// The departures, the one that is due first at the head.
    pub buses: Vec<Departure>,
}

/// The departures at a stop with their texts as sequences of characters.
pub struct StopBusInfoView {
    pub stop_name: Seq<char>,
    pub buses: Seq<DepartureView>,
}

impl View for StopBusInfo {
    type V = StopBusInfoView;

    open spec fn view(&self) -> StopBusInfoView {
        StopBusInfoView { stop_name: self.stop_name@, buses: departure_views(self.buses@) }
    }
}

/// The outcome of a query, with the departures as their view.
pub open spec fn answer_view(r: Result<StopBusInfo, QueryError>) -> Result<
    StopBusInfoView,
    QueryError,
> {
    match r {
        Ok(info) => Ok(info@),
        Err(e) => Err(e),
    }
}

impl DataView {
    /// The answer to the query `conf`: the name of the stop and its ranked
    /// departures, or `NoSuchStop` where the schedule has no stop of the
    /// identifier asked for.
    pub open spec fn stop_sched(
        self,
        delays: Map<Seq<char>, Map<Seq<char>, i64>>,
        conf: FilterView,
    ) -> Result<StopBusInfoView, QueryError> {
        if self.stops.contains_key(conf.stop_id) {
            Ok(
                StopBusInfoView {
                    stop_name: self.stops[conf.stop_id].stop_name,
                    buses: self.ranked(delays, conf),
                },
            )
        } else {
            Err(QueryError::NoSuchStop)
        }
    }
}

impl Departure {
    /// The effective departure: the scheduled time shifted by the delay.
    pub fn effective(&self) -> (r: (TimeOfDay, i64))
        requires
            self@.wf(),
        ensures
            r.0 == self@.effective().0,
            r.1 == self@.effective().1,
    {
        let seconds: i64 = match self.delay {
            Some(seconds) => seconds,
            None => 0,
        };
        shift(self.time, seconds)
    }

    /// Whether `self` is due no later than `other`.
    pub fn is_due_no_later_than(&self, other: &Departure) -> (r: bool)
        requires
            self@.wf(),
            other@.wf(),
        ensures
            r == self@.due_no_later_than(other@),
    {
        let a = self.effective();
        let b = other.effective();
        a.0.is_before(&b.0) || (a.0 == b.0 && a.1 <= b.1)
    }
}

/// Putting `d` into `sorted` at the place `at` is `placed`, where every
/// departure from `at` on is due later than `d` and the one before `at`, if
/// there is one, is not.
pub proof fn lemma_placed_at(sorted: Seq<DepartureView>, d: DepartureView, at: int)
    requires
        0 <= at <= sorted.len(),
        forall|j: int| at <= j < sorted.len() ==> !(#[trigger] sorted[j]).due_no_later_than(d),
        at > 0 ==> sorted[at - 1].due_no_later_than(d),
    ensures
        placed(sorted, d) == sorted.insert(at, d),
    decreases sorted.len(),
{
    if at < sorted.len() {
        lemma_placed_at(sorted.drop_last(), d, at);
    }
}

/// Puts `d` into `sorted` behind the last departure that is due no later
/// than `d`.
fn place(sorted: &mut Vec<Departure>, d: Departure)
    requires
        d@.wf(),
        forall|j: int| 0 <= j < old(sorted)@.len() ==> (#[trigger] old(sorted)@[j])@.wf(),
    ensures
        departure_views(final(sorted)@) == placed(departure_views(old(sorted)@), d@),
        forall|j: int| 0 <= j < final(sorted)@.len() ==> (#[trigger] final(sorted)@[j])@.wf(),
{
    let ghost before = sorted@;
    let mut at: usize = sorted.len();
    let mut found = false;
    while at > 0 && !found
        invariant
            sorted@ == before,
            at <= before.len(),
            d@.wf(),
            forall|j: int| 0 <= j < before.len() ==> (#[trigger] before[j])@.wf(),
            forall|j: int|
                at <= j < before.len() ==> !(#[trigger] before[j])@.due_no_later_than(d@),
            found ==> at > 0 && before[at - 1]@.due_no_later_than(d@),
        decreases at + (if found { 0int } else { 1int }),
    {
        if sorted[at - 1].is_due_no_later_than(&d) {
            found = true;
        } else {
            at -= 1;
        }
    }
    let ghost view = d@;
    sorted.insert(at, d);
    proof {
        let views = departure_views(before);
        lemma_placed_at(views, view, at as int);
    }
}

/// The departures of `departures` in the order in which they are due.
/// Departures that are due at the same time keep their order.
pub fn sort_departures(departures: Vec<Departure>) -> (r: Vec<Departure>)
    requires
        forall|j: int| 0 <= j < departures@.len() ==> (#[trigger] departures@[j])@.wf(),
    ensures
        departure_views(r@) == in_due_order(departure_views(departures@)),
        forall|j: int| 0 <= j < r@.len() ==> (#[trigger] r@[j])@.wf(),
{
    let mut sorted: Vec<Departure> = Vec::new();
    let ghost all = departure_views(departures@);
    for d in it: departures
        invariant
            it.seq() == departures@,
            all == departure_views(departures@),
            forall|j: int| 0 <= j < departures@.len() ==> (#[trigger] departures@[j])@.wf(),
            forall|j: int| 0 <= j < sorted@.len() ==> (#[trigger] sorted@[j])@.wf(),
            departure_views(sorted@) == in_due_order(all.take(it.index() as int)),
    {
        proof {
            let i = it.index() as int;
            assert(all.take(i + 1).drop_last() =~= all.take(i));
        }
        place(&mut sorted, d);
    }
    proof {
        assert(all.take(departures@.len() as int) =~= all);
    }
    sorted
}

impl Data {
    /// Whether the stop time `entry` is listed for the query `conf`.
    pub fn lists(&self, conf: &FilterConfig, entry: &StopTime) -> (r: bool)
        requires
            self.wf(),
            self@.resolves(entry@),
        ensures
            r == self@.lists(conf@, entry@),
    {
        let trip = self.trips.get(entry.trip_id.as_str()).unwrap();
        let service = self.calendar.get(trip.service_id.as_str()).unwrap();
        if let Some(route) = conf.route {
            if !same_text(trip.route_short_name.as_str(), route) {
                return false;
            }
        }
        if !service.is_active(&conf.after.date) {
            return false;
        }
        !entry.departure_time.is_before(&conf.after.time)
    }

    /// The departure that the stop time `entry` stands for at the stop
    /// `stop_id`, with the delay that `real_time` has for its trip there.
    pub fn departure(&self, real_time: &DelayIndex, stop_id: &str, entry: &StopTime) -> (r:
        Departure)
        requires
            self.wf(),
            real_time.wf(),
            self@.trips.contains_key(entry@.trip_id),
            entry@.wf(),
        ensures
            r@ == self@.departure(real_time@, stop_id@, entry@),
            r@.wf(),
    {
        let trip = self.trips.get(entry.trip_id.as_str()).unwrap();
        Departure {
            route: trip.route_short_name.clone(),
            headsign: trip.trip_headsign.clone(),
            time: entry.departure_time,
            delay: real_time.lookup(stop_id, entry.trip_id.as_str()),
        }
    }

    /// The departures at the stop of the query `conf`, with the delays of
    /// `real_time`: those of the stop times of the stop whose trip is of the
    /// route asked for, whose service runs on the date of the query and
    /// which are not scheduled before its time, in the order in which they
    /// are due, and no more of them than the query asks for.
    ///
    /// Fails with `NoSuchStop` exactly where the schedule has no stop of
    /// the identifier asked for.
    ///
    /// The schedule must have the trip and the service calendar of every
    /// stop time of the stop.
    pub fn stop_sched(&self, conf: FilterConfig, real_time: &DelayIndex) -> (r: Result<
        StopBusInfo,
        QueryError,
    >)
        requires
            self.wf(),
            real_time.wf(),
            self@.stops.contains_key(conf@.stop_id) ==> self@.intact_at(conf@.stop_id),
        ensures
            answer_view(r) == self@.stop_sched(real_time@, conf@),
    {
        let stop = match self.stops.get(conf.stop_id) {
            Some(stop) => stop,
            None => {
                return Err(QueryError::NoSuchStop);
            },
        };
        let mut buses: Vec<Departure> = Vec::new();
        match self.stop_times.find(conf.stop_id) {
            Some(at) => {
                proof {
                    self.stop_times.lemma_entry(at as int);
                }
                let entries = &self.stop_times.values[at];
                let ghost views = stop_time_views(entries@);
                let mut i: usize = 0;
                while i < entries.len()
                    invariant
                        self.wf(),
                        real_time.wf(),
                        at < self.stop_times.values@.len(),
                        *entries == self.stop_times.values@[at as int],
                        views == stop_time_views(entries@),
                        views == self@.entries_at(conf@.stop_id),
                        self@.intact_at(conf@.stop_id),
                        i <= entries@.len(),
                        forall|j: int| 0 <= j < buses@.len() ==> (#[trigger] buses@[j])@.wf(),
                        departure_views(buses@) == self@.upcoming(
                            real_time@,
                            conf@,
                            views.take(i as int),
                        ),
                    decreases entries@.len() - i,
                {
                    let entry = &entries[i];
                    proof {
                        assert(views.take(i + 1).drop_last() =~= views.take(i as int));
                        assert(views.take(i + 1).last() == entry@);
                    }
                    if self.lists(&conf, entry) {
                        let d = self.departure(real_time, conf.stop_id, entry);
                        buses.push(d);
                    }
                    i += 1;
                }
                assert(views.take(entries@.len() as int) =~= views);
            },
            None => {},
        }
        let mut buses = sort_departures(buses);
        if let Some(len) = conf.how_many {
            let ghost before = buses@;
            buses.truncate(len);
            assert(departure_views(buses@) =~= capped(departure_views(before), conf@.how_many));
        }
        Ok(StopBusInfo { stop_name: stop.stop_name.clone(), buses })
    }
}

} // verus!
