//! Real-time delays: how many seconds late a trip is at a stop.

use crate::table::Table;
use crate::text::{decimal, push_decimal};
use crate::time::MAX_SHIFT_SECONDS;
use vstd::prelude::*;
use vstd::string::*;

verus! {

/// The address of the real-time feed of trip updates.
pub const TRIP_UPDATE_URL: &'static str =
    "http://transitdata.cityofmadison.com/TripUpdate/TripUpdates.json";

/// Delays in whole seconds, by stop and by trip.
pub struct DelayIndex {
    pub by_stop: Table<Table<i64>>,
}

/// Whether a time of day can be shifted by `seconds`.
pub open spec fn in_shift_range(seconds: int) -> bool {
    -MAX_SHIFT_SECONDS <= seconds <= MAX_SHIFT_SECONDS
}

/// The delay of a trip at a stop in a map of delays by stop and trip, if the
/// map has one.
pub open spec fn delay_at(
    delays: Map<Seq<char>, Map<Seq<char>, i64>>,
    stop_id: Seq<char>,
    trip_id: Seq<char>,
) -> Option<i64> {
    if delays.contains_key(stop_id) && delays[stop_id].contains_key(trip_id) {
        Some(delays[stop_id][trip_id])
    } else {
        None
    }
}

/// A map of delays with the delay of one trip at one stop set. A delay that
/// the map had for the two is replaced.
pub open spec fn with_delay(
    delays: Map<Seq<char>, Map<Seq<char>, i64>>,
    stop_id: Seq<char>,
    trip_id: Seq<char>,
    seconds: i64,
) -> Map<Seq<char>, Map<Seq<char>, i64>> {
    let at_stop = if delays.contains_key(stop_id) {
        delays[stop_id]
    } else {
        Map::empty()
    };
    delays.insert(stop_id, at_stop.insert(trip_id, seconds))
}

impl View for DelayIndex {
    type V = Map<Seq<char>, Map<Seq<char>, i64>>;

    open spec fn view(&self) -> Map<Seq<char>, Map<Seq<char>, i64>> {
        self.by_stop.map().map_values(|trips: Table<i64>| trips.map())
    }
}

impl DelayIndex {
    /// The tables are well formed, and every delay is one that a time of
    /// day can be shifted by.
    pub open spec fn wf(&self) -> bool {
        &&& self.by_stop.wf()
        &&& forall|i: int|
            0 <= i < self.by_stop.values@.len() ==> (#[trigger] self.by_stop.values@[i]).wf()
        &&& forall|i: int, j: int|
            0 <= i < self.by_stop.values@.len() && 0 <= j < self.by_stop.values@[i].values@.len()
                ==> in_shift_range(#[trigger] self.by_stop.values@[i].values@[j] as int)
    }

    /// In a well-formed index every delay can shift a time of day.
    pub proof fn lemma_delays_in_range(&self, stop_id: Seq<char>, trip_id: Seq<char>)
        requires
            self.wf(),
        ensures
            delay_at(self@, stop_id, trip_id) matches Some(seconds) ==> in_shift_range(
                seconds as int,
            ),
    {
        if self@.contains_key(stop_id) && self@[stop_id].contains_key(trip_id) {
            self.by_stop.lemma_key(stop_id);
            let i = self.by_stop.position(stop_id);
            let trips = self.by_stop.values@[i];
            trips.lemma_key(trip_id);
        }
    }

    /// The index without a delay.
    pub fn new() -> (r: DelayIndex)
        ensures
            r.wf(),
            r@ == Map::<Seq<char>, Map<Seq<char>, i64>>::empty(),
    {
        let r = DelayIndex { by_stop: Table::new() };
        r
    }

    /// The delay of trip `trip_id` at stop `stop_id`, if the index has one.
    pub fn lookup(&self, stop_id: &str, trip_id: &str) -> (r: Option<i64>)
        requires
            self.wf(),
        ensures
            r == delay_at(self@, stop_id@, trip_id@),
            r matches Some(seconds) ==> in_shift_range(seconds as int),
    {
        proof {
            self.lemma_delays_in_range(stop_id@, trip_id@);
        }
        match self.by_stop.find(stop_id) {
            Some(i) => {
                proof {
                    self.by_stop.lemma_entry(i as int);
                }
                match self.by_stop.values[i].get(trip_id) {
                    Some(seconds) => Some(*seconds),
                    None => None,
                }
            },
            None => None,
        }
    }

    /// Sets the delay of trip `trip_id` at stop `stop_id`, in place of the
    /// delay that the index had for the two, if any.
    ///
    /// A delay that no time of day can be shifted by is refused: the result
    /// is `false` and the index stays as it was.
    pub fn insert(&mut self, stop_id: String, trip_id: String, seconds: i64) -> (accepted: bool)
        requires
            old(self).wf(),
        ensures
            final(self).wf(),
            accepted == in_shift_range(seconds as int),
            accepted ==> final(self)@ == with_delay(old(self)@, stop_id@, trip_id@, seconds),
            !accepted ==> final(self)@ == old(self)@,
    {
        if seconds < -MAX_SHIFT_SECONDS || seconds > MAX_SHIFT_SECONDS {
            return false;
        }
        let ghost before = *self;
        match self.by_stop.find(stop_id.as_str()) {
            Some(i) => {
                proof {
                    before.by_stop.lemma_entry(i as int);
                }
                self.by_stop.values[i].insert(trip_id, seconds);
                proof {
                    let trips = self.by_stop.values@[i as int];
                    self.by_stop.lemma_update(&before.by_stop, i as int);
                }
            },
            None => {
                let mut trips: Table<i64> = Table::new();
                trips.insert(trip_id, seconds);
                self.by_stop.insert(stop_id, trips);
                proof {
                    assert(Map::<Seq<char>, i64>::empty().insert(trip_id@, seconds)
                        =~= trips.map());
                }
            },
        }
        true
    }
}

/// The delay that a real-time feed reports of a trip at one stop.
pub struct StopTimeUpdate {
    pub stop_id: String,
    /// The delay of the departure in whole seconds.
    pub delay: i64,
}

/// What a real-time feed reports of one trip.
pub struct TripUpdate {
    pub trip_id: String,
    pub stop_time_updates: Vec<StopTimeUpdate>,
}

/// A report of a delay at a stop with its text as a sequence of characters.
pub struct StopTimeUpdateView {
    pub stop_id: Seq<char>,
    pub delay: i64,
}

/// A report of a trip with its texts as sequences of characters.
pub struct TripUpdateView {
    pub trip_id: Seq<char>,
    pub stop_time_updates: Seq<StopTimeUpdateView>,
}

impl View for StopTimeUpdate {
    type V = StopTimeUpdateView;

    open spec fn view(&self) -> StopTimeUpdateView {
        StopTimeUpdateView { stop_id: self.stop_id@, delay: self.delay }
    }
}

impl View for TripUpdate {
    type V = TripUpdateView;

    open spec fn view(&self) -> TripUpdateView {
        TripUpdateView {
            trip_id: self.trip_id@,
            stop_time_updates: self.stop_time_updates@.map_values(|u: StopTimeUpdate| u@),
        }
    }
}

/// Why a real-time feed gives no index of delays.
#[derive(Clone, Copy, Debug, PartialEq, Eq, Structural)]
pub enum FeedError {
    /// A delay is longer than any by which a time of day can be shifted.
    DelayOutOfRange,
}

impl FeedError {
    /// The error in words.
    pub fn message(&self) -> (r: String)
        ensures
            r@ == "Delay out of range"@,
    {
        "Delay out of range".to_owned()
    }
}

/// The delays `delays` with those that the feed reports of the trip
/// `trip_id` at the stops of `updates`, in their order: a delay of more
/// than zero seconds is set for the trip at its stop, any other report is
/// passed over. `None` where a delay of more than zero is out of range.
pub open spec fn with_stop_updates(
    delays: Map<Seq<char>, Map<Seq<char>, i64>>,
    trip_id: Seq<char>,
    updates: Seq<StopTimeUpdateView>,
) -> Option<Map<Seq<char>, Map<Seq<char>, i64>>>
    decreases updates.len(),
{
    if updates.len() == 0 {
        Some(delays)
    } else {
        match with_stop_updates(delays, trip_id, updates.drop_last()) {
            Some(before) => {
                let update = updates.last();
                if update.delay <= 0 {
                    Some(before)
                } else if in_shift_range(update.delay as int) {
                    Some(with_delay(before, update.stop_id, trip_id, update.delay))
                } else {
                    None
                }
            },
            None => None,
        }
    }
}

/// The delays `delays` with those that the feed reports in `updates`, trip
/// by trip in their order. `None` where a delay of more than zero is out of
/// range.
pub open spec fn with_trip_updates(
    delays: Map<Seq<char>, Map<Seq<char>, i64>>,
    updates: Seq<TripUpdateView>,
) -> Option<Map<Seq<char>, Map<Seq<char>, i64>>>
    decreases updates.len(),
{
    if updates.len() == 0 {
        Some(delays)
    } else {
        match with_trip_updates(delays, updates.drop_last()) {
            Some(before) => with_stop_updates(
                before,
                updates.last().trip_id,
                updates.last().stop_time_updates,
            ),
            None => None,
        }
    }
}

/// The views of a list of reports.
pub open spec fn update_views(updates: Seq<TripUpdate>) -> Seq<TripUpdateView> {
    updates.map_values(|u: TripUpdate| u@)
}

/// A failure among the first `n` reports of a trip is the failure of all
/// its reports.
proof fn lemma_stop_failure_stays(
    delays: Map<Seq<char>, Map<Seq<char>, i64>>,
    trip_id: Seq<char>,
    updates: Seq<StopTimeUpdateView>,
    n: int,
)
    requires
        0 <= n <= updates.len(),
        with_stop_updates(delays, trip_id, updates.take(n)) is None,
    ensures
        with_stop_updates(delays, trip_id, updates) is None,
    decreases updates.len() - n,
{
    if n == updates.len() {
        assert(updates.take(n) =~= updates);
    } else {
        assert(updates.take(n + 1).drop_last() =~= updates.take(n));
        lemma_stop_failure_stays(delays, trip_id, updates, n + 1);
    }
}

/// A failure among the first `n` trips of a feed is the failure of the
/// feed.
proof fn lemma_trip_failure_stays(
    delays: Map<Seq<char>, Map<Seq<char>, i64>>,
    updates: Seq<TripUpdateView>,
    n: int,
)
    requires
        0 <= n <= updates.len(),
        with_trip_updates(delays, updates.take(n)) is None,
    ensures
        with_trip_updates(delays, updates) is None,
    decreases updates.len() - n,
{
    if n == updates.len() {
        assert(updates.take(n) =~= updates);
    } else {
        assert(updates.take(n + 1).drop_last() =~= updates.take(n));
        lemma_trip_failure_stays(delays, updates, n + 1);
    }
}

/// The index of the delays that a real-time feed reports: for each stop
/// and trip the last delay of more than zero seconds that the feed has for
/// the two.
///
/// Fails with `DelayOutOfRange` exactly where a delay of more than zero is
/// longer than any by which a time of day can be shifted.
pub fn parse_real_time_data(updates: &Vec<TripUpdate>) -> (r: Result<DelayIndex, FeedError>)
    ensures
        match r {
            Ok(index) => index.wf() && with_trip_updates(Map::empty(), update_views(updates@))
                == Some(index@),
            Err(e) => e == FeedError::DelayOutOfRange && with_trip_updates(
                Map::empty(),
                update_views(updates@),
            ) is None,
        },
{
    let mut index = DelayIndex::new();
    let ghost all = update_views(updates@);
    let mut i: usize = 0;
    while i < updates.len()
        invariant
            i <= updates@.len(),
            all == update_views(updates@),
            index.wf(),
            with_trip_updates(Map::empty(), all.take(i as int)) == Some(index@),
        decreases updates@.len() - i,
    {
        let update = &updates[i];
        let ghost before = index@;
        let ghost stops = update@.stop_time_updates;
        let mut j: usize = 0;
        while j < update.stop_time_updates.len()
            invariant
                j <= update.stop_time_updates@.len(),
                stops == update@.stop_time_updates,
                all == update_views(updates@),
                index.wf(),
                with_stop_updates(before, update@.trip_id, stops.take(j as int)) == Some(index@),
                0 <= i < all.len(),
                all.take(i + 1).drop_last() == all.take(i as int),
                all.take(i + 1).last() == update@,
                with_trip_updates(Map::empty(), all.take(i as int)) == Some(before),
            decreases update.stop_time_updates@.len() - j,
        {
            let stop = &update.stop_time_updates[j];
            proof {
                assert(stops.take(j + 1).drop_last() =~= stops.take(j as int));
            }
            if stop.delay > 0 {
                let accepted = index.insert(
                    stop.stop_id.clone(),
                    update.trip_id.clone(),
                    stop.delay,
                );
                if !accepted {
                    proof {
                        assert(with_stop_updates(before, update@.trip_id, stops.take(j + 1))
                            is None);
                        lemma_stop_failure_stays(before, update@.trip_id, stops, j + 1);
                        lemma_trip_failure_stays(Map::empty(), all, i + 1);
                    }
                    return Err(FeedError::DelayOutOfRange);
                }
            }
            j += 1;
        }
        proof {
            assert(stops.take(stops.len() as int) =~= stops);
        }
        i += 1;
    }
    proof {
        assert(all.take(all.len() as int) =~= all);
    }
    Ok(index)
}

/// A delay of `seconds` in words: minutes and seconds from one minute on,
/// the seconds left out where there are none; seconds alone under a
/// minute.
pub open spec fn delay_text(seconds: int) -> Seq<char> {
    if seconds >= 60 {
        let minutes = seconds / 60;
        let rest = seconds % 60;
        if rest > 0 {
            decimal(minutes) + "m "@ + decimal(rest) + "s"@
        } else {
            decimal(minutes) + "m"@
        }
    } else {
        decimal(seconds) + "s"@
    }
}

/// A delay of `delay` seconds in words, such as `3m 20s`, `2m` or `45s`.
pub fn print_delay(delay: i64) -> (r: String)
    ensures
        r@ == delay_text(delay as int),
{
    let mut out = String::new();
    if delay >= 60 {
        let minutes: i64 = delay / 60;
        let seconds: i64 = delay - minutes * 60;
        push_decimal(&mut out, minutes);
        if seconds > 0 {
            out.append("m ");
            push_decimal(&mut out, seconds);
            out.append("s");
        } else {
            out.append("m");
        }
    } else {
        push_decimal(&mut out, delay);
        out.append("s");
    }
    out
}

} // verus!
