//! What holds of every answer to a query.

use crate::calendar::ExceptionType;
use crate::query::FilterView;
use crate::rank::{
    answer_view, capped, in_due_order, no_later, placed, DepartureView, QueryError, StopBusInfo,
};
use crate::schedule::StopTimeView;
use crate::store::DataView;
use crate::time::TimeOfDay;
use vstd::prelude::*;

verus! {

/// Every departure of the list is due no later than those behind it.
pub open spec fn is_ascending(departures: Seq<DepartureView>) -> bool {
    forall|i: int, j: int|
        0 <= i < j < departures.len() ==> (#[trigger] departures[i]).due_no_later_than(
            #[trigger] departures[j],
        )
}

/// Of two effective departures one is no later than the other.
pub proof fn lemma_no_later_total(a: (TimeOfDay, int), b: (TimeOfDay, int))
    ensures
        no_later(a, b) || no_later(b, a),
{
}

/// An effective departure that is no later than a second one is no later
/// than any that the second one is no later than.
pub proof fn lemma_no_later_transitive(
    a: (TimeOfDay, int),
    b: (TimeOfDay, int),
    c: (TimeOfDay, int),
)
    requires
        no_later(a, b),
        no_later(b, c),
    ensures
        no_later(a, c),
{
}

/// `placed` puts `d` at one place of the list and leaves the rest as it
/// is: behind a departure that is due no later than `d`, if there is one
/// before it, and before departures that are due later than `d` only.
pub proof fn lemma_placed_is_insert(sorted: Seq<DepartureView>, d: DepartureView) -> (at: int)
    ensures
        0 <= at <= sorted.len(),
        placed(sorted, d) == sorted.insert(at, d),
        forall|j: int| at <= j < sorted.len() ==> !(#[trigger] sorted[j]).due_no_later_than(d),
        at > 0 ==> sorted[at - 1].due_no_later_than(d),
    decreases sorted.len(),
{
    if sorted.len() == 0 {
        0
    } else if sorted.last().due_no_later_than(d) {
        sorted.len() as int
    } else {
        let at = lemma_placed_is_insert(sorted.drop_last(), d);
        assert forall|j: int| at <= j < sorted.len() implies !(
        #[trigger] sorted[j]).due_no_later_than(d) by {
            if j < sorted.len() - 1 {
                assert(sorted[j] == sorted.drop_last()[j]);
            }
        }
        at
    }
}

/// A list in which every departure is due no later than those behind it
/// stays such a list when a departure is placed in it.
pub proof fn lemma_placed_ascending(sorted: Seq<DepartureView>, d: DepartureView)
    requires
        is_ascending(sorted),
    ensures
        is_ascending(placed(sorted, d)),
{
    lemma_placed_is_insert(sorted, d);
}

/// In the due order of any departures each is due no later than those
/// behind it.
pub proof fn lemma_due_order_ascending(departures: Seq<DepartureView>)
    ensures
        is_ascending(in_due_order(departures)),
    decreases departures.len(),
{
    if departures.len() > 0 {
        lemma_due_order_ascending(departures.drop_last());
        lemma_placed_ascending(in_due_order(departures.drop_last()), departures.last());
    }
}

/// The due order of departures holds each of them as often as they were
/// given, and no other.
pub proof fn lemma_due_order_permutes(departures: Seq<DepartureView>)
    ensures
        in_due_order(departures).to_multiset() == departures.to_multiset(),
        in_due_order(departures).len() == departures.len(),
    decreases departures.len(),
{
    broadcast use vstd::seq_lib::to_multiset_build, vstd::seq_lib::to_multiset_insert;

    if departures.len() == 0 {
        assert(in_due_order(departures) =~= departures);
    } else {
        let before = departures.drop_last();
        lemma_due_order_permutes(before);
        let at = lemma_placed_is_insert(in_due_order(before), departures.last());
        assert(departures =~= before.push(departures.last()));
        assert(in_due_order(before).insert(at, departures.last()).to_multiset() == in_due_order(
            before,
        ).to_multiset().insert(departures.last()));
        assert(before.push(departures.last()).to_multiset() == before.to_multiset().insert(
            departures.last(),
        ));
    }
}

/// `a` and `b` are due at the same time: neither is due later than the
/// other.
pub open spec fn due_together(a: DepartureView, b: DepartureView) -> bool {
    a.due_no_later_than(b) && b.due_no_later_than(a)
}

/// The departures of a list that are due together with `d`, in the order
/// of the list.
pub open spec fn due_with(departures: Seq<DepartureView>, d: DepartureView) -> Seq<DepartureView> {
    departures.filter(|x: DepartureView| due_together(x, d))
}

/// Departures that are due at the same time stand in the due order as they
/// stood in the list that was given.
pub proof fn lemma_due_order_stable(departures: Seq<DepartureView>, d: DepartureView)
    ensures
        due_with(in_due_order(departures), d) == due_with(departures, d),
    decreases departures.len(),
{
    let together = |x: DepartureView| due_together(x, d);
    if departures.len() > 0 {
        let before = departures.drop_last();
        let last = departures.last();
        let sorted = in_due_order(before);
        lemma_due_order_stable(before, d);
        let at = lemma_placed_is_insert(sorted, last);
        let head = sorted.subrange(0, at);
        let tail = sorted.subrange(at, sorted.len() as int);
        assert(sorted =~= head + tail);
        assert(departures =~= before.push(last));
        Seq::filter_distributes_over_add(head, tail, together);
        Seq::filter_distributes_over_add(head.push(last), tail, together);
        head.lemma_filter_push(last, together);
        before.lemma_filter_push(last, together);
        if due_together(last, d) {
            tail.lemma_all_neg_filter_empty(together);
            assert(head.filter(together).push(last) + tail.filter(together) =~= head.filter(
                together,
            ).push(last));
        }
    }
}

/// A departure of the due order of a list is a departure of the list.
pub proof fn lemma_due_order_member(departures: Seq<DepartureView>, i: int) -> (j: int)
    requires
        0 <= i < in_due_order(departures).len(),
    ensures
        0 <= j < departures.len(),
        departures[j] == in_due_order(departures)[i],
{
    broadcast use vstd::seq_lib::to_multiset_contains;

    lemma_due_order_permutes(departures);
    let d = in_due_order(departures)[i];
    assert(in_due_order(departures).to_multiset().count(d) > 0);
    choose|j: int| 0 <= j < departures.len() && departures[j] == d
}

/// The departures of an answer are in the order in which they are due:
/// each is due no later than those behind it, by the scheduled time shifted
/// by the delay.
pub proof fn lemma_ranked_ascending(
    data: DataView,
    delays: Map<Seq<char>, Map<Seq<char>, i64>>,
    conf: FilterView,
)
    ensures
        is_ascending(data.ranked(delays, conf)),
{
    lemma_due_order_ascending(data.upcoming(delays, conf, data.entries_at(conf.stop_id)));
}

/// A departure among those of `entries` that are listed is the departure
/// of one of the entries, and that entry is listed.
pub proof fn lemma_upcoming_member(
    data: DataView,
    delays: Map<Seq<char>, Map<Seq<char>, i64>>,
    conf: FilterView,
    entries: Seq<StopTimeView>,
    i: int,
) -> (j: int)
    requires
        0 <= i < data.upcoming(delays, conf, entries).len(),
    ensures
        0 <= j < entries.len(),
        data.lists(conf, entries[j]),
        data.upcoming(delays, conf, entries)[i] == data.departure(
            delays,
            conf.stop_id,
            entries[j],
        ),
    decreases entries.len(),
{
    let before = data.upcoming(delays, conf, entries.drop_last());
    if data.lists(conf, entries.last()) && i == before.len() {
        entries.len() - 1
    } else {
        let j = lemma_upcoming_member(data, delays, conf, entries.drop_last(), i);
        j
    }
}

/// Every departure of an answer is the departure of a stop time of the
/// stop that is listed for the query: of the route asked for, if one is,
/// on a service that runs on the date of the query, and not scheduled
/// before its time.
pub proof fn lemma_ranked_member(
    data: DataView,
    delays: Map<Seq<char>, Map<Seq<char>, i64>>,
    conf: FilterView,
    i: int,
) -> (j: int)
    requires
        0 <= i < data.ranked(delays, conf).len(),
    ensures
        0 <= j < data.entries_at(conf.stop_id).len(),
        data.lists(conf, data.entries_at(conf.stop_id)[j]),
        data.ranked(delays, conf)[i] == data.departure(
            delays,
            conf.stop_id,
            data.entries_at(conf.stop_id)[j],
        ),
{
    let entries = data.entries_at(conf.stop_id);
    let listed = data.upcoming(delays, conf, entries);
    let k = lemma_due_order_member(listed, i);
    lemma_upcoming_member(data, delays, conf, entries, k)
}

/// Every stop time that is listed for a query has its departure in the
/// answer, where the query sets no limit to their number.
pub proof fn lemma_listed_is_ranked(
    data: DataView,
    delays: Map<Seq<char>, Map<Seq<char>, i64>>,
    conf: FilterView,
    j: int,
) -> (i: int)
    requires
        conf.how_many is None,
        0 <= j < data.entries_at(conf.stop_id).len(),
        data.lists(conf, data.entries_at(conf.stop_id)[j]),
    ensures
        0 <= i < data.ranked(delays, conf).len(),
        data.ranked(delays, conf)[i] == data.departure(
            delays,
            conf.stop_id,
            data.entries_at(conf.stop_id)[j],
        ),
{
    broadcast use vstd::seq_lib::to_multiset_contains;

    let entries = data.entries_at(conf.stop_id);
    let listed = data.upcoming(delays, conf, entries);
    let d = data.departure(delays, conf.stop_id, entries[j]);
    lemma_listed_is_upcoming(data, delays, conf, entries, j);
    lemma_due_order_permutes(listed);
    assert(listed.to_multiset().count(d) > 0);
    choose|i: int| 0 <= i < in_due_order(listed).len() && in_due_order(listed)[i] == d
}

/// The departure of an entry that is listed is among the departures of
/// the entries.
pub proof fn lemma_listed_is_upcoming(
    data: DataView,
    delays: Map<Seq<char>, Map<Seq<char>, i64>>,
    conf: FilterView,
    entries: Seq<StopTimeView>,
    j: int,
) -> (i: int)
    requires
        0 <= j < entries.len(),
        data.lists(conf, entries[j]),
    ensures
        0 <= i < data.upcoming(delays, conf, entries).len(),
        data.upcoming(delays, conf, entries)[i] == data.departure(
            delays,
            conf.stop_id,
            entries[j],
        ),
    decreases entries.len(),
{
    let before = data.upcoming(delays, conf, entries.drop_last());
    if j == entries.len() - 1 {
        before.len() as int
    } else {
        lemma_listed_is_upcoming(data, delays, conf, entries.drop_last(), j)
    }
}

/// A query for a route is answered with departures of that route only.
pub proof fn lemma_ranked_routes(
    data: DataView,
    delays: Map<Seq<char>, Map<Seq<char>, i64>>,
    conf: FilterView,
    i: int,
)
    requires
        conf.route is Some,
        0 <= i < data.ranked(delays, conf).len(),
    ensures
        data.ranked(delays, conf)[i].route == conf.route->0,
{
    lemma_ranked_member(data, delays, conf, i);
}

/// A stop time whose service has a removal on the date of the query is
/// not listed, whatever the weekly pattern of the service.
pub proof fn lemma_removed_service_is_not_listed(
    data: DataView,
    conf: FilterView,
    entry: StopTimeView,
    i: int,
)
    requires
        ({
            let service = data.calendar[data.trips[entry.trip_id].service_id];
            &&& 0 <= i < service.exceptions.len()
            &&& service.exceptions[i].date == conf.after.date
            &&& service.exceptions[i].exception_type == ExceptionType::Removed
        }),
    ensures
        !data.lists(conf, entry),
{
}

/// A stop time whose service starts after the date of the query or ends
/// before it is not listed, whatever the day of the week.
pub proof fn lemma_service_out_of_range_is_not_listed(
    data: DataView,
    conf: FilterView,
    entry: StopTimeView,
)
    requires
        ({
            let service = data.calendar[data.trips[entry.trip_id].service_id];
            conf.after.date.before(service.start_date) || service.end_date.before(conf.after.date)
        }),
    ensures
        !data.lists(conf, entry),
{
}

/// The departures that are listed do not depend on how many are asked for.
pub proof fn lemma_upcoming_without_cap(
    data: DataView,
    delays: Map<Seq<char>, Map<Seq<char>, i64>>,
    conf: FilterView,
    entries: Seq<StopTimeView>,
)
    ensures
        data.upcoming(delays, conf, entries) == data.upcoming(
            delays,
            FilterView { how_many: None, ..conf },
            entries,
        ),
    decreases entries.len(),
{
    if entries.len() > 0 {
        lemma_upcoming_without_cap(data, delays, conf, entries.drop_last());
    }
}

/// The answer to a query for at most so many departures is the head of the
/// answer to the same query without a limit: the departures are put in
/// order first and cut then.
pub proof fn lemma_cut_after_order(
    data: DataView,
    delays: Map<Seq<char>, Map<Seq<char>, i64>>,
    conf: FilterView,
)
    ensures
        data.ranked(delays, conf) == capped(
            data.ranked(delays, FilterView { how_many: None, ..conf }),
            conf.how_many,
        ),
{
    lemma_upcoming_without_cap(data, delays, conf, data.entries_at(conf.stop_id));
}

/// Two answers to one query on one schedule with the same delays are the
/// same: the same stop name and the same departures in the same order.
pub proof fn lemma_same_query_same_answer(
    data: DataView,
    delays: Map<Seq<char>, Map<Seq<char>, i64>>,
    conf: FilterView,
    first: Result<StopBusInfo, QueryError>,
    second: Result<StopBusInfo, QueryError>,
)
    requires
        answer_view(first) == data.stop_sched(delays, conf),
        answer_view(second) == data.stop_sched(delays, conf),
    ensures
        answer_view(first) == answer_view(second),
{
}

} // verus!
