//! What to ask of a schedule: the stop, the instant from which departures
//! count, how many to list, and of which route.

use crate::time::{local_now, DateTime};
use vstd::prelude::*;

verus! {

/// The number of departures that are listed for a stop where the caller
/// names none.
pub const DEFAULT_N: usize = 10;

/// A query for the next departures at a stop.
pub struct FilterConfig<'s> {
    /// The stop.
    pub stop_id: &'s str,
    /// Departures at or after this instant of the local wall clock are
    /// listed.
    pub after: DateTime,
    /// How many departures to list at most; all of them if `None`.
    pub how_many: Option<usize>,
    /// The route whose departures are listed; those of every route if
    /// `None`.
    pub route: Option<&'s str>,
}

/// A query with its texts as sequences of characters.
pub struct FilterView {
    pub stop_id: Seq<char>,
    pub after: DateTime,
    pub how_many: Option<usize>,
    pub route: Option<Seq<char>>,
}

impl<'s> View for FilterConfig<'s> {
    type V = FilterView;

    open spec fn view(&self) -> FilterView {
        FilterView {
            stop_id: self.stop_id@,
            after: self.after,
            how_many: self.how_many,
            route: match self.route {
                Some(route) => Some(route@),
                None => None,
            },
        }
    }
}

impl<'s> FilterConfig<'s> {
    /// A query for every departure at the stop `stop_id` from now on, where
    /// now is read from the local wall clock.
    pub fn new(stop_id: &'s str) -> (r: FilterConfig<'s>)
        ensures
            r@.stop_id == stop_id@,
            r@.how_many is None,
            r@.route is None,
    {
        FilterConfig { stop_id, after: local_now(), how_many: None, route: None }
    }

    /// The query with `after` as the instant from which departures count.
    pub fn after(self, after: DateTime) -> (r: FilterConfig<'s>)
        ensures
            r@ == (FilterView { after, ..self@ }),
    {
        FilterConfig { after, ..self }
    }

    /// The query for at most `how_many` departures.
    pub fn how_many(self, how_many: usize) -> (r: FilterConfig<'s>)
        ensures
            r@ == (FilterView { how_many: Some(how_many), ..self@ }),
    {
        FilterConfig { how_many: Some(how_many), ..self }
    }

    /// The query for the departures of the route `route` only.
    pub fn route(self, route: &'s str) -> (r: FilterConfig<'s>)
        ensures
            r@ == (FilterView { route: Some(route@), ..self@ }),
    {
        FilterConfig { route: Some(route), ..self }
    }
}

} // verus!
