//! Finding stops by words of their names.

use crate::schedule::Stop;
use crate::store::{Data, DataView};
use crate::text::{
    chars_of, lemma_text_order_total, lemma_text_order_transitive, lowercase, occurs, occurs_in,
    text_before, text_precedes, to_lowercase,
};
use vstd::prelude::*;

verus! {

/// The name holds every one of the words, letter case set aside.
pub open spec fn holds_words(name: Seq<char>, words: Seq<Seq<char>>) -> bool {
    forall|i: int|
        0 <= i < words.len() ==> occurs_in(lowercase(#[trigger] words[i]), lowercase(name))
}

/// The pair `a` comes before the pair `b`: by their first texts, and by
/// their second texts where the first are the same.
pub open spec fn pair_before(a: (Seq<char>, Seq<char>), b: (Seq<char>, Seq<char>)) -> bool {
    text_before(a.0, b.0) || (a.0 == b.0 && text_before(a.1, b.1))
}

/// The views of a list of pairs of texts.
pub open spec fn pair_views(pairs: Seq<(String, String)>) -> Seq<(Seq<char>, Seq<char>)> {
    pairs.map_values(|p: (String, String)| (p.0@, p.1@))
}

/// The views of a list of words.
pub open spec fn word_views(words: Seq<&str>) -> Seq<Seq<char>> {
    words.map_values(|w: &str| w@)
}

impl DataView {
    /// `found` is the answer to a search for `words`: the identifier and
    /// the name of every stop whose name holds all the words, each stop
    /// once, in ascending order.
    pub open spec fn is_search_result(
        self,
        words: Seq<Seq<char>>,
        found: Seq<(Seq<char>, Seq<char>)>,
    ) -> bool {
        &&& forall|i: int, j: int|
            0 <= i < j < found.len() ==> pair_before(#[trigger] found[i], #[trigger] found[j])
        &&& forall|i: int|
            0 <= i < found.len() ==> self.stops.contains_key((#[trigger] found[i]).0)
                && self.stops[found[i].0].stop_name == found[i].1 && holds_words(
                found[i].1,
                words,
            )
        &&& forall|id: Seq<char>|
            self.stops.contains_key(id) && holds_words(self.stops[id].stop_name, words)
                ==> exists|i: int| 0 <= i < found.len() && (#[trigger] found[i]).0 == id
    }
}

/// The lowercase forms of the words, as characters.
fn lowered(words: &Vec<&str>) -> (r: Vec<Vec<char>>)
    ensures
        r@.len() == words@.len(),
        forall|i: int| 0 <= i < r@.len() ==> (#[trigger] r@[i])@ == lowercase(words@[i]@),
{
    let mut out: Vec<Vec<char>> = Vec::new();
    let mut i: usize = 0;
    while i < words.len()
        invariant
            i <= words@.len(),
            out@.len() == i,
            forall|j: int| 0 <= j < i ==> (#[trigger] out@[j])@ == lowercase(words@[j]@),
        decreases words@.len() - i,
    {
        let low = to_lowercase(words[i]);
        out.push(chars_of(low.as_str()));
        i += 1;
    }
    out
}

/// Whether `name` holds every one of the words whose lowercase forms are
/// `lows`.
fn holds_all(name: &str, lows: &Vec<Vec<char>>, Ghost(words): Ghost<Seq<Seq<char>>>) -> (r: bool)
    requires
        lows@.len() == words.len(),
        forall|i: int| 0 <= i < lows@.len() ==> (#[trigger] lows@[i])@ == lowercase(words[i]),
    ensures
        r == holds_words(name@, words),
{
    let low = to_lowercase(name);
    let text = chars_of(low.as_str());
    let mut i: usize = 0;
    while i < lows.len()
        invariant
            i <= lows@.len(),
            lows@.len() == words.len(),
            text@ == lowercase(name@),
            forall|j: int| 0 <= j < lows@.len() ==> (#[trigger] lows@[j])@ == lowercase(words[j]),
            forall|j: int| 0 <= j < i ==> occurs_in(lowercase(#[trigger] words[j]), text@),
        decreases lows@.len() - i,
    {
        if !occurs(&lows[i], &text) {
            return false;
        }
        i += 1;
    }
    true
}

/// The list `pairs` has a pair of the texts of `p`.
pub open spec fn has_pair(pairs: Seq<(String, String)>, p: (Seq<char>, Seq<char>)) -> bool {
    exists|i: int| 0 <= i < pairs.len() && (#[trigger] pairs[i]).0@ == p.0 && pairs[i].1@ == p.1
}

/// The identifiers of `pairs` are in ascending order, none twice.
pub open spec fn ids_ascend(pairs: Seq<(String, String)>) -> bool {
    forall|i: int, j: int|
        0 <= i < j < pairs.len() ==> text_before((#[trigger] pairs[i]).0@, (#[trigger] pairs[j]).0@)
}

/// One of the first `n` stops has the identifier and the name of `p`, and
/// its name holds all the words.
pub open spec fn hit_among(
    stops: Seq<Stop>,
    n: int,
    words: Seq<Seq<char>>,
    p: (Seq<char>, Seq<char>),
) -> bool {
    exists|k: int|
        0 <= k < n && (#[trigger] stops[k]).stop_id@ == p.0 && stops[k].stop_name@ == p.1
            && holds_words(p.1, words)
}

/// A list with one more pair has the pairs that it had and the new one.
proof fn lemma_has_pair_insert(
    before: Seq<(String, String)>,
    at: int,
    x: (String, String),
    p: (Seq<char>, Seq<char>),
)
    requires
        0 <= at <= before.len(),
    ensures
        has_pair(before.insert(at, x), p) <==> has_pair(before, p) || (x.0@ == p.0 && x.1@ == p.1),
{
    let after = before.insert(at, x);
    if has_pair(before, p) {
        let i = choose|i: int|
            0 <= i < before.len() && (#[trigger] before[i]).0@ == p.0 && before[i].1@ == p.1;
        let j = if i < at {
            i
        } else {
            i + 1
        };
        assert(after[j] == before[i]);
    }
    if x.0@ == p.0 && x.1@ == p.1 {
        assert(after[at] == x);
    }
}

/// Putting a pair with a new identifier behind the last pair whose
/// identifier does not come after it keeps the identifiers in ascending
/// order.
proof fn lemma_ids_ascend_insert(before: Seq<(String, String)>, at: int, x: (String, String))
    requires
        ids_ascend(before),
        0 <= at <= before.len(),
        forall|j: int| 0 <= j < before.len() ==> (#[trigger] before[j]).0@ != x.0@,
        forall|j: int| at <= j < before.len() ==> text_before(x.0@, (#[trigger] before[j]).0@),
        at > 0 ==> !text_before(x.0@, before[at - 1].0@),
    ensures
        ids_ascend(before.insert(at, x)),
{
    let after = before.insert(at, x);
    assert forall|i: int, j: int| 0 <= i < j < after.len() implies text_before(
        (#[trigger] after[i]).0@,
        (#[trigger] after[j]).0@,
    ) by {
        if j == at {
            let last = before[at - 1].0@;
            lemma_text_order_total(x.0@, last);
            if i < at - 1 {
                lemma_text_order_transitive(before[i].0@, last, x.0@);
            }
        }
    }
}

/// Puts the pair of `id` and `name` into `found`, which is in ascending
/// order of its identifiers and does not have `id`, at its place in that
/// order.
fn place_pair(found: &mut Vec<(String, String)>, id: String, name: String)
    requires
        ids_ascend(old(found)@),
        forall|i: int| 0 <= i < old(found)@.len() ==> (#[trigger] old(found)@[i]).0@ != id@,
    ensures
        ids_ascend(final(found)@),
        forall|p: (Seq<char>, Seq<char>)|
            #[trigger] has_pair(final(found)@, p) <==> has_pair(old(found)@, p) || p == (
                id@,
                name@,
            ),
{
    let ghost before = found@;
    let mut at: usize = found.len();
    let mut settled = false;
    while at > 0 && !settled
        invariant
            found@ == before,
            at <= before.len(),
            forall|j: int| at <= j < before.len() ==> text_before(id@, (#[trigger] before[j]).0@),
            settled ==> at > 0 && !text_before(id@, before[at - 1].0@),
        decreases at + (if settled { 0int } else { 1int }),
    {
        if text_precedes(id.as_str(), found[at - 1].0.as_str()) {
            at -= 1;
        } else {
            settled = true;
        }
    }
    let ghost x = (id, name);
    found.insert(at, (id, name));
    proof {
        lemma_ids_ascend_insert(before, at as int, x);
        assert forall|p: (Seq<char>, Seq<char>)| #[trigger]
            has_pair(found@, p) <==> has_pair(before, p) || p == (x.0@, x.1@) by {
            lemma_has_pair_insert(before, at as int, x, p);
        }
    }
}

/// A list of pairs in ascending order of its identifiers that has exactly
/// the hits among all the stops is the answer to the search.
proof fn lemma_search_result(data: &Data, words: Seq<Seq<char>>, found: Seq<(String, String)>)
    requires
        data.wf(),
        ids_ascend(found),
        forall|p: (Seq<char>, Seq<char>)|
            #[trigger] has_pair(found, p) <==> hit_among(
                data.stops.values@,
                data.stops.values@.len() as int,
                words,
                p,
            ),
    ensures
        data@.is_search_result(words, pair_views(found)),
{
    let views = pair_views(found);
    let stops = data.stops.values@;
    let n = stops.len() as int;
    assert forall|a: int| 0 <= a < views.len() implies data@.stops.contains_key(
        (#[trigger] views[a]).0,
    ) && data@.stops[views[a].0].stop_name == views[a].1 && holds_words(views[a].1, words) by {
        let p = views[a];
        assert(has_pair(found, p));
        let k = choose|k: int|
            0 <= k < n && (#[trigger] stops[k]).stop_id@ == p.0 && stops[k].stop_name@ == p.1
                && holds_words(p.1, words);
        data.stops.lemma_entry(k);
    }
    assert forall|id: Seq<char>|
        data@.stops.contains_key(id) && holds_words(
            data@.stops[id].stop_name,
            words,
        ) implies exists|a: int| 0 <= a < views.len() && (#[trigger] views[a]).0 == id by {
        data.stops.lemma_key(id);
        let k = data.stops.position(id);
        let p = (stops[k].stop_id@, stops[k].stop_name@);
        assert(has_pair(found, p));
        let a = choose|a: int|
            0 <= a < found.len() && (#[trigger] found[a]).0@ == p.0 && found[a].1@ == p.1;
        assert(views[a].0 == id);
    }
}

impl Data {
    /// The identifier and the name of every stop whose name holds all the
    /// words of `string`, letter case set aside, each stop once, in
    /// ascending order.
    pub fn search(&self, string: Vec<&str>) -> (r: Vec<(String, String)>)
        requires
            self.wf(),
        ensures
            self@.is_search_result(word_views(string@), pair_views(r@)),
    {
        let ghost words = word_views(string@);
        let lows = lowered(&string);
        let mut found: Vec<(String, String)> = Vec::new();
        let mut i: usize = 0;
        while i < self.stops.values.len()
            invariant
                self.wf(),
                i <= self.stops.values@.len(),
                words == word_views(string@),
                lows@.len() == words.len(),
                forall|k: int|
                    0 <= k < lows@.len() ==> (#[trigger] lows@[k])@ == lowercase(words[k]),
                ids_ascend(found@),
                forall|p: (Seq<char>, Seq<char>)|
                    #[trigger] has_pair(found@, p) <==> hit_among(
                        self.stops.values@,
                        i as int,
                        words,
                        p,
                    ),
            decreases self.stops.values@.len() - i,
        {
            let stop = &self.stops.values[i];
            let ghost before = found@;
            let ghost stops = self.stops.values@;
            let listed = holds_all(stop.stop_name.as_str(), &lows, Ghost(words));
            if listed {
                proof {
                    assert forall|a: int| 0 <= a < before.len() implies (#[trigger] before[a]).0@
                        != stop.stop_id@ by {
                        let p = (before[a].0@, before[a].1@);
                        assert(has_pair(before, p));
                        let k = choose|k: int|
                            0 <= k < i && (#[trigger] stops[k]).stop_id@ == p.0
                                && stops[k].stop_name@ == p.1 && holds_words(p.1, words);
                        assert(self.stops.keys@[k]@ != self.stops.keys@[i as int]@);
                    }
                }
                place_pair(&mut found, stop.stop_id.clone(), stop.stop_name.clone());
            }
            i += 1;
        }
        proof {
            lemma_search_result(self, words, found@);
        }
        found
    }
}

} // verus!
