//! A table of values keyed by text, kept in the order in which the keys
//! first came.

use vstd::prelude::*;

verus! {

/// Values under keys of text. No key occurs twice.
pub struct Table<V> {
    pub keys: Vec<String>,
    pub values: Vec<V>,
}

impl<V> Table<V> {
    /// Every key has its value, and no key occurs twice.
    pub open spec fn wf(&self) -> bool {
        &&& self.keys@.len() == self.values@.len()
        &&& forall|i: int, j: int|
            0 <= i < j < self.keys@.len() ==> (#[trigger] self.keys@[i])@ != (
            #[trigger] self.keys@[j])@
    }

    /// `key` is a key of the table.
    pub open spec fn has_key(&self, key: Seq<char>) -> bool {
        exists|i: int| 0 <= i < self.keys@.len() && (#[trigger] self.keys@[i])@ == key
    }

    /// The place of `key` among the keys.
    pub open spec fn position(&self, key: Seq<char>) -> int {
        choose|i: int| 0 <= i < self.keys@.len() && (#[trigger] self.keys@[i])@ == key
    }

    /// The table as a map from keys to values.
    pub open spec fn map(&self) -> Map<Seq<char>, V> {
        Map::new(
            |key: Seq<char>| self.has_key(key),
            |key: Seq<char>| self.values@[self.position(key)],
        )
    }

    /// In a well-formed table the key at place `i` is a key of the map, and
    /// its value is the value at place `i`.
    pub proof fn lemma_entry(&self, i: int)
        requires
            self.wf(),
            0 <= i < self.keys@.len(),
        ensures
            self.has_key(self.keys@[i]@),
            self.position(self.keys@[i]@) == i,
            self.map().contains_key(self.keys@[i]@),
            self.map()[self.keys@[i]@] == self.values@[i],
    {
    }

    /// A key of the map stands at its place among the keys.
    pub proof fn lemma_key(&self, key: Seq<char>)
        requires
            self.wf(),
            self.has_key(key),
        ensures
            0 <= self.position(key) < self.keys@.len(),
            self.keys@[self.position(key)]@ == key,
            self.map()[key] == self.values@[self.position(key)],
    {
    }

    /// A table that differs from a well-formed one in the value at place `i`
    /// only is well formed, and its map is the other's with that value under
    /// the key at place `i`.
    pub proof fn lemma_update(&self, before: &Self, i: int)
        requires
            before.wf(),
            0 <= i < before.keys@.len(),
            self.keys@ == before.keys@,
            self.values@ == before.values@.update(i, self.values@[i]),
        ensures
            self.wf(),
            self.map() == before.map().insert(before.keys@[i]@, self.values@[i]),
            forall|key: Seq<char>| self.has_key(key) == before.has_key(key),
            forall|key: Seq<char>| self.has_key(key) ==> self.position(key) == before.position(key),
    {
        before.lemma_entry(i);
    }

    /// The table without an entry.
    pub fn new() -> (r: Self)
        ensures
            r.wf(),
            r.keys@.len() == 0,
            r.map() == Map::<Seq<char>, V>::empty(),
    {
        let r = Table { keys: Vec::new(), values: Vec::new() };
        r
    }

    /// The number of keys.
    pub fn len(&self) -> (r: usize)
        ensures
            r == self.keys@.len(),
    {
        self.keys.len()
    }

    /// The first place of `key` among the keys, or `None` where the table
    /// does not have it.
    pub fn find(&self, key: &str) -> (r: Option<usize>)
        ensures
            match r {
                Some(i) => i < self.keys@.len() && self.keys@[i as int]@ == key@ && forall|j: int|
                    0 <= j < i ==> (#[trigger] self.keys@[j])@ != key@,
                None => !self.has_key(key@),
            },
    {
        let wanted = key.to_owned();
        let mut i: usize = 0;
        while i < self.keys.len()
            invariant
                wanted@ == key@,
                i <= self.keys@.len(),
                forall|j: int| 0 <= j < i ==> (#[trigger] self.keys@[j])@ != key@,
            decreases self.keys@.len() - i,
        {
            if self.keys[i] == wanted {
                return Some(i);
            }
            i += 1;
        }
        None
    }

    /// The value under `key`, or `None` where the table does not have the
    /// key.
    pub fn get(&self, key: &str) -> (r: Option<&V>)
        requires
            self.wf(),
        ensures
            match r {
                Some(v) => self.map().contains_key(key@) && *v == self.map()[key@],
                None => !self.map().contains_key(key@),
            },
    {
        match self.find(key) {
            Some(i) => {
                proof {
                    self.lemma_entry(i as int);
                }
                Some(&self.values[i])
            },
            None => None,
        }
    }

    /// Puts `value` under `key`. A value that was under the key before is
    /// replaced and the key keeps its place; a new key goes to the end.
    pub fn insert(&mut self, key: String, value: V)
        requires
            old(self).wf(),
        ensures
            final(self).wf(),
            final(self).map() == old(self).map().insert(key@, value),
            old(self).has_key(key@) ==> final(self).keys@ == old(self).keys@ && final(self).values@
                == old(self).values@.update(old(self).position(key@), value),
            !old(self).has_key(key@) ==> final(self).keys@ == old(self).keys@.push(key)
                && final(self).values@ == old(self).values@.push(value),
    {
        let ghost before = *self;
        match self.find(key.as_str()) {
            Some(i) => {
                proof {
                    before.lemma_entry(i as int);
                }
                self.values.set(i, value);
                proof {
                    self.lemma_update(&before, i as int);
                }
            },
            None => {
                self.keys.push(key);
                self.values.push(value);
                proof {
                    let after = *self;
                    let n = before.keys@.len() as int;
                    after.lemma_entry(n);
                    assert forall|k: Seq<char>| after.has_key(k) == (before.has_key(k) || k
                        == key@) by {
                        if before.has_key(k) {
                            before.lemma_key(k);
                            assert(after.keys@[before.position(k)]@ == k);
                        }
                    }
                }
            },
        }
    }
}

} // verus!
