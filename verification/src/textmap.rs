//! A map keyed by text, kept as a list of entries in which the first entry
//! with a key gives its value.
use vstd::prelude::*;
use crate::config::{entries_map, lemma_lookup_absent, lemma_lookup_first, lemma_lookup_push, lemma_lookup_update, lookup};
use crate::text::str_eq;

verus! {

pub open spec fn text_pairs<V>(v: Seq<(String, V)>) -> Seq<(Seq<char>, V)> {
    v.map_values(|p: (String, V)| (p.0@, p.1))
}

/// A map from text to values (`HashMap<String, V>`).
#[derive(Debug)]
pub struct TextMap<V> {
    entries: Vec<(String, V)>,
}

impl<V> TextMap<V> {
    /// The map the entries stand for.
    pub closed spec fn as_map(self) -> Map<Seq<char>, V> {
        entries_map(text_pairs(self.entries@))
    }

    /// An empty map.
    pub fn new() -> (r: TextMap<V>)
        ensures
            r.as_map() == Map::<Seq<char>, V>::empty(),
    {
        let r = TextMap { entries: Vec::new() };
        assert(text_pairs(r.entries@) =~= seq![]);
        assert(r.as_map() =~= Map::<Seq<char>, V>::empty());
        r
    }

    fn find(&self, key: &str) -> (r: Option<usize>)
        ensures
            match r {
                Some(i) => i < self.entries@.len() && text_pairs(self.entries@)[i as int].0 == key@
                    && forall|j: int| 0 <= j < i ==> (#[trigger] text_pairs(self.entries@)[j]).0 != key@,
                None => forall|j: int|
                    0 <= j < self.entries@.len() ==> (#[trigger] text_pairs(self.entries@)[j]).0 != key@,
            },
    {
        let mut i: usize = 0;
        while i < self.entries.len()
            invariant
                i <= self.entries@.len(),
                forall|j: int| 0 <= j < i ==> (#[trigger] text_pairs(self.entries@)[j]).0 != key@,
            decreases self.entries.len() - i,
        {
            if str_eq(self.entries[i].0.as_str(), key) {
                return Some(i);
            }
            i = i + 1;
        }
        None
    }

    /// The value under a key.
    pub fn get(&self, key: &str) -> (r: Option<&V>)
        ensures
            match r {
                Some(v) => self.as_map().dom().contains(key@) && self.as_map()[key@] == *v,
                None => !self.as_map().dom().contains(key@),
            },
    {
        match self.find(key) {
            Some(i) => {
                proof {
                    lemma_lookup_first(text_pairs(self.entries@), i as int);
                }
                Some(&self.entries[i].1)
            },
            None => {
                proof {
                    lemma_lookup_absent(text_pairs(self.entries@), key@);
                }
                None
            },
        }
    }

    /// Puts a value under a key, replacing the one there.
    pub fn insert(&mut self, key: String, value: V)
        ensures
            final(self).as_map() == old(self).as_map().insert(key@, value),
    {
        let ghost k = key@;
        let ghost v = value;
        let ghost before = text_pairs(self.entries@);
        match self.find(key.as_str()) {
            Some(i) => {
                self.entries.set(i, (key, value));
                proof {
                    assert(text_pairs(self.entries@) =~= before.update(i as int, (k, v)));
                    assert forall|k2: Seq<char>| #![auto]
                        lookup(text_pairs(self.entries@), k2) == (if k2 == k {
                            Some(v)
                        } else {
                            lookup(before, k2)
                        }) by {
                        lemma_lookup_update(before, i as int, k, v, k2);
                    }
                }
            },
            None => {
                self.entries.push((key, value));
                proof {
                    assert(text_pairs(self.entries@) =~= before.push((k, v)));
                    lemma_lookup_absent(before, k);
                    assert forall|k2: Seq<char>| #![auto]
                        lookup(text_pairs(self.entries@), k2) == (if k2 == k {
                            Some(v)
                        } else {
                            lookup(before, k2)
                        }) by {
                        lemma_lookup_push(before, k, v, k2);
                    }
                }
            },
        }
        assert(self.as_map() =~= old(self).as_map().insert(k, v));
    }

    /// Whether a key has a value.
    pub fn contains_key(&self, key: &str) -> (r: bool)
        ensures
            r == self.as_map().dom().contains(key@),
    {
        self.get(key).is_some()
    }
}

} // verus!
