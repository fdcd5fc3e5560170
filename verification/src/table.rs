//! An insertion-ordered map keyed by text, modelled as a `Map` from the key's
//! characters to the value's view.
//!
//! The entries stand in a list in order of first insertion; a fingerprint
//! index over the keys finds an entry without going through the list.

use vstd::prelude::*;
use crate::index::fingerprint;
use crate::index::fingerprint_of;
use crate::index::Index;

verus! {

struct Entry<V> {
    key: String,
    value: V,
}

/// A map from text keys to values that remembers the order in which keys
/// were first inserted.
pub struct StringMap<V> {
    entries: Vec<Entry<V>>,
    index: Index,
}

impl<V: View> View for StringMap<V> {
    type V = Map<Seq<char>, V::V>;

    closed spec fn view(&self) -> Map<Seq<char>, V::V> {
        Map::new(
            |k: Seq<char>| self.keys().contains(k),
            |k: Seq<char>| self.values()[self.keys().index_of(k)],
        )
    }
}

impl<V: View> StringMap<V> {
    /// The keys, in order of first insertion.
    pub closed spec fn keys(&self) -> Seq<Seq<char>> {
        Seq::new(self.entries@.len(), |i: int| self.entries@[i].key@)
    }

    /// The value views, each at the position of its key.
    pub closed spec fn values(&self) -> Seq<V::V> {
        Seq::new(self.entries@.len(), |i: int| self.entries@[i].value@)
    }

    /// No key is stored twice, and every entry is filed in the index under
    /// the fingerprint of its key.
    pub closed spec fn wf(&self) -> bool {
        &&& self.keys().no_duplicates()
        &&& forall|i: int|
            0 <= i < self.keys().len() ==> self.index.holds(
                fingerprint_of(#[trigger] self.keys()[i]),
                i as usize,
            )
    }

    /// How the ordered keys and values relate to the map view.
    pub proof fn lemma_entries(&self)
        requires
            self.wf(),
        ensures
            self.keys().len() == self.values().len(),
            self.keys().no_duplicates(),
            self@.dom().finite(),
            self@.dom() == self.keys().to_set(),
            forall|k: Seq<char>| self@.contains_key(k) <==> self.keys().contains(k),
            forall|i: int|
                0 <= i < self.keys().len() ==> self@.contains_key(#[trigger] self.keys()[i])
                    && self@[self.keys()[i]] == self.values()[i],
    {
        vstd::seq_lib::seq_to_set_is_finite(self.keys());
    }

    /// An empty map.
    pub fn new() -> (m: Self)
        ensures
            m.wf(),
            m@ == Map::<Seq<char>, V::V>::empty(),
            m.keys() == Seq::<Seq<char>>::empty(),
    {
        let m = StringMap { entries: Vec::new(), index: Index::new() };
        m
    }

    /// How many keys the map holds.
    pub fn len(&self) -> (n: usize)
        ensures
            n == self.keys().len(),
    {
        self.entries.len()
    }

    /// The key at position `i` of the insertion order.
    pub fn key_at(&self, i: usize) -> (k: &String)
        requires
            i < self.keys().len(),
        ensures
            k@ == self.keys()[i as int],
    {
        &self.entries[i].key
    }

    /// The value at position `i` of the insertion order.
    pub fn value_at(&self, i: usize) -> (v: &V)
        requires
            i < self.keys().len(),
        ensures
            v@ == self.values()[i as int],
    {
        &self.entries[i].value
    }

    /// Where `key` is stored, if it is.
    pub fn position(&self, key: &str) -> (r: Option<usize>)
        requires
            self.wf(),
        ensures
            match r {
                Some(i) => i < self.keys().len() && self.keys()[i as int] == key@,
                None => !self.keys().contains(key@),
            },
    {
        let found = match self.index.candidates(fingerprint(key)) {
            Some(found) => found,
            None => {
                return None;
            },
        };
        let probe = key.to_owned();
        let mut k: usize = 0;
        while k < found.len()
            invariant
                k <= found.len(),
                probe@ == key@,
                forall|j: int|
                    0 <= j < k ==> !(found@[j] < self.keys().len() && self.keys()[found@[j] as int]
                        == key@),
            decreases found.len() - k,
        {
            let at = found[k];
            if at < self.entries.len() && self.entries[at].key == probe {
                return Some(at);
            }
            k = k + 1;
        }
        let n = self.entries.len();
        assert forall|i: int| 0 <= i < self.keys().len() implies self.keys()[i] != key@ by {
            assert(i < n);
            if self.keys()[i] == key@ {
                assert(self.index.holds(fingerprint_of(self.keys()[i]), i as usize));
                let j = choose|j: int| 0 <= j < found@.len() && found@[j] == i as usize;
                assert(found@[j] as int == i);
            }
        }
        None
    }

    /// Whether `key` is in the map.
    pub fn contains_key(&self, key: &str) -> (r: bool)
        requires
            self.wf(),
        ensures
            r == self@.contains_key(key@),
    {
        self.position(key).is_some()
    }

    /// The value stored under `key`, if there is one.
    pub fn get(&self, key: &str) -> (r: Option<&V>)
        requires
            self.wf(),
        ensures
            match r {
                Some(v) => self@.contains_key(key@) && v@ == self@[key@],
                None => !self@.contains_key(key@),
            },
    {
        match self.position(key) {
            Some(i) => {
                proof {
                    self.lemma_entries();
                }
                Some(&self.entries[i].value)
            },
            None => None,
        }
    }

    /// Stores `value` under `key`, replacing what was stored there. A new key
    /// goes to the end of the order; a known key keeps its place.
    pub fn insert(&mut self, key: String, value: V)
        requires
            old(self).wf(),
        ensures
            final(self).wf(),
            final(self)@ == old(self)@.insert(key@, value@),
            old(self)@.contains_key(key@) ==> final(self).keys() == old(self).keys(),
            !old(self)@.contains_key(key@) ==> final(self).keys() == old(self).keys().push(key@),
    {
        let ghost before = *self;
        let ghost k = key@;
        let ghost v = value@;
        proof {
            before.lemma_entries();
        }
        match self.position(key.as_str()) {
            Some(i) => {
                self.entries.set(i, Entry { key, value });
                assert(self.keys() =~= before.keys());
                proof {
                    self.lemma_entries();
                }
            },
            None => {
                self.index.add(fingerprint(key.as_str()), self.entries.len());
                self.entries.push(Entry { key, value });
                assert(self.keys() =~= before.keys().push(k));
                proof {
                    self.lemma_entries();
                    assert forall|q: Seq<char>| before@.insert(k, v).contains_key(q) implies self@.contains_key(
                        q,
                    ) by {
                        if q != k {
                            let j = before.keys().index_of(q);
                            assert(self.keys()[j] == q);
                        } else {
                            assert(self.keys()[before.keys().len() as int] == k);
                        }
                    }
                }
            },
        }
    }
}

} // verus!
