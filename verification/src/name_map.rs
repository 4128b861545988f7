//! Finite maps keyed by name.

use crate::name::XorName;
use vstd::prelude::*;

verus! {

/// A finite map from names to values, held as two vectors of equal length:
/// the key at a position belongs to the value at that position, and no key
/// occurs twice.
#[derive(Debug)]
pub struct NameMap<V> {
    keys: Vec<XorName>,
    values: Vec<V>,
}

impl<V> View for NameMap<V> {
    type V = Map<XorName, V>;

    open spec fn view(&self) -> Map<XorName, V> {
        Map::new(
            |k: XorName| self.keys_seq().contains(k),
            |k: XorName| self.values_seq()[self.keys_seq().index_of(k)],
        )
    }
}

impl<V> NameMap<V> {
    /// The keys by position.
    pub closed spec fn keys_seq(&self) -> Seq<XorName> {
        self.keys@
    }

    /// The values by position.
    pub closed spec fn values_seq(&self) -> Seq<V> {
        self.values@
    }

    /// Keys and values pair up, and no key occurs twice.
    pub open spec fn wf(&self) -> bool {
        &&& self.keys_seq().len() == self.values_seq().len()
        &&& self.keys_seq().no_duplicates()
    }

    /// The entry at a position of a well-formed map is an entry of its view.
    pub proof fn lemma_entry(&self, i: int)
        requires
            self.wf(),
            0 <= i < self.keys_seq().len(),
        ensures
            self@.contains_key(self.keys_seq()[i]),
            self@[self.keys_seq()[i]] == self.values_seq()[i],
            self.keys_seq().index_of(self.keys_seq()[i]) == i,
    {
        let k = self.keys_seq()[i];
        assert(self.keys_seq().contains(k));
        let j = self.keys_seq().index_of(k);
        assert(0 <= j < self.keys_seq().len() && self.keys_seq()[j] == k);
    }

    /// The keys of a well-formed map are as many as its positions.
    pub proof fn lemma_dom(&self)
        requires
            self.wf(),
        ensures
            self@.dom() == self.keys_seq().to_set(),
            self@.dom().finite(),
            self@.dom().len() == self.keys_seq().len(),
    {
        assert(self@.dom() =~= self.keys_seq().to_set());
        self.keys_seq().unique_seq_to_set();
    }

    /// The empty map.
    pub fn new() -> (r: NameMap<V>)
        ensures
            r.wf(),
            r@ == Map::<XorName, V>::empty(),
            r.keys_seq().len() == 0,
    {
        let r = NameMap { keys: Vec::new(), values: Vec::new() };
        assert(r@ =~= Map::<XorName, V>::empty());
        r
    }

    /// The number of entries.
    pub fn len(&self) -> (r: usize)
        ensures
            r == self.keys_seq().len(),
            self.wf() ==> r == self@.dom().len(),
    {
        proof {
            if self.wf() {
                self.lemma_dom();
            }
        }
        self.keys.len()
    }

    /// The key at position `i`.
    pub fn key_at(&self, i: usize) -> (r: XorName)
        requires
            self.wf(),
            i < self.keys_seq().len(),
        ensures
            r == self.keys_seq()[i as int],
            self@.contains_key(r),
    {
        proof {
            self.lemma_entry(i as int);
        }
        self.keys[i]
    }

    /// The value at position `i`.
    pub fn value_at(&self, i: usize) -> (r: &V)
        requires
            self.wf(),
            i < self.keys_seq().len(),
        ensures
            *r == self.values_seq()[i as int],
            *r == self@[self.keys_seq()[i as int]],
    {
        proof {
            self.lemma_entry(i as int);
        }
        &self.values[i]
    }

    /// The position of `key`, if the map holds it.
    pub fn index_of(&self, key: &XorName) -> (r: Option<usize>)
        requires
            self.wf(),
        ensures
            r is Some <==> self@.contains_key(*key),
            r matches Some(i) ==> i < self.keys_seq().len() && self.keys_seq()[i as int] == *key
                && self.values_seq()[i as int] == self@[*key],
    {
        let mut i: usize = 0;
        while i < self.keys.len()
            invariant
                self.wf(),
                0 <= i <= self.keys.len(),
                forall|j: int| 0 <= j < i ==> self.keys@[j] != *key,
            decreases self.keys.len() - i,
        {
            if self.keys[i] == *key {
                proof {
                    self.lemma_entry(i as int);
                }
                return Some(i);
            }
            i = i + 1;
        }
        None
    }

    /// Whether the map holds `key`.
    pub fn contains_key(&self, key: &XorName) -> (r: bool)
        requires
            self.wf(),
        ensures
            r == self@.contains_key(*key),
    {
        self.index_of(key).is_some()
    }

    /// The value under `key`, if the map holds it.
    pub fn get(&self, key: &XorName) -> (r: Option<&V>)
        requires
            self.wf(),
        ensures
            r is Some <==> self@.contains_key(*key),
            r matches Some(v) ==> *v == self@[*key],
    {
        match self.index_of(key) {
            Some(i) => Some(&self.values[i]),
            None => None,
        }
    }

    /// Puts `value` under `key`, in place of what was there.
    pub fn insert(&mut self, key: XorName, value: V)
        requires
            old(self).wf(),
        ensures
            final(self).wf(),
            final(self)@ == old(self)@.insert(key, value),
            old(self)@.contains_key(key) ==> final(self).keys_seq() == old(self).keys_seq(),
            !old(self)@.contains_key(key) ==> final(self).keys_seq() == old(self).keys_seq().push(
                key,
            ),
    {
        match self.index_of(&key) {
            Some(i) => {
                self.values.set(i, value);
                proof {
                    assert forall|k: XorName| self@.contains_key(k) implies #[trigger] self@[k] == old(self)@.insert(key, value)[k] by {
                        let j = self.keys@.index_of(k);
                        self.lemma_entry(j);
                        old(self).lemma_entry(j);
                    }
                    assert(self@ =~= old(self)@.insert(key, value));
                }
            },
            None => {
                self.keys.push(key);
                self.values.push(value);
                proof {
                    let ks = old(self).keys@;
                    assert forall|k: XorName| self@.contains_key(k) == old(self)@.insert(
                        key,
                        value,
                    ).contains_key(k) by {
                        if self.keys@.contains(k) {
                            let j = choose|j: int| 0 <= j < self.keys@.len() && self.keys@[j] == k;
                            if j < ks.len() {
                                assert(ks[j] == k);
                            }
                        }
                        if ks.contains(k) {
                            let j = choose|j: int| 0 <= j < ks.len() && ks[j] == k;
                            assert(self.keys@[j] == k);
                        }
                        if k == key {
                            assert(self.keys@[ks.len() as int] == k);
                        }
                    }
                    assert forall|k: XorName| self@.contains_key(k) implies #[trigger] self@[k] == old(self)@.insert(key, value)[k] by {
                        let j = self.keys@.index_of(k);
                        self.lemma_entry(j);
                        if j < ks.len() {
                            old(self).lemma_entry(j);
                        }
                    }
                    assert(self@ =~= old(self)@.insert(key, value));
                }
            },
        }
    }

    /// Takes the entry under `key` out and returns its value, if there was
    /// one.
    pub fn remove(&mut self, key: &XorName) -> (r: Option<V>)
        requires
            old(self).wf(),
        ensures
            final(self).wf(),
            final(self)@ == old(self)@.remove(*key),
            r is Some <==> old(self)@.contains_key(*key),
            r matches Some(v) ==> v == old(self)@[*key],
            r is None ==> final(self).keys_seq() == old(self).keys_seq(),
    {
        match self.index_of(key) {
            Some(i) => {
                let _ = self.keys.remove(i);
                let value = self.values.remove(i);
                proof {
                    let ks = old(self).keys@;
                    let ts = self.keys@;
                    assert forall|a: int, b: int| 0 <= a < ts.len() && 0 <= b < ts.len() && a
                        != b implies ts[a] != ts[b] by {
                        let a0 = if a < i { a } else { a + 1 };
                        let b0 = if b < i { b } else { b + 1 };
                        assert(ts[a] == ks[a0] && ts[b] == ks[b0]);
                    }
                    assert forall|k: XorName| self@.contains_key(k) == old(self)@.remove(
                        *key,
                    ).contains_key(k) by {
                        if ts.contains(k) {
                            let j = choose|j: int| 0 <= j < ts.len() && ts[j] == k;
                            let j0 = if j < i { j } else { j + 1 };
                            assert(ks[j0] == k);
                        }
                        if ks.contains(k) && k != *key {
                            let j = choose|j: int| 0 <= j < ks.len() && ks[j] == k;
                            let j1 = if j < i { j } else { j - 1 };
                            assert(ts[j1] == k);
                        }
                    }
                    assert forall|k: XorName| self@.contains_key(k) implies #[trigger] self@[k] == old(self)@.remove(*key)[k] by {
                        let j = ts.index_of(k);
                        self.lemma_entry(j);
                        let j0 = if j < i { j } else { j + 1 };
                        old(self).lemma_entry(j0);
                    }
                    assert(self@ =~= old(self)@.remove(*key));
                }
                Some(value)
            },
            None => {
                assert(self@ =~= self@.remove(*key));
                None
            },
        }
    }

    /// The keys, each once, by position.
    pub fn keys(&self) -> (r: Vec<XorName>)
        requires
            self.wf(),
        ensures
            r@ == self.keys_seq(),
            r@.no_duplicates(),
            r@.to_set() == self@.dom(),
    {
        let mut r: Vec<XorName> = Vec::new();
        let mut i: usize = 0;
        while i < self.keys.len()
            invariant
                0 <= i <= self.keys.len(),
                r@ == self.keys@.take(i as int),
            decreases self.keys.len() - i,
        {
            r.push(self.keys[i]);
            assert(self.keys@.take(i + 1) == self.keys@.take(i as int).push(self.keys@[i as int]));
            i = i + 1;
        }
        assert(self.keys@.take(self.keys.len() as int) == self.keys@);
        proof {
            self.lemma_dom();
        }
        r
    }
}

} // verus!
