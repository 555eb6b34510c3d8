//! A keyed table of records: the records stand in slots, and a hash index
//! leads from each key to its slot.

use crate::index::{index_entries, index_get, index_insert, index_new, index_remove};
use dashmap::DashMap;
use vstd::prelude::*;

verus! {

/// What `m` holds under `k`, if anything.
pub open spec fn find<V>(m: Map<Seq<char>, V>, k: Seq<char>) -> Option<V> {
    if m.contains_key(k) {
        Some(m[k])
    } else {
        None
    }
}

/// `m` with `v` under `k` if there is a `v`, and `m` itself if there is none.
pub open spec fn put<V>(m: Map<Seq<char>, V>, k: Seq<char>, v: Option<V>) -> Map<Seq<char>, V> {
    match v {
        Some(x) => m.insert(k, x),
        None => m,
    }
}

/// Records of type `T`, each under a key of its own.
///
/// The slots give the records an order: a new key takes the slot after the
/// last one, and when a record leaves, the record of the last slot takes its
/// place.
pub struct Table<T> {
    index: DashMap<String, usize>,
    keys: Vec<String>,
    values: Vec<T>,
}

impl<T> View for Table<T> {
    type V = Map<Seq<char>, T>;

    /// The table as a map from keys to records.
    open spec fn view(&self) -> Map<Seq<char>, T> {
        Map::new(
            |k: Seq<char>| self.keys().contains(k),
            |k: Seq<char>| self.values()[self.keys().index_of(k)],
        )
    }
}

impl<T> Table<T> {
    /// The key of each slot, in slot order.
    pub closed spec fn keys(&self) -> Seq<Seq<char>> {
        Seq::new(self.keys@.len(), |i: int| self.keys@[i]@)
    }

    /// The record of each slot, in slot order.
    pub closed spec fn values(&self) -> Seq<T> {
        self.values@
    }

    /// The index and the slots agree.
    pub closed spec fn wf(&self) -> bool {
        &&& self.keys@.len() == self.values@.len()
        &&& forall|k: Seq<char>| #[trigger]
            index_entries(self.index).contains_key(k) ==> {
                &&& index_entries(self.index)[k] < self.keys@.len()
                &&& self.keys@[index_entries(self.index)[k] as int]@ == k
            }
        &&& forall|i: int|
            0 <= i < self.keys@.len() ==> {
                &&& index_entries(self.index).contains_key(#[trigger] self.keys@[i]@)
                &&& index_entries(self.index)[self.keys@[i]@] == i
            }
    }

    /// In a well-formed table no key has two slots, and each slot has a key
    /// and a record.
    pub proof fn lemma_slots(&self)
        requires
            self.wf(),
        ensures
            self.keys().len() == self.values().len(),
            self.keys().no_duplicates(),
            self@.dom().finite(),
            self@.dom().len() == self.keys().len(),
            forall|i: int|
                0 <= i < self.keys().len() ==> self@.contains_key(#[trigger] self.keys()[i])
                    && self@[self.keys()[i]] == self.values()[i],
    {
        let keys = self.keys();
        assert forall|i: int, j: int| 0 <= i < keys.len() && 0 <= j < keys.len() && i != j implies keys[i]
            != keys[j] by {
            assert(index_entries(self.index)[self.keys@[i]@] == i);
            assert(index_entries(self.index)[self.keys@[j]@] == j);
        }
        assert forall|i: int| 0 <= i < keys.len() implies self@.contains_key(#[trigger] keys[i])
            && self@[keys[i]] == self.values()[i] by {
            assert(keys.contains(keys[i]));
            let j = keys.index_of(keys[i]);
            assert(keys[j] == keys[i]);
        }
        assert(self@.dom() =~= keys.to_set());
        keys.unique_seq_to_set();
    }

    /// A table without records.
    pub fn new() -> (t: Self)
        ensures
            t.wf(),
            t.keys() == Seq::<Seq<char>>::empty(),
            t.values() == Seq::<T>::empty(),
            t@ == Map::<Seq<char>, T>::empty(),
    {
        let t = Table { index: index_new(), keys: Vec::new(), values: Vec::new() };
        assert(t.keys() =~= Seq::<Seq<char>>::empty());
        assert(t@ =~= Map::<Seq<char>, T>::empty());
        t
    }

    /// The number of records.
    pub fn len(&self) -> (n: usize)
        requires
            self.wf(),
        ensures
            n == self.keys().len(),
            n == self@.dom().len(),
    {
        proof {
            self.lemma_slots();
        }
        self.keys.len()
    }

    /// The slot of `key`, if the table has a record under it.
    pub fn position(&self, key: &str) -> (slot: Option<usize>)
        requires
            self.wf(),
        ensures
            match slot {
                Some(i) => i < self.keys().len() && self.keys()[i as int] == key@,
                None => !self.keys().contains(key@),
            },
            slot.is_some() == self@.contains_key(key@),
    {
        let slot = index_get(&self.index, key);
        proof {
            match slot {
                Some(i) => {
                    assert(self.keys()[i as int] == key@);
                    assert(self.keys().contains(key@));
                },
                None => {
                    if self.keys().contains(key@) {
                        let j = self.keys().index_of(key@);
                        assert(self.keys@[j]@ == key@);
                    }
                },
            }
        }
        slot
    }

    /// The key in slot `i`.
    pub fn key_at(&self, i: usize) -> (key: &String)
        requires
            self.wf(),
            i < self.keys().len(),
        ensures
            key@ == self.keys()[i as int],
    {
        &self.keys[i]
    }

    /// The record in slot `i`.
    pub fn value_at(&self, i: usize) -> (value: &T)
        requires
            self.wf(),
            i < self.keys().len(),
        ensures
            *value == self.values()[i as int],
            self@.contains_key(self.keys()[i as int]),
            *value == self@[self.keys()[i as int]],
    {
        proof {
            self.lemma_slots();
        }
        &self.values[i]
    }

    /// The record under `key`, if there is one.
    pub fn get(&self, key: &str) -> (value: Option<&T>)
        requires
            self.wf(),
        ensures
            match value {
                Some(v) => self@.contains_key(key@) && *v == self@[key@],
                None => !self@.contains_key(key@),
            },
    {
        match self.position(key) {
            Some(i) => Some(self.value_at(i)),
            None => None,
        }
    }

    /// Puts `value` under `key`. A key that the table has keeps its slot and
    /// gives back its former record; a new key takes the slot after the last.
    pub fn insert(&mut self, key: String, value: T) -> (prev: Option<T>)
        requires
            old(self).wf(),
        ensures
            final(self).wf(),
            final(self)@ == old(self)@.insert(key@, value),
            match prev {
                Some(p) => {
                    &&& old(self)@.contains_key(key@)
                    &&& p == old(self)@[key@]
                    &&& final(self).keys() == old(self).keys()
                    &&& final(self).values() == old(self).values().update(
                        old(self).keys().index_of(key@),
                        value,
                    )
                },
                None => {
                    &&& !old(self)@.contains_key(key@)
                    &&& final(self).keys() == old(self).keys().push(key@)
                    &&& final(self).values() == old(self).values().push(value)
                },
            },
    {
        proof {
            old(self).lemma_slots();
        }
        match self.position(key.as_str()) {
            Some(i) => {
                let prev = self.replace_at(i, value);
                proof {
                    let j = old(self).keys().index_of(key@);
                    assert(old(self).keys()[j] == key@);
                    assert(j == i);
                }
                Some(prev)
            },
            None => {
                let slot = self.keys.len();
                let indexed = key.clone();
                index_insert(&mut self.index, indexed, slot);
                self.keys.push(key);
                self.values.push(value);
                proof {
                    assert(self.keys() =~= old(self).keys().push(key@));
                    assert(self.wf()) by {
                        assert forall|i: int| 0 <= i < self.keys@.len() implies {
                            &&& index_entries(self.index).contains_key(#[trigger] self.keys@[i]@)
                            &&& index_entries(self.index)[self.keys@[i]@] == i
                        } by {
                            if i < slot {
                                assert(old(self).keys@[i]@ == self.keys@[i]@);
                                assert(old(self).keys().contains(old(self).keys()[i]));
                            }
                        }
                    }
                    self.lemma_slots();
                    Self::lemma_view_push(*old(self), *self, key@, value);
                }
                None
            },
        }
    }

    /// Puts `value` into slot `i` and gives back the record that stood there.
    pub fn replace_at(&mut self, i: usize, value: T) -> (prev: T)
        requires
            old(self).wf(),
            i < old(self).keys().len(),
        ensures
            final(self).wf(),
            prev == old(self).values()[i as int],
            final(self).keys() == old(self).keys(),
            final(self).values() == old(self).values().update(i as int, value),
            final(self)@ == old(self)@.insert(old(self).keys()[i as int], value),
    {
        self.values.push(value);
        let prev = self.values.swap_remove(i);
        proof {
            assert(self.values@ =~= old(self).values@.update(i as int, value));
            old(self).lemma_slots();
            self.lemma_slots();
            let k = old(self).keys()[i as int];
            assert forall|q: Seq<char>| self@.contains_key(q) implies self@[q] == old(self)@.insert(
                k,
                value,
            )[q] by {
                let j = self.keys().index_of(q);
                assert(self.keys()[j] == q);
                assert(self@[self.keys()[j]] == self.values()[j]);
                assert(old(self)@[old(self).keys()[j]] == old(self).values()[j]);
            }
            assert(self@ =~= old(self)@.insert(k, value));
        }
        prev
    }

    /// Takes the record out of slot `i`, with its key. The record of the last
    /// slot, if that is another one, moves into slot `i`.
    pub fn remove_at(&mut self, i: usize) -> (entry: (String, T))
        requires
            old(self).wf(),
            i < old(self).keys().len(),
        ensures
            final(self).wf(),
            entry.0@ == old(self).keys()[i as int],
            entry.1 == old(self).values()[i as int],
            final(self).keys() == old(self).keys().update(
                i as int,
                old(self).keys().last(),
            ).drop_last(),
            final(self).values() == old(self).values().update(
                i as int,
                old(self).values().last(),
            ).drop_last(),
            final(self)@ == old(self)@.remove(old(self).keys()[i as int]),
    {
        proof {
            old(self).lemma_slots();
        }
        let last = self.keys.len() - 1;
        let key = self.keys.swap_remove(i);
        let value = self.values.swap_remove(i);
        let _ = index_remove(&mut self.index, key.as_str());
        if i < last {
            let moved = self.keys[i].clone();
            let _ = index_insert(&mut self.index, moved, i);
        }
        proof {
            let old_keys = old(self).keys();
            assert(self.keys() =~= old_keys.update(i as int, old_keys.last()).drop_last());
            assert forall|j: int| 0 <= j < old_keys.len() implies old(self).keys@[j]@
                == #[trigger] old_keys[j] by {}
            assert forall|j: int| 0 <= j < self.keys@.len() implies self.keys@[j]@ == old_keys[if j
                == i {
                last as int
            } else {
                j
            }] by {}
            assert(self.wf()) by {
                assert forall|k: Seq<char>| #[trigger]
                    index_entries(self.index).contains_key(k) implies {
                    &&& index_entries(self.index)[k] < self.keys@.len()
                    &&& self.keys@[index_entries(self.index)[k] as int]@ == k
                } by {
                    if i < last && k == old_keys[last as int] {
                    } else {
                        assert(index_entries(old(self).index).contains_key(k));
                        let j = index_entries(old(self).index)[k];
                        assert(old_keys[j as int] == k);
                    }
                }
                assert forall|j: int| 0 <= j < self.keys@.len() implies {
                    &&& index_entries(self.index).contains_key(#[trigger] self.keys@[j]@)
                    &&& index_entries(self.index)[self.keys@[j]@] == j
                } by {
                    if j == i {
                        assert(self.keys@[j]@ == old_keys[last as int]);
                    } else {
                        assert(self.keys@[j]@ == old_keys[j]);
                        assert(old_keys[j] != old_keys[i as int]);
                        assert(old_keys[j] != old_keys[last as int]);
                    }
                }
            }
            self.lemma_slots();
            let gone = old_keys[i as int];
            assert forall|q: Seq<char>| self@.contains_key(q) implies old(self)@.remove(
                gone,
            ).contains_key(q) && self@[q] == old(self)@.remove(gone)[q] by {
                let j = self.keys().index_of(q);
                assert(self.keys()[j] == q);
                assert(self@[self.keys()[j]] == self.values()[j]);
                let j0 = if j == i {
                    last as int
                } else {
                    j
                };
                assert(old_keys[j0] == q);
                assert(old(self)@[old_keys[j0]] == old(self).values()[j0]);
                assert(old_keys.contains(q));
            }
            assert forall|q: Seq<char>| old(self)@.remove(gone).contains_key(q) implies self@.contains_key(
                q,
            ) by {
                let j0 = old_keys.index_of(q);
                assert(old_keys[j0] == q);
                let j = if j0 == last {
                    i as int
                } else {
                    j0
                };
                assert(self.keys()[j] == q);
            }
            assert(self@ =~= old(self)@.remove(gone));
        }
        (key, value)
    }

    /// Takes out the record under `key`, if there is one.
    pub fn remove(&mut self, key: &str) -> (prev: Option<T>)
        requires
            old(self).wf(),
        ensures
            final(self).wf(),
            final(self)@ == old(self)@.remove(key@),
            match prev {
                Some(p) => old(self)@.contains_key(key@) && p == old(self)@[key@],
                None => !old(self)@.contains_key(key@) && final(self).keys() == old(self).keys()
                    && final(self).values() == old(self).values(),
            },
    {
        match self.position(key) {
            Some(i) => {
                proof {
                    old(self).lemma_slots();
                }
                let entry = self.remove_at(i);
                Some(entry.1)
            },
            None => {
                assert(self@ =~= old(self)@.remove(key@));
                None
            },
        }
    }

    /// A table that got a slot for a new key holds what it held, and the new
    /// record under the new key.
    proof fn lemma_view_push(before: Self, after: Self, key: Seq<char>, value: T)
        requires
            before.wf(),
            after.wf(),
            !before.keys().contains(key),
            after.keys() == before.keys().push(key),
            after.values() == before.values().push(value),
        ensures
            after@ == before@.insert(key, value),
    {
        before.lemma_slots();
        after.lemma_slots();
        assert forall|q: Seq<char>| after@.contains_key(q) implies before@.insert(
            key,
            value,
        ).contains_key(q) && after@[q] == before@.insert(key, value)[q] by {
            let j = after.keys().index_of(q);
            assert(after.keys()[j] == q);
            assert(after@[after.keys()[j]] == after.values()[j]);
            if j < before.keys().len() {
                assert(before.keys()[j] == q);
                assert(before@[before.keys()[j]] == before.values()[j]);
                assert(before.keys().contains(q));
            }
        }
        assert forall|q: Seq<char>| before@.insert(key, value).contains_key(q) implies after@.contains_key(
            q,
        ) by {
            if q == key {
                assert(after.keys()[before.keys().len() as int] == q);
            } else {
                let j = before.keys().index_of(q);
                assert(before.keys()[j] == q);
                assert(after.keys()[j] == q);
            }
        }
        assert(after@ =~= before@.insert(key, value));
    }

    /// The record in slot `i`, to change it in place.
    pub fn value_at_mut(&mut self, i: usize) -> (value: &mut T)
        requires
            old(self).wf(),
            i < old(self).keys().len(),
        ensures
            *value == old(self).values()[i as int],
            final(self).wf(),
            final(self).keys() == old(self).keys(),
            final(self).values() == old(self).values().update(i as int, *final(value)),
    {
        &mut self.values[i]
    }

    /// A table whose slot `i` got the record `v`, and that is otherwise as
    /// before, holds `v` under the key of slot `i` and is otherwise as before.
    pub proof fn lemma_view_update(before: Self, after: Self, i: int, v: T)
        requires
            before.wf(),
            after.wf(),
            0 <= i < before.keys().len(),
            after.keys() == before.keys(),
            after.values() == before.values().update(i, v),
        ensures
            after@ == before@.insert(before.keys()[i], v),
    {
        before.lemma_slots();
        after.lemma_slots();
        let k = before.keys()[i];
        assert forall|q: Seq<char>| after@.contains_key(q) implies after@[q] == before@.insert(
            k,
            v,
        )[q] by {
            let j = after.keys().index_of(q);
            assert(after.keys()[j] == q);
            assert(after@[after.keys()[j]] == after.values()[j]);
            assert(before@[before.keys()[j]] == before.values()[j]);
        }
        assert(after@ =~= before@.insert(k, v));
    }
}

} // verus!
