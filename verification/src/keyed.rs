//! A table of values, each under a text key of its own, in the order the keys first came in.

use crate::text::same_text;
use vstd::prelude::*;

verus! {

/// A table of values by text key.
pub struct KeyedStore<V> {
    entries: Vec<(String, V)>,
}

/// No two entries have the same key.
pub open spec fn keys_differ<V>(entries: Seq<(String, V)>) -> bool {
    forall|i: int, j: int|
        0 <= i < j < entries.len() ==> (#[trigger] entries[i]).0@ != (#[trigger] entries[j]).0@
}

/// Whether some entry has this key.
pub open spec fn has_key<V>(entries: Seq<(String, V)>, key: Seq<char>) -> bool {
    exists|i: int| 0 <= i < entries.len() && (#[trigger] entries[i]).0@ == key
}

/// The place of the entry with this key.
pub open spec fn key_index<V>(entries: Seq<(String, V)>, key: Seq<char>) -> int {
    choose|i: int| 0 <= i < entries.len() && (#[trigger] entries[i]).0@ == key
}

/// The table as a map from keys to values.
pub open spec fn entry_map<V>(entries: Seq<(String, V)>) -> Map<Seq<char>, V> {
    Map::new(|key: Seq<char>| has_key(entries, key), |key: Seq<char>| entries[key_index(entries, key)].1)
}

/// The values in the order of their entries.
pub open spec fn entry_values<V>(entries: Seq<(String, V)>) -> Seq<V> {
    entries.map_values(|e: (String, V)| e.1)
}

/// The keys in the order of their entries.
pub open spec fn entry_keys<V>(entries: Seq<(String, V)>) -> Seq<Seq<char>> {
    entries.map_values(|e: (String, V)| e.0@)
}

proof fn lemma_key_index<V>(entries: Seq<(String, V)>, i: int)
    requires
        keys_differ(entries),
        0 <= i < entries.len(),
    ensures
        has_key(entries, entries[i].0@),
        key_index(entries, entries[i].0@) == i,
        entry_map(entries).contains_pair(entries[i].0@, entries[i].1),
{
    let key = entries[i].0@;
    let j = key_index(entries, key);
    assert(0 <= j < entries.len() && entries[j].0@ == key);
}

impl<V> View for KeyedStore<V> {
    type V = Map<Seq<char>, V>;

    closed spec fn view(&self) -> Map<Seq<char>, V> {
        entry_map(self.entries@)
    }
}

impl<V> KeyedStore<V> {
    #[verifier::type_invariant]
    spec fn distinct(self) -> bool {
        keys_differ(self.entries@)
    }

    /// No key stands twice.
    pub closed spec fn well_formed(self) -> bool {
        self.distinct()
    }

    /// The keys, in the order they first came in.
    pub closed spec fn keys(self) -> Seq<Seq<char>> {
        entry_keys(self.entries@)
    }

    /// The values, in the order their keys first came in.
    pub closed spec fn values(self) -> Seq<V> {
        entry_values(self.entries@)
    }

    /// The place of the value under a key that the table has.
    pub closed spec fn place(self, key: Seq<char>) -> int {
        key_index(self.entries@, key)
    }

    /// Whether this table is `before` with a value put under a key. A value that was there is
    /// replaced where it stands; a new key comes last.
    pub open spec fn extends(self, before: KeyedStore<V>, key: Seq<char>, value: V) -> bool {
        &&& self.well_formed()
        &&& self@ == before@.insert(key, value)
        &&& if before@.contains_key(key) {
            &&& 0 <= before.place(key) < before.values().len()
            &&& before@[key] == before.values()[before.place(key)]
            &&& self.values() == before.values().update(before.place(key), value)
            &&& self.keys() == before.keys()
        } else {
            &&& self.values() == before.values().push(value)
            &&& self.keys() == before.keys().push(key)
        }
    }

    /// A table without entries.
    pub fn new() -> (store: KeyedStore<V>)
        ensures
            store@ == Map::<Seq<char>, V>::empty(),
            store.values() == Seq::<V>::empty(),
            store.well_formed(),
    {
        let store: KeyedStore<V> = KeyedStore { entries: Vec::new() };
        assert(store@ =~= Map::<Seq<char>, V>::empty());
        assert(store.values() =~= Seq::<V>::empty());
        store
    }

    /// The number of entries.
    pub fn len(&self) -> (n: usize)
        ensures
            n == self.values().len(),
            self.well_formed(),
    {
        proof {
            use_type_invariant(self);
        }
        self.entries.len()
    }

    /// The value at a place.
    pub fn value_at(&self, place: usize) -> (value: &V)
        requires
            place < self.values().len(),
        ensures
            *value == self.values()[place as int],
    {
        &self.entries[place].1
    }

    fn find(&self, key: &str) -> (place: Option<usize>)
        ensures
            match place {
                Some(i) => i < self.entries@.len() && self.entries@[i as int].0@ == key@,
                None => !has_key(self.entries@, key@),
            },
    {
        let mut i: usize = 0;
        while i < self.entries.len()
            invariant
                i <= self.entries@.len(),
                forall|j: int| 0 <= j < i ==> (#[trigger] self.entries@[j]).0@ != key@,
            decreases self.entries@.len() - i,
        {
            if same_text(&self.entries[i].0, key) {
                return Some(i);
            }
            i = i + 1;
        }
        None
    }

    /// The value under a key.
    pub fn get(&self, key: &str) -> (value: Option<&V>)
        ensures
            match value {
                Some(v) => self@.contains_pair(key@, *v),
                None => !self@.contains_key(key@),
            },
    {
        proof {
            use_type_invariant(self);
        }
        match self.find(key) {
            Some(i) => {
                proof {
                    lemma_key_index(self.entries@, i as int);
                }
                Some(&self.entries[i].1)
            },
            None => None,
        }
    }

    /// Puts a value under a key.
    pub fn insert(&mut self, key: String, value: V)
        ensures
            final(self).extends(*old(self), key@, value),
    {
        proof {
            use_type_invariant(&*self);
        }
        let ghost before = self.entries@;
        let place: Option<usize> = self.find(key.as_str());
        let mut entries: Vec<(String, V)> = Vec::new();
        std::mem::swap(&mut entries, &mut self.entries);
        match place {
            Some(i) => {
                proof {
                    lemma_key_index(before, i as int);
                }
                entries.set(i, (key, value));
            },
            None => {
                entries.push((key, value));
            },
        }
        let ghost after = entries@;
        proof {
            assert(keys_differ(after)) by {
                assert forall|a: int, b: int| 0 <= a < b < after.len() implies (
                #[trigger] after[a]).0@ != (#[trigger] after[b]).0@ by {
                    if place is None {
                        if b == before.len() {
                            assert(before[a].0@ != key@);
                        } else {
                            assert(before[a].0@ != before[b].0@);
                        }
                    } else {
                        assert(before[a].0@ != before[b].0@);
                    }
                }
            }
            assert forall|k: Seq<char>| has_key(after, k) == (has_key(before, k) || k == key@) by {
                if has_key(before, k) {
                    let j = key_index(before, k);
                    assert(after[j].0@ == k);
                }
                if k == key@ {
                    match place {
                        Some(i) => assert(after[i as int].0@ == k),
                        None => assert(after[before.len() as int].0@ == k),
                    }
                }
                if has_key(after, k) {
                    let j = key_index(after, k);
                    if k != key@ {
                        assert(before[j].0@ == k);
                    }
                }
            }
            assert(entry_map(after) =~= entry_map(before).insert(key@, value)) by {
                assert forall|k: Seq<char>| has_key(after, k) implies #[trigger] entry_map(after)[k]
                    == entry_map(before).insert(key@, value)[k] by {
                    let j = key_index(after, k);
                    assert(0 <= j < after.len() && after[j].0@ == k);
                    if k == key@ {
                        match place {
                            Some(i) => {
                                lemma_key_index(after, i as int);
                            },
                            None => {
                                lemma_key_index(after, before.len() as int);
                            },
                        }
                    } else {
                        lemma_key_index(after, j);
                        assert(before[j] == after[j]);
                        lemma_key_index(before, j);
                    }
                }
            }
            match place {
                Some(i) => {
                    assert(entry_values(after) =~= entry_values(before).update(i as int, value));
                    assert(entry_keys(after) =~= entry_keys(before));
                },
                None => {
                    assert(entry_values(after) =~= entry_values(before).push(value));
                    assert(entry_keys(after) =~= entry_keys(before).push(key@));
                },
            }
        }
        self.entries = entries;
    }

    /// Takes the entry with a key out of the table; the others keep their order.
    pub fn remove(&mut self, key: &str)
        ensures
            final(self).well_formed(),
            final(self)@ == old(self)@.remove(key@),
            if old(self)@.contains_key(key@) {
                &&& final(self).values() == old(self).values().remove(old(self).place(key@))
                &&& final(self).keys() == old(self).keys().remove(old(self).place(key@))
            } else {
                &&& final(self).values() == old(self).values()
                &&& final(self).keys() == old(self).keys()
            },
    {
        proof {
            use_type_invariant(&*self);
        }
        let ghost before = self.entries@;
        match self.find(key) {
            Some(i) => {
                let mut entries: Vec<(String, V)> = Vec::new();
                std::mem::swap(&mut entries, &mut self.entries);
                let _taken: (String, V) = entries.remove(i);
                let ghost after = entries@;
                proof {
                    lemma_key_index(before, i as int);
                    assert(after =~= before.remove(i as int));
                    assert forall|a: int| 0 <= a < after.len() implies #[trigger] after[a]
                        == before[if a < i { a } else { a + 1 }] by {}
                    assert(keys_differ(after)) by {
                        assert forall|a: int, b: int| 0 <= a < b < after.len() implies (
                        #[trigger] after[a]).0@ != (#[trigger] after[b]).0@ by {
                            let x = if a < i { a } else { a + 1 };
                            let y = if b < i { b } else { b + 1 };
                            assert(before[x].0@ != before[y].0@);
                        }
                    }
                    assert forall|k: Seq<char>| has_key(after, k) == (has_key(before, k) && k
                        != key@) by {
                        if has_key(before, k) && k != key@ {
                            let j = key_index(before, k);
                            let m = if j < i { j } else { j - 1 };
                            assert(after[m].0@ == k);
                        }
                        if has_key(after, k) {
                            let j = key_index(after, k);
                            let m = if j < i { j } else { j + 1 };
                            assert(before[m].0@ == k);
                            assert(before[i as int].0@ == key@);
                        }
                    }
                    assert(entry_map(after) =~= entry_map(before).remove(key@)) by {
                        assert forall|k: Seq<char>| has_key(after, k) implies #[trigger] entry_map(
                            after,
                        )[k] == entry_map(before)[k] by {
                            let j = key_index(after, k);
                            let m = if j < i { j } else { j + 1 };
                            lemma_key_index(after, j);
                            lemma_key_index(before, m);
                        }
                    }
                    assert(entry_values(after) =~= entry_values(before).remove(i as int));
                    assert(entry_keys(after) =~= entry_keys(before).remove(i as int));
                }
                self.entries = entries;
            },
            None => {
                assert(entry_map(before).remove(key@) =~= entry_map(before));
            },
        }
    }

    /// Keys and values stand side by side: the map takes each key to the value at its place, and
    /// no key stands twice.
    pub proof fn lemma_places(self)
        requires
            self.well_formed(),
        ensures
            self.keys().len() == self.values().len(),
            self.keys().no_duplicates(),
            forall|i: int|
                0 <= i < self.keys().len() ==> self@.contains_pair(
                    #[trigger] self.keys()[i],
                    self.values()[i],
                ) && self.place(self.keys()[i]) == i,
            forall|k: Seq<char>| #[trigger]
                self@.contains_key(k) ==> 0 <= self.place(k) < self.keys().len()
                    && self.keys()[self.place(k)] == k && self.values()[self.place(k)] == self@[k],
    {
        let entries = self.entries@;
        assert forall|i: int| 0 <= i < self.keys().len() implies self@.contains_pair(
            #[trigger] self.keys()[i],
            self.values()[i],
        ) && self.place(self.keys()[i]) == i by {
            lemma_key_index(entries, i);
        }
        assert forall|k: Seq<char>| #[trigger] self@.contains_key(k) implies 0 <= self.place(k)
            < self.keys().len() && self.keys()[self.place(k)] == k && self.values()[self.place(k)]
            == self@[k] by {
            let j = key_index(entries, k);
            assert(0 <= j < entries.len() && entries[j].0@ == k);
        }
    }
}

} // verus!
