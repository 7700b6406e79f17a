//! A keyed store: at most one value per key, read and changed one key at a time.

use vstd::prelude::*;

verus! {

/// A key of a [`Store`]: a value that can be told apart from another of its kind.
pub trait StoreKey: Sized {
    /// Whether `self` and `other` are the same key.
    fn same_key(&self, other: &Self) -> (r: bool)
        ensures
            r == (*self == *other),
    ;
}

/// One key of a store with the value kept under it.
pub struct Entry<K, V> {
    pub key: K,
    pub value: V,
}

/// Whether no key stands at two places of `entries`.
pub open spec fn distinct_keys<K, V>(entries: Seq<Entry<K, V>>) -> bool {
    forall|i: int, j: int|
        0 <= i < entries.len() && 0 <= j < entries.len() && i != j
            ==> (#[trigger] entries[i]).key != (#[trigger] entries[j]).key
}

/// Whether some entry of `entries` has the key `key`.
pub open spec fn has_key<K, V>(entries: Seq<Entry<K, V>>, key: K) -> bool {
    exists|i: int| 0 <= i < entries.len() && (#[trigger] entries[i]).key == key
}

/// A place in `entries` at which `key` stands, if there is one.
pub open spec fn place_of<K, V>(entries: Seq<Entry<K, V>>, key: K) -> int {
    choose|i: int| 0 <= i < entries.len() && (#[trigger] entries[i]).key == key
}

/// The map from each key of `entries` to the value kept under it.
pub open spec fn as_map<K, V>(entries: Seq<Entry<K, V>>) -> Map<K, V> {
    Map::new(|k: K| has_key(entries, k), |k: K| entries[place_of(entries, k)].value)
}

/// With distinct keys, the entry at place `i` is what the map holds under its key.
pub proof fn lemma_entry_in_map<K, V>(entries: Seq<Entry<K, V>>, i: int)
    requires
        distinct_keys(entries),
        0 <= i < entries.len(),
    ensures
        as_map(entries).contains_key(entries[i].key),
        as_map(entries)[entries[i].key] == entries[i].value,
{
    let k = entries[i].key;
    assert(has_key(entries, k));
    let p = place_of(entries, k);
    assert(0 <= p < entries.len() && entries[p].key == k);
    assert(p == i);
}

/// Appending an entry under a key that is not yet there adds that key to the map.
pub proof fn lemma_push_entry<K, V>(entries: Seq<Entry<K, V>>, entry: Entry<K, V>)
    requires
        distinct_keys(entries),
        !has_key(entries, entry.key),
    ensures
        distinct_keys(entries.push(entry)),
        as_map(entries.push(entry)) == as_map(entries).insert(entry.key, entry.value),
{
    let after = entries.push(entry);
    assert forall|i: int, j: int|
        0 <= i < after.len() && 0 <= j < after.len() && i != j implies (#[trigger] after[i]).key
        != (#[trigger] after[j]).key by {
        if i < entries.len() && j < entries.len() {
            assert(entries[i].key != entries[j].key);
        } else if i < entries.len() {
            assert(entries[i].key != entry.key);
        } else {
            assert(entries[j].key != entry.key);
        }
    }
    let target = as_map(entries).insert(entry.key, entry.value);
    assert forall|k: K| #[trigger] as_map(after).contains_key(k) == target.contains_key(k) by {
        if has_key(entries, k) {
            let p = place_of(entries, k);
            assert(after[p].key == k);
        }
        if k == entry.key {
            assert(after[entries.len() as int].key == k);
        }
        if has_key(after, k) {
            let p = place_of(after, k);
            if p < entries.len() {
                assert(entries[p].key == k);
            }
        }
    }
    assert forall|k: K| #[trigger] as_map(after).contains_key(k) implies as_map(after)[k]
        == target[k] by {
        let p = place_of(after, k);
        lemma_entry_in_map(after, p);
        if p < entries.len() {
            assert(entries[p].key == k);
            lemma_entry_in_map(entries, p);
        }
    }
    assert(as_map(after) =~= target);
}

/// Putting a new value at the place of a key changes what the map holds under it.
pub proof fn lemma_replace_entry<K, V>(entries: Seq<Entry<K, V>>, i: int, entry: Entry<K, V>)
    requires
        distinct_keys(entries),
        0 <= i < entries.len(),
        entries[i].key == entry.key,
    ensures
        distinct_keys(entries.update(i, entry)),
        as_map(entries.update(i, entry)) == as_map(entries).insert(entry.key, entry.value),
{
    let after = entries.update(i, entry);
    assert forall|a: int, b: int|
        0 <= a < after.len() && 0 <= b < after.len() && a != b implies (#[trigger] after[a]).key
        != (#[trigger] after[b]).key by {
        assert(entries[a].key != entries[b].key);
    }
    let target = as_map(entries).insert(entry.key, entry.value);
    assert forall|k: K| #[trigger] as_map(after).contains_key(k) == target.contains_key(k) by {
        if has_key(entries, k) {
            let p = place_of(entries, k);
            assert(after[p].key == k);
        }
        if k == entry.key {
            assert(after[i].key == k);
        }
        if has_key(after, k) {
            let p = place_of(after, k);
            assert(entries[p].key == k);
        }
    }
    assert forall|k: K| #[trigger] as_map(after).contains_key(k) implies as_map(after)[k]
        == target[k] by {
        let p = place_of(after, k);
        lemma_entry_in_map(after, p);
        assert(entries[p].key == k);
        lemma_entry_in_map(entries, p);
    }
    assert(as_map(after) =~= target);
}

/// Taking the entry at place `i` away takes its key out of the map.
pub proof fn lemma_remove_entry<K, V>(entries: Seq<Entry<K, V>>, i: int)
    requires
        distinct_keys(entries),
        0 <= i < entries.len(),
    ensures
        distinct_keys(entries.remove(i)),
        as_map(entries.remove(i)) == as_map(entries).remove(entries[i].key),
{
    let after = entries.remove(i);
    assert forall|a: int, b: int|
        0 <= a < after.len() && 0 <= b < after.len() && a != b implies (#[trigger] after[a]).key
        != (#[trigger] after[b]).key by {
        let a0 = if a < i { a } else { a + 1 };
        let b0 = if b < i { b } else { b + 1 };
        assert(after[a] == entries[a0]);
        assert(after[b] == entries[b0]);
        assert(entries[a0].key != entries[b0].key);
    }
    let target = as_map(entries).remove(entries[i].key);
    assert forall|k: K| #[trigger] as_map(after).contains_key(k) == target.contains_key(k) by {
        if has_key(entries, k) && k != entries[i].key {
            let p = place_of(entries, k);
            let q = if p < i { p } else { p - 1 };
            assert(after[q] == entries[p]);
            assert(after[q].key == k);
        }
        if has_key(after, k) {
            let q = place_of(after, k);
            let p = if q < i { q } else { q + 1 };
            assert(after[q] == entries[p]);
            assert(entries[p].key == k);
            assert(entries[p].key != entries[i].key);
        }
    }
    assert forall|k: K| #[trigger] as_map(after).contains_key(k) implies as_map(after)[k]
        == target[k] by {
        let q = place_of(after, k);
        lemma_entry_in_map(after, q);
        let p = if q < i { q } else { q + 1 };
        assert(after[q] == entries[p]);
        lemma_entry_in_map(entries, p);
    }
    assert(as_map(after) =~= target);
}

/// A store of values under keys, with at most one value under each key.
pub struct Store<K, V> {
    entries: Vec<Entry<K, V>>,
}

impl<K, V> Store<K, V> {
    #[verifier::type_invariant]
    spec fn keys_are_distinct(self) -> bool {
        distinct_keys(self.entries@)
    }
}

impl<K: StoreKey, V> Store<K, V> {
    /// What the store holds: a map from each key to its value.
    pub closed spec fn view(&self) -> Map<K, V> {
        as_map(self.entries@)
    }

    /// A store that holds nothing.
    pub fn new() -> (s: Self)
        ensures
            s@ == Map::<K, V>::empty(),
    {
        let s = Store { entries: Vec::new() };
        proof {
            assert(s@ =~= Map::<K, V>::empty());
        }
        s
    }

    /// Hands out the entries and leaves the store empty, to be filled again.
    fn take_entries(&mut self) -> (entries: Vec<Entry<K, V>>)
        ensures
            entries@ == old(self).entries@,
            final(self).entries@ == Seq::<Entry<K, V>>::empty(),
    {
        let mut entries: Vec<Entry<K, V>> = Vec::new();
        core::mem::swap(&mut self.entries, &mut entries);
        entries
    }

    /// Everything the store holds, each key once, in no stated order.
    pub fn entries(&self) -> (entries: &Vec<Entry<K, V>>)
        ensures
            distinct_keys(entries@),
            as_map(entries@) == self@,
    {
        proof {
            use_type_invariant(self);
        }
        &self.entries
    }

    /// The place of `key` among the entries, if it is there.
    fn position(&self, key: &K) -> (r: Option<usize>)
        ensures
            match r {
                Some(i) => i < self.entries@.len() && self.entries@[i as int].key == *key,
                None => !has_key(self.entries@, *key),
            },
    {
        let mut i: usize = 0;
        while i < self.entries.len()
            invariant
                i <= self.entries@.len(),
                forall|j: int| 0 <= j < i ==> (#[trigger] self.entries@[j]).key != *key,
            decreases self.entries@.len() - i,
        {
            if self.entries[i].key.same_key(key) {
                return Some(i);
            }
            i += 1;
        }
        None
    }

    /// The value kept under `key`, if there is one.
    pub fn get(&self, key: &K) -> (r: Option<&V>)
        ensures
            match r {
                Some(v) => self@.contains_key(*key) && *v == self@[*key],
                None => !self@.contains_key(*key),
            },
    {
        proof {
            use_type_invariant(self);
        }
        match self.position(key) {
            Some(i) => {
                proof {
                    lemma_entry_in_map(self.entries@, i as int);
                }
                Some(&self.entries[i].value)
            },
            None => None,
        }
    }

    /// Keeps `value` under `key`, in place of what was kept there before.
    pub fn insert(&mut self, key: K, value: V)
        ensures
            final(self)@ == old(self)@.insert(key, value),
    {
        proof {
            use_type_invariant(&*self);
        }
        let entry = Entry { key, value };
        match self.position(&entry.key) {
            Some(i) => {
                proof {
                    lemma_replace_entry(self.entries@, i as int, entry);
                }
                let mut entries = self.take_entries();
                entries.set(i, entry);
                self.entries = entries;
            },
            None => {
                proof {
                    lemma_push_entry(self.entries@, entry);
                }
                let mut entries = self.take_entries();
                entries.push(entry);
                self.entries = entries;
            },
        }
    }

    /// Takes away what is kept under `key` and returns it; `None` if nothing was,
    /// and the store is then as before.
    pub fn remove(&mut self, key: &K) -> (r: Option<V>)
        ensures
            final(self)@ == old(self)@.remove(*key),
            match r {
                Some(v) => old(self)@.contains_key(*key) && v == old(self)@[*key],
                None => !old(self)@.contains_key(*key) && final(self)@ == old(self)@,
            },
    {
        proof {
            use_type_invariant(&*self);
        }
        match self.position(key) {
            Some(i) => {
                proof {
                    lemma_entry_in_map(self.entries@, i as int);
                    lemma_remove_entry(self.entries@, i as int);
                }
                let mut entries = self.take_entries();
                let entry = entries.remove(i);
                self.entries = entries;
                Some(entry.value)
            },
            None => {
                proof {
                    assert(self@.remove(*key) =~= self@);
                }
                None
            },
        }
    }
}

} // verus!
