//! A small ordered table: each key has one value, and the entries keep the
//! order in which their keys were first entered.

use vstd::prelude::*;

verus! {

/// Values that can be compared for equality, to serve as keys.
pub trait TableKey: Sized {
    fn same(&self, other: &Self) -> (same: bool)
        ensures
            same == (*self == *other),
    ;
}

impl TableKey for u64 {
    fn same(&self, other: &Self) -> (same: bool) {
        *self == *other
    }
}

impl TableKey for (u64, u64) {
    fn same(&self, other: &Self) -> (same: bool) {
        self.0 == other.0 && self.1 == other.1
    }
}

impl TableKey for (u64, u64, u64, u64) {
    fn same(&self, other: &Self) -> (same: bool) {
        self.0 == other.0 && self.1 == other.1 && self.2 == other.2 && self.3 == other.3
    }
}

/// A table from keys to values.
pub struct Table<K, V> {
    pub entries: Vec<(K, V)>,
}

/// The position of a key among entries, or their number when it is absent.
pub open spec fn position<K, V>(entries: Seq<(K, V)>, key: K) -> int
    decreases entries.len(),
{
    if entries.len() == 0 {
        0
    } else if entries[0].0 == key {
        0
    } else {
        1 + position(entries.drop_first(), key)
    }
}

/// Whether no key stands in two entries.
pub open spec fn distinct_keys<K, V>(entries: Seq<(K, V)>) -> bool {
    forall|i: int, j: int|
        0 <= i < j < entries.len() ==> (#[trigger] entries[i]).0 != (#[trigger] entries[j]).0
}

/// Whether some entry has the key.
pub open spec fn has_key<K, V>(entries: Seq<(K, V)>, key: K) -> bool {
    exists|i: int| 0 <= i < entries.len() && (#[trigger] entries[i]).0 == key
}

/// The mapping that entries stand for.
pub open spec fn mapping<K, V>(entries: Seq<(K, V)>) -> Map<K, V> {
    Map::new(|key: K| has_key(entries, key), |key: K| entries[position(entries, key)].1)
}

proof fn lemma_position<K, V>(entries: Seq<(K, V)>, key: K)
    ensures
        0 <= position(entries, key) <= entries.len(),
        has_key(entries, key) <==> position(entries, key) < entries.len(),
        position(entries, key) < entries.len() ==> entries[position(entries, key)].0 == key,
    decreases entries.len(),
{
    if entries.len() > 0 && entries[0].0 != key {
        let rest = entries.drop_first();
        lemma_position(rest, key);
        if has_key(entries, key) {
            let i = choose|i: int| 0 <= i < entries.len() && (#[trigger] entries[i]).0 == key;
            assert(rest[i - 1].0 == key);
        }
        if position(rest, key) < rest.len() {
            assert(entries[position(rest, key) + 1] == rest[position(rest, key)]);
        }
    } else if entries.len() > 0 {
        assert(entries[0].0 == key);
    }
}

/// An entry is found under its key.
pub proof fn lemma_entry<K, V>(entries: Seq<(K, V)>, at: int)
    requires
        distinct_keys(entries),
        0 <= at < entries.len(),
    ensures
        position(entries, entries[at].0) == at,
        mapping(entries).contains_key(entries[at].0),
        mapping(entries)[entries[at].0] == entries[at].1,
{
    lemma_position(entries, entries[at].0);
    let found = position(entries, entries[at].0);
    assert(has_key(entries, entries[at].0));
    if found < at {
        assert(entries[found].0 != entries[at].0);
    } else if at < found {
        assert(entries[at].0 != entries[found].0);
    }
}

/// Replacing the value of an entry changes the mapping at its key alone.
pub proof fn lemma_update<K, V>(entries: Seq<(K, V)>, at: int, value: V)
    requires
        distinct_keys(entries),
        0 <= at < entries.len(),
    ensures
        distinct_keys(entries.update(at, (entries[at].0, value))),
        mapping(entries.update(at, (entries[at].0, value))) == mapping(entries).insert(
            entries[at].0,
            value,
        ),
{
    let key = entries[at].0;
    let after = entries.update(at, (key, value));
    assert(distinct_keys(after)) by {
        assert forall|i: int, j: int| 0 <= i < j < after.len() implies (#[trigger] after[i]).0 != (
        #[trigger] after[j]).0 by {
            assert(entries[i].0 != entries[j].0);
        }
    }
    lemma_entry(after, at);
    assert forall|k: K| mapping(after).contains_key(k) <==> mapping(entries).insert(
        key,
        value,
    ).contains_key(k) by {
        if has_key(after, k) {
            let i = choose|i: int| 0 <= i < after.len() && (#[trigger] after[i]).0 == k;
            assert(entries[i].0 == k);
        }
        if has_key(entries, k) {
            let i = choose|i: int| 0 <= i < entries.len() && (#[trigger] entries[i]).0 == k;
            assert(after[i].0 == k);
        }
        if k == key {
            assert(after[at].0 == k);
        }
    }
    assert forall|k: K| mapping(after).contains_key(k) implies mapping(after)[k] == mapping(
        entries,
    ).insert(key, value)[k] by {
        let i = choose|i: int| 0 <= i < after.len() && (#[trigger] after[i]).0 == k;
        lemma_entry(after, i);
        lemma_entry(entries, i);
    }
    assert(mapping(after) =~= mapping(entries).insert(key, value));
}

/// Adding an entry for a new key extends the mapping by it.
pub proof fn lemma_push<K, V>(entries: Seq<(K, V)>, key: K, value: V)
    requires
        distinct_keys(entries),
        !has_key(entries, key),
    ensures
        distinct_keys(entries.push((key, value))),
        mapping(entries.push((key, value))) == mapping(entries).insert(key, value),
{
    let after = entries.push((key, value));
    assert(distinct_keys(after)) by {
        assert forall|i: int, j: int| 0 <= i < j < after.len() implies (#[trigger] after[i]).0 != (
        #[trigger] after[j]).0 by {
            assert(after[i] == entries[i]);
            if j < entries.len() {
                assert(after[j] == entries[j]);
            }
        }
    }
    assert(after[entries.len() as int].0 == key);
    assert forall|k: K| mapping(after).contains_key(k) <==> mapping(entries).insert(
        key,
        value,
    ).contains_key(k) by {
        if has_key(after, k) {
            let i = choose|i: int| 0 <= i < after.len() && (#[trigger] after[i]).0 == k;
            if i < entries.len() {
                assert(entries[i].0 == k);
            }
        }
        if has_key(entries, k) {
            let i = choose|i: int| 0 <= i < entries.len() && (#[trigger] entries[i]).0 == k;
            assert(after[i].0 == k);
        }
    }
    assert forall|k: K| mapping(after).contains_key(k) implies mapping(after)[k] == mapping(
        entries,
    ).insert(key, value)[k] by {
        let i = choose|i: int| 0 <= i < after.len() && (#[trigger] after[i]).0 == k;
        lemma_entry(after, i);
        if i < entries.len() {
            assert(entries[i] == after[i]);
            lemma_entry(entries, i);
        }
    }
    assert(mapping(after) =~= mapping(entries).insert(key, value));
}

/// The mapping has a key for each entry, and no more.
pub proof fn lemma_domain<K, V>(entries: Seq<(K, V)>)
    requires
        distinct_keys(entries),
    ensures
        mapping(entries).dom().finite(),
        mapping(entries).dom().len() == entries.len(),
{
    let keys = entries.map_values(|entry: (K, V)| entry.0);
    assert(keys.no_duplicates()) by {
        assert forall|i: int, j: int|
            0 <= i < keys.len() && 0 <= j < keys.len() && i != j implies keys[i] != keys[j] by {
            if i < j {
                assert(entries[i].0 != entries[j].0);
            } else {
                assert(entries[j].0 != entries[i].0);
            }
        }
    }
    keys.unique_seq_to_set();
    assert(mapping(entries).dom() =~= keys.to_set()) by {
        assert forall|key: K| mapping(entries).dom().contains(key) <==> keys.to_set().contains(
            key,
        ) by {
            if has_key(entries, key) {
                let i = choose|i: int| 0 <= i < entries.len() && (#[trigger] entries[i]).0 == key;
                assert(keys[i] == key);
            }
            if keys.contains(key) {
                let i = choose|i: int| 0 <= i < keys.len() && keys[i] == key;
                assert(entries[i].0 == key);
            }
        }
    }
}

impl<K, V> Table<K, V> {
    /// The mapping that the table holds.
    pub open spec fn map(&self) -> Map<K, V> {
        mapping(self.entries@)
    }

    /// Whether no key stands in two entries.
    pub open spec fn wf(&self) -> bool {
        distinct_keys(self.entries@)
    }

    /// An empty table.
    pub fn new() -> (table: Self)
        ensures
            table.wf(),
            table.entries@.len() == 0,
            table.map() == Map::<K, V>::empty(),
    {
        let table = Table { entries: Vec::new() };
        assert(table.map() =~= Map::<K, V>::empty());
        table
    }
}

impl<K: TableKey, V> Table<K, V> {
    /// Where the entry of a key stands.
    pub fn find(&self, key: &K) -> (at: Option<usize>)
        requires
            self.wf(),
        ensures
            match at {
                Some(at) => {
                    &&& at < self.entries@.len()
                    &&& self.entries@[at as int].0 == *key
                    &&& self.map().contains_key(*key)
                    &&& self.map()[*key] == self.entries@[at as int].1
                },
                None => !self.map().contains_key(*key) && !has_key(self.entries@, *key),
            },
    {
        let mut i: usize = 0;
        while i < self.entries.len()
            invariant
                self.wf(),
                i <= self.entries@.len(),
                forall|k: int| 0 <= k < i ==> (#[trigger] self.entries@[k]).0 != *key,
            decreases self.entries@.len() - i,
        {
            if self.entries[i].0.same(key) {
                proof {
                    lemma_entry(self.entries@, i as int);
                }
                return Some(i);
            }
            i += 1;
        }
        None
    }

    /// Whether the key has an entry.
    pub fn contains(&self, key: &K) -> (found: bool)
        requires
            self.wf(),
        ensures
            found == self.map().contains_key(*key),
    {
        self.find(key).is_some()
    }

    /// The value of a key.
    pub fn get(&self, key: &K) -> (value: Option<&V>)
        requires
            self.wf(),
        ensures
            match value {
                Some(value) => self.map().contains_key(*key) && *value == self.map()[*key],
                None => !self.map().contains_key(*key),
            },
    {
        match self.find(key) {
            Some(at) => Some(&self.entries[at].1),
            None => None,
        }
    }

    /// Gives the key a value and says whether it had one before.
    pub fn insert(&mut self, key: K, value: V) -> (replaced: bool)
        requires
            old(self).wf(),
        ensures
            final(self).wf(),
            final(self).map() == old(self).map().insert(key, value),
            replaced == old(self).map().contains_key(key),
    {
        match self.find(&key) {
            Some(at) => {
                proof {
                    lemma_update(self.entries@, at as int, value);
                }
                self.entries.set(at, (key, value));
                true
            },
            None => {
                proof {
                    lemma_push(self.entries@, key, value);
                }
                self.entries.push((key, value));
                false
            },
        }
    }
}

/// A table maps exactly the keys of its entries; one that stands in a single entry is
/// mapped to the value beside it.
pub proof fn law_table_maps_its_entries<K, V>(entries: Seq<(K, V)>, key: K, at: int)
    requires
        distinct_keys(entries),
    ensures
        mapping(entries).contains_key(key) <==> exists|i: int|
            0 <= i < entries.len() && (#[trigger] entries[i]).0 == key,
        0 <= at < entries.len() ==> mapping(entries).contains_key(entries[at].0)
            && mapping(entries)[entries[at].0] == entries[at].1,
        entries.len() == 0 ==> mapping(entries) == Map::<K, V>::empty(),
{
    if 0 <= at < entries.len() {
        lemma_entry(entries, at);
    }
    if entries.len() == 0 {
        assert(mapping(entries) =~= Map::<K, V>::empty());
    }
}

} // verus!
