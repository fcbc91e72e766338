//! An account store: a finite map from addresses to account data, kept as a
//! list of entries in which no address occurs twice.

use crate::address::Address;
use vstd::prelude::*;

verus! {

/// No address occurs twice among the entries.
pub open spec fn distinct_keys<V>(s: Seq<(Address, V)>) -> bool {
    forall|i: int, j: int| 0 <= i < j < s.len() ==> s[i].0 != s[j].0
}

/// Whether an entry for `key` occurs among the entries.
pub open spec fn has_key<V>(s: Seq<(Address, V)>, key: Address) -> bool {
    exists|i: int| 0 <= i < s.len() && #[trigger] s[i].0 == key
}

/// The position of an entry for `key`, where there is one.
pub open spec fn index_of<V>(s: Seq<(Address, V)>, key: Address) -> int {
    choose|i: int| 0 <= i < s.len() && #[trigger] s[i].0 == key
}

/// The map that a list of entries stands for.
pub open spec fn map_of<V>(s: Seq<(Address, V)>) -> Map<Address, V> {
    Map::new(|k: Address| has_key(s, k), |k: Address| s[index_of(s, k)].1)
}

/// Where the keys are distinct, the entry at position `i` is the one that the
/// map holds for its key.
pub proof fn lemma_entry<V>(s: Seq<(Address, V)>, i: int)
    requires
        distinct_keys(s),
        0 <= i < s.len(),
    ensures
        has_key(s, s[i].0),
        index_of(s, s[i].0) == i,
        map_of(s).contains_key(s[i].0),
        map_of(s)[s[i].0] == s[i].1,
{
    assert(s[i].0 == s[i].0);
    let j = index_of(s, s[i].0);
    assert(0 <= j < s.len() && s[j].0 == s[i].0);
}

/// A key that the map holds has a position among the entries.
pub proof fn lemma_index<V>(s: Seq<(Address, V)>, key: Address)
    requires
        has_key(s, key),
    ensures
        0 <= index_of(s, key) < s.len(),
        s[index_of(s, key)].0 == key,
{
}

/// Replacing the data of the entry at position `i` updates the map at its key.
pub proof fn lemma_update<V>(s: Seq<(Address, V)>, i: int, value: V)
    requires
        distinct_keys(s),
        0 <= i < s.len(),
    ensures
        distinct_keys(s.update(i, (s[i].0, value))),
        map_of(s.update(i, (s[i].0, value))) == map_of(s).insert(s[i].0, value),
{
    let key = s[i].0;
    let t = s.update(i, (key, value));
    assert(distinct_keys(t));
    assert forall|k: Address| has_key(t, k) <==> (k == key || has_key(s, k)) by {
        if has_key(t, k) {
            let j = index_of(t, k);
            assert(s[j].0 == k);
        }
        if has_key(s, k) {
            let j = index_of(s, k);
            assert(t[j].0 == k);
        }
        if k == key {
            assert(t[i].0 == k);
        }
    }
    assert forall|k: Address| has_key(t, k) implies #[trigger] map_of(t)[k] == map_of(s).insert(
        key,
        value,
    )[k] by {
        let j = index_of(t, k);
        lemma_entry(t, j);
        if j != i {
            lemma_entry(s, j);
        }
    }
    assert(map_of(t) =~= map_of(s).insert(key, value));
}

/// Appending an entry for a new key inserts it into the map.
pub proof fn lemma_push<V>(s: Seq<(Address, V)>, key: Address, value: V)
    requires
        distinct_keys(s),
        !has_key(s, key),
    ensures
        distinct_keys(s.push((key, value))),
        map_of(s.push((key, value))) == map_of(s).insert(key, value),
{
    let t = s.push((key, value));
    assert forall|i: int, j: int| 0 <= i < j < t.len() implies t[i].0 != t[j].0 by {
        if j == s.len() {
            assert(s[i].0 == t[i].0);
        }
    }
    assert forall|k: Address| has_key(t, k) <==> (k == key || has_key(s, k)) by {
        if has_key(t, k) {
            let j = index_of(t, k);
            if j < s.len() {
                assert(s[j].0 == k);
            }
        }
        if has_key(s, k) {
            let j = index_of(s, k);
            assert(t[j].0 == k);
        }
        if k == key {
            assert(t[s.len() as int].0 == k);
        }
    }
    assert forall|k: Address| has_key(t, k) implies #[trigger] map_of(t)[k] == map_of(s).insert(
        key,
        value,
    )[k] by {
        let j = index_of(t, k);
        lemma_entry(t, j);
        if j < s.len() {
            lemma_entry(s, j);
        }
    }
    assert(map_of(t) =~= map_of(s).insert(key, value));
}

/// Taking the entry at position `i` out removes its key from the map.
pub proof fn lemma_remove<V>(s: Seq<(Address, V)>, i: int)
    requires
        distinct_keys(s),
        0 <= i < s.len(),
    ensures
        distinct_keys(s.remove(i)),
        map_of(s.remove(i)) == map_of(s).remove(s[i].0),
{
    let key = s[i].0;
    let t = s.remove(i);
    assert forall|a: int, b: int| 0 <= a < b < t.len() implies t[a].0 != t[b].0 by {
        let a0 = if a < i { a } else { a + 1 };
        let b0 = if b < i { b } else { b + 1 };
        assert(t[a] == s[a0]);
        assert(t[b] == s[b0]);
    }
    assert forall|k: Address| has_key(t, k) <==> (k != key && has_key(s, k)) by {
        if has_key(t, k) {
            let j = index_of(t, k);
            let j0 = if j < i { j } else { j + 1 };
            assert(t[j] == s[j0]);
            assert(s[j0].0 == k);
        }
        if k != key && has_key(s, k) {
            let j = index_of(s, k);
            let j1 = if j < i { j } else { j - 1 };
            assert(t[j1] == s[j]);
            assert(t[j1].0 == k);
        }
    }
    assert forall|k: Address| has_key(t, k) implies #[trigger] map_of(t)[k] == map_of(s).remove(
        key,
    )[k] by {
        let j = index_of(t, k);
        let j0 = if j < i { j } else { j + 1 };
        assert(t[j] == s[j0]);
        lemma_entry(t, j);
        lemma_entry(s, j0);
    }
    assert(map_of(t) =~= map_of(s).remove(key));
}

/// A finite map from addresses to account data.
pub struct Table<V> {
    pub entries: Vec<(Address, V)>,
}

impl<V: Copy> Table<V> {
    /// No address has two entries.
    pub open spec fn wf(&self) -> bool {
        distinct_keys(self.entries@)
    }

    /// The map that the table stands for.
    pub open spec fn map(&self) -> Map<Address, V> {
        map_of(self.entries@)
    }

    /// The empty table.
    pub fn new() -> (r: Table<V>)
        ensures
            r.wf(),
            r.entries@.len() == 0,
            r.map() == Map::<Address, V>::empty(),
    {
        let r = Table { entries: Vec::new() };
        proof {
            assert(r.map() =~= Map::<Address, V>::empty());
        }
        r
    }

    /// A table with the same entries.
    pub fn duplicate(&self) -> (r: Table<V>)
        ensures
            r.entries@ == self.entries@,
    {
        let mut r: Table<V> = Table { entries: Vec::new() };
        let mut i: usize = 0;
        while i < self.entries.len()
            invariant
                i <= self.entries@.len(),
                r.entries@ == self.entries@.take(i as int),
            decreases self.entries@.len() - i,
        {
            r.entries.push(self.entries[i]);
            proof {
                assert(self.entries@.take(i + 1) =~= self.entries@.take(i as int).push(
                    self.entries@[i as int],
                ));
            }
            i += 1;
        }
        proof {
            assert(self.entries@.take(self.entries@.len() as int) =~= self.entries@);
        }
        r
    }

    /// The position of the entry for `key`, if there is one.
    pub fn position(&self, key: &Address) -> (r: Option<usize>)
        ensures
            match r {
                Some(i) => i < self.entries@.len() && self.entries@[i as int].0 == *key,
                None => !has_key(self.entries@, *key),
            },
            self.wf() ==> (r matches Some(i) ==> i == index_of(self.entries@, *key)),
    {
        let mut i: usize = 0;
        while i < self.entries.len()
            invariant
                i <= self.entries@.len(),
                forall|j: int| 0 <= j < i ==> self.entries@[j].0 != *key,
            decreases self.entries@.len() - i,
        {
            if self.entries[i].0 == *key {
                proof {
                    if self.wf() {
                        lemma_entry(self.entries@, i as int);
                    }
                }
                return Some(i);
            }
            i += 1;
        }
        None
    }

    /// The data held for `key`, if any.
    pub fn get(&self, key: &Address) -> (r: Option<V>)
        requires
            self.wf(),
        ensures
            r == (if self.map().contains_key(*key) {
                Some(self.map()[*key])
            } else {
                None
            }),
    {
        match self.position(key) {
            Some(i) => {
                proof {
                    lemma_entry(self.entries@, i as int);
                }
                Some(self.entries[i].1)
            },
            None => None,
        }
    }

    /// Whether the table holds data for `key`.
    pub fn contains(&self, key: &Address) -> (r: bool)
        requires
            self.wf(),
        ensures
            r == self.map().contains_key(*key),
    {
        self.position(key).is_some()
    }

    /// Sets the data held for `key`, replacing what was there.
    pub fn insert(&mut self, key: Address, value: V)
        requires
            old(self).wf(),
        ensures
            final(self).wf(),
            final(self).map() == old(self).map().insert(key, value),
            final(self).entries@ == (if has_key(old(self).entries@, key) {
                old(self).entries@.update(index_of(old(self).entries@, key), (key, value))
            } else {
                old(self).entries@.push((key, value))
            }),
    {
        match self.position(&key) {
            Some(i) => {
                proof {
                    lemma_entry(self.entries@, i as int);
                    lemma_update(self.entries@, i as int, value);
                }
                self.entries[i] = (key, value);
            },
            None => {
                proof {
                    lemma_push(self.entries@, key, value);
                }
                self.entries.push((key, value));
            },
        }
    }

    /// Takes out the data held for `key`, if any.
    pub fn remove(&mut self, key: &Address)
        requires
            old(self).wf(),
        ensures
            final(self).wf(),
            final(self).map() == old(self).map().remove(*key),
            final(self).entries@ == (if has_key(old(self).entries@, *key) {
                old(self).entries@.remove(index_of(old(self).entries@, *key))
            } else {
                old(self).entries@
            }),
    {
        match self.position(key) {
            Some(i) => {
                proof {
                    lemma_entry(self.entries@, i as int);
                    lemma_remove(self.entries@, i as int);
                }
                self.entries.remove(i);
            },
            None => {
                proof {
                    assert(self.map().remove(*key) =~= self.map());
                }
            },
        }
    }
}

} // verus!
