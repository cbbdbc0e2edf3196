//! Lookup tables keyed by names.
//!
//! A [`Table`] keeps its entries in the order in which their keys first
//! arrived and never holds one key twice, so that it reads as a finite map
//! from keys to values.

use vstd::prelude::*;

verus! {

/// Values that can be copied, the copy having the same meaning.
pub trait Duplicate: View + Sized {
    /// A copy of `self` with the same view.
    fn duplicate(&self) -> (copy: Self)
        ensures
            copy@ == self@,
    ;
}

/// Values that can serve as keys: two keys are the same key exactly when
/// their views are equal.
pub trait Key: Duplicate {
    /// Do `self` and `other` denote the same key?
    fn same(&self, other: &Self) -> (same: bool)
        ensures
            same == (self@ == other@),
    ;
}

impl Duplicate for usize {
    fn duplicate(&self) -> (copy: usize) {
        *self
    }
}

/// A finite map from keys to values.
#[derive(Debug, Clone, PartialEq, Eq)]
pub struct Table<K, V> {
    entries: Vec<(K, V)>,
}

/// `i` is the first place among `entries` that holds `key`.
pub open spec fn first_at<K: View, V>(entries: Seq<(K, V)>, key: K::V, i: int) -> bool {
    &&& 0 <= i < entries.len()
    &&& entries[i].0@ == key
    &&& forall|j: int| 0 <= j < i ==> (#[trigger] entries[j]).0@ != key
}

/// The first place among `entries` that holds `key`, if there is one.
pub open spec fn position<K: View, V>(entries: Seq<(K, V)>, key: K::V) -> int {
    choose|i: int| first_at(entries, key, i)
}

/// A key that occurs at place `i` has a first place, at `i` or before it.
pub proof fn lemma_first_place<K: View, V>(entries: Seq<(K, V)>, key: K::V, i: int)
    requires
        0 <= i < entries.len(),
        entries[i].0@ == key,
    ensures
        first_at(entries, key, position(entries, key)),
        position(entries, key) <= i,
    decreases i,
{
    if exists|j: int| 0 <= j < i && (#[trigger] entries[j]).0@ == key {
        let j = choose|j: int| 0 <= j < i && (#[trigger] entries[j]).0@ == key;
        lemma_first_place(entries, key, j);
    } else {
        assert(first_at(entries, key, i));
        let p = position(entries, key);
        assert(first_at(entries, key, p));
        if p > i {
            assert(entries[i].0@ != key);
        }
    }
}

/// The entries as a map, each key read by its view and each value by its view.
pub open spec fn entries_map<K: View, V: View>(entries: Seq<(K, V)>) -> Map<K::V, V::V> {
    Map::new(
        |key: K::V| exists|i: int| 0 <= i < entries.len() && #[trigger] entries[i].0@ == key,
        |key: K::V| entries[position(entries, key)].1@,
    )
}

/// No two entries share a key.
pub open spec fn distinct_keys<K: View, V>(entries: Seq<(K, V)>) -> bool {
    forall|i: int, j: int|
        0 <= i < entries.len() && 0 <= j < entries.len() && #[trigger] entries[i].0@
            == #[trigger] entries[j].0@ ==> i == j
}

/// In a table without repeated keys, an entry's key maps to that entry's value.
pub proof fn lemma_entry_in_map<K: View, V: View>(entries: Seq<(K, V)>, i: int)
    requires
        distinct_keys(entries),
        0 <= i < entries.len(),
    ensures
        entries_map(entries).contains_key(entries[i].0@),
        entries_map(entries)[entries[i].0@] == entries[i].1@,
        position(entries, entries[i].0@) == i,
{
    lemma_first_place(entries, entries[i].0@, i);
}

impl<K: Key, V: Duplicate> View for Table<K, V> {
    type V = Map<K::V, V::V>;

    closed spec fn view(&self) -> Map<K::V, V::V> {
        entries_map(self.entries@)
    }
}

impl<K: Key, V: Duplicate> Table<K, V> {
    /// The table holds no key twice.
    pub closed spec fn wf(&self) -> bool {
        distinct_keys(self.entries@)
    }

    /// The entries, in the order in which their keys arrived.
    pub closed spec fn entries(&self) -> Seq<(K, V)> {
        self.entries@
    }

    /// An empty table.
    pub fn new() -> (table: Self)
        ensures
            table.wf(),
            table@ == Map::<K::V, V::V>::empty(),
    {
        let table = Table { entries: Vec::new() };
        assert(table@ =~= Map::<K::V, V::V>::empty());
        table
    }

    /// The number of entries.
    pub fn len(&self) -> (len: usize)
        requires
            self.wf(),
        ensures
            len == self@.dom().len(),
            len == self.entries().len(),
            self@.dom().finite(),
    {
        proof {
            lemma_entries_count(self.entries@);
        }
        self.entries.len()
    }

    /// The value of the `i`th entry.
    pub fn value_at(&self, i: usize) -> (value: &V)
        requires
            i < self.entries().len(),
        ensures
            *value == self.entries()[i as int].1,
    {
        &self.entries[i].1
    }

    /// The table maps the key of each entry to the value of that entry, and
    /// it has no other keys.
    pub proof fn lemma_entries(&self)
        requires
            self.wf(),
        ensures
            forall|i: int|
                0 <= i < self.entries().len() ==> self@.contains_key(
                    (#[trigger] self.entries()[i]).0@,
                ) && self@[self.entries()[i].0@] == self.entries()[i].1@,
            forall|key: K::V|
                self@.contains_key(key) ==> exists|i: int|
                    0 <= i < self.entries().len() && (#[trigger] self.entries()[i]).0@ == key,
    {
        assert forall|i: int| 0 <= i < self.entries().len() implies self@.contains_key(
            (#[trigger] self.entries()[i]).0@,
        ) && self@[self.entries()[i].0@] == self.entries()[i].1@ by {
            lemma_entry_in_map(self.entries@, i);
        }
        assert forall|key: K::V| self@.contains_key(key) implies exists|i: int|
            0 <= i < self.entries().len() && (#[trigger] self.entries()[i]).0@ == key by {
            let i = choose|i: int| 0 <= i < self.entries@.len() && #[trigger] self.entries@[i].0@ == key;
            assert(self.entries()[i].0@ == key);
        }
    }

    fn find(&self, key: &K) -> (found: Option<usize>)
        requires
            self.wf(),
        ensures
            found is Some <==> self@.contains_key(key@),
            found matches Some(i) ==> i < self.entries@.len() && self.entries@[i as int].0@
                == key@,
    {
        let mut i: usize = 0;
        while i < self.entries.len()
            invariant
                i <= self.entries.len(),
                forall|j: int| 0 <= j < i ==> self.entries@[j].0@ != key@,
            decreases self.entries.len() - i,
        {
            if self.entries[i].0.same(key) {
                return Some(i);
            }
            i += 1;
        }
        None
    }

    /// Is there an entry for `key`?
    pub fn contains_key(&self, key: &K) -> (found: bool)
        requires
            self.wf(),
        ensures
            found == self@.contains_key(key@),
    {
        self.find(key).is_some()
    }

    /// The value that `key` maps to.
    pub fn get(&self, key: &K) -> (value: Option<&V>)
        requires
            self.wf(),
        ensures
            value is Some <==> self@.contains_key(key@),
            value matches Some(v) ==> v@ == self@[key@],
    {
        match self.find(key) {
            Some(i) => {
                proof {
                    lemma_entry_in_map(self.entries@, i as int);
                }
                Some(&self.entries[i].1)
            },
            None => None,
        }
    }

    /// Map `key` to `value`, replacing what it mapped to before.
    pub fn insert(&mut self, key: K, value: V)
        requires
            old(self).wf(),
        ensures
            final(self).wf(),
            final(self)@ == old(self)@.insert(key@, value@),
    {
        let ghost before = self.entries@;
        let ghost k = key@;
        let ghost v = value@;
        match self.find(&key) {
            Some(i) => {
                self.entries[i] = (key, value);
                proof {
                    let after = self.entries@;
                    assert forall|a: int, b: int|
                        0 <= a < after.len() && 0 <= b < after.len() && #[trigger] after[a].0@
                            == #[trigger] after[b].0@ implies a == b by {
                        assert(before[a].0@ == after[a].0@);
                        assert(before[b].0@ == after[b].0@);
                    }
                    lemma_same_keys_same_domain(before, after);
                    assert forall|key2: K::V| entries_map(before).insert(k, v).contains_key(key2)
                        implies #[trigger] entries_map(after)[key2] == entries_map(before).insert(
                        k,
                        v,
                    )[key2] by {
                        let p = choose|p: int| 0 <= p < before.len() && before[p].0@ == key2;
                        if key2 == k {
                            assert(before[i as int].0@ == key2);
                        }
                        lemma_entry_in_map(before, p);
                        assert(after[p].0@ == key2);
                        lemma_entry_in_map(after, p);
                    }
                    assert(entries_map(after) =~= entries_map(before).insert(k, v));
                }
            },
            None => {
                self.entries.push((key, value));
                proof {
                    let after = self.entries@;
                    let n = before.len() as int;
                    assert(after[n].0@ == k);
                    assert forall|a: int, b: int|
                        0 <= a < after.len() && 0 <= b < after.len() && #[trigger] after[a].0@
                            == #[trigger] after[b].0@ implies a == b by {
                        if a < n {
                            assert(before[a].0@ == after[a].0@);
                        }
                        if b < n {
                            assert(before[b].0@ == after[b].0@);
                        }
                    }
                    assert forall|key2: K::V| #[trigger]
                        entries_map(after).contains_key(key2) == entries_map(before).insert(
                            k,
                            v,
                        ).contains_key(key2) by {
                        if entries_map(after).contains_key(key2) {
                            let p = choose|p: int| 0 <= p < after.len() && after[p].0@ == key2;
                            if p < n {
                                assert(before[p].0@ == key2);
                            }
                        }
                        if entries_map(before).contains_key(key2) {
                            let p = choose|p: int| 0 <= p < before.len() && before[p].0@ == key2;
                            assert(after[p].0@ == key2);
                        }
                    }
                    assert forall|key2: K::V| entries_map(before).insert(k, v).contains_key(key2)
                        implies #[trigger] entries_map(after)[key2] == entries_map(before).insert(
                        k,
                        v,
                    )[key2] by {
                        if key2 == k {
                            lemma_entry_in_map(after, n);
                        } else {
                            let p = choose|p: int| 0 <= p < before.len() && before[p].0@ == key2;
                            lemma_entry_in_map(before, p);
                            assert(after[p].0@ == key2);
                            lemma_entry_in_map(after, p);
                        }
                    }
                    assert(entries_map(after) =~= entries_map(before).insert(k, v));
                }
            },
        }
    }

    /// Drop the entry for `key`, returning the value it mapped to.
    pub fn remove(&mut self, key: &K) -> (value: Option<V>)
        requires
            old(self).wf(),
        ensures
            final(self).wf(),
            final(self)@ == old(self)@.remove(key@),
            value is Some <==> old(self)@.contains_key(key@),
            value matches Some(v) ==> v@ == old(self)@[key@],
    {
        let ghost before = self.entries@;
        let ghost k = key@;
        match self.find(key) {
            Some(i) => {
                proof {
                    lemma_entry_in_map(before, i as int);
                }
                let (_, value) = self.entries.remove(i);
                proof {
                    let after = self.entries@;
                    let at = i as int;
                    assert forall|a: int| 0 <= a < after.len() implies #[trigger] after[a]
                        == before[if a < at {
                        a
                    } else {
                        a + 1
                    }] by {}
                    assert forall|a: int, b: int|
                        0 <= a < after.len() && 0 <= b < after.len() && #[trigger] after[a].0@
                            == #[trigger] after[b].0@ implies a == b by {
                        let a2 = if a < at { a } else { a + 1 };
                        let b2 = if b < at { b } else { b + 1 };
                        assert(before[a2].0@ == before[b2].0@);
                    }
                    assert forall|key2: K::V| #[trigger]
                        entries_map(after).contains_key(key2) == entries_map(before).remove(
                            k,
                        ).contains_key(key2) by {
                        if entries_map(after).contains_key(key2) {
                            let p = choose|p: int| 0 <= p < after.len() && after[p].0@ == key2;
                            let p2 = if p < at { p } else { p + 1 };
                            assert(before[p2].0@ == key2);
                            assert(before[at].0@ == k);
                        }
                        if entries_map(before).remove(k).contains_key(key2) {
                            let p = choose|p: int| 0 <= p < before.len() && before[p].0@ == key2;
                            let p2 = if p < at { p } else { p - 1 };
                            assert(after[p2].0@ == key2);
                        }
                    }
                    assert forall|key2: K::V| entries_map(before).remove(k).contains_key(key2)
                        implies #[trigger] entries_map(after)[key2] == entries_map(before).remove(
                        k,
                    )[key2] by {
                        let p = choose|p: int| 0 <= p < before.len() && before[p].0@ == key2;
                        lemma_entry_in_map(before, p);
                        let p2 = if p < at { p } else { p - 1 };
                        assert(after[p2].0@ == key2);
                        lemma_entry_in_map(after, p2);
                    }
                    assert(entries_map(after) =~= entries_map(before).remove(k));
                }
                Some(value)
            },
            None => {
                assert(self@ =~= old(self)@.remove(k));
                None
            },
        }
    }

    /// Take over every entry of `other`, in place of what its key mapped to here.
    pub fn extend(&mut self, other: Table<K, V>)
        requires
            old(self).wf(),
            other.wf(),
        ensures
            final(self).wf(),
            final(self)@ == old(self)@.union_prefer_right(other@),
    {
        let ghost all = other.entries@;
        let ghost before = self@;
        let mut entries = other.entries;
        proof {
            assert(all.skip(all.len() as int) =~= Seq::<(K, V)>::empty());
            assert(entries_map(Seq::<(K, V)>::empty()) =~= Map::<K::V, V::V>::empty());
            assert(self@ =~= before.union_prefer_right(Map::<K::V, V::V>::empty()));
        }
        while entries.len() > 0
            invariant
                self.wf(),
                distinct_keys(all),
                entries@.len() <= all.len(),
                entries@ == all.take(entries@.len() as int),
                self@ == before.union_prefer_right(entries_map(all.skip(entries@.len() as int))),
            decreases entries.len(),
        {
            let ghost n = entries@.len() - 1;
            let (key, value) = entries.pop().unwrap();
            assert(key == all[n].0 && value == all[n].1);
            self.insert(key, value);
            proof {
                assert(entries@ =~= all.take(n));
                lemma_skip_step(all, n);
                assert(self@ =~= before.union_prefer_right(entries_map(all.skip(n))));
            }
        }
        proof {
            assert(all.skip(0) =~= all);
        }
    }

    /// The keys, in the order in which they arrived.
    pub fn keys(&self) -> (keys: Vec<K>)
        requires
            self.wf(),
        ensures
            keys@.len() == self@.dom().len(),
            forall|i: int| 0 <= i < keys@.len() ==> self@.contains_key(#[trigger] keys@[i]@),
            forall|key: K::V|
                self@.contains_key(key) ==> exists|i: int|
                    0 <= i < keys@.len() && #[trigger] keys@[i]@ == key,
            forall|i: int, j: int|
                0 <= i < keys@.len() && 0 <= j < keys@.len() && #[trigger] keys@[i]@
                    == #[trigger] keys@[j]@ ==> i == j,
    {
        let mut keys: Vec<K> = Vec::new();
        let mut i: usize = 0;
        while i < self.entries.len()
            invariant
                i <= self.entries.len(),
                keys.len() == i,
                forall|j: int| 0 <= j < i ==> #[trigger] keys@[j]@ == self.entries@[j].0@,
            decreases self.entries.len() - i,
        {
            keys.push(self.entries[i].0.duplicate());
            i += 1;
        }
        proof {
            lemma_entries_count(self.entries@);
            assert forall|key: K::V| self@.contains_key(key) implies exists|i: int|
                0 <= i < keys@.len() && #[trigger] keys@[i]@ == key by {
                let p = choose|p: int| 0 <= p < self.entries@.len() && self.entries@[p].0@ == key;
                assert(keys@[p]@ == key);
            }
        }
        keys
    }
}

impl<K: Key, V: Duplicate> Duplicate for Table<K, V> {
    fn duplicate(&self) -> (copy: Self)
        ensures
            self.wf() ==> copy.wf(),
    {
        let mut entries: Vec<(K, V)> = Vec::new();
        let mut i: usize = 0;
        while i < self.entries.len()
            invariant
                i <= self.entries.len(),
                entries.len() == i,
                forall|j: int|
                    0 <= j < i ==> (#[trigger] entries@[j]).0@ == self.entries@[j].0@
                        && entries@[j].1@ == self.entries@[j].1@,
            decreases self.entries.len() - i,
        {
            entries.push((self.entries[i].0.duplicate(), self.entries[i].1.duplicate()));
            i += 1;
        }
        let copy = Table { entries };
        proof {
            lemma_same_keys_same_domain(self.entries@, copy.entries@);
            assert forall|key: K::V| entries_map(self.entries@).contains_key(key) implies #[trigger]
                entries_map(copy.entries@)[key] == entries_map(self.entries@)[key] by {
                let i = choose|i: int| 0 <= i < self.entries@.len() && self.entries@[i].0@ == key;
                lemma_first_place(self.entries@, key, i);
                assert(copy.entries@[i].0@ == key);
                lemma_first_place(copy.entries@, key, i);
                let p = position(self.entries@, key);
                let q = position(copy.entries@, key);
                assert(copy.entries@[p].0@ == self.entries@[p].0@);
                assert(copy.entries@[q].0@ == self.entries@[q].0@);
                assert(p == q);
            }
            assert(entries_map(copy.entries@) =~= entries_map(self.entries@));
            if self.wf() {
                assert forall|a: int, b: int|
                    0 <= a < copy.entries@.len() && 0 <= b < copy.entries@.len()
                        && #[trigger] copy.entries@[a].0@ == #[trigger] copy.entries@[b].0@
                        implies a == b by {
                    assert(self.entries@[a].0@ == self.entries@[b].0@);
                }
            }
        }
        copy
    }
}

/// Two runs of entries with the same keys at the same places have the same keys.
pub proof fn lemma_same_keys_same_domain<K: View, V: View>(a: Seq<(K, V)>, b: Seq<(K, V)>)
    requires
        a.len() == b.len(),
        forall|i: int| 0 <= i < a.len() ==> (#[trigger] a[i]).0@ == b[i].0@,
    ensures
        entries_map(a).dom() =~= entries_map(b).dom(),
{
    assert forall|key: K::V| entries_map(a).contains_key(key) == entries_map(b).contains_key(
        key,
    ) by {
        if entries_map(a).contains_key(key) {
            let p = choose|p: int| 0 <= p < a.len() && a[p].0@ == key;
            assert(a[p].0@ == b[p].0@);
            assert(b[p].0@ == key);
        }
        if entries_map(b).contains_key(key) {
            let p = choose|p: int| 0 <= p < b.len() && b[p].0@ == key;
            assert(a[p].0@ == b[p].0@);
        }
    }
}

/// The entries from the `n`th on are the `n`th and those behind it.
pub proof fn lemma_skip_step<K: View, V: View>(entries: Seq<(K, V)>, n: int)
    requires
        distinct_keys(entries),
        0 <= n < entries.len(),
    ensures
        entries_map(entries.skip(n)) == entries_map(entries.skip(n + 1)).insert(
            entries[n].0@,
            entries[n].1@,
        ),
{
    let from = entries.skip(n);
    let behind = entries.skip(n + 1);
    let wanted = entries_map(behind).insert(entries[n].0@, entries[n].1@);
    assert forall|i: int, j: int|
        0 <= i < from.len() && 0 <= j < from.len() && #[trigger] from[i].0@
            == #[trigger] from[j].0@ implies i == j by {
        assert(entries[i + n].0@ == entries[j + n].0@);
    }
    assert forall|i: int, j: int|
        0 <= i < behind.len() && 0 <= j < behind.len() && #[trigger] behind[i].0@
            == #[trigger] behind[j].0@ implies i == j by {
        assert(entries[i + n + 1].0@ == entries[j + n + 1].0@);
    }
    assert forall|key: K::V| entries_map(from).contains_key(key) == wanted.contains_key(key) by {
        if entries_map(from).contains_key(key) {
            let i = choose|i: int| 0 <= i < from.len() && from[i].0@ == key;
            if i > 0 {
                assert(behind[i - 1].0@ == key);
            }
        }
        if entries_map(behind).contains_key(key) {
            let i = choose|i: int| 0 <= i < behind.len() && behind[i].0@ == key;
            assert(from[i + 1].0@ == key);
        }
        if key == entries[n].0@ {
            assert(from[0].0@ == key);
        }
    }
    assert forall|key: K::V| wanted.contains_key(key) implies #[trigger] entries_map(from)[key]
        == wanted[key] by {
        if key == entries[n].0@ {
            assert(from[0].0@ == key);
            lemma_entry_in_map(from, 0);
        } else {
            let i = choose|i: int| 0 <= i < behind.len() && behind[i].0@ == key;
            lemma_entry_in_map(behind, i);
            assert(from[i + 1].0@ == key);
            lemma_entry_in_map(from, i + 1);
        }
    }
    assert(entries_map(from) =~= wanted);
}

/// A table without repeated keys has as many keys as entries.
pub proof fn lemma_entries_count<K: View, V: View>(entries: Seq<(K, V)>)
    requires
        distinct_keys(entries),
    ensures
        entries_map(entries).dom().finite(),
        entries_map(entries).dom().len() == entries.len(),
    decreases entries.len(),
{
    if entries.len() == 0 {
        assert(entries_map(entries).dom() =~= Set::<K::V>::empty());
    } else {
        let front = entries.drop_last();
        let last = entries.last();
        assert forall|i: int, j: int|
            0 <= i < front.len() && 0 <= j < front.len() && #[trigger] front[i].0@
                == #[trigger] front[j].0@ implies i == j by {
            assert(entries[i].0@ == entries[j].0@);
        }
        lemma_entries_count(front);
        assert(!entries_map(front).dom().contains(last.0@)) by {
            if entries_map(front).dom().contains(last.0@) {
                let p = choose|p: int| 0 <= p < front.len() && front[p].0@ == last.0@;
                assert(entries[p].0@ == entries[entries.len() - 1].0@);
            }
        }
        assert forall|key: K::V| #[trigger]
            entries_map(entries).dom().contains(key) == entries_map(front).dom().insert(
                last.0@,
            ).contains(key) by {
            if entries_map(entries).dom().contains(key) {
                let p = choose|p: int| 0 <= p < entries.len() && entries[p].0@ == key;
                if p < front.len() {
                    assert(front[p].0@ == key);
                }
            }
            if entries_map(front).dom().contains(key) {
                let p = choose|p: int| 0 <= p < front.len() && front[p].0@ == key;
                assert(entries[p].0@ == key);
            }
            if key == last.0@ {
                assert(entries[entries.len() - 1].0@ == key);
            }
        }
        assert(entries_map(entries).dom() =~= entries_map(front).dom().insert(last.0@));
    }
}

} // verus!
