//! Keyed tables: what the market remembers per identity or per code.
//!
//! A table is a list of entries with distinct keys, in the order in which the
//! keys were first written. Its model is that list, as a sequence of pairs.

use vstd::prelude::*;
use crate::bytes::bytes_eq;
use crate::bytes::bytes_copy;

verus! {

/// Whether some entry of `e` has the key `k`.
pub open spec fn has_key<T>(e: Seq<(Seq<u8>, T)>, k: Seq<u8>) -> bool {
    exists|i: int| 0 <= i < e.len() && (#[trigger] e[i]).0 == k
}

/// The place of the entry with key `k`, where there is one.
pub open spec fn position<T>(e: Seq<(Seq<u8>, T)>, k: Seq<u8>) -> int {
    choose|i: int| 0 <= i < e.len() && (#[trigger] e[i]).0 == k
}

/// What is stored under `k`, if anything.
pub open spec fn lookup<T>(e: Seq<(Seq<u8>, T)>, k: Seq<u8>) -> Option<T> {
    if has_key(e, k) {
        Some(e[position(e, k)].1)
    } else {
        None
    }
}

/// The entries after `v` is stored under `k`: written over the entry that has
/// the key, or added at the end.
pub open spec fn put<T>(e: Seq<(Seq<u8>, T)>, k: Seq<u8>, v: T) -> Seq<(Seq<u8>, T)> {
    if has_key(e, k) {
        e.update(position(e, k), (k, v))
    } else {
        e.push((k, v))
    }
}

/// No key occurs twice.
pub open spec fn distinct_keys<T>(e: Seq<(Seq<u8>, T)>) -> bool {
    forall|i: int, j: int|
        #![trigger e[i], e[j]]
        0 <= i < j < e.len() ==> e[i].0 != e[j].0
}

/// The amount stored under `k`, zero where nothing is.
pub open spec fn amount(e: Seq<(Seq<u8>, u64)>, k: Seq<u8>) -> u64 {
    match lookup(e, k) {
        Some(v) => v,
        None => 0,
    }
}

/// The sum of all amounts.
pub open spec fn total(e: Seq<(Seq<u8>, u64)>) -> nat
    decreases e.len(),
{
    if e.len() == 0 {
        0
    } else {
        total(e.drop_last()) + e.last().1 as nat
    }
}

/// With distinct keys, the entry that has a key is the only one.
pub proof fn lemma_position<T>(e: Seq<(Seq<u8>, T)>, k: Seq<u8>, i: int)
    requires
        distinct_keys(e),
        0 <= i < e.len(),
        e[i].0 == k,
    ensures
        has_key(e, k),
        position(e, k) == i,
        lookup(e, k) == Some(e[i].1),
{
    let j = position(e, k);
    assert(0 <= j < e.len() && e[j].0 == k);
    if j < i {
        assert(e[j].0 != e[i].0);
    } else if i < j {
        assert(e[i].0 != e[j].0);
    }
}

/// Storing keeps the keys distinct.
pub proof fn lemma_put_distinct<T>(e: Seq<(Seq<u8>, T)>, k: Seq<u8>, v: T)
    requires
        distinct_keys(e),
    ensures
        distinct_keys(put(e, k, v)),
        put(e, k, v).len() == if has_key(e, k) { e.len() } else { e.len() + 1 },
{
    let p = put(e, k, v);
    if has_key(e, k) {
        let at = position(e, k);
        assert forall|i: int, j: int| 0 <= i < j < p.len() implies (#[trigger] p[i]).0 != (
        #[trigger] p[j]).0 by {
            assert(p[i].0 == e[i].0);
            assert(p[j].0 == e[j].0);
        }
    } else {
        assert forall|i: int, j: int| 0 <= i < j < p.len() implies (#[trigger] p[i]).0 != (
        #[trigger] p[j]).0 by {
            if j == e.len() {
                assert(e[i].0 != k);
            } else {
                assert(p[i].0 == e[i].0);
                assert(p[j].0 == e[j].0);
            }
        }
    }
}

/// After storing, the key reads as what was stored and every other key as before.
pub proof fn lemma_put_lookup<T>(e: Seq<(Seq<u8>, T)>, k: Seq<u8>, v: T, other: Seq<u8>)
    requires
        distinct_keys(e),
    ensures
        lookup(put(e, k, v), other) == if other == k {
            Some(v)
        } else {
            lookup(e, other)
        },
        has_key(put(e, k, v), other) == (other == k || has_key(e, other)),
{
    let p = put(e, k, v);
    lemma_put_distinct(e, k, v);
    let at = if has_key(e, k) { position(e, k) } else { e.len() as int };
    assert(p[at] == (k, v));
    if other == k {
        lemma_position(p, k, at);
    } else if has_key(e, other) {
        let j = position(e, other);
        assert(e[j].0 == other);
        assert(j != at);
        assert(p[j] == e[j]);
        lemma_position(p, other, j);
    } else {
        if has_key(p, other) {
            let j = position(p, other);
            assert(p[j].0 == other);
            assert(j != at);
            assert(e[j].0 == other);
        }
    }
}

/// Writing over one entry changes the sum by the difference of the amounts.
pub proof fn lemma_total_update(e: Seq<(Seq<u8>, u64)>, i: int, k: Seq<u8>, v: u64)
    requires
        0 <= i < e.len(),
    ensures
        total(e.update(i, (k, v))) == total(e) - e[i].1 + v,
    decreases e.len(),
{
    let u = e.update(i, (k, v));
    if i == e.len() - 1 {
        assert(u.drop_last() =~= e.drop_last());
    } else {
        lemma_total_update(e.drop_last(), i, k, v);
        assert(u.drop_last() =~= e.drop_last().update(i, (k, v)));
    }
}

/// Storing an amount changes the sum by what the key gains or loses.
pub proof fn lemma_total_put(e: Seq<(Seq<u8>, u64)>, k: Seq<u8>, v: u64)
    ensures
        total(put(e, k, v)) == total(e) - amount(e, k) + v,
{
    if has_key(e, k) {
        lemma_total_update(e, position(e, k), k, v);
    } else {
        assert(e.push((k, v)).drop_last() =~= e);
    }
}

/// A table from byte-string keys to values of one kind.
#[derive(Debug)]
pub struct Table<V> {
    entries: Vec<(Vec<u8>, V)>,
}

impl<V: DeepView> View for Table<V> {
    type V = Seq<(Seq<u8>, V::V)>;

    closed spec fn view(&self) -> Seq<(Seq<u8>, V::V)> {
        Seq::new(
            self.entries@.len(),
            |i: int| (self.entries@[i].0@, self.entries@[i].1.deep_view()),
        )
    }
}

impl<V: DeepView> Table<V> {
    /// The table's invariant: no key occurs twice.
    pub open spec fn wf(&self) -> bool {
        distinct_keys(self@)
    }

    /// A table with no entry.
    pub fn new() -> (table: Table<V>)
        ensures
            table@ == Seq::<(Seq<u8>, V::V)>::empty(),
            table.wf(),
    {
        let table = Table { entries: Vec::new() };
        assert(table@ =~= Seq::<(Seq<u8>, V::V)>::empty());
        table
    }

    /// The number of entries.
    pub fn len(&self) -> (n: usize)
        ensures
            n == self@.len(),
    {
        self.entries.len()
    }

    /// The key of the entry at place `i`.
    pub fn key_at(&self, i: usize) -> (key: &Vec<u8>)
        requires
            i < self@.len(),
        ensures
            key@ == self@[i as int].0,
    {
        &self.entries[i].0
    }

    /// The value of the entry at place `i`.
    pub fn value_at(&self, i: usize) -> (value: &V)
        requires
            i < self@.len(),
        ensures
            value.deep_view() == self@[i as int].1,
    {
        &self.entries[i].1
    }

    /// The place of the first entry with key `k`, if there is one.
    pub fn find(&self, k: &Vec<u8>) -> (place: Option<usize>)
        ensures
            match place {
                Some(i) => i < self@.len() && self@[i as int].0 == k@ && forall|j: int|
                    0 <= j < i ==> (#[trigger] self@[j]).0 != k@,
                None => !has_key(self@, k@),
            },
    {
        let mut i: usize = 0;
        while i < self.entries.len()
            invariant
                i <= self.entries.len(),
                forall|j: int| 0 <= j < i ==> (#[trigger] self@[j]).0 != k@,
            decreases self.entries.len() - i,
        {
            if bytes_eq(&self.entries[i].0, k) {
                return Some(i);
            }
            i = i + 1;
        }
        None
    }

    /// What is stored under `k`, if anything.
    pub fn get(&self, k: &Vec<u8>) -> (value: Option<&V>)
        requires
            self.wf(),
        ensures
            match value {
                Some(v) => lookup(self@, k@) == Some(v.deep_view()),
                None => lookup(self@, k@) is None,
            },
    {
        match self.find(k) {
            Some(i) => {
                proof {
                    lemma_position(self@, k@, i as int);
                }
                Some(&self.entries[i].1)
            },
            None => None,
        }
    }

    /// Whether anything is stored under `k`.
    pub fn contains(&self, k: &Vec<u8>) -> (found: bool)
        ensures
            found == has_key(self@, k@),
    {
        self.find(k).is_some()
    }

    /// Stores `v` under `k`, in place of what was there.
    pub fn set(&mut self, k: Vec<u8>, v: V)
        requires
            old(self).wf(),
        ensures
            final(self)@ == put(old(self)@, k@, v.deep_view()),
            final(self).wf(),
    {
        proof {
            lemma_put_distinct(self@, k@, v.deep_view());
        }
        match self.find(&k) {
            Some(i) => {
                proof {
                    lemma_position(self@, k@, i as int);
                }
                self.entries.set(i, (k, v));
                assert(self@ =~= put(old(self)@, k@, v.deep_view()));
            },
            None => {
                self.entries.push((k, v));
                assert(self@ =~= put(old(self)@, k@, v.deep_view()));
            },
        }
    }
}

impl Table<u64> {
    /// The amount stored under `k`, zero where nothing is.
    pub fn amount(&self, k: &Vec<u8>) -> (n: u64)
        requires
            self.wf(),
        ensures
            n == amount(self@, k@),
    {
        match self.get(k) {
            Some(v) => *v,
            None => 0,
        }
    }

    /// A second table with the same entries.
    pub fn duplicate(&self) -> (table: Table<u64>)
        ensures
            table@ == self@,
    {
        let mut entries: Vec<(Vec<u8>, u64)> = Vec::new();
        let mut i: usize = 0;
        while i < self.entries.len()
            invariant
                i <= self.entries.len(),
                entries.len() == i,
                forall|j: int|
                    0 <= j < i ==> (#[trigger] entries@[j]).0@ == self.entries@[j].0@
                        && entries@[j].1 == self.entries@[j].1,
            decreases self.entries.len() - i,
        {
            let key = bytes_copy(&self.entries[i].0);
            entries.push((key, self.entries[i].1));
            i = i + 1;
        }
        let table = Table { entries };
        assert(table@ =~= self@);
        table
    }
}

} // verus!
