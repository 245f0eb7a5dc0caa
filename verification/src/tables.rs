//! Verified tables for the supervisor's persistent schema.
//!
//! Every table is an association list whose keys are pairwise distinct
//! up to their views. A table is abstracted as a `Map` from key views to
//! value views, so callers reason about ordinary map operations. Entries
//! keep a stable order, which makes iteration over a table deterministic
//! across replicas.

use vstd::prelude::*;

verus! {

/// A key of one of the supervisor's tables. The abstract identity of a
/// key is its view: executable equality decides view equality, and
/// duplication preserves it.
pub trait TableKey: View + Sized {
    /// Decides whether two keys have equal views.
    fn key_eq(&self, other: &Self) -> (b: bool)
        ensures
            b == (self@ == other@);

    /// Returns a key with the same view.
    fn dup(&self) -> (r: Self)
        ensures
            r@ == self@;
}

impl TableKey for u64 {
    fn key_eq(&self, other: &Self) -> (b: bool)
        ensures
            b == (self@ == other@),
    {
        *self == *other
    }

    fn dup(&self) -> (r: Self)
        ensures
            r@ == self@,
    {
        *self
    }
}

impl TableKey for Vec<u8> {
    fn key_eq(&self, other: &Self) -> (b: bool)
        ensures
            b == (self@ == other@),
    {
        crate::types::bytes_eq(self, other)
    }

    fn dup(&self) -> (r: Self)
        ensures
            r@ == self@,
    {
        crate::types::bytes_dup(self)
    }
}

/// True when the keys of `s` have pairwise distinct views.
pub open spec fn distinct_keys<K: TableKey, V: View>(s: Seq<(K, V)>) -> bool {
    forall|i: int, j: int| 0 <= i < j < s.len() ==> s[i].0@ != s[j].0@
}

/// True when some entry of `s` has key view `k`.
pub open spec fn seq_has_key<K: TableKey, V: View>(s: Seq<(K, V)>, k: <K as View>::V) -> bool {
    exists|i: int| 0 <= i < s.len() && s[i].0@ == k
}

/// Index of the entry of `s` whose key view is `k`.
pub open spec fn seq_key_at<K: TableKey, V: View>(s: Seq<(K, V)>, k: <K as View>::V) -> int {
    choose|i: int| 0 <= i < s.len() && s[i].0@ == k
}

/// An association list with view-distinct keys, abstracted as a map
/// from key views to value views.
pub struct ListMap<K, V> {
    entries: Vec<(K, V)>,
}

/// The map denoted by an entry sequence.
pub open spec fn entries_as_map<K: TableKey, V: View>(s: Seq<(K, V)>) -> Map<
    <K as View>::V,
    <V as View>::V,
> {
    Map::new(|k: <K as View>::V| seq_has_key(s, k), |k: <K as View>::V| s[seq_key_at(s, k)].1@)
}

impl<K: TableKey, V: View> View for ListMap<K, V> {
    type V = Map<<K as View>::V, <V as View>::V>;

    closed spec fn view(&self) -> Self::V {
        entries_as_map(self.entries@)
    }
}

/// With distinct keys, the entry holding key view `k` is unique, so
/// `seq_key_at` returns exactly the index of any matching entry.
proof fn lemma_key_at<K: TableKey, V: View>(s: Seq<(K, V)>, k: <K as View>::V, i: int)
    requires
        distinct_keys(s),
        0 <= i < s.len(),
        s[i].0@ == k,
    ensures
        seq_has_key(s, k),
        seq_key_at(s, k) == i,
        entries_as_map(s)[k] == s[i].1@,
{
    assert(seq_has_key(s, k));
    let j = seq_key_at(s, k);
    assert(0 <= j < s.len() && s[j].0@ == k);
    if i < j {
        assert(s[i].0@ != s[j].0@);
    } else if j < i {
        assert(s[j].0@ != s[i].0@);
    }
}

impl<K: TableKey, V: View> ListMap<K, V> {
    /// Keys are pairwise distinct up to views.
    pub closed spec fn wf(&self) -> bool {
        distinct_keys(self.entries@)
    }

    /// Creates an empty table.
    pub fn new() -> (r: Self)
        ensures
            r.wf(),
            r@ == Map::<<K as View>::V, <V as View>::V>::empty(),
    {
        let r = ListMap { entries: Vec::new() };
        proof {
            assert(r@ =~= Map::<<K as View>::V, <V as View>::V>::empty());
        }
        r
    }

    /// Index of the entry with key view `k@`, scanning left to right.
    fn find(&self, k: &K) -> (r: Option<usize>)
        requires
            self.wf(),
        ensures
            match r {
                Some(i) => i < self.entries@.len() && self.entries@[i as int].0@ == k@
                    && self@.contains_key(k@),
                None => !self@.contains_key(k@),
            },
    {
        let n = self.entries.len();
        let mut i: usize = 0;
        while i < n
            invariant
                n == self.entries@.len(),
                i <= n,
                self.wf(),
                forall|j: int| 0 <= j < i ==> self.entries@[j].0@ != k@,
            decreases n - i,
        {
            if self.entries[i].0.key_eq(k) {
                proof {
                    lemma_key_at(self.entries@, k@, i as int);
                }
                return Some(i);
            }
            i += 1;
        }
        proof {
            assert(!seq_has_key(self.entries@, k@));
        }
        None
    }

    /// True when the table holds an entry for `k`.
    pub fn contains_key(&self, k: &K) -> (b: bool)
        requires
            self.wf(),
        ensures
            b == self@.contains_key(k@),
    {
        self.find(k).is_some()
    }

    /// Looks the key up.
    pub fn get(&self, k: &K) -> (r: Option<&V>)
        requires
            self.wf(),
        ensures
            match r {
                Some(v) => self@.contains_key(k@) && v@ == self@[k@],
                None => !self@.contains_key(k@),
            },
    {
        match self.find(k) {
            Some(i) => {
                proof {
                    lemma_key_at(self.entries@, k@, i as int);
                }
                Some(&self.entries[i].1)
            },
            None => None,
        }
    }

    /// Removes the entry for `k`, handing its value out.
    pub fn take(&mut self, k: &K) -> (r: Option<V>)
        requires
            old(self).wf(),
        ensures
            final(self).wf(),
            final(self)@ == old(self)@.remove(k@),
            match r {
                Some(v) => old(self)@.contains_key(k@) && v@ == old(self)@[k@],
                None => !old(self)@.contains_key(k@),
            },
    {
        match self.find(k) {
            Some(i) => {
                proof {
                    lemma_key_at(self.entries@, k@, i as int);
                }
                let ghost s0 = self.entries@;
                let (_, v) = self.entries.remove(i);
                proof {
                    lemma_remove_entry(s0, i as int);
                }
                Some(v)
            },
            None => {
                proof {
                    assert(self@ =~= self@.remove(k@));
                }
                None
            },
        }
    }

    /// Removes the entry for `k`, if any.
    pub fn remove(&mut self, k: &K)
        requires
            old(self).wf(),
        ensures
            final(self).wf(),
            final(self)@ == old(self)@.remove(k@),
    {
        let _ = self.take(k);
    }

    /// Binds `k` to `v`, replacing any earlier binding.
    pub fn insert(&mut self, k: K, v: V)
        requires
            old(self).wf(),
        ensures
            final(self).wf(),
            final(self)@ == old(self)@.insert(k@, v@),
    {
        self.remove(&k);
        let ghost s0 = self.entries@;
        let ghost kv = k@;
        let ghost vv = v@;
        proof {
            assert(!self@.contains_key(kv));
            assert(!seq_has_key(s0, kv));
        }
        self.entries.push((k, v));
        proof {
            lemma_push_entry(s0, self.entries@, kv, vv);
        }
    }

    /// Duplicates of all keys, in table order.
    pub fn keys(&self) -> (r: Vec<K>)
        requires
            self.wf(),
        ensures
            forall|i: int| 0 <= i < r@.len() ==> self@.contains_key(#[trigger] r@[i]@),
            forall|i: int, j: int| 0 <= i < j < r@.len() ==> r@[i]@ != r@[j]@,
            forall|k: <K as View>::V| self@.contains_key(k) ==> exists|i: int|
                0 <= i < r@.len() && #[trigger] r@[i]@ == k,
    {
        let n = self.entries.len();
        let mut r: Vec<K> = Vec::new();
        let mut i: usize = 0;
        while i < n
            invariant
                n == self.entries@.len(),
                i <= n,
                self.wf(),
                r@.len() == i,
                forall|j: int| 0 <= j < i ==> #[trigger] r@[j]@ == self.entries@[j].0@,
            decreases n - i,
        {
            r.push(self.entries[i].0.dup());
            i += 1;
        }
        proof {
            assert forall|k: <K as View>::V| self@.contains_key(k) implies exists|i: int|
                0 <= i < r@.len() && #[trigger] r@[i]@ == k by {
                let i = seq_key_at(self.entries@, k);
                assert(r@[i]@ == k);
            }
            assert forall|i: int| 0 <= i < r@.len() implies self@.contains_key(
                #[trigger] r@[i]@,
            ) by {
                assert(seq_has_key(self.entries@, self.entries@[i].0@));
            }
        }
        r
    }

}

/// Entry sequences with equal views denote equal maps.
proof fn lemma_entries_congruent<K: TableKey, V: View>(s: Seq<(K, V)>, t: Seq<(K, V)>)
    requires
        distinct_keys(s),
        t.len() == s.len(),
        forall|i: int| 0 <= i < s.len() ==> #[trigger] t[i].0@ == s[i].0@ && t[i].1@ == s[i].1@,
    ensures
        distinct_keys(t),
        entries_as_map(t) == entries_as_map(s),
{
    assert forall|k: <K as View>::V| #[trigger]
        entries_as_map(t).contains_key(k) == entries_as_map(s).contains_key(k) by {
        if seq_has_key(t, k) {
            let i = choose|i: int| 0 <= i < t.len() && t[i].0@ == k;
            assert(s[i].0@ == k);
            assert(seq_has_key(s, k));
        }
        if seq_has_key(s, k) {
            let i = choose|i: int| 0 <= i < s.len() && s[i].0@ == k;
            assert(t[i].0@ == k);
            assert(seq_has_key(t, k));
        }
    }
    assert forall|k: <K as View>::V| entries_as_map(t).contains_key(k) implies entries_as_map(
        t,
    )[k] == entries_as_map(s)[k] by {
        let i = choose|i: int| 0 <= i < t.len() && t[i].0@ == k;
        lemma_key_at(t, k, i);
        lemma_key_at(s, k, i);
    }
    assert(entries_as_map(t) =~= entries_as_map(s));
}

impl<K: TableKey, V: TableKey> ListMap<K, V> {
    /// Duplicates the table; values are duplicated through their own
    /// key discipline.
    pub fn dup_deep(&self) -> (r: Self)
        requires
            self.wf(),
        ensures
            r.wf(),
            r@ == self@,
    {
        let n = self.entries.len();
        let mut entries: Vec<(K, V)> = Vec::new();
        let mut i: usize = 0;
        while i < n
            invariant
                n == self.entries@.len(),
                i <= n,
                entries@.len() == i,
                forall|j: int| 0 <= j < i ==> #[trigger] entries@[j].0@ == self.entries@[j].0@
                    && entries@[j].1@ == self.entries@[j].1@,
            decreases n - i,
        {
            entries.push((self.entries[i].0.dup(), self.entries[i].1.dup()));
            i += 1;
        }
        let r = ListMap { entries };
        proof {
            lemma_entries_congruent(self.entries@, r.entries@);
        }
        r
    }
}

impl<K: TableKey, V: View + Copy> ListMap<K, V> {
    /// Duplicates the table; values are copied.
    pub fn dup(&self) -> (r: Self)
        requires
            self.wf(),
        ensures
            r.wf(),
            r@ == self@,
    {
        let n = self.entries.len();
        let mut entries: Vec<(K, V)> = Vec::new();
        let mut i: usize = 0;
        while i < n
            invariant
                n == self.entries@.len(),
                i <= n,
                entries@.len() == i,
                forall|j: int| 0 <= j < i ==> #[trigger] entries@[j].0@ == self.entries@[j].0@
                    && entries@[j].1@ == self.entries@[j].1@,
            decreases n - i,
        {
            entries.push((self.entries[i].0.dup(), self.entries[i].1));
            i += 1;
        }
        let r = ListMap { entries };
        proof {
            lemma_entries_congruent(self.entries@, r.entries@);
        }
        r
    }
}

/// Removing entry `i` removes exactly its key from the denoted map.
proof fn lemma_remove_entry<K: TableKey, V: View>(s: Seq<(K, V)>, i: int)
    requires
        distinct_keys(s),
        0 <= i < s.len(),
    ensures
        distinct_keys(s.remove(i)),
        entries_as_map(s.remove(i)) == entries_as_map(s).remove(s[i].0@),
{
    let t = s.remove(i);
    let k0 = s[i].0@;
    assert forall|a: int, b: int| 0 <= a < b < t.len() implies t[a].0@ != t[b].0@ by {
        let a0 = if a < i { a } else { a + 1 };
        let b0 = if b < i { b } else { b + 1 };
        assert(t[a] == s[a0]);
        assert(t[b] == s[b0]);
    }
    assert forall|k: <K as View>::V| #[trigger]
        entries_as_map(t).contains_key(k) == entries_as_map(s).remove(k0).contains_key(k) by {
        if seq_has_key(t, k) {
            let j = choose|j: int| 0 <= j < t.len() && t[j].0@ == k;
            let j0 = if j < i { j } else { j + 1 };
            assert(t[j] == s[j0]);
            assert(s[j0].0@ == k);
            lemma_key_at(s, k, j0);
            if k == k0 {
                lemma_key_at(s, k0, i);
            }
            assert(k != k0);
        }
        if seq_has_key(s, k) && k != k0 {
            let j0 = seq_key_at(s, k);
            assert(j0 != i);
            let j = if j0 < i { j0 } else { j0 - 1 };
            assert(t[j] == s[j0]);
            assert(seq_has_key(t, k));
        }
    }
    assert forall|k: <K as View>::V| entries_as_map(t).contains_key(k) implies entries_as_map(t)[k]
        == entries_as_map(s).remove(k0)[k] by {
        let j = seq_key_at(t, k);
        assert(0 <= j < t.len() && t[j].0@ == k);
        let j0 = if j < i { j } else { j + 1 };
        assert(t[j] == s[j0]);
        lemma_key_at(t, k, j);
        lemma_key_at(s, k, j0);
    }
    assert(entries_as_map(t) =~= entries_as_map(s).remove(k0));
}

/// Appending an entry with a fresh key binds exactly that key.
proof fn lemma_push_entry<K: TableKey, V: View>(
    s: Seq<(K, V)>,
    t: Seq<(K, V)>,
    k: <K as View>::V,
    v: <V as View>::V,
)
    requires
        distinct_keys(s),
        !seq_has_key(s, k),
        t.len() == s.len() + 1,
        forall|i: int| 0 <= i < s.len() ==> t[i] == s[i],
        t[s.len() as int].0@ == k,
        t[s.len() as int].1@ == v,
    ensures
        distinct_keys(t),
        entries_as_map(t) == entries_as_map(s).insert(k, v),
{
    let n = s.len() as int;
    assert forall|a: int, b: int| 0 <= a < b < t.len() implies t[a].0@ != t[b].0@ by {
        if b < n {
            assert(t[a] == s[a] && t[b] == s[b]);
        } else {
            assert(t[a] == s[a]);
            assert(t[b].0@ == k);
            assert(seq_has_key(s, t[a].0@));
        }
    }
    assert forall|k2: <K as View>::V| #[trigger]
        entries_as_map(t).contains_key(k2) == entries_as_map(s).insert(k, v).contains_key(k2) by {
        if seq_has_key(t, k2) {
            let j = choose|j: int| 0 <= j < t.len() && t[j].0@ == k2;
            if j < n {
                assert(t[j] == s[j]);
                assert(seq_has_key(s, k2));
            } else {
                assert(k2 == k);
            }
        }
        if k2 == k {
            assert(t[n].0@ == k2);
            assert(seq_has_key(t, k2));
        }
        if seq_has_key(s, k2) {
            let j = seq_key_at(s, k2);
            assert(t[j] == s[j]);
            assert(seq_has_key(t, k2));
        }
    }
    assert forall|k2: <K as View>::V| entries_as_map(t).contains_key(k2) implies entries_as_map(
        t,
    )[k2] == entries_as_map(s).insert(k, v)[k2] by {
        if k2 == k {
            lemma_key_at(t, k2, n);
        } else {
            let j = choose|j: int| 0 <= j < t.len() && t[j].0@ == k2;
            assert(j < n);
            assert(t[j] == s[j]);
            lemma_key_at(t, k2, j);
            lemma_key_at(s, k2, j);
        }
    }
    assert(entries_as_map(t) =~= entries_as_map(s).insert(k, v));
}

/// A set of keys, backed by a table with unit-like values.
pub struct ListSet<K> {
    m: ListMap<K, u8>,
}

impl<K: TableKey> View for ListSet<K> {
    type V = Set<<K as View>::V>;

    closed spec fn view(&self) -> Self::V {
        self.m@.dom()
    }
}

impl<K: TableKey> ListSet<K> {
    /// The backing table is well formed.
    pub closed spec fn wf(&self) -> bool {
        self.m.wf()
    }

    /// Creates an empty set.
    pub fn new() -> (r: Self)
        ensures
            r.wf(),
            r@ == Set::<<K as View>::V>::empty(),
    {
        let r = ListSet { m: ListMap::new() };
        proof {
            assert(r@ =~= Set::<<K as View>::V>::empty());
        }
        r
    }

    /// True when `k` is in the set.
    pub fn contains(&self, k: &K) -> (b: bool)
        requires
            self.wf(),
        ensures
            b == self@.contains(k@),
    {
        self.m.contains_key(k)
    }

    /// Adds `k` to the set.
    pub fn insert(&mut self, k: K)
        requires
            old(self).wf(),
        ensures
            final(self).wf(),
            final(self)@ == old(self)@.insert(k@),
    {
        let ghost kv = k@;
        self.m.insert(k, 0u8);
        proof {
            assert(self@ =~= old(self)@.insert(kv));
        }
    }

    /// Removes `k` from the set.
    pub fn remove(&mut self, k: &K)
        requires
            old(self).wf(),
        ensures
            final(self).wf(),
            final(self)@ == old(self)@.remove(k@),
    {
        self.m.remove(k);
        proof {
            assert(self@ =~= old(self)@.remove(k@));
        }
    }

    /// Duplicates the set.
    pub fn dup(&self) -> (r: Self)
        requires
            self.wf(),
        ensures
            r.wf(),
            r@ == self@,
    {
        ListSet { m: self.m.dup() }
    }

    /// Duplicates of all elements, in set order.
    pub fn elements(&self) -> (r: Vec<K>)
        requires
            self.wf(),
        ensures
            forall|i: int| 0 <= i < r@.len() ==> self@.contains(#[trigger] r@[i]@),
            forall|i: int, j: int| 0 <= i < j < r@.len() ==> r@[i]@ != r@[j]@,
            forall|k: <K as View>::V| self@.contains(k) ==> exists|i: int|
                0 <= i < r@.len() && #[trigger] r@[i]@ == k,
    {
        self.m.keys()
    }
}

} // verus!
