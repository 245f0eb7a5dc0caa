//! Quorum tracking: which validators confirmed which item.
//!
//! A tracker maps each item to the set of validator keys that confirmed
//! it. Approval intersects that set with the current validator list and
//! compares the count against the mode's threshold.

use vstd::prelude::*;

use crate::tables::{ListMap, TableKey};

verus! {

/// The set of validators recorded for `k`, empty when `k` is unknown.
pub open spec fn voters_of<KV>(m: Map<KV, Set<u64>>, k: KV) -> Set<u64> {
    if m.contains_key(k) {
        m[k]
    } else {
        Set::empty()
    }
}

/// Number of keys of `current` that `voters` contains; with a
/// duplicate-free `current` this is the size of the intersection.
pub open spec fn spec_tally(current: Seq<u64>, voters: Set<u64>) -> nat
    decreases current.len(),
{
    if current.len() == 0 {
        0
    } else {
        spec_tally(current.drop_last(), voters) + if voters.contains(current.last()) {
            1nat
        } else {
            0nat
        }
    }
}

/// The tally never exceeds the length of `current`.
pub proof fn lemma_tally_bound(current: Seq<u64>, voters: Set<u64>)
    ensures
        spec_tally(current, voters) <= current.len(),
    decreases current.len(),
{
    if current.len() > 0 {
        lemma_tally_bound(current.drop_last(), voters);
    }
}

/// Confirmations of items of type `K` by validators.
pub struct Confirmations<K> {
    m: ListMap<K, Vec<u64>>,
}

impl<K: TableKey> View for Confirmations<K> {
    type V = Map<<K as View>::V, Set<u64>>;

    closed spec fn view(&self) -> Self::V {
        Map::new(
            |k: <K as View>::V| self.m@.contains_key(k),
            |k: <K as View>::V| self.m@[k].to_set(),
        )
    }
}

/// Appending a voter extends the voter set by that voter.
proof fn lemma_push_voter(s: Seq<u64>, x: u64)
    ensures
        s.push(x).to_set() == s.to_set().insert(x),
{
    assert forall|a: u64| s.push(x).to_set().contains(a) == s.to_set().insert(x).contains(a) by {
        if s.push(x).contains(a) {
            let i = choose|i: int| 0 <= i < s.push(x).len() && s.push(x)[i] == a;
            if i < s.len() {
                assert(s[i] == a);
            }
        }
        if s.contains(a) {
            let i = choose|i: int| 0 <= i < s.len() && s[i] == a;
            assert(s.push(x)[i] == a);
        }
        if a == x {
            assert(s.push(x)[s.len() as int] == a);
        }
    }
    assert(s.push(x).to_set() =~= s.to_set().insert(x));
}

impl<K: TableKey> Confirmations<K> {
    /// The backing table is well formed.
    pub closed spec fn wf(&self) -> bool {
        self.m.wf()
    }

    /// Creates an empty tracker.
    pub fn new() -> (r: Self)
        ensures
            r.wf(),
            r@ == Map::<<K as View>::V, Set<u64>>::empty(),
    {
        let r = Confirmations { m: ListMap::new() };
        proof {
            assert(r@ =~= Map::<<K as View>::V, Set<u64>>::empty());
        }
        r
    }

    /// Records `author`'s confirmation of `k`; idempotent per pair.
    pub fn confirm(&mut self, k: &K, author: u64)
        requires
            old(self).wf(),
        ensures
            final(self).wf(),
            final(self)@ == old(self)@.insert(k@, voters_of(old(self)@, k@).insert(author)),
    {
        let ghost kv = k@;
        let ghost old_map = self@;
        let mut list: Vec<u64> = match self.m.take(k) {
            Some(list) => list,
            None => Vec::new(),
        };
        let ghost s0 = list@;
        let mut present = false;
        let n = list.len();
        let mut i: usize = 0;
        while i < n
            invariant
                n == list@.len(),
                i <= n,
                present == exists|j: int| 0 <= j < i && list@[j] == author,
            decreases n - i,
        {
            if list[i] == author {
                present = true;
            }
            i += 1;
        }
        proof {
            assert(present == s0.contains(author));
        }
        if !present {
            list.push(author);
            proof {
                lemma_push_voter(s0, author);
            }
        } else {
            proof {
                assert(s0.to_set() =~= s0.to_set().insert(author));
            }
        }
        self.m.insert(k.dup(), list);
        proof {
            assert(self@ =~~= old_map.insert(kv, voters_of(old_map, kv).insert(author)));
        }
    }

    /// True when `author` has confirmed `k`.
    pub fn confirmed_by(&self, k: &K, author: u64) -> (b: bool)
        requires
            self.wf(),
        ensures
            b == voters_of(self@, k@).contains(author),
    {
        match self.m.get(k) {
            Some(list) => {
                proof {
                    assert(voters_of(self@, k@) == list@.to_set());
                }
                let n = list.len();
                let mut i: usize = 0;
                while i < n
                    invariant
                        n == list@.len(),
                        i <= n,
                        voters_of(self@, k@) == list@.to_set(),
                        forall|j: int| 0 <= j < i ==> list@[j] != author,
                    decreases n - i,
                {
                    if list[i] == author {
                        proof {
                            assert(list@.contains(author));
                        }
                        return true;
                    }
                    i += 1;
                }
                proof {
                    assert(!list@.contains(author));
                }
                false
            },
            None => false,
        }
    }

    /// Counts the members of `current` that confirmed `k`.
    pub fn tally(&self, k: &K, current: &Vec<u64>) -> (n: usize)
        requires
            self.wf(),
        ensures
            n == spec_tally(current@, voters_of(self@, k@)),
    {
        let ghost vs = voters_of(self@, k@);
        let len = current.len();
        proof {
            assert(current@.subrange(0, 0) =~= Seq::<u64>::empty());
        }
        let mut count: usize = 0;
        let mut i: usize = 0;
        while i < len
            invariant
                self.wf(),
                vs == voters_of(self@, k@),
                len == current@.len(),
                i <= len,
                count == spec_tally(current@.subrange(0, i as int), vs),
                count <= i,
            decreases len - i,
        {
            proof {
                lemma_tally_bound(current@.subrange(0, i as int), vs);
                let pre = current@.subrange(0, i + 1);
                assert(pre.drop_last() =~= current@.subrange(0, i as int));
                assert(pre.last() == current@[i as int]);
            }
            if self.confirmed_by(k, current[i]) {
                count += 1;
            }
            i += 1;
        }
        proof {
            assert(current@.subrange(0, len as int) =~= current@);
        }
        count
    }

    /// True when at least `quorum` members of `current` confirmed `k`.
    pub fn has_quorum(&self, k: &K, current: &Vec<u64>, quorum: usize) -> (b: bool)
        requires
            self.wf(),
        ensures
            b == (spec_tally(current@, voters_of(self@, k@)) >= quorum),
    {
        self.tally(k, current) >= quorum
    }
}

} // verus!
