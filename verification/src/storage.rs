//! An in-memory key-value database with snapshots and atomic patches.
//!
//! The database maps resolved addresses — logical tables — to byte
//! keys and byte values; the model flattens the tables into one map
//! keyed by address and key. A snapshot is an owned copy, so later
//! merges cannot reach it; a patch is applied atomically, address by
//! address, change by change.

use vstd::prelude::*;

use crate::tables::{ListMap, TableKey};
use crate::types::{bytes_dup, bytes_eq, str_eq};

verus! {

/// A resolved address: the name of a logical table, with an optional
/// numeric identifier for grouped tables.
#[derive(Debug)]
pub struct ResolvedAddr {
    pub name: String,
    pub id: Option<u64>,
}

/// Abstract value of a [`ResolvedAddr`].
pub ghost struct ResolvedAddrView {
    pub name: Seq<char>,
    pub id: Option<u64>,
}

impl View for ResolvedAddr {
    type V = ResolvedAddrView;

    open spec fn view(&self) -> ResolvedAddrView {
        ResolvedAddrView {
            name: self.name@,
            id: match self.id {
                Some(i) => Some(i),
                None => None,
            },
        }
    }
}

impl TableKey for ResolvedAddr {
    fn key_eq(&self, other: &Self) -> (b: bool)
        ensures
            b == (self@ == other@),
    {
        let ids_match = match (&self.id, &other.id) {
            (Some(a), Some(b)) => *a == *b,
            (None, None) => true,
            _ => false,
        };
        ids_match && str_eq(self.name.as_str(), other.name.as_str())
    }

    fn dup(&self) -> (r: Self)
        ensures
            r@ == self@,
    {
        ResolvedAddr {
            name: self.name.clone(),
            id: match &self.id {
                Some(i) => Some(*i),
                None => None,
            },
        }
    }
}

/// One stored cell, addressed by its table and its key.
#[derive(Debug)]
pub struct CellKey {
    pub addr: ResolvedAddr,
    pub key: Vec<u8>,
}

/// Abstract value of a [`CellKey`].
pub ghost struct CellKeyView {
    pub addr: ResolvedAddrView,
    pub key: Seq<u8>,
}

impl View for CellKey {
    type V = CellKeyView;

    open spec fn view(&self) -> CellKeyView {
        CellKeyView { addr: self.addr@, key: self.key@ }
    }
}

impl TableKey for CellKey {
    fn key_eq(&self, other: &Self) -> (b: bool)
        ensures
            b == (self@ == other@),
    {
        self.addr.key_eq(&other.addr) && bytes_eq(&self.key, &other.key)
    }

    fn dup(&self) -> (r: Self)
        ensures
            r@ == self@,
    {
        CellKey { addr: self.addr.dup(), key: bytes_dup(&self.key) }
    }
}

/// An atomic change to one cell.
#[derive(Debug)]
pub enum Change {
    /// Put the given value into the cell.
    Put(Vec<u8>),
    /// Delete the cell.
    Delete,
}

/// Abstract value of a [`Change`].
pub ghost enum ChangeView {
    Put { value: Seq<u8> },
    Delete,
}

impl View for Change {
    type V = ChangeView;

    open spec fn view(&self) -> ChangeView {
        match self {
            Change::Put(value) => ChangeView::Put { value: value@ },
            Change::Delete => ChangeView::Delete,
        }
    }
}

/// The changes a patch holds for one address: optionally clear the
/// whole table first, then apply the keyed changes in order.
#[derive(Debug)]
pub struct AddressChanges {
    pub cleared: bool,
    pub data: Vec<(Vec<u8>, Change)>,
}

/// A patch: per-address changes, applied in order.
#[derive(Debug)]
pub struct Patch {
    pub changes: Vec<(ResolvedAddr, AddressChanges)>,
}

/// The database's abstract value: a map from cells to byte values.
pub type DbView = Map<CellKeyView, Seq<u8>>;

/// Byte-lexicographic strict order: `a` comes before `b`.
pub open spec fn lex_lt(a: Seq<u8>, b: Seq<u8>) -> bool
    decreases a.len(),
{
    if b.len() == 0 {
        false
    } else if a.len() == 0 {
        true
    } else if a[0] < b[0] {
        true
    } else if a[0] > b[0] {
        false
    } else {
        lex_lt(a.subrange(1, a.len() as int), b.subrange(1, b.len() as int))
    }
}

/// Byte-lexicographic order, allowing equality.
pub open spec fn lex_le(a: Seq<u8>, b: Seq<u8>) -> bool {
    lex_lt(a, b) || a == b
}

/// Of two byte strings, exactly one of `a < b`, `b < a`, `a == b`
/// holds.
pub proof fn lemma_lex_trichotomy(a: Seq<u8>, b: Seq<u8>)
    ensures
        lex_lt(a, b) ==> !lex_lt(b, a) && a != b,
        lex_lt(b, a) ==> !lex_lt(a, b) && a != b,
        !lex_lt(a, b) && !lex_lt(b, a) ==> a == b,
    decreases a.len(),
{
    if a.len() == 0 && b.len() == 0 {
        assert(a =~= b);
    } else if a.len() > 0 && b.len() > 0 && a[0] == b[0] {
        let a1 = a.subrange(1, a.len() as int);
        let b1 = b.subrange(1, b.len() as int);
        lemma_lex_trichotomy(a1, b1);
        if a1 == b1 {
            assert forall|j: int| 0 <= j < a.len() implies a[j] == b[j] by {
                if j > 0 {
                    assert(a1[j - 1] == b1[j - 1]);
                }
            }
            assert(a =~= b);
        }
        if a == b {
            assert(a1 =~= b1);
        }
    }
}

/// Compares two byte strings in byte-lexicographic order.
pub fn bytes_lt(a: &Vec<u8>, b: &Vec<u8>) -> (r: bool)
    ensures
        r == lex_lt(a@, b@),
{
    let na = a.len();
    let nb = b.len();
    proof {
        assert(a@.subrange(0, na as int) =~= a@);
        assert(b@.subrange(0, nb as int) =~= b@);
    }
    let mut i: usize = 0;
    loop
        invariant
            na == a@.len(),
            nb == b@.len(),
            i <= na,
            i <= nb,
            lex_lt(a@.subrange(i as int, na as int), b@.subrange(i as int, nb as int)) == lex_lt(
                a@,
                b@,
            ),
        decreases na - i,
    {
        proof {
            let ta = a@.subrange(i as int, na as int);
            let tb = b@.subrange(i as int, nb as int);
            if i < na && i < nb {
                assert(ta.subrange(1, ta.len() as int) =~= a@.subrange(i + 1, na as int));
                assert(tb.subrange(1, tb.len() as int) =~= b@.subrange(i + 1, nb as int));
            }
        }
        if i >= nb {
            return false;
        }
        if i >= na {
            return true;
        }
        if a[i] < b[i] {
            return true;
        }
        if a[i] > b[i] {
            return false;
        }
        i += 1;
    }
}

/// Byte-lexicographic order is transitive.
pub proof fn lemma_lex_lt_trans(a: Seq<u8>, b: Seq<u8>, c: Seq<u8>)
    requires
        lex_lt(a, b),
        lex_lt(b, c),
    ensures
        lex_lt(a, c),
    decreases a.len(),
{
    if a.len() > 0 {
        if a[0] == b[0] && b[0] == c[0] {
            lemma_lex_lt_trans(
                a.subrange(1, a.len() as int),
                b.subrange(1, b.len() as int),
                c.subrange(1, c.len() as int),
            );
        }
    }
}

/// Key-value pairs in strictly ascending key order.
pub open spec fn pairs_sorted(s: Seq<(Vec<u8>, Vec<u8>)>) -> bool {
    forall|i: int, j: int| 0 <= i < j < s.len() ==> lex_lt(#[trigger] s[i].0@, #[trigger] s[j].0@)
}

/// Inserts a pair with a fresh key at its ordered position.
fn insert_sorted(r: &mut Vec<(Vec<u8>, Vec<u8>)>, key: Vec<u8>, value: Vec<u8>)
    requires
        pairs_sorted(old(r)@),
        forall|i: int| 0 <= i < old(r)@.len() ==> old(r)@[i].0@ != key@,
    ensures
        pairs_sorted(final(r)@),
        exists|p: int|
            0 <= p <= old(r)@.len() && final(r)@ == #[trigger] old(r)@.insert(p, (key, value)),
{
    let ghost kv = key@;
    let n = r.len();
    let mut p: usize = 0;
    while p < n
        invariant
            n == r@.len(),
            pairs_sorted(r@),
            kv == key@,
            forall|i: int| 0 <= i < n ==> r@[i].0@ != kv,
            p <= n,
            forall|j: int| 0 <= j < p ==> lex_lt(#[trigger] r@[j].0@, kv),
        ensures
            p <= n,
            forall|j: int| 0 <= j < p ==> lex_lt(#[trigger] r@[j].0@, kv),
            p < n ==> lex_lt(kv, r@[p as int].0@),
        decreases n - p,
    {
        if bytes_lt(&key, &r[p].0) {
            break ;
        }
        proof {
            lemma_lex_trichotomy(r@[p as int].0@, kv);
        }
        p += 1;
    }
    let ghost s0 = r@;
    let ghost pp = p as int;
    r.insert(p, (key, value));
    proof {
        assert forall|i: int, j: int|
            0 <= i < j < r@.len() implies lex_lt(#[trigger] r@[i].0@, #[trigger] r@[j].0@) by {
            if j < pp {
                assert(r@[i] == s0[i] && r@[j] == s0[j]);
            } else if j == pp {
                assert(r@[i] == s0[i]);
                assert(lex_lt(s0[i].0@, kv));
            } else if i < pp {
                assert(r@[i] == s0[i] && r@[j] == s0[j - 1]);
            } else if i == pp {
                assert(r@[j] == s0[j - 1]);
                assert(pp < s0.len());
                assert(lex_lt(kv, s0[pp].0@));
                if j - 1 > pp {
                    assert(lex_lt(s0[pp].0@, s0[j - 1].0@));
                    lemma_lex_lt_trans(kv, s0[pp].0@, s0[j - 1].0@);
                }
            } else {
                assert(r@[i] == s0[i - 1] && r@[j] == s0[j - 1]);
            }
        }
        assert(r@ == s0.insert(pp, (key, value)));
    }
}

/// The cells of `kv` up to `i` include `c`, and `c` sits at the
/// address being cleared.
pub open spec fn prefix_cleared(
    kv: Seq<CellKeyView>,
    i: int,
    c: CellKeyView,
    addr: ResolvedAddrView,
) -> bool {
    exists|j: int| #![auto] 0 <= j < i && kv[j] == c && c.addr == addr
}

/// Unfolds the prefix predicate by one position.
proof fn lemma_prefix_cleared_unfold(kv: Seq<CellKeyView>, i: int, addr: ResolvedAddrView)
    requires
        0 <= i,
    ensures
        forall|c: CellKeyView| #[trigger]
            prefix_cleared(kv, i + 1, c, addr) == (prefix_cleared(kv, i, c, addr) || (kv[i] == c
                && c.addr == addr)),
{
    assert forall|c: CellKeyView| #[trigger]
        prefix_cleared(kv, i + 1, c, addr) == (prefix_cleared(kv, i, c, addr) || (kv[i] == c
            && c.addr == addr)) by {
        if prefix_cleared(kv, i + 1, c, addr) {
            let j = choose|j: int| #![auto] 0 <= j < i + 1 && kv[j] == c && c.addr == addr;
            if j < i {
                assert(prefix_cleared(kv, i, c, addr));
            }
        }
        if prefix_cleared(kv, i, c, addr) {
            let j = choose|j: int| #![auto] 0 <= j < i && kv[j] == c && c.addr == addr;
            assert(prefix_cleared(kv, i + 1, c, addr));
        }
        if kv[i] == c && c.addr == addr {
            assert(prefix_cleared(kv, i + 1, c, addr));
        }
    }
}

/// The database after the clearing sweep has processed the first `i`
/// keys.
pub open spec fn spec_cells_after(
    db: DbView,
    addr: ResolvedAddrView,
    kv: Seq<CellKeyView>,
    i: int,
) -> DbView {
    Map::new(
        |c: CellKeyView| db.contains_key(c) && !prefix_cleared(kv, i, c, addr),
        |c: CellKeyView| db[c],
    )
}

/// The database restricted to the cells outside the given address.
pub open spec fn spec_clear_addr(db: DbView, addr: ResolvedAddrView) -> DbView {
    Map::new(|c: CellKeyView| db.contains_key(c) && c.addr != addr, |c: CellKeyView| db[c])
}

/// Effect of one keyed change on the database.
pub open spec fn spec_apply_cell(
    db: DbView,
    addr: ResolvedAddrView,
    key: Seq<u8>,
    change: ChangeView,
) -> DbView {
    match change {
        ChangeView::Put { value } => db.insert(CellKeyView { addr, key }, value),
        ChangeView::Delete => db.remove(CellKeyView { addr, key }),
    }
}

/// Effect of the keyed changes of one address, from position `k` on.
pub open spec fn spec_apply_data_from(
    db: DbView,
    addr: ResolvedAddrView,
    data: Seq<(Seq<u8>, ChangeView)>,
    k: int,
) -> DbView
    decreases data.len() - k,
{
    if k < 0 || k >= data.len() {
        db
    } else {
        spec_apply_data_from(spec_apply_cell(db, addr, data[k].0, data[k].1), addr, data, k + 1)
    }
}

/// The abstract value of one address's changes.
pub open spec fn address_changes_view(ch: &AddressChanges) -> (bool, Seq<(Seq<u8>, ChangeView)>) {
    (ch.cleared, ch.data@.map_values(|p: (Vec<u8>, Change)| (p.0@, p.1@)))
}

/// Effect of one address's changes on the database.
pub open spec fn spec_apply_address(
    db: DbView,
    addr: ResolvedAddrView,
    cleared: bool,
    data: Seq<(Seq<u8>, ChangeView)>,
) -> DbView {
    let base = if cleared {
        spec_clear_addr(db, addr)
    } else {
        db
    };
    spec_apply_data_from(base, addr, data, 0)
}

/// Effect of a whole patch, from position `k` on.
pub open spec fn spec_merge_from(db: DbView, patch: &Patch, k: int) -> DbView
    decreases patch.changes@.len() - k,
{
    if k < 0 || k >= patch.changes@.len() {
        db
    } else {
        let (addr, ch) = patch.changes@[k];
        let (cleared, data) = address_changes_view(&ch);
        spec_merge_from(spec_apply_address(db, addr@, cleared, data), patch, k + 1)
    }
}

/// Effect of a whole patch.
pub open spec fn spec_merge(db: DbView, patch: &Patch) -> DbView {
    spec_merge_from(db, patch, 0)
}

/// The in-memory database.
pub struct TemporaryDB {
    cells: ListMap<CellKey, Vec<u8>>,
}

impl View for TemporaryDB {
    type V = DbView;

    closed spec fn view(&self) -> DbView {
        self.cells@
    }
}

/// A consistent snapshot of the database: an owned copy that later
/// merges cannot reach.
pub struct TemporarySnapshot {
    cells: ListMap<CellKey, Vec<u8>>,
}

impl View for TemporarySnapshot {
    type V = DbView;

    closed spec fn view(&self) -> DbView {
        self.cells@
    }
}

impl TemporaryDB {
    /// The backing table is well formed.
    pub closed spec fn wf(&self) -> bool {
        self.cells.wf()
    }

    /// Creates a new, empty database.
    pub fn new() -> (r: Self)
        ensures
            r.wf(),
            r@ == Map::<CellKeyView, Seq<u8>>::empty(),
    {
        TemporaryDB { cells: ListMap::new() }
    }

    /// Clears the contents of the database.
    pub fn clear(&mut self)
        requires
            old(self).wf(),
        ensures
            final(self).wf(),
            final(self)@ == Map::<CellKeyView, Seq<u8>>::empty(),
    {
        self.cells = ListMap::new();
    }

    /// Takes a consistent snapshot of the database.
    pub fn snapshot(&self) -> (r: TemporarySnapshot)
        requires
            self.wf(),
        ensures
            r.wf(),
            r@ == self@,
    {
        TemporarySnapshot { cells: self.cells.dup_deep() }
    }

    /// Merges a patch into the database atomically: the addresses in
    /// order; for each address, an optional clear of its table, then
    /// its keyed changes in order.
    pub fn merge(&mut self, patch: &Patch)
        requires
            old(self).wf(),
        ensures
            final(self).wf(),
            final(self)@ == spec_merge(old(self)@, patch),
    {
        let n = patch.changes.len();
        let mut k: usize = 0;
        while k < n
            invariant
                self.wf(),
                n == patch.changes@.len(),
                k <= n,
                spec_merge_from(self@, patch, k as int) == spec_merge(old(self)@, patch),
            decreases n - k,
        {
            let (addr, ch) = &patch.changes[k];
            let ghost pre = self@;
            if ch.cleared {
                self.clear_address(addr);
            }
            let m = ch.data.len();
            let ghost dv = ch.data@.map_values(|p: (Vec<u8>, Change)| (p.0@, p.1@));
            let ghost base = self@;
            let mut j: usize = 0;
            while j < m
                invariant
                    self.wf(),
                    m == ch.data@.len(),
                    dv == ch.data@.map_values(|p: (Vec<u8>, Change)| (p.0@, p.1@)),
                    dv.len() == m,
                    forall|t: int| 0 <= t < m ==> dv[t] == (ch.data@[t].0@, ch.data@[t].1@),
                    j <= m,
                    spec_apply_data_from(self@, addr@, dv, j as int) == spec_apply_data_from(
                        base,
                        addr@,
                        dv,
                        0,
                    ),
                decreases m - j,
            {
                proof {
                    assert(dv[j as int] == (ch.data@[j as int].0@, ch.data@[j as int].1@));
                }
                let (key, change) = &ch.data[j];
                match change {
                    Change::Put(value) => {
                        self.cells.insert(
                            CellKey { addr: addr.dup(), key: bytes_dup(key) },
                            bytes_dup(value),
                        );
                    },
                    Change::Delete => {
                        let cell = CellKey { addr: addr.dup(), key: bytes_dup(key) };
                        self.cells.remove(&cell);
                    },
                }
                j += 1;
            }
            proof {
                assert(self@ == spec_apply_address(
                    pre,
                    addr@,
                    ch.cleared,
                    dv,
                ));
            }
            k += 1;
        }
    }

    /// Merges a patch, synchronously; the in-memory database persists
    /// nothing, so this is `merge` itself.
    pub fn merge_sync(&mut self, patch: &Patch)
        requires
            old(self).wf(),
        ensures
            final(self).wf(),
            final(self)@ == spec_merge(old(self)@, patch),
    {
        self.merge(patch)
    }

    /// Removes every cell of the given address.
    fn clear_address(&mut self, addr: &ResolvedAddr)
        requires
            old(self).wf(),
        ensures
            final(self).wf(),
            final(self)@ == spec_clear_addr(old(self)@, addr@),
    {
        let ghost c0 = self@;
        let keys = self.cells.keys();
        let ghost kv = keys@.map_values(|c: CellKey| c@);
        let n = keys.len();
        proof {
            assert forall|c: CellKeyView| c0.contains_key(c) implies exists|j: int|
                0 <= j < n && #[trigger] kv[j] == c by {
                let j = choose|j: int| 0 <= j < keys@.len() && #[trigger] keys@[j]@ == c;
                assert(kv[j] == c);
            }
            assert(self@ =~= spec_cells_after(c0, addr@, kv, 0));
        }
        let mut i: usize = 0;
        while i < n
            invariant
                self.wf(),
                n == keys@.len(),
                kv == keys@.map_values(|c: CellKey| c@),
                kv.len() == n,
                forall|j: int| 0 <= j < n ==> kv[j] == keys@[j]@,
                forall|c: CellKeyView| c0.contains_key(c) ==> exists|j: int|
                    0 <= j < n && #[trigger] kv[j] == c,
                i <= n,
                self@ == spec_cells_after(c0, addr@, kv, i as int),
            decreases n - i,
        {
            let ghost pre = self@;
            let ghost ip = i as int + 1;
            let ghost ci = kv[i as int];
            proof {
                assert(kv[i as int] == keys@[i as int]@);
            }
            if keys[i].addr.key_eq(addr) {
                self.cells.remove(&keys[i]);
            }
            proof {
                lemma_prefix_cleared_unfold(kv, i as int, addr@);
                assert forall|c: CellKeyView|
                    #![auto]
                    self@.contains_key(c) == spec_cells_after(c0, addr@, kv, ip).contains_key(c)
                        && (self@.contains_key(c) ==> self@[c] == spec_cells_after(
                        c0,
                        addr@,
                        kv,
                        ip,
                    )[c]) by {
                    if c == ci {
                        if c.addr == addr@ {
                            assert(!self@.contains_key(c));
                            assert(prefix_cleared(kv, ip, c, addr@));
                        } else {
                            assert(self@.contains_key(c) == pre.contains_key(c));
                            assert(prefix_cleared(kv, ip, c, addr@) == prefix_cleared(
                                kv,
                                i as int,
                                c,
                                addr@,
                            ));
                        }
                    } else {
                        assert(self@.contains_key(c) == pre.contains_key(c));
                        assert(prefix_cleared(kv, ip, c, addr@) == prefix_cleared(
                            kv,
                            i as int,
                            c,
                            addr@,
                        ));
                    }
                    if self@.contains_key(c) {
                        assert(self@[c] == pre[c]);
                    }
                }
                assert(self@ =~= spec_cells_after(c0, addr@, kv, ip));
            }
            i += 1;
        }
        proof {
            assert forall|c: CellKeyView| #[trigger]
                prefix_cleared(kv, n as int, c, addr@) == (c0.contains_key(c) && c.addr == addr@)
                || !c0.contains_key(c) by {
                if prefix_cleared(kv, n as int, c, addr@) {
                    let j = choose|j: int| #![auto] 0 <= j < n && kv[j] == c && c.addr == addr@;
                    assert(c0.contains_key(kv[j]));
                }
                if c0.contains_key(c) && c.addr == addr@ {
                    let j = choose|j: int| 0 <= j < n && #[trigger] kv[j] == c;
                    assert(prefix_cleared(kv, n as int, c, addr@));
                }
            }
            assert(self@ =~= spec_clear_addr(c0, addr@));
        }
    }
}

impl TemporarySnapshot {
    /// The backing table is well formed.
    pub closed spec fn wf(&self) -> bool {
        self.cells.wf()
    }

    /// Reads the cells of one address whose keys are at or after
    /// `from`, in ascending byte-lexicographic key order.
    #[verifier::rlimit(100)]
    #[verifier::spinoff_prover]
    pub fn iter(&self, addr: &ResolvedAddr, from: &Vec<u8>) -> (r: Vec<(Vec<u8>, Vec<u8>)>)
        requires
            self.wf(),
        ensures
            pairs_sorted(r@),
            forall|i: int|
                #![auto]
                0 <= i < r@.len() ==> self@.contains_key(
                    CellKeyView { addr: addr@, key: r@[i].0@ },
                ) && r@[i].1@ == self@[CellKeyView { addr: addr@, key: r@[i].0@ }] && lex_le(
                    from@,
                    r@[i].0@,
                ),
            forall|c: CellKeyView|
                #![auto]
                self@.contains_key(c) && c.addr == addr@ && lex_le(from@, c.key) ==> exists|i: int|
                    0 <= i < r@.len() && r@[i].0@ == c.key,
    {
        let ghost db = self@;
        let keys = self.cells.keys();
        let ghost kv = keys@.map_values(|c: CellKey| c@);
        let n = keys.len();
        proof {
            assert forall|c: CellKeyView| db.contains_key(c) implies exists|j: int|
                0 <= j < n && #[trigger] kv[j] == c by {
                let j = choose|j: int| 0 <= j < keys@.len() && #[trigger] keys@[j]@ == c;
                assert(kv[j] == c);
            }
        }
        let mut r: Vec<(Vec<u8>, Vec<u8>)> = Vec::new();
        let mut t: usize = 0;
        while t < n
            invariant
                self.wf(),
                db == self@,
                n == keys@.len(),
                kv == keys@.map_values(|c: CellKey| c@),
                kv.len() == n,
                forall|j: int| 0 <= j < n ==> kv[j] == keys@[j]@,
                forall|j: int| 0 <= j < n ==> db.contains_key(#[trigger] kv[j]),
                forall|a: int, b: int| 0 <= a < b < n ==> kv[a] != kv[b],
                t <= n,
                pairs_sorted(r@),
                forall|i: int|
                    #![auto]
                    0 <= i < r@.len() ==> db.contains_key(
                        CellKeyView { addr: addr@, key: r@[i].0@ },
                    ) && r@[i].1@ == db[CellKeyView { addr: addr@, key: r@[i].0@ }] && lex_le(
                        from@,
                        r@[i].0@,
                    ),
                forall|i: int|
                    #![trigger r@[i]]
                    0 <= i < r@.len() ==> exists|j: int|
                        0 <= j < t && #[trigger] kv[j] == (CellKeyView {
                            addr: addr@,
                            key: r@[i].0@,
                        }),
                forall|j: int|
                    #![auto]
                    0 <= j < t && kv[j].addr == addr@ && lex_le(from@, kv[j].key) ==> exists|i: int|
                        0 <= i < r@.len() && r@[i].0@ == kv[j].key,
            decreases n - t,
        {
            proof {
                assert(kv[t as int] == keys@[t as int]@);
                assert(db.contains_key(kv[t as int]));
            }
            let ghost r0 = r@;
            let in_range = keys[t].addr.key_eq(addr) && !bytes_lt(&keys[t].key, from);
            if in_range {
                proof {
                    lemma_lex_trichotomy(keys@[t as int]@.key, from@);
                    assert forall|i: int|
                        0 <= i < r@.len() implies r@[i].0@ != keys@[t as int]@.key by {
                        if r@[i].0@ == keys@[t as int]@.key {
                            let j = choose|j: int|
                                0 <= j < t && #[trigger] kv[j] == (CellKeyView {
                                    addr: addr@,
                                    key: r@[i].0@,
                                });
                            assert(kv[j] == kv[t as int]);
                        }
                    }
                }
                let value = match self.cells.get(&keys[t]) {
                    Some(v) => bytes_dup(v),
                    None => vstd::pervasive::unreached(),
                };
                let key_arg = bytes_dup(&keys[t].key);
                let ghost ka = key_arg@;
                let ghost va = value@;
                insert_sorted(&mut r, key_arg, value);
                proof {
                    let p = choose|p: int|
                        0 <= p <= r0.len() && r@ == #[trigger] r0.insert(p, (key_arg, value));
                    assert(r@.len() == r0.len() + 1);
                    assert forall|i: int| #![trigger r@[i]] 0 <= i < r@.len() implies (if i < p {
                        r@[i] == r0[i]
                    } else if i == p {
                        r@[i].0@ == ka && r@[i].1@ == va
                    } else {
                        r@[i] == r0[i - 1]
                    }) by {}
                    assert(ka == kv[t as int].key);
                    assert((CellKeyView { addr: addr@, key: ka }) == kv[t as int]);
                    assert forall|i: int| #![trigger r@[i]] 0 <= i < r@.len() implies exists|j: int|
                        0 <= j < t + 1 && #[trigger] kv[j] == (CellKeyView {
                            addr: addr@,
                            key: r@[i].0@,
                        }) by {
                        if i == p {
                            assert(kv[t as int] == (CellKeyView { addr: addr@, key: r@[i].0@ }));
                        } else {
                            let i0 = if i < p {
                                i
                            } else {
                                i - 1
                            };
                            assert(r@[i] == r0[i0]);
                            let j = choose|j: int|
                                0 <= j < t && #[trigger] kv[j] == (CellKeyView {
                                    addr: addr@,
                                    key: r0[i0].0@,
                                });
                            assert(kv[j] == (CellKeyView { addr: addr@, key: r@[i].0@ }));
                        }
                    }
                    assert forall|j: int|
                        #![auto]
                        0 <= j < t + 1 && kv[j].addr == addr@ && lex_le(from@, kv[j].key) implies
                        exists|i: int| 0 <= i < r@.len() && r@[i].0@ == kv[j].key by {
                        if j == t {
                            assert(r@[p].0@ == kv[j].key);
                        } else {
                            let i0 = choose|i0: int|
                                0 <= i0 < r0.len() && #[trigger] r0[i0].0@ == kv[j].key;
                            let i = if i0 < p {
                                i0
                            } else {
                                i0 + 1
                            };
                            assert(r@[i] == r0[i0]);
                        }
                    }
                }
            } else {
                proof {
                    assert forall|j: int|
                        #![auto]
                        0 <= j < t + 1 && kv[j].addr == addr@ && lex_le(from@, kv[j].key) implies
                        exists|i: int| 0 <= i < r@.len() && r@[i].0@ == kv[j].key by {
                        if j == t {
                            lemma_lex_trichotomy(kv[t as int].key, from@);
                            assert(false);
                        }
                    }
                }
            }
            t += 1;
        }
        proof {
            assert forall|c: CellKeyView|
                #![auto]
                db.contains_key(c) && c.addr == addr@ && lex_le(from@, c.key) implies exists|i: int|
                0 <= i < r@.len() && r@[i].0@ == c.key by {
                let j = choose|j: int| 0 <= j < n && #[trigger] kv[j] == c;
            }
        }
        r
    }

    /// Reads one cell of the snapshot.
    pub fn get(&self, addr: &ResolvedAddr, key: &Vec<u8>) -> (r: Option<Vec<u8>>)
        requires
            self.wf(),
        ensures
            match r {
                Some(value) => self@.contains_key(CellKeyView { addr: addr@, key: key@ })
                    && value@ == self@[CellKeyView { addr: addr@, key: key@ }],
                None => !self@.contains_key(CellKeyView { addr: addr@, key: key@ }),
            },
    {
        let cell = CellKey { addr: addr.dup(), key: bytes_dup(key) };
        match self.cells.get(&cell) {
            Some(value) => Some(bytes_dup(value)),
            None => None,
        }
    }
}

} // verus!
