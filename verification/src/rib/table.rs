//! Per-peer route tables: one entry per (RIB type, prefix, Add-Path id), the
//! last received replacing the one before.

use vstd::prelude::*;
use std::sync::Arc;
use crate::bgp::types::{AsPathSegment, LlgrState, Prefix, PrefixModel, hop_count_of};
use crate::bgp::path_attrs::PathAttributes;
use crate::bmp::types::RibType;
use crate::net::{IpAddress, IpModel};
use crate::rib::session::Timestamp;

verus! {

/// A route held in a table.
#[derive(Debug)]
pub struct RibEntry {
    pub prefix: Prefix,
    /// Add-Path path id (RFC 7911), when Add-Path is in use.
    pub path_id: Option<u32>,
    /// The route's attributes, shared by the routes of one UPDATE.
    pub attributes: Arc<PathAttributes>,
    pub received_at: Timestamp,
    pub peer_addr: IpAddress,
    pub peer_as: u32,
    /// Whether this path is the best among the paths of its prefix.
    pub is_best: bool,
    pub llgr_state: LlgrState,
    pub stale_at: Option<Timestamp>,
}

/// Model of a table row: its RIB type and entry.
pub struct RowModel {
    pub rib: RibType,
    pub prefix: PrefixModel,
    pub path_id: Option<u32>,
    pub attrs: PathAttributes,
    pub received_at: Timestamp,
    pub peer_addr: IpModel,
    pub peer_as: u32,
    pub is_best: bool,
    pub llgr: LlgrState,
    pub stale_at: Option<Timestamp>,
}

pub open spec fn row_model(r: (RibType, RibEntry)) -> RowModel {
    RowModel {
        rib: r.0,
        prefix: r.1.prefix@,
        path_id: r.1.path_id,
        attrs: *r.1.attributes,
        received_at: r.1.received_at,
        peer_addr: r.1.peer_addr@,
        peer_as: r.1.peer_as,
        is_best: r.1.is_best,
        llgr: r.1.llgr_state,
        stale_at: r.1.stale_at,
    }
}

pub open spec fn rows_view(s: Seq<(RibType, RibEntry)>) -> Seq<RowModel> {
    s.map_values(|r: (RibType, RibEntry)| row_model(r))
}

/// The routes of one peer, in the order they were first installed.
#[derive(Debug)]
pub struct RibTable {
    rows: Vec<(RibType, RibEntry)>,
}

impl View for RibTable {
    type V = Seq<RowModel>;

    closed spec fn view(&self) -> Seq<RowModel> {
        rows_view(self.rows@)
    }
}

pub open spec fn has_key(r: RowModel, rib: RibType, p: PrefixModel, pid: Option<u32>) -> bool {
    r.rib == rib && r.prefix == p && r.path_id == pid
}

/// Index of the row with key (rib, p, pid), if any (the first, were there
/// several).
pub open spec fn key_index(s: Seq<RowModel>, rib: RibType, p: PrefixModel, pid: Option<u32>) -> Option<int> {
    if exists|i: int| 0 <= i < s.len() && has_key(#[trigger] s[i], rib, p, pid) {
        Some(
            choose|i: int|
                0 <= i < s.len() && has_key(s[i], rib, p, pid) && forall|j: int|
                    0 <= j < i ==> !has_key(#[trigger] s[j], rib, p, pid),
        )
    } else {
        None
    }
}

/// Insert or replace by key.
pub open spec fn rows_insert(s: Seq<RowModel>, r: RowModel) -> Seq<RowModel> {
    match key_index(s, r.rib, r.prefix, r.path_id) {
        Some(i) => s.update(i, r),
        None => s.push(r),
    }
}

/// Remove by key.
pub open spec fn rows_remove(s: Seq<RowModel>, rib: RibType, p: PrefixModel, pid: Option<u32>) -> Seq<RowModel> {
    match key_index(s, rib, p, pid) {
        Some(i) => s.remove(i),
        None => s,
    }
}

// ─── Best path ───────────────────────────────────────────────────────────────

/// Preference key of a path, smaller being better: highest LOCAL_PREF,
/// then fewest AS_PATH hops, then lowest MED.
pub open spec fn pref_key(a: PathAttributes) -> (int, int, int) {
    (
        match a.local_pref {
            Some(v) => u32::MAX - v,
            None => u32::MAX as int,
        },
        match a.as_path {
            Some(p) => if hop_count_of(p@) > u64::MAX {
                u64::MAX as int
            } else {
                hop_count_of(p@) as int
            },
            None => 0,
        },
        match a.multi_exit_disc {
            Some(v) => v as int,
            None => u32::MAX as int,
        },
    )
}

pub open spec fn key_lt(a: (int, int, int), b: (int, int, int)) -> bool {
    a.0 < b.0 || (a.0 == b.0 && (a.1 < b.1 || (a.1 == b.1 && a.2 < b.2)))
}

pub open spec fn on_prefix(r: RowModel, rib: RibType, p: PrefixModel) -> bool {
    r.rib == rib && r.prefix == p
}

/// Number of rows of prefix `p` in RIB `rib`.
pub open spec fn prefix_rows(s: Seq<RowModel>, rib: RibType, p: PrefixModel) -> nat
    decreases s.len(),
{
    if s.len() == 0 {
        0
    } else {
        prefix_rows(s.drop_last(), rib, p) + if on_prefix(s.last(), rib, p) {
            1nat
        } else {
            0nat
        }
    }
}

/// Whether row `i` is the first of the best paths of its prefix.
pub open spec fn is_first_best(s: Seq<RowModel>, rib: RibType, p: PrefixModel, i: int) -> bool {
    &&& 0 <= i < s.len()
    &&& on_prefix(s[i], rib, p)
    &&& forall|j: int|
        0 <= j < s.len() && on_prefix(#[trigger] s[j], rib, p) ==> !key_lt(
            pref_key(s[j].attrs),
            pref_key(s[i].attrs),
        )
    &&& forall|j: int|
        0 <= j < i && on_prefix(#[trigger] s[j], rib, p) ==> key_lt(
            pref_key(s[i].attrs),
            pref_key(s[j].attrs),
        )
}

/// The rows after recomputing the best path of prefix `p`: with one path,
/// that path is best; with several, the first of the most preferred is best
/// and the others are not. Other rows are unchanged.
pub open spec fn rows_best(s: Seq<RowModel>, rib: RibType, p: PrefixModel) -> Seq<RowModel> {
    Seq::new(
        s.len(),
        |i: int|
            if on_prefix(s[i], rib, p) {
                RowModel {
                    is_best: prefix_rows(s, rib, p) <= 1 || is_first_best(s, rib, p, i),
                    ..s[i]
                }
            } else {
                s[i]
            },
    )
}

/// LOCAL_PREF of a path as best-path selection reads it (absent counts as 0).
pub open spec fn local_pref_of(a: PathAttributes) -> int {
    match a.local_pref {
        Some(v) => v as int,
        None => 0,
    }
}

/// AS_PATH hop count of a path (counted up to the largest `u64`; no path
/// counts as 0).
pub open spec fn hops_of(a: PathAttributes) -> int {
    match a.as_path {
        Some(p) => if hop_count_of(p@) > u64::MAX {
            u64::MAX as int
        } else {
            hop_count_of(p@) as int
        },
        None => 0,
    }
}

/// MED of a path (absent counts as the largest `u32`, the least preferred).
pub open spec fn med_of(a: PathAttributes) -> int {
    match a.multi_exit_disc {
        Some(v) => v as int,
        None => u32::MAX as int,
    }
}

/// After the best path of a prefix is recomputed, a path marked best is at
/// least as good as every path of that prefix left unmarked: its LOCAL_PREF
/// is no lower; with equal LOCAL_PREF it has no more AS_PATH hops; with both
/// equal its MED is no higher. Attributes are not changed.
pub proof fn lemma_best_path_is_preferred(
    s: Seq<RowModel>,
    rib: RibType,
    p: PrefixModel,
    i: int,
    j: int,
)
    requires
        0 <= i < s.len(),
        0 <= j < s.len(),
        on_prefix(s[i], rib, p),
        on_prefix(s[j], rib, p),
        rows_best(s, rib, p)[i].is_best,
        !rows_best(s, rib, p)[j].is_best,
    ensures
        rows_best(s, rib, p)[i].attrs == s[i].attrs,
        rows_best(s, rib, p)[j].attrs == s[j].attrs,
        local_pref_of(s[i].attrs) >= local_pref_of(s[j].attrs),
        local_pref_of(s[i].attrs) == local_pref_of(s[j].attrs) ==> hops_of(s[i].attrs) <= hops_of(
            s[j].attrs,
        ),
        local_pref_of(s[i].attrs) == local_pref_of(s[j].attrs) && hops_of(s[i].attrs) == hops_of(
            s[j].attrs,
        ) ==> med_of(s[i].attrs) <= med_of(s[j].attrs),
{
    let t = rows_best(s, rib, p);
    assert(t[j].is_best == (prefix_rows(s, rib, p) <= 1 || is_first_best(s, rib, p, j)));
    assert(prefix_rows(s, rib, p) > 1);
    assert(is_first_best(s, rib, p, i));
    assert(!key_lt(pref_key(s[j].attrs), pref_key(s[i].attrs)));
}

proof fn lemma_first_best_exists(s: Seq<RowModel>, rib: RibType, p: PrefixModel, n: int) -> (i: int)
    requires
        0 < n <= s.len(),
        exists|k: int| 0 <= k < n && on_prefix(#[trigger] s[k], rib, p),
    ensures
        0 <= i < n,
        on_prefix(s[i], rib, p),
        forall|j: int|
            0 <= j < n && on_prefix(#[trigger] s[j], rib, p) ==> !key_lt(
                pref_key(s[j].attrs),
                pref_key(s[i].attrs),
            ),
        forall|j: int|
            0 <= j < i && on_prefix(#[trigger] s[j], rib, p) ==> key_lt(
                pref_key(s[i].attrs),
                pref_key(s[j].attrs),
            ),
    decreases n,
{
    if exists|k: int| 0 <= k < n - 1 && on_prefix(#[trigger] s[k], rib, p) {
        let b = lemma_first_best_exists(s, rib, p, n - 1);
        if on_prefix(s[n - 1], rib, p) && key_lt(pref_key(s[n - 1].attrs), pref_key(s[b].attrs)) {
            n - 1
        } else {
            b
        }
    } else {
        n - 1
    }
}

proof fn lemma_two_rows_counted(s: Seq<RowModel>, rib: RibType, p: PrefixModel, i: int, j: int)
    requires
        0 <= i < j < s.len(),
        on_prefix(s[i], rib, p),
        on_prefix(s[j], rib, p),
    ensures
        prefix_rows(s, rib, p) >= 2,
    decreases s.len(),
{
    if j < s.len() - 1 {
        lemma_two_rows_counted(s.drop_last(), rib, p, i, j);
        assert(s.drop_last()[i] == s[i] && s.drop_last()[j] == s[j]);
    } else {
        lemma_one_row_counted(s.drop_last(), rib, p, i);
        assert(s.drop_last()[i] == s[i]);
    }
}

proof fn lemma_one_row_counted(s: Seq<RowModel>, rib: RibType, p: PrefixModel, i: int)
    requires
        0 <= i < s.len(),
        on_prefix(s[i], rib, p),
    ensures
        prefix_rows(s, rib, p) >= 1,
    decreases s.len(),
{
    if i < s.len() - 1 {
        lemma_one_row_counted(s.drop_last(), rib, p, i);
        assert(s.drop_last()[i] == s[i]);
    }
}

/// After the best path of a prefix is recomputed, a prefix with paths has
/// exactly one path marked best; rows of other prefixes or RIBs keep their
/// marks.
pub proof fn lemma_one_best_path(s: Seq<RowModel>, rib: RibType, p: PrefixModel)
    ensures
        rows_best(s, rib, p).len() == s.len(),
        forall|k: int|
            0 <= k < s.len() && !on_prefix(s[k], rib, p) ==> #[trigger] rows_best(s, rib, p)[k]
                == s[k],
        (exists|k: int| 0 <= k < s.len() && on_prefix(#[trigger] s[k], rib, p)) ==> exists|i: int|
            0 <= i < s.len() && on_prefix(s[i], rib, p) && #[trigger] rows_best(s, rib, p)[i].is_best,
        forall|i: int, j: int|
            0 <= i < s.len() && 0 <= j < s.len() && on_prefix(s[i], rib, p) && on_prefix(s[j], rib, p)
                && #[trigger] rows_best(s, rib, p)[i].is_best && #[trigger] rows_best(
                s,
                rib,
                p,
            )[j].is_best ==> i == j,
{
    let t = rows_best(s, rib, p);
    if exists|k: int| 0 <= k < s.len() && on_prefix(#[trigger] s[k], rib, p) {
        let b = lemma_first_best_exists(s, rib, p, s.len() as int);
        assert(is_first_best(s, rib, p, b));
        assert(t[b].is_best);
    }
    assert forall|i: int, j: int|
        0 <= i < s.len() && 0 <= j < s.len() && on_prefix(s[i], rib, p) && on_prefix(s[j], rib, p)
            && #[trigger] t[i].is_best && #[trigger] t[j].is_best implies i == j by {
        if i < j {
            lemma_two_rows_counted(s, rib, p, i, j);
            assert(is_first_best(s, rib, p, i) && is_first_best(s, rib, p, j));
            assert(key_lt(pref_key(s[j].attrs), pref_key(s[i].attrs)));
        } else if j < i {
            lemma_two_rows_counted(s, rib, p, j, i);
            assert(is_first_best(s, rib, p, i) && is_first_best(s, rib, p, j));
            assert(key_lt(pref_key(s[i].attrs), pref_key(s[j].attrs)));
        }
    }
}

// ─── Executable helpers ──────────────────────────────────────────────────────

pub fn bytes_same(a: &[u8], b: &[u8]) -> (r: bool)
    ensures
        r == (a@ == b@),
{
    if a.len() != b.len() {
        return false;
    }
    let mut i: usize = 0;
    while i < a.len()
        invariant
            a.len() == b.len(),
            i <= a.len(),
            forall|k: int| 0 <= k < i ==> a@[k] == b@[k],
        decreases a.len() - i,
    {
        if a[i] != b[i] {
            return false;
        }
        i = i + 1;
    }
    assert(a@ =~= b@);
    true
}

/// Whether two addresses are equal.
pub fn same_ip(a: &IpAddress, b: &IpAddress) -> (r: bool)
    ensures
        r == (a@ == b@),
{
    match (a, b) {
        (IpAddress::V4(x), IpAddress::V4(y)) => bytes_same(x, y),
        (IpAddress::V6(x), IpAddress::V6(y)) => bytes_same(x, y),
        _ => false,
    }
}

fn labels_same(a: &Vec<u32>, b: &Vec<u32>) -> (r: bool)
    ensures
        r == (a@ == b@),
{
    if a.len() != b.len() {
        return false;
    }
    let mut i: usize = 0;
    while i < a.len()
        invariant
            a.len() == b.len(),
            i <= a.len(),
            forall|k: int| 0 <= k < i ==> a@[k] == b@[k],
        decreases a.len() - i,
    {
        if a[i] != b[i] {
            return false;
        }
        i = i + 1;
    }
    assert(a@ =~= b@);
    true
}

/// Whether two prefixes are equal.
pub fn same_prefix(a: &Prefix, b: &Prefix) -> (r: bool)
    ensures
        r == (a@ == b@),
    decreases a,
{
    match (a, b) {
        (Prefix::V4(x), Prefix::V4(y)) => x.prefix_len == y.prefix_len && bytes_same(
            &x.addr,
            &y.addr,
        ),
        (Prefix::V6(x), Prefix::V6(y)) => x.prefix_len == y.prefix_len && bytes_same(
            &x.addr,
            &y.addr,
        ),
        (Prefix::Labeled { prefix: p, labels: l }, Prefix::Labeled { prefix: q, labels: m }) => {
            labels_same(l, m) && same_prefix(p, q)
        },
        (
            Prefix::Vpn { rd: d1, prefix: p, labels: l },
            Prefix::Vpn { rd: d2, prefix: q, labels: m },
        ) => bytes_same(&d1.0, &d2.0) && labels_same(l, m) && same_prefix(p, q),
        _ => false,
    }
}

fn same_pid(a: Option<u32>, b: Option<u32>) -> (r: bool)
    ensures
        r == (a == b),
{
    match (a, b) {
        (Some(x), Some(y)) => x == y,
        (None, None) => true,
        _ => false,
    }
}

/// Preference key of a route's attributes, as executable values.
fn pref_key_exec(a: &PathAttributes) -> (r: (u32, u64, u32))
    ensures
        (r.0 as int, r.1 as int, r.2 as int) == pref_key(*a),
{
    let lp = match a.local_pref {
        Some(v) => u32::MAX - v,
        None => u32::MAX,
    };
    let hops: u64 = match &a.as_path {
        Some(p) => {
            let mut total: u64 = 0;
            let mut i: usize = 0;
            while i < p.0.len()
                invariant
                    i <= p@.len(),
                    p@ == p.0@.map_values(|s: AsPathSegment| s@),
                    total == if hop_count_of(p@.subrange(0, i as int)) > u64::MAX {
                        u64::MAX as int
                    } else {
                        hop_count_of(p@.subrange(0, i as int)) as int
                    },
                decreases p@.len() - i,
            {
                proof {
                    assert(p@.subrange(0, i + 1).drop_last() =~= p@.subrange(0, i as int));
                }
                match &p.0[i] {
                    AsPathSegment::Sequence(v) => {
                        let n = v.len() as u64;
                        total = if total > u64::MAX - n {
                            u64::MAX
                        } else {
                            total + n
                        };
                    },
                    _ => {},
                }
                i = i + 1;
            }
            assert(p@.subrange(0, p@.len() as int) =~= p@);
            total
        },
        None => 0,
    };
    let med = match a.multi_exit_disc {
        Some(v) => v,
        None => u32::MAX,
    };
    (lp, hops, med)
}

fn key_less(a: (u32, u64, u32), b: (u32, u64, u32)) -> (r: bool)
    ensures
        r == key_lt((a.0 as int, a.1 as int, a.2 as int), (b.0 as int, b.1 as int, b.2 as int)),
{
    a.0 < b.0 || (a.0 == b.0 && (a.1 < b.1 || (a.1 == b.1 && a.2 < b.2)))
}

proof fn lemma_prefix_rows_step(s: Seq<RowModel>, rib: RibType, p: PrefixModel, i: int)
    requires
        0 <= i < s.len(),
    ensures
        prefix_rows(s.subrange(0, i + 1), rib, p) == prefix_rows(s.subrange(0, i), rib, p) + if on_prefix(
            s[i],
            rib,
            p,
        ) {
            1nat
        } else {
            0nat
        },
{
    assert(s.subrange(0, i + 1).drop_last() =~= s.subrange(0, i));
}

impl RibTable {
    /// An empty table.
    pub fn new() -> (r: RibTable)
        ensures
            r@ == Seq::<RowModel>::empty(),
    {
        let r = RibTable { rows: Vec::new() };
        assert(r@ =~= Seq::<RowModel>::empty());
        r
    }

    fn find(&self, rib: RibType, prefix: &Prefix, pid: Option<u32>) -> (r: Option<usize>)
        ensures
            match r {
                Some(i) => key_index(self@, rib, prefix@, pid) == Some(i as int) && i
                    < self.rows@.len() && self.rows@.len() == self@.len() && has_key(
                    self@[i as int],
                    rib,
                    prefix@,
                    pid,
                ) && self.rows@[i as int].0 == rib,
                None => key_index(self@, rib, prefix@, pid) is None,
            },
    {
        let ghost s = self@;
        let mut i: usize = 0;
        while i < self.rows.len()
            invariant
                i <= self.rows@.len(),
                s == rows_view(self.rows@),
                s == self@,
                forall|j: int| 0 <= j < i ==> !has_key(#[trigger] s[j], rib, prefix@, pid),
            decreases self.rows@.len() - i,
        {
            let row = &self.rows[i];
            if row.0 == rib && same_pid(row.1.path_id, pid) && same_prefix(&row.1.prefix, prefix) {
                assert(has_key(s[i as int], rib, prefix@, pid));
                return Some(i);
            }
            i = i + 1;
        }
        None
    }

    /// Inserts or replaces a route; true when its key was new.
    pub fn insert(&mut self, rib: RibType, entry: RibEntry) -> (r: bool)
        ensures
            final(self)@ == rows_insert(old(self)@, row_model((rib, entry))),
            r == key_index(old(self)@, rib, entry.prefix@, entry.path_id) is None,
    {
        let ghost m = row_model((rib, entry));
        match self.find(rib, &entry.prefix, entry.path_id) {
            Some(i) => {
                self.rows.set(i, (rib, entry));
                assert(self@ =~= old(self)@.update(i as int, m));
                false
            },
            None => {
                self.rows.push((rib, entry));
                assert(self@ =~= old(self)@.push(m));
                true
            },
        }
    }

    /// Removes the route with the key (rib, prefix, path id) and returns it.
    pub fn remove_with_path_id(&mut self, rib: RibType, prefix: &Prefix, path_id: Option<u32>) -> (r:
        Option<RibEntry>)
        ensures
            final(self)@ == rows_remove(old(self)@, rib, prefix@, path_id),
            match key_index(old(self)@, rib, prefix@, path_id) {
                Some(i) => r matches Some(e) && row_model((rib, e)) == old(self)@[i],
                None => r is None,
            },
    {
        match self.find(rib, prefix, path_id) {
            Some(i) => {
                let row = self.rows.remove(i);
                assert(self@ =~= old(self)@.remove(i as int));
                Some(row.1)
            },
            None => None,
        }
    }

    /// Removes the route of `prefix` without a path id.
    pub fn remove(&mut self, rib: RibType, prefix: &Prefix) -> (r: Option<RibEntry>)
        ensures
            final(self)@ == rows_remove(old(self)@, rib, prefix@, None),
            match key_index(old(self)@, rib, prefix@, None) {
                Some(i) => r matches Some(e) && row_model((rib, e)) == old(self)@[i],
                None => r is None,
            },
    {
        self.remove_with_path_id(rib, prefix, None)
    }

    /// The route of `prefix` without a path id.
    pub fn get(&self, rib: RibType, prefix: &Prefix) -> (r: Option<&RibEntry>)
        ensures
            match key_index(self@, rib, prefix@, None) {
                Some(i) => r matches Some(e) && row_model((rib, *e)) == self@[i],
                None => r is None,
            },
    {
        match self.find(rib, prefix, None) {
            Some(i) => Some(&self.rows[i].1),
            None => None,
        }
    }

    /// Recomputes which path of `prefix` is best (see `rows_best`).
    pub fn recompute_best_path(&mut self, rib: RibType, prefix: &Prefix)
        ensures
            final(self)@ == rows_best(old(self)@, rib, prefix@),
    {
        let ghost s = self@;
        let ghost p = prefix@;
        // First pass: count the paths of the prefix and find the first best.
        let mut count: usize = 0;
        let mut best: usize = 0;
        let mut best_key: (u32, u64, u32) = (0, 0, 0);
        let mut i: usize = 0;
        while i < self.rows.len()
            invariant
                i <= self.rows@.len(),
                s == self@,
                s == rows_view(self.rows@),
                count == prefix_rows(s.subrange(0, i as int), rib, p),
                count <= i,
                p == prefix@,
                count > 0 ==> {
                    &&& best < i
                    &&& on_prefix(s[best as int], rib, p)
                    &&& (best_key.0 as int, best_key.1 as int, best_key.2 as int) == pref_key(
                        s[best as int].attrs,
                    )
                    &&& forall|j: int|
                        0 <= j < i && on_prefix(#[trigger] s[j], rib, p) ==> !key_lt(
                            pref_key(s[j].attrs),
                            pref_key(s[best as int].attrs),
                        )
                    &&& forall|j: int|
                        0 <= j < best && on_prefix(#[trigger] s[j], rib, p) ==> key_lt(
                            pref_key(s[best as int].attrs),
                            pref_key(s[j].attrs),
                        )
                },
                count == 0 ==> forall|j: int| 0 <= j < i ==> !on_prefix(#[trigger] s[j], rib, p),
            decreases self.rows@.len() - i,
        {
            proof {
                lemma_prefix_rows_step(s, rib, p, i as int);
                assert(s[i as int] == row_model(self.rows@[i as int]));
            }
            let row = &self.rows[i];
            if row.0 == rib && same_prefix(&row.1.prefix, prefix) {
                assert(on_prefix(s[i as int], rib, p));
                let k = pref_key_exec(&row.1.attributes);
                if count == 0 || key_less(k, best_key) {
                    best = i;
                    best_key = k;
                }
                count = count + 1;
            } else {
                assert(!on_prefix(s[i as int], rib, p));
            }
            i = i + 1;
        }
        assert(s.subrange(0, s.len() as int) =~= s);
        // Second pass: set the flags.
        let mut j: usize = 0;
        while j < self.rows.len()
            invariant
                j <= self.rows@.len(),
                self.rows@.len() == s.len(),
                s == rows_view(old(self).rows@),
                count == prefix_rows(s, rib, p),
                p == prefix@,
                count > 0 ==> is_first_best(s, rib, p, best as int),
                forall|k: int| 0 <= k < j ==> rows_view(self.rows@)[k] == rows_best(s, rib, p)[k],
                forall|k: int| j <= k < s.len() ==> rows_view(self.rows@)[k] == s[k],
            decreases self.rows@.len() - j,
        {
            let ghost before = self.rows@;
            assert(rows_view(before)[j as int] == s[j as int]);
            let is_mine = self.rows[j].0 == rib && same_prefix(&self.rows[j].1.prefix, prefix);
            assert(is_mine == on_prefix(s[j as int], rib, p));
            if is_mine {
                let flag = count <= 1 || j == best;
                proof {
                    if count > 1 && is_first_best(s, rib, p, j as int) {
                        // Both `best` and `j` are first best: they are equal.
                        assert(j == best) by {
                            if (j as int) < (best as int) {
                                assert(key_lt(pref_key(s[best as int].attrs), pref_key(s[j as int].attrs)));
                            } else if (best as int) < (j as int) {
                                assert(key_lt(pref_key(s[j as int].attrs), pref_key(s[best as int].attrs)));
                            }
                        }
                    }
                }
                self.rows[j].1.is_best = flag;
                proof {
                    assert(rows_view(self.rows@)[j as int] == rows_best(s, rib, p)[j as int]);
                    assert forall|k: int| 0 <= k < self.rows@.len() && k != j implies rows_view(
                        self.rows@,
                    )[k] == rows_view(before)[k] by {
                        assert(self.rows@[k] == before[k]);
                    }
                }
            }
            j = j + 1;
        }
        assert(self@ =~= rows_best(s, rib, p));
    }

    /// Number of routes in RIB `rib`.
    pub fn count(&self, rib: RibType) -> (r: usize)
        ensures
            r == rib_rows(self@, rib),
    {
        let ghost s = self@;
        let mut n: usize = 0;
        let mut i: usize = 0;
        while i < self.rows.len()
            invariant
                i <= self.rows@.len(),
                s == rows_view(self.rows@),
                n == rib_rows(s.subrange(0, i as int), rib),
                n <= i,
            decreases self.rows@.len() - i,
        {
            proof {
                assert(s.subrange(0, i + 1).drop_last() =~= s.subrange(0, i as int));
            }
            if self.rows[i].0 == rib {
                n = n + 1;
            }
            i = i + 1;
        }
        assert(s.subrange(0, s.len() as int) =~= s);
        n
    }

    /// The routes of RIB `rib`, in table order.
    pub fn iter_rib(&self, rib: RibType) -> (r: Vec<&RibEntry>)
        ensures
            entries_are(r@, self@.filter(|m: RowModel| m.rib == rib)),
    {
        let ghost s = self@;
        let mut out: Vec<&RibEntry> = Vec::new();
        let mut i: usize = 0;
        while i < self.rows.len()
            invariant
                i <= self.rows@.len(),
                s == rows_view(self.rows@),
                entries_are(out@, s.subrange(0, i as int).filter(|m: RowModel| m.rib == rib)),
            decreases self.rows@.len() - i,
        {
            proof {
                lemma_filter_step(s, |m: RowModel| m.rib == rib, i as int);
            }
            if self.rows[i].0 == rib {
                out.push(&self.rows[i].1);
            }
            i = i + 1;
        }
        assert(s.subrange(0, s.len() as int) =~= s);
        out
    }

    /// All routes, in table order.
    pub fn all_prefixes(&self) -> (r: Vec<&RibEntry>)
        ensures
            entries_are(r@, self@),
    {
        let ghost s = self@;
        let mut out: Vec<&RibEntry> = Vec::new();
        let mut i: usize = 0;
        while i < self.rows.len()
            invariant
                i <= self.rows@.len(),
                s == rows_view(self.rows@),
                entries_are(out@, s.subrange(0, i as int)),
            decreases self.rows@.len() - i,
        {
            out.push(&self.rows[i].1);
            i = i + 1;
        }
        assert(s.subrange(0, s.len() as int) =~= s);
        out
    }

    /// Removes every route of RIB `rib`.
    pub fn clear_rib(&mut self, rib: RibType)
        ensures
            final(self)@ == old(self)@.filter(|m: RowModel| m.rib != rib),
    {
        let ghost s = self@;
        let mut old_rows: Vec<(RibType, RibEntry)> = Vec::new();
        let ghost orig = self.rows@;
        std::mem::swap(&mut old_rows, &mut self.rows);
        assert(old_rows@ == orig);
        assert(rows_view(old_rows@) == s);
        let total = old_rows.len();
        assert(s.len() == total);
        assert(s.skip(0) =~= s);
        assert(s.subrange(0, 0).filter(|m: RowModel| m.rib != rib) =~= Seq::<RowModel>::empty()) by {
            reveal(Seq::filter);
        }
        assert(self@ =~= Seq::<RowModel>::empty());
        let mut k: usize = 0;
        while old_rows.len() > 0
            invariant
                k <= s.len(),
                s.len() <= usize::MAX,
                rows_view(old_rows@) == s.skip(k as int),
                self@ == s.subrange(0, k as int).filter(|m: RowModel| m.rib != rib),
            decreases old_rows@.len(),
        {
            let row = old_rows.remove(0);
            proof {
                assert(s.skip(k as int)[0] == row_model(row));
                assert(s.skip(k as int).drop_first() =~= s.skip(k + 1));
                assert(rows_view(old_rows@) =~= s.skip(k + 1));
                lemma_filter_step(s, |m: RowModel| m.rib != rib, k as int);
            }
            if row.0 != rib {
                let ghost before = self@;
                self.rows.push(row);
                assert(self@ =~= before.push(s[k as int]));
            }
            k = k + 1;
        }
        assert(s.skip(k as int).len() == 0);
        assert(s.subrange(0, k as int) =~= s);
    }

    /// Removes every route.
    pub fn clear_all(&mut self)
        ensures
            final(self)@ == Seq::<RowModel>::empty(),
    {
        self.rows = Vec::new();
        assert(self@ =~= Seq::<RowModel>::empty());
    }

    /// Marks every route stale at `now` (Long-Lived Graceful Restart).
    pub fn mark_stale_all(&mut self, now: Timestamp)
        ensures
            final(self)@ == old(self)@.map_values(|m: RowModel| stale_row(m, now)),
    {
        let ghost s = self@;
        let mut i: usize = 0;
        while i < self.rows.len()
            invariant
                i <= self.rows@.len(),
                self.rows@.len() == s.len(),
                s == old(self)@,
                forall|k: int|
                    0 <= k < i ==> rows_view(self.rows@)[k] == stale_row(s[k], now),
                forall|k: int| i <= k < s.len() ==> rows_view(self.rows@)[k] == s[k],
            decreases self.rows@.len() - i,
        {
            let ghost before = self.rows@;
            assert(rows_view(before)[i as int] == s[i as int]);
            self.rows[i].1.llgr_state = LlgrState::StaleMarked;
            self.rows[i].1.stale_at = Some(now);
            proof {
                assert(rows_view(self.rows@)[i as int] == stale_row(s[i as int], now));
                assert forall|k: int| 0 <= k < self.rows@.len() && k != i implies rows_view(
                    self.rows@,
                )[k] == rows_view(before)[k] by {
                    assert(self.rows@[k] == before[k]);
                }
                assert forall|k: int| 0 <= k < i + 1 implies rows_view(self.rows@)[k] == stale_row(
                    s[k],
                    now,
                ) by {
                    if k < i {
                        assert(rows_view(before)[k] == stale_row(s[k], now));
                    }
                }
                assert forall|k: int| i + 1 <= k < s.len() implies rows_view(self.rows@)[k]
                    == s[k] by {
                    assert(rows_view(before)[k] == s[k]);
                }
            }
            i = i + 1;
        }
        assert(self@ =~= s.map_values(|m: RowModel| stale_row(m, now)));
    }

    /// Removes the stale routes whose stale timer (`stale_secs` from being
    /// marked) has run out at `now`; returns how many were removed.
    pub fn drain_deleted_stale(&mut self, now: Timestamp, stale_secs: u32) -> (r: usize)
        ensures
            final(self)@ == old(self)@.filter(|m: RowModel| !stale_expired(m, now, stale_secs)),
            r == old(self)@.len() - final(self)@.len(),
    {
        let ghost s = self@;
        let mut old_rows: Vec<(RibType, RibEntry)> = Vec::new();
        let ghost orig = self.rows@;
        std::mem::swap(&mut old_rows, &mut self.rows);
        assert(old_rows@ == orig);
        assert(rows_view(old_rows@) == s);
        let total = old_rows.len();
        assert(s.len() == total);
        assert(s.skip(0) =~= s);
        assert(s.subrange(0, 0).filter(|m: RowModel| !stale_expired(m, now, stale_secs))
            =~= Seq::<RowModel>::empty()) by {
            reveal(Seq::filter);
        }
        assert(self@ =~= Seq::<RowModel>::empty());
        let mut k: usize = 0;
        let mut removed: usize = 0;
        while old_rows.len() > 0
            invariant
                k <= s.len(),
                s.len() <= usize::MAX,
                rows_view(old_rows@) == s.skip(k as int),
                self@ == s.subrange(0, k as int).filter(
                    |m: RowModel| !stale_expired(m, now, stale_secs),
                ),
                removed == k - self@.len(),
                self@.len() <= k,
            decreases old_rows@.len(),
        {
            let row = old_rows.remove(0);
            proof {
                assert(s.skip(k as int)[0] == row_model(row));
                assert(s.skip(k as int).drop_first() =~= s.skip(k + 1));
                assert(rows_view(old_rows@) =~= s.skip(k + 1));
                lemma_filter_step(s, |m: RowModel| !stale_expired(m, now, stale_secs), k as int);
            }
            let expired = match (row.1.llgr_state, row.1.stale_at) {
                (LlgrState::StaleMarked, Some(t)) => (now.secs as i128) - (t.secs as i128) >= (
                stale_secs as i128),
                _ => false,
            };
            if !expired {
                let ghost before = self@;
                self.rows.push(row);
                assert(self@ =~= before.push(s[k as int]));
            } else {
                removed = removed + 1;
            }
            k = k + 1;
        }
        assert(s.skip(k as int).len() == 0);
        assert(s.subrange(0, k as int) =~= s);
        removed
    }

    /// Route counts of the RIB types that hold routes, in the order of
    /// `RibType`'s variants.
    pub fn rib_counts(&self) -> (r: Vec<(RibType, usize)>)
        ensures
            r@ == all_rib_types().filter(|t: RibType| rib_rows(self@, t) > 0).map_values(
                |t: RibType| (t, rib_rows(self@, t) as usize),
            ),
    {
        let types = [
            RibType::AdjRibInPrePolicy,
            RibType::AdjRibInPostPolicy,
            RibType::AdjRibOutPrePolicy,
            RibType::AdjRibOutPostPolicy,
            RibType::LocRib,
            RibType::LocRibFiltered,
        ];
        assert(types@ =~= all_rib_types());
        let ghost f = |t: RibType| rib_rows(self@, t) > 0;
        let ghost g = |t: RibType| (t, rib_rows(self@, t) as usize);
        let mut out: Vec<(RibType, usize)> = Vec::new();
        let mut i: usize = 0;
        while i < 6
            invariant
                i <= 6,
                types@ == all_rib_types(),
                f == (|t: RibType| rib_rows(self@, t) > 0),
                g == (|t: RibType| (t, rib_rows(self@, t) as usize)),
                out@ == types@.subrange(0, i as int).filter(f).map_values(g),
            decreases 6 - i,
        {
            proof {
                lemma_filter_step(types@, f, i as int);
            }
            let t = types[i];
            let n = self.count(t);
            if n > 0 {
                let ghost before = out@;
                out.push((t, n));
                assert(out@ =~= types@.subrange(0, i + 1).filter(f).map_values(g));
            } else {
                assert(out@ =~= types@.subrange(0, i + 1).filter(f).map_values(g));
            }
            i = i + 1;
        }
        assert(types@.subrange(0, 6) =~= types@);
        out
    }
}

/// No two rows share a key (RIB, prefix, path id).
pub open spec fn keys_unique(s: Seq<RowModel>) -> bool {
    forall|i: int, j: int|
        0 <= i < s.len() && 0 <= j < s.len() && i != j ==> !has_key(s[j], s[i].rib, s[i].prefix, s[i].path_id)
}

proof fn lemma_key_index_is(s: Seq<RowModel>, rib: RibType, p: PrefixModel, pid: Option<u32>, k: int)
    requires
        0 <= k < s.len(),
        has_key(s[k], rib, p, pid),
        forall|j: int| 0 <= j < k ==> !has_key(#[trigger] s[j], rib, p, pid),
    ensures
        key_index(s, rib, p, pid) == Some(k),
{
    let c = choose|i: int|
        0 <= i < s.len() && has_key(s[i], rib, p, pid) && forall|j: int| 0 <= j < i ==> !has_key(#[trigger] s[j], rib, p, pid);
    assert(0 <= k < s.len() && has_key(s[k], rib, p, pid) && forall|j: int| 0 <= j < k ==> !has_key(#[trigger] s[j], rib, p, pid));
    if c < k {
        assert(!has_key(s[c], rib, p, pid));
    }
    if k < c {
        assert(!has_key(s[k], rib, p, pid));
    }
}

proof fn lemma_first_key(s: Seq<RowModel>, rib: RibType, p: PrefixModel, pid: Option<u32>, k: int)
    requires
        0 <= k < s.len(),
        has_key(s[k], rib, p, pid),
    ensures
        exists|i: int|
            0 <= i < s.len() && has_key(s[i], rib, p, pid) && forall|j: int|
                0 <= j < i ==> !has_key(#[trigger] s[j], rib, p, pid),
    decreases k,
{
    if exists|j: int| 0 <= j < k && has_key(#[trigger] s[j], rib, p, pid) {
        let j = choose|j: int| 0 <= j < k && has_key(#[trigger] s[j], rib, p, pid);
        lemma_first_key(s, rib, p, pid, j);
    } else {
        assert(0 <= k < s.len() && has_key(s[k], rib, p, pid) && forall|j: int|
            0 <= j < k ==> !has_key(#[trigger] s[j], rib, p, pid));
    }
}

proof fn lemma_key_index_found(s: Seq<RowModel>, rib: RibType, p: PrefixModel, pid: Option<u32>)
    ensures
        match key_index(s, rib, p, pid) {
            Some(i) => 0 <= i < s.len() && has_key(s[i], rib, p, pid) && forall|j: int|
                0 <= j < i ==> !has_key(#[trigger] s[j], rib, p, pid),
            None => forall|j: int| 0 <= j < s.len() ==> !has_key(#[trigger] s[j], rib, p, pid),
        },
{
    if exists|i: int| 0 <= i < s.len() && has_key(#[trigger] s[i], rib, p, pid) {
        let k = choose|i: int| 0 <= i < s.len() && has_key(#[trigger] s[i], rib, p, pid);
        lemma_first_key(s, rib, p, pid, k);
    }
}

/// A lookup right after storing a row finds that row under its key.
pub proof fn lemma_get_after_insert(s: Seq<RowModel>, r: RowModel)
    ensures
        key_index(rows_insert(s, r), r.rib, r.prefix, r.path_id) matches Some(k) && rows_insert(s, r)[k] == r,
{
    lemma_key_index_found(s, r.rib, r.prefix, r.path_id);
    let t = rows_insert(s, r);
    match key_index(s, r.rib, r.prefix, r.path_id) {
        Some(i) => {
            assert forall|j: int| 0 <= j < i implies !has_key(#[trigger] t[j], r.rib, r.prefix, r.path_id) by {
                assert(t[j] == s[j]);
            }
            lemma_key_index_is(t, r.rib, r.prefix, r.path_id, i);
        },
        None => {
            assert forall|j: int| 0 <= j < s.len() implies !has_key(#[trigger] t[j], r.rib, r.prefix, r.path_id) by {
                assert(t[j] == s[j]);
            }
            lemma_key_index_is(t, r.rib, r.prefix, r.path_id, s.len() as int);
        },
    }
}

/// Storing a row, and removing one, keep the keys of a table without
/// repeated keys unique.
pub proof fn lemma_keys_stay_unique(s: Seq<RowModel>, r: RowModel, rib: RibType, p: PrefixModel, pid: Option<u32>)
    requires
        keys_unique(s),
    ensures
        keys_unique(rows_insert(s, r)),
        keys_unique(rows_remove(s, rib, p, pid)),
{
    lemma_key_index_found(s, r.rib, r.prefix, r.path_id);
    let t = rows_insert(s, r);
    match key_index(s, r.rib, r.prefix, r.path_id) {
        Some(k) => {
            assert forall|i: int, j: int|
                0 <= i < t.len() && 0 <= j < t.len() && i != j implies !has_key(t[j], t[i].rib, t[i].prefix, t[i].path_id) by {
                if i == k {
                    assert(!has_key(s[j], s[k].rib, s[k].prefix, s[k].path_id));
                } else if j == k {
                    assert(!has_key(s[k], s[i].rib, s[i].prefix, s[i].path_id));
                }
            }
        },
        None => {
            assert forall|i: int, j: int|
                0 <= i < t.len() && 0 <= j < t.len() && i != j implies !has_key(t[j], t[i].rib, t[i].prefix, t[i].path_id) by {
                if i == s.len() as int {
                    assert(!has_key(s[j], r.rib, r.prefix, r.path_id));
                } else if j == s.len() as int {
                    assert(!has_key(s[i], r.rib, r.prefix, r.path_id));
                }
            }
        },
    }
    let u = rows_remove(s, rib, p, pid);
    match key_index(s, rib, p, pid) {
        Some(k) => {
            lemma_key_index_found(s, rib, p, pid);
            assert forall|i: int, j: int|
                0 <= i < u.len() && 0 <= j < u.len() && i != j implies !has_key(u[j], u[i].rib, u[i].prefix, u[i].path_id) by {
                let oi = if i < k { i } else { i + 1 };
                let oj = if j < k { j } else { j + 1 };
                assert(u[i] == s[oi]);
                assert(u[j] == s[oj]);
            }
        },
        None => {},
    }
}

/// In a table without repeated keys, a lookup right after removing a key
/// finds nothing under it.
pub proof fn lemma_get_after_remove(s: Seq<RowModel>, rib: RibType, p: PrefixModel, pid: Option<u32>)
    requires
        keys_unique(s),
    ensures
        key_index(rows_remove(s, rib, p, pid), rib, p, pid) is None,
{
    lemma_key_index_found(s, rib, p, pid);
    let u = rows_remove(s, rib, p, pid);
    match key_index(s, rib, p, pid) {
        Some(k) => {
            assert forall|j: int| 0 <= j < u.len() implies !has_key(#[trigger] u[j], rib, p, pid) by {
                let oj = if j < k { j } else { j + 1 };
                assert(u[j] == s[oj]);
                assert(!has_key(s[oj], s[k].rib, s[k].prefix, s[k].path_id));
            }
        },
        None => {},
    }
    lemma_key_index_found(u, rib, p, pid);
}

/// One step of filtering a prefix of `s`.
pub proof fn lemma_filter_step<A>(s: Seq<A>, p: spec_fn(A) -> bool, i: int)
    requires
        0 <= i < s.len(),
    ensures
        s.subrange(0, i + 1).filter(p) == if p(s[i]) {
            s.subrange(0, i).filter(p).push(s[i])
        } else {
            s.subrange(0, i).filter(p)
        },
{
    reveal(Seq::filter);
    assert(s.subrange(0, i + 1).drop_last() =~= s.subrange(0, i));
}

/// Number of rows of RIB `rib`.
pub open spec fn rib_rows(s: Seq<RowModel>, rib: RibType) -> nat
    decreases s.len(),
{
    if s.len() == 0 {
        0
    } else {
        rib_rows(s.drop_last(), rib) + if s.last().rib == rib {
            1nat
        } else {
            0nat
        }
    }
}

/// Whether `v` holds, in order, the entries of the rows `m`.
pub open spec fn entries_are(v: Seq<&RibEntry>, m: Seq<RowModel>) -> bool {
    &&& v.len() == m.len()
    &&& forall|i: int| 0 <= i < v.len() ==> row_model((m[i].rib, *v[i])) == #[trigger] m[i]
}

/// A row marked stale at `now`.
pub open spec fn stale_row(m: RowModel, now: Timestamp) -> RowModel {
    RowModel { llgr: LlgrState::StaleMarked, stale_at: Some(now), ..m }
}

/// Whether a stale route's timer has run out at `now`.
pub open spec fn stale_expired(m: RowModel, now: Timestamp, stale_secs: u32) -> bool {
    match (m.llgr, m.stale_at) {
        (LlgrState::StaleMarked, Some(t)) => now.secs - t.secs >= stale_secs,
        _ => false,
    }
}

/// The RIB types in declaration order.
pub open spec fn all_rib_types() -> Seq<RibType> {
    seq![
        RibType::AdjRibInPrePolicy,
        RibType::AdjRibInPostPolicy,
        RibType::AdjRibOutPrePolicy,
        RibType::AdjRibOutPostPolicy,
        RibType::LocRib,
        RibType::LocRibFiltered,
    ]
}

} // verus!
