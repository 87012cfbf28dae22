//! Bookkeeping of one knowledge reconcile pass: the per-target memo and the
//! purge keep-set, which listed documents are purged, read batching under a
//! byte budget, duplicate-target removal, and the trigger-coalescing gate.
//!
//! Document ids are content hashes; they are carried here as `u128`.

use std::collections::HashSet;

use vstd::prelude::*;

use crate::ids::{uuid_parse, uuid_parse_result};

verus! {

/// Outcome of the most recent reconcile for one referenced target.
#[derive(Debug, Clone, Copy, PartialEq, Eq, Structural)]
pub enum Outcome {
    Indexed,
    ReadFailed,
    IngestFailed,
}

/// What is remembered of one target between reconciles.
#[derive(Debug, Clone, Copy, PartialEq, Eq, Structural)]
pub struct TargetState {
    /// Id of the document last indexed for this target; carried across failed
    /// cycles so a still-referenced but unreadable target survives a purge.
    pub last_indexed_id: Option<u128>,
    pub outcome: Outcome,
}

/// The map that a list of `(path, state)` entries denotes (later entries win).
pub open spec fn memo_map(es: Seq<(String, TargetState)>) -> Map<Seq<char>, TargetState>
    decreases es.len(),
{
    if es.len() == 0 {
        Map::empty()
    } else {
        memo_map(es.drop_last()).insert(es.last().0@, es.last().1)
    }
}

/// No path occurs twice.
pub open spec fn unique_paths(es: Seq<(String, TargetState)>) -> bool {
    forall|i: int, j: int|
        0 <= i < es.len() && 0 <= j < es.len() && i != j ==> #[trigger] es[i].0@ != #[trigger] es[j].0@
}

proof fn lemma_memo_lookup(es: Seq<(String, TargetState)>, i: int)
    requires
        unique_paths(es),
        0 <= i < es.len(),
    ensures
        memo_map(es).dom().contains(es[i].0@),
        memo_map(es)[es[i].0@] == es[i].1,
    decreases es.len(),
{
    if i < es.len() - 1 {
        let d = es.drop_last();
        assert(d[i] == es[i]);
        assert(unique_paths(d)) by {
            assert forall|a: int, b: int|
                0 <= a < d.len() && 0 <= b < d.len() && a != b implies #[trigger] d[a].0@
                != #[trigger] d[b].0@ by {
                assert(d[a] == es[a] && d[b] == es[b]);
            }
        }
        lemma_memo_lookup(d, i);
        assert(es.last() == es[es.len() - 1]);
        assert(es[es.len() - 1].0@ != es[i].0@);
    }
}

proof fn lemma_memo_absent(es: Seq<(String, TargetState)>, k: Seq<char>)
    requires
        forall|i: int| 0 <= i < es.len() ==> #[trigger] es[i].0@ != k,
    ensures
        !memo_map(es).dom().contains(k),
    decreases es.len(),
{
    if es.len() > 0 {
        let d = es.drop_last();
        assert forall|i: int| 0 <= i < d.len() implies #[trigger] d[i].0@ != k by {
            assert(d[i] == es[i]);
        }
        lemma_memo_absent(d, k);
        assert(es[es.len() - 1].0@ != k);
    }
}

/// The per-target memo: path → what was last known of it. Paths are unique.
/// It is a list of pairs rather than a `HashMap` because the keys are paths
/// and vstd's hash-table specifications hold only for keys whose hashing
/// it models (the integer types), not for `String`.
pub struct RefMemo {
    entries: Vec<(String, TargetState)>,
}

impl RefMemo {
    /// The state remembered for each target path.
    pub closed spec fn view(&self) -> Map<Seq<char>, TargetState> {
        memo_map(self.entries@)
    }

    /// Each path remembered once.
    pub closed spec fn wf(&self) -> bool {
        unique_paths(self.entries@)
    }

    /// Nothing remembered.
    pub fn new() -> (m: Self)
        ensures
            m.wf(),
            m.view() == Map::<Seq<char>, TargetState>::empty(),
    {
        RefMemo { entries: Vec::new() }
    }

    /// Index of `path`'s entry, if any.
    fn find(&self, path: &str) -> (r: Option<usize>)
        requires
            self.wf(),
        ensures
            match r {
                Some(i) => i < self.entries@.len() && self.entries@[i as int].0@ == path@,
                None => forall|i: int|
                    0 <= i < self.entries@.len() ==> #[trigger] self.entries@[i].0@ != path@,
            },
    {
        let mut i: usize = 0;
        while i < self.entries.len()
            invariant
                i <= self.entries@.len(),
                forall|k: int| 0 <= k < i ==> #[trigger] self.entries@[k].0@ != path@,
            decreases self.entries@.len() - i,
        {
            let key: &str = self.entries[i].0.as_str();
            if crate::text::chars_eq(&crate::text::chars_of(key), &crate::text::chars_of(path)) {
                return Some(i);
            }
            i = i + 1;
        }
        None
    }

    /// The state remembered for `path`.
    pub fn get(&self, path: &str) -> (r: Option<TargetState>)
        requires
            self.wf(),
        ensures
            r == (if self.view().dom().contains(path@) {
                Some(self.view()[path@])
            } else {
                None::<TargetState>
            }),
    {
        match self.find(path) {
            Some(i) => {
                proof {
                    lemma_memo_lookup(self.entries@, i as int);
                }
                Some(self.entries[i].1)
            },
            None => {
                proof {
                    lemma_memo_absent(self.entries@, path@);
                }
                None
            },
        }
    }

    /// Whether `path` has an entry.
    pub fn contains_key(&self, path: &str) -> (r: bool)
        requires
            self.wf(),
        ensures
            r == self.view().dom().contains(path@),
    {
        self.get(path).is_some()
    }

    /// Number of remembered targets.
    pub fn len(&self) -> (n: usize)
        requires
            self.wf(),
        ensures
            n == self.view().dom().len(),
    {
        proof {
            self.lemma_len();
        }
        self.entries.len()
    }

    /// Whether nothing is remembered.
    pub fn is_empty(&self) -> (r: bool)
        requires
            self.wf(),
        ensures
            r == (self.view().dom().len() == 0),
    {
        self.len() == 0
    }

    proof fn lemma_len(&self)
        requires
            self.wf(),
        ensures
            self.view().dom().finite(),
            self.view().dom().len() == self.entries@.len(),
    {
        lemma_memo_len(self.entries@);
    }

    /// Remember `state` for `path`, replacing any earlier entry.
    pub fn insert(&mut self, path: String, state: TargetState)
        requires
            old(self).wf(),
        ensures
            final(self).wf(),
            final(self).view() == old(self).view().insert(path@, state),
    {
        match self.find(path.as_str()) {
            Some(i) => {
                let ghost es = self.entries@;
                proof {
                    lemma_memo_replace(es, i as int, state);
                }
                let key = self.entries[i].0.clone();
                self.entries.set(i, (key, state));
                assert(self.entries@ =~= es.update(i as int, (es[i as int].0, state)));
            },
            None => {
                let ghost es = self.entries@;
                self.entries.push((path, state));
                assert(self.entries@.drop_last() =~= es);
                assert(unique_paths(self.entries@)) by {
                    assert forall|a: int, b: int|
                        0 <= a < self.entries@.len() && 0 <= b < self.entries@.len() && a
                            != b implies #[trigger] self.entries@[a].0@
                        != #[trigger] self.entries@[b].0@ by {
                        if a < es.len() && b < es.len() {
                            assert(self.entries@[a] == es[a] && self.entries@[b] == es[b]);
                        } else if a < es.len() {
                            assert(self.entries@[a] == es[a]);
                        } else {
                            assert(self.entries@[b] == es[b]);
                        }
                    }
                }
            },
        }
    }
}

proof fn lemma_memo_len(es: Seq<(String, TargetState)>)
    requires
        unique_paths(es),
    ensures
        memo_map(es).dom().finite(),
        memo_map(es).dom().len() == es.len(),
    decreases es.len(),
{
    if es.len() > 0 {
        let d = es.drop_last();
        assert(unique_paths(d)) by {
            assert forall|a: int, b: int|
                0 <= a < d.len() && 0 <= b < d.len() && a != b implies #[trigger] d[a].0@
                != #[trigger] d[b].0@ by {
                assert(d[a] == es[a] && d[b] == es[b]);
            }
        }
        lemma_memo_len(d);
        assert forall|i: int| 0 <= i < d.len() implies #[trigger] d[i].0@ != es.last().0@ by {
            assert(d[i] == es[i]);
            assert(es.last() == es[es.len() - 1]);
        }
        lemma_memo_absent(d, es.last().0@);
    }
}

proof fn lemma_memo_replace(es: Seq<(String, TargetState)>, i: int, st: TargetState)
    requires
        unique_paths(es),
        0 <= i < es.len(),
    ensures
        unique_paths(es.update(i, (es[i].0, st))),
        memo_map(es.update(i, (es[i].0, st))) == memo_map(es).insert(es[i].0@, st),
    decreases es.len(),
{
    let u = es.update(i, (es[i].0, st));
    assert(unique_paths(u)) by {
        assert forall|a: int, b: int|
            0 <= a < u.len() && 0 <= b < u.len() && a != b implies #[trigger] u[a].0@
            != #[trigger] u[b].0@ by {
            assert(u[a].0@ == es[a].0@ && u[b].0@ == es[b].0@);
        }
    }
    let d = es.drop_last();
    assert(unique_paths(d)) by {
        assert forall|a: int, b: int|
            0 <= a < d.len() && 0 <= b < d.len() && a != b implies #[trigger] d[a].0@
            != #[trigger] d[b].0@ by {
            assert(d[a] == es[a] && d[b] == es[b]);
        }
    }
    if i == es.len() - 1 {
        assert(u.drop_last() =~= d);
        assert(memo_map(u) =~= memo_map(es).insert(es[i].0@, st));
    } else {
        lemma_memo_replace(d, i, st);
        assert(u.drop_last() =~= d.update(i, (d[i].0, st)));
        assert(es.last() == es[es.len() - 1]);
        assert(es[es.len() - 1].0@ != es[i].0@);
        assert(memo_map(u) =~= memo_map(es).insert(es[i].0@, st));
    }
}

/// A set of document ids.
pub struct IdSet {
    ids: HashSet<u128>,
}

impl IdSet {
    /// The ids in the set.
    pub closed spec fn view(&self) -> Set<u128> {
        self.ids@
    }

    /// The set is finite.
    pub closed spec fn wf(&self) -> bool {
        self.ids@.finite()
    }

    /// The empty set.
    pub fn new() -> (s: Self)
        ensures
            s.wf(),
            s.view() == Set::<u128>::empty(),
    {
        IdSet { ids: HashSet::new() }
    }

    /// Whether `id` is in the set.
    pub fn contains(&self, id: u128) -> (r: bool)
        ensures
            r == self.view().contains(id),
    {
        broadcast use vstd::std_specs::hash::group_hash_axioms;

        self.ids.contains(&id)
    }

    /// Add `id`.
    pub fn insert(&mut self, id: u128)
        requires
            old(self).wf(),
        ensures
            final(self).wf(),
            final(self).view() == old(self).view().insert(id),
    {
        broadcast use vstd::std_specs::hash::group_hash_axioms;

        self.ids.insert(id);
    }

    /// The number of ids.
    pub fn len(&self) -> (n: usize)
        requires
            self.wf(),
        ensures
            n == self.view().len(),
    {
        broadcast use vstd::std_specs::hash::group_hash_axioms;

        self.ids.len()
    }

    /// Whether the set is empty.
    pub fn is_empty(&self) -> (r: bool)
        requires
            self.wf(),
        ensures
            r == (self.view().len() == 0),
    {
        self.len() == 0
    }
}

/// The id last indexed for `p`, if the memo has one.
pub open spec fn prior_id(prev: Map<Seq<char>, TargetState>, p: Seq<char>) -> Option<u128> {
    if prev.dom().contains(p) {
        prev[p].last_indexed_id
    } else {
        None
    }
}

/// The new memo entry for a target read this cycle.
pub open spec fn read_state(
    prev: Map<Seq<char>, TargetState>,
    p: Seq<char>,
    read: Option<u128>,
    succ: Set<u128>,
) -> TargetState {
    match read {
        Some(id) => if succ.contains(id) {
            TargetState { last_indexed_id: Some(id), outcome: Outcome::Indexed }
        } else {
            TargetState { last_indexed_id: prior_id(prev, p), outcome: Outcome::IngestFailed }
        },
        None => TargetState { last_indexed_id: prior_id(prev, p), outcome: Outcome::ReadFailed },
    }
}

/// The document a target read this cycle keeps from the purge, if any: the
/// confirmed new id, or else the id remembered from earlier cycles.
pub open spec fn read_protects(
    prev: Map<Seq<char>, TargetState>,
    p: Seq<char>,
    read: Option<u128>,
    succ: Set<u128>,
) -> Option<u128> {
    match read {
        Some(id) => if succ.contains(id) {
            Some(id)
        } else {
            prior_id(prev, p)
        },
        None => prior_id(prev, p),
    }
}

/// The plain values of the reads.
pub open spec fn read_views(reads: Seq<(String, Option<u128>)>) -> Seq<(Seq<char>, Option<u128>)> {
    Seq::new(reads.len(), |i: int| (reads[i].0@, reads[i].1))
}

/// The memo after a cycle: one entry per path read (the last read of a path wins).
pub open spec fn keepset_next(
    prev: Map<Seq<char>, TargetState>,
    reads: Seq<(Seq<char>, Option<u128>)>,
    succ: Set<u128>,
) -> Map<Seq<char>, TargetState>
    decreases reads.len(),
{
    if reads.len() == 0 {
        Map::empty()
    } else {
        keepset_next(prev, reads.drop_last(), succ).insert(
            reads.last().0,
            read_state(prev, reads.last().0, reads.last().1, succ),
        )
    }
}

/// The ids kept from the purge: what every read of this cycle protects.
pub open spec fn keepset_protected(
    prev: Map<Seq<char>, TargetState>,
    reads: Seq<(Seq<char>, Option<u128>)>,
    succ: Set<u128>,
) -> Set<u128>
    decreases reads.len(),
{
    if reads.len() == 0 {
        Set::empty()
    } else {
        let rest = keepset_protected(prev, reads.drop_last(), succ);
        match read_protects(prev, reads.last().0, reads.last().1, succ) {
            Some(id) => rest.insert(id),
            None => rest,
        }
    }
}

/// Build the next memo and the purge keep-set from this cycle's reads
/// (`path` → content id read, or `None` on a read failure) and the ids the
/// store confirmed as ingested.
pub fn build_keepset(prev: &RefMemo, reads: &[(String, Option<u128>)], succeeded: &IdSet) -> (r: (
    RefMemo,
    IdSet,
))
    requires
        prev.wf(),
    ensures
        r.0.wf(),
        r.1.wf(),
        r.0.view() == keepset_next(prev.view(), read_views(reads@), succeeded.view()),
        r.1.view() == keepset_protected(prev.view(), read_views(reads@), succeeded.view()),
{
    let mut next = RefMemo::new();
    let mut protected = IdSet::new();
    let ghost rv = read_views(reads@);
    let mut i: usize = 0;
    while i < reads.len()
        invariant
            prev.wf(),
            next.wf(),
            protected.wf(),
            rv == read_views(reads@),
            i <= reads@.len(),
            next.view() == keepset_next(prev.view(), rv.subrange(0, i as int), succeeded.view()),
            protected.view() == keepset_protected(
                prev.view(),
                rv.subrange(0, i as int),
                succeeded.view(),
            ),
        decreases reads@.len() - i,
    {
        let path: &String = &reads[i].0;
        let read_id = reads[i].1;
        let ghost pre = rv.subrange(0, i as int);
        let ghost post = rv.subrange(0, i + 1);
        assert(post.drop_last() =~= pre);
        assert(post.last() == (path@, read_id));
        let prior = match prev.get(path.as_str()) {
            Some(s) => s.last_indexed_id,
            None => None,
        };
        assert(prior == prior_id(prev.view(), path@));
        let state = match read_id {
            Some(id) => {
                if succeeded.contains(id) {
                    protected.insert(id);
                    TargetState { last_indexed_id: Some(id), outcome: Outcome::Indexed }
                } else {
                    if let Some(p) = prior {
                        protected.insert(p);
                    }
                    TargetState { last_indexed_id: prior, outcome: Outcome::IngestFailed }
                }
            },
            None => {
                if let Some(p) = prior {
                    protected.insert(p);
                }
                TargetState { last_indexed_id: prior, outcome: Outcome::ReadFailed }
            },
        };
        next.insert(path.clone(), state);
        i = i + 1;
    }
    assert(rv.subrange(0, reads@.len() as int) =~= rv);
    (next, protected)
}

} // verus!

verus! {

/// The paths that `reads` names.
pub open spec fn read_paths(reads: Seq<(Seq<char>, Option<u128>)>) -> Set<Seq<char>> {
    Set::new(|p: Seq<char>| exists|i: int| 0 <= i < reads.len() && #[trigger] reads[i].0 == p)
}

/// The memo after a cycle has exactly one entry per path read in that cycle:
/// a target whose reference is gone is forgotten.
pub proof fn lemma_keepset_domain(
    prev: Map<Seq<char>, TargetState>,
    reads: Seq<(Seq<char>, Option<u128>)>,
    succ: Set<u128>,
)
    ensures
        keepset_next(prev, reads, succ).dom() == read_paths(reads),
    decreases reads.len(),
{
    if reads.len() > 0 {
        let d = reads.drop_last();
        lemma_keepset_domain(prev, d, succ);
        assert forall|p: Seq<char>|
            keepset_next(prev, reads, succ).dom().contains(p) == read_paths(reads).contains(
                p,
            ) by {
            if read_paths(d).contains(p) {
                let i = choose|i: int| 0 <= i < d.len() && #[trigger] d[i].0 == p;
                assert(reads[i].0 == p);
            }
            if read_paths(reads).contains(p) {
                let i = choose|i: int| 0 <= i < reads.len() && #[trigger] reads[i].0 == p;
                if i < reads.len() - 1 {
                    assert(d[i].0 == p);
                }
            }
            assert(reads.last() == reads[reads.len() - 1]);
        }
        assert(keepset_next(prev, reads, succ).dom() =~= read_paths(reads));
    } else {
        assert(read_paths(reads) =~= Set::<Seq<char>>::empty());
    }
}

/// An id survives the purge exactly when some read of this cycle protects it:
/// the confirmed id of a target that was read and ingested, or the id
/// remembered for a target that is still referenced but failed to read or
/// ingest. A document whose reference is gone is therefore never kept on its
/// own account, and an unreadable, never-indexed target keeps nothing.
pub proof fn lemma_protected_iff_some_read_protects(
    prev: Map<Seq<char>, TargetState>,
    reads: Seq<(Seq<char>, Option<u128>)>,
    succ: Set<u128>,
    id: u128,
)
    ensures
        keepset_protected(prev, reads, succ).contains(id) <==> exists|i: int|
            0 <= i < reads.len() && #[trigger] read_protects(prev, reads[i].0, reads[i].1, succ)
                == Some(id),
    decreases reads.len(),
{
    if reads.len() > 0 {
        let d = reads.drop_last();
        lemma_protected_iff_some_read_protects(prev, d, succ, id);
        let n = reads.len() - 1;
        assert(reads.last() == reads[n]);
        if keepset_protected(prev, reads, succ).contains(id) {
            if keepset_protected(prev, d, succ).contains(id) {
                let i = choose|i: int|
                    0 <= i < d.len() && #[trigger] read_protects(prev, d[i].0, d[i].1, succ)
                        == Some(id);
                assert(reads[i] == d[i]);
            } else {
                assert(read_protects(prev, reads[n].0, reads[n].1, succ) == Some(id));
            }
        }
        if exists|i: int|
            0 <= i < reads.len() && #[trigger] read_protects(prev, reads[i].0, reads[i].1, succ)
                == Some(id) {
            let i = choose|i: int|
                0 <= i < reads.len() && #[trigger] read_protects(
                    prev,
                    reads[i].0,
                    reads[i].1,
                    succ,
                ) == Some(id);
            if i < n {
                assert(d[i] == reads[i]);
                assert(read_protects(prev, d[i].0, d[i].1, succ) == Some(id));
            }
        }
    }
}

/// When every path is read once, the memo entry of each path is what its read
/// decides: the confirmed id (`Indexed`), or the remembered id carried over
/// with `IngestFailed` / `ReadFailed`.
pub proof fn lemma_keepset_entry(
    prev: Map<Seq<char>, TargetState>,
    reads: Seq<(Seq<char>, Option<u128>)>,
    succ: Set<u128>,
    i: int,
)
    requires
        0 <= i < reads.len(),
        forall|a: int, b: int|
            0 <= a < reads.len() && 0 <= b < reads.len() && a != b ==> #[trigger] reads[a].0
                != #[trigger] reads[b].0,
    ensures
        keepset_next(prev, reads, succ).dom().contains(reads[i].0),
        keepset_next(prev, reads, succ)[reads[i].0] == read_state(
            prev,
            reads[i].0,
            reads[i].1,
            succ,
        ),
    decreases reads.len(),
{
    let n = reads.len() - 1;
    assert(reads.last() == reads[n]);
    if i < n {
        let d = reads.drop_last();
        assert(d[i] == reads[i]);
        assert forall|a: int, b: int|
            0 <= a < d.len() && 0 <= b < d.len() && a != b implies #[trigger] d[a].0
            != #[trigger] d[b].0 by {
            assert(d[a] == reads[a] && d[b] == reads[b]);
        }
        lemma_keepset_entry(prev, d, succ, i);
        assert(reads[n].0 != reads[i].0);
    }
}

/// Sum of `sizes[a..b]`.
pub open spec fn range_sum(sizes: Seq<u64>, a: int, b: int) -> int
    decreases b - a,
{
    if b <= a {
        0
    } else {
        range_sum(sizes, a, b - 1) + sizes[b - 1]
    }
}

/// The greedy byte-bounded batches of `sizes`, as `[start, end)` ranges: an
/// item joins the current batch unless the batch is non-empty and the item
/// would take it over `budget`, in which case it starts a new batch.
pub open spec fn batches_spec(sizes: Seq<u64>, budget: int) -> Seq<(int, int)>
    decreases sizes.len(),
{
    if sizes.len() == 0 {
        Seq::empty()
    } else {
        let b = batches_spec(sizes.drop_last(), budget);
        let j = sizes.len() - 1;
        if b.len() == 0 {
            seq![(0, 1)]
        } else if range_sum(sizes, b.last().0, j) + sizes[j] > budget {
            b.push((j, j + 1))
        } else {
            b.update(b.len() - 1, (b.last().0, j + 1))
        }
    }
}

proof fn lemma_range_sum_prefix(s: Seq<u64>, t: Seq<u64>, a: int, b: int)
    requires
        0 <= a,
        b <= s.len(),
        b <= t.len(),
        forall|k: int| a <= k < b ==> s[k] == t[k],
    ensures
        range_sum(s, a, b) == range_sum(t, a, b),
    decreases b - a,
{
    if b > a {
        lemma_range_sum_prefix(s, t, a, b - 1);
    }
}

proof fn lemma_range_sum_nonneg(s: Seq<u64>, a: int, b: int)
    ensures
        range_sum(s, a, b) >= 0,
    decreases b - a,
{
    if b > a {
        lemma_range_sum_nonneg(s, a, b - 1);
    }
}

/// The documents a pass purges, in the store's listing order: those whose
/// id parses as a UUID (`uuid::Uuid::parse_str`) that is not in `keep`. A
/// listed id that does not parse is left alone.
pub open spec fn stale_spec(doc_ids: Seq<Seq<char>>, keep: Set<u128>) -> Seq<u128>
    decreases doc_ids.len(),
{
    if doc_ids.len() == 0 {
        Seq::empty()
    } else {
        let rest = stale_spec(doc_ids.drop_last(), keep);
        match uuid_parse_result(doc_ids.last()) {
            Some(u) => if keep.contains(u) {
                rest
            } else {
                rest.push(u)
            },
            None => rest,
        }
    }
}

/// The ids of the store's documents (`doc_ids`, as listed) that a pass
/// purges: every one that parses and is not protected by the keep-set.
/// Documents that merely failed to read or ingest this pass are protected,
/// so only those whose reference is gone are purged.
pub fn stale_ids(doc_ids: &[String], protected: &IdSet) -> (r: Vec<u128>)
    requires
        protected.wf(),
    ensures
        r@ == stale_spec(doc_ids@.map_values(|s: String| s@), protected.view()),
{
    let ghost f = |s: String| s@;
    let mut out: Vec<u128> = Vec::new();
    let mut i: usize = 0;
    while i < doc_ids.len()
        invariant
            i <= doc_ids@.len(),
            protected.wf(),
            f == (|s: String| s@),
            out@ == stale_spec(doc_ids@.subrange(0, i as int).map_values(f), protected.view()),
        decreases doc_ids@.len() - i,
    {
        let ghost pre = doc_ids@.subrange(0, i as int).map_values(f);
        let ghost post = doc_ids@.subrange(0, i + 1).map_values(f);
        assert(post.drop_last() =~= pre);
        assert(post.last() == doc_ids@[i as int]@);
        match uuid_parse(doc_ids[i].as_str()) {
            Some(u) => {
                if !protected.contains(u) {
                    out.push(u);
                }
            },
            None => {},
        }
        i = i + 1;
    }
    assert(doc_ids@.subrange(0, doc_ids@.len() as int) =~= doc_ids@);
    out
}

/// Whether a pass has nothing to do: no reference resolves to a target and
/// no index exists yet to purge from.
pub fn skip_reconcile(member_count: usize, index_exists: bool) -> (r: bool)
    ensures
        r == (member_count == 0 && !index_exists),
{
    member_count == 0 && !index_exists
}

/// Whether the next item, of `len` bytes, must start a new batch: the current
/// batch holds `count` items of `bytes` bytes in all.
pub fn starts_new_batch(count: usize, bytes: u64, len: u64, budget: u64) -> (r: bool)
    ensures
        r == (count > 0 && bytes + len > budget),
{
    count > 0 && (bytes > budget || len > budget - bytes)
}

/// Split items of the given sizes into consecutive batches whose combined
/// size stays within `budget` (a single item over budget forms its own batch).
pub fn plan_batches(sizes: &[u64], budget: u64) -> (r: Vec<(usize, usize)>)
    ensures
        r@.len() == batches_spec(sizes@, budget as int).len(),
        forall|k: int|
            0 <= k < r@.len() ==> (#[trigger] r@[k]).0 as int == batches_spec(
                sizes@,
                budget as int,
            )[k].0 && r@[k].1 as int == batches_spec(sizes@, budget as int)[k].1,
{
    let mut out: Vec<(usize, usize)> = Vec::new();
    let mut start: usize = 0;
    let mut bytes: u64 = 0;
    let mut i: usize = 0;
    while i < sizes.len()
        invariant
            i <= sizes@.len(),
            start <= i,
            i > 0 ==> start < i,
            i == 0 ==> bytes == 0,
            i == 0 ==> out@.len() == 0,
            bytes as int == range_sum(sizes@, start as int, i as int),
            i - start >= 2 ==> bytes <= budget,
            ({
                let b = batches_spec(sizes@.subrange(0, i as int), budget as int);
                &&& (i == 0 ==> b.len() == 0)
                &&& (i > 0 ==> b.len() == out@.len() + 1 && b.last() == (start as int, i as int))
                &&& forall|k: int|
                    0 <= k < out@.len() ==> (#[trigger] out@[k]).0 as int == b[k].0 && out@[k].1
                        as int == b[k].1
            }),
        decreases sizes@.len() - i,
    {
        let len = sizes[i];
        let ghost pre = sizes@.subrange(0, i as int);
        let ghost post = sizes@.subrange(0, i + 1);
        assert(post.drop_last() =~= pre);
        proof {
            lemma_range_sum_prefix(post, sizes@, start as int, i as int);
        }
        let ghost b = batches_spec(pre, budget as int);
        let ghost old_out = out@;
        let ghost old_start = start as int;
        let ghost old_bytes = bytes as int;
        let flush = starts_new_batch(i - start, bytes, len, budget);
        if flush {
            out.push((start, i));
            start = i;
            bytes = len;
        } else {
            bytes = bytes + len;
        }
        proof {
            let nb = batches_spec(post, budget as int);
            let ii = i as int;
            assert(post.len() == ii + 1);
            assert(post[ii] == len);
            assert(range_sum(sizes@, old_start, ii + 1) == old_bytes + len);
            assert(range_sum(sizes@, ii, ii + 1) == len as int) by {
                assert(range_sum(sizes@, ii, ii) == 0);
            }
            if ii == 0 {
                assert(b.len() == 0);
                assert(nb =~= seq![(0int, 1int)]);
            } else {
                assert(b.last().0 == old_start);
                assert(range_sum(post, old_start, ii) == old_bytes);
                if flush {
                    assert(nb =~= b.push((ii, ii + 1)));
                    assert(out@ =~= old_out.push((old_start as usize, i)));
                    assert forall|k: int| 0 <= k < out@.len() implies (#[trigger] out@[k]).0
                        as int == nb[k].0 && out@[k].1 as int == nb[k].1 by {
                        if k < old_out.len() {
                            assert(out@[k] == old_out[k]);
                        } else {
                            assert(nb[k] == b[b.len() - 1]);
                        }
                    }
                } else {
                    assert(nb =~= b.update(b.len() - 1, (old_start, ii + 1)));
                    assert forall|k: int| 0 <= k < out@.len() implies (#[trigger] out@[k]).0
                        as int == nb[k].0 && out@[k].1 as int == nb[k].1 by {
                        assert(nb[k] == b[k]);
                    }
                }
            }
        }
        i = i + 1;
    }
    if i > start {
        out.push((start, i));
    }
    assert(sizes@.subrange(0, sizes@.len() as int) =~= sizes@);
    out
}

} // verus!

verus! {

/// The batches cover every item once, in order: consecutive non-empty ranges
/// from the first item to the last.
pub proof fn lemma_batches_cover(sizes: Seq<u64>, budget: int)
    ensures
        ({
            let b = batches_spec(sizes, budget);
            &&& (b.len() == 0 <==> sizes.len() == 0)
            &&& (b.len() > 0 ==> b[0].0 == 0 && b.last().1 == sizes.len())
            &&& forall|k: int|
                0 <= k < b.len() ==> 0 <= (#[trigger] b[k]).0 < b[k].1 <= sizes.len()
            &&& forall|k: int| 0 <= k < b.len() - 1 ==> (#[trigger] b[k]).1 == b[k + 1].0
        }),
    decreases sizes.len(),
{
    if sizes.len() > 0 {
        let d = sizes.drop_last();
        let j = sizes.len() - 1;
        lemma_batches_cover(d, budget);
        let pb = batches_spec(d, budget);
        let b = batches_spec(sizes, budget);
        if pb.len() > 0 {
            let s0 = pb.last().0;
            if range_sum(sizes, s0, j) + sizes[j] > budget {
                assert(b == pb.push((j, j + 1)));
                assert forall|k: int| 0 <= k < b.len() - 1 implies (#[trigger] b[k]).1 == b[k
                    + 1].0 by {
                    if k < pb.len() - 1 {
                        assert(b[k] == pb[k] && b[k + 1] == pb[k + 1]);
                    }
                }
                assert forall|k: int| 0 <= k < b.len() implies 0 <= (#[trigger] b[k]).0 < b[k].1
                    <= sizes.len() by {
                    if k < pb.len() {
                        assert(b[k] == pb[k]);
                    }
                }
            } else {
                assert(b == pb.update(pb.len() - 1, (s0, j + 1)));
                assert forall|k: int| 0 <= k < b.len() - 1 implies (#[trigger] b[k]).1 == b[k
                    + 1].0 by {
                    assert(b[k] == pb[k]);
                    if k + 1 < pb.len() - 1 {
                        assert(b[k + 1] == pb[k + 1]);
                    }
                }
                assert forall|k: int| 0 <= k < b.len() implies 0 <= (#[trigger] b[k]).0 < b[k].1
                    <= sizes.len() by {
                    if k < pb.len() - 1 {
                        assert(b[k] == pb[k]);
                    }
                }
            }
        }
    }
}

/// A batch of two or more items stays within the budget.
#[verifier::rlimit(40)]
pub proof fn lemma_batches_within_budget(sizes: Seq<u64>, budget: int)
    ensures
        forall|k: int|
            0 <= k < batches_spec(sizes, budget).len() && (#[trigger] batches_spec(
                sizes,
                budget,
            )[k]).1 - batches_spec(sizes, budget)[k].0 >= 2 ==> range_sum(
                sizes,
                batches_spec(sizes, budget)[k].0,
                batches_spec(sizes, budget)[k].1,
            ) <= budget,
    decreases sizes.len(),
{
    if sizes.len() > 0 {
        let d = sizes.drop_last();
        let j = sizes.len() - 1;
        lemma_batches_cover(d, budget);
        lemma_batches_within_budget(d, budget);
        let pb = batches_spec(d, budget);
        let b = batches_spec(sizes, budget);
        if pb.len() > 0 {
            let s0 = pb.last().0;
            assert(pb[pb.len() - 1] == pb.last());
            lemma_range_sum_prefix(sizes, d, s0, j);
            assert forall|k: int|
                0 <= k < b.len() && (#[trigger] b[k]).1 - b[k].0 >= 2 implies range_sum(
                sizes,
                b[k].0,
                b[k].1,
            ) <= budget by {
                if k < pb.len() - 1 {
                    assert(b[k] == pb[k]);
                    lemma_range_sum_prefix(sizes, d, pb[k].0, pb[k].1);
                } else if k == pb.len() - 1 {
                    if b[k] == pb[k] {
                        lemma_range_sum_prefix(sizes, d, pb[k].0, pb[k].1);
                    }
                }
            }
        }
    }
}

/// Each batch was closed only because the next item would have taken it over
/// the budget.
#[verifier::rlimit(40)]
pub proof fn lemma_batches_greedy(sizes: Seq<u64>, budget: int)
    ensures
        forall|k: int|
            0 <= k < batches_spec(sizes, budget).len() - 1 ==> range_sum(
                sizes,
                (#[trigger] batches_spec(sizes, budget)[k]).0,
                batches_spec(sizes, budget)[k].1,
            ) + sizes[batches_spec(sizes, budget)[k + 1].0] > budget,
    decreases sizes.len(),
{
    if sizes.len() > 0 {
        let d = sizes.drop_last();
        let j = sizes.len() - 1;
        lemma_batches_cover(d, budget);
        lemma_batches_greedy(d, budget);
        let pb = batches_spec(d, budget);
        let b = batches_spec(sizes, budget);
        if pb.len() > 0 {
            let s0 = pb.last().0;
            assert(pb[pb.len() - 1] == pb.last());
            lemma_range_sum_prefix(sizes, d, s0, j);
            assert forall|k: int| 0 <= k < b.len() - 1 implies range_sum(
                sizes,
                (#[trigger] b[k]).0,
                b[k].1,
            ) + sizes[b[k + 1].0] > budget by {
                assert(b[k] == pb[k]);
                lemma_range_sum_prefix(sizes, d, pb[k].0, pb[k].1);
                if k < pb.len() - 1 {
                    assert(b[k + 1].0 == pb[k + 1].0);
                    assert(d[pb[k + 1].0] == sizes[pb[k + 1].0]);
                }
            }
        }
    }
}

/// Keep the first item of each path; later duplicates are dropped.
pub open spec fn dedup_spec<T>(ts: Seq<(String, T)>) -> Seq<(String, T)>
    decreases ts.len(),
{
    if ts.len() == 0 {
        ts
    } else {
        let d = dedup_spec(ts.drop_last());
        if exists|j: int| 0 <= j < ts.len() - 1 && #[trigger] ts[j].0@ == ts.last().0@ {
            d
        } else {
            d.push(ts.last())
        }
    }
}

/// Whether some item of `ts` has path `p`.
pub open spec fn has_path<T>(ts: Seq<(String, T)>, p: Seq<char>) -> bool {
    exists|j: int| 0 <= j < ts.len() && #[trigger] ts[j].0@ == p
}

proof fn lemma_has_path_push<T>(s: Seq<(String, T)>, x: (String, T), p: Seq<char>)
    ensures
        has_path(s.push(x), p) <==> (has_path(s, p) || x.0@ == p),
{
    let t = s.push(x);
    if has_path(s, p) {
        let j = choose|j: int| 0 <= j < s.len() && #[trigger] s[j].0@ == p;
        assert(t[j] == s[j]);
    }
    if x.0@ == p {
        assert(t[s.len() as int] == x);
    }
    if has_path(t, p) {
        let j = choose|j: int| 0 <= j < t.len() && #[trigger] t[j].0@ == p;
        if j < s.len() {
            assert(t[j] == s[j]);
        }
    }
}

proof fn lemma_dedup_paths<T>(ts: Seq<(String, T)>)
    ensures
        forall|p: Seq<char>| has_path(dedup_spec(ts), p) <==> has_path(ts, p),
    decreases ts.len(),
{
    if ts.len() > 0 {
        let d = ts.drop_last();
        let x = ts.last();
        assert(ts == d.push(x));
        lemma_dedup_paths(d);
        let dd = dedup_spec(d);
        assert forall|p: Seq<char>| has_path(dedup_spec(ts), p) <==> has_path(ts, p) by {
            lemma_has_path_push(d, x, p);
            lemma_has_path_push(dd, x, p);
            if exists|i: int| 0 <= i < ts.len() - 1 && #[trigger] ts[i].0@ == ts.last().0@ {
                let i = choose|i: int| 0 <= i < ts.len() - 1 && #[trigger] ts[i].0@ == ts.last().0@;
                assert(d[i] == ts[i]);
                assert(has_path(d, x.0@));
            }
        }
    }
}

/// The result of removing duplicate paths holds every path of the input
/// exactly once, keeping the first item of each.
pub proof fn lemma_dedup_unique<T>(ts: Seq<(String, T)>)
    ensures
        forall|i: int, j: int|
            0 <= i < dedup_spec(ts).len() && 0 <= j < dedup_spec(ts).len() && i != j
                ==> #[trigger] dedup_spec(ts)[i].0@ != #[trigger] dedup_spec(ts)[j].0@,
        forall|p: Seq<char>| has_path(dedup_spec(ts), p) <==> has_path(ts, p),
    decreases ts.len(),
{
    lemma_dedup_paths(ts);
    if ts.len() > 0 {
        let d = ts.drop_last();
        lemma_dedup_unique(d);
        lemma_dedup_paths(d);
        let dd = dedup_spec(d);
        let r = dedup_spec(ts);
        if !(exists|i: int| 0 <= i < ts.len() - 1 && #[trigger] ts[i].0@ == ts.last().0@) {
            assert forall|i: int, j: int|
                0 <= i < r.len() && 0 <= j < r.len() && i != j implies #[trigger] r[i].0@
                != #[trigger] r[j].0@ by {
                if i < dd.len() && j < dd.len() {
                    assert(r[i] == dd[i] && r[j] == dd[j]);
                } else if i < dd.len() {
                    assert(r[i] == dd[i]);
                    if dd[i].0@ == ts.last().0@ {
                        assert(has_path(dd, ts.last().0@));
                        assert(has_path(d, ts.last().0@));
                        let k = choose|k: int| 0 <= k < d.len() && #[trigger] d[k].0@ == ts.last().0@;
                        assert(ts[k] == d[k]);
                    }
                } else {
                    assert(r[j] == dd[j]);
                    if dd[j].0@ == ts.last().0@ {
                        assert(has_path(dd, ts.last().0@));
                        assert(has_path(d, ts.last().0@));
                        let k = choose|k: int| 0 <= k < d.len() && #[trigger] d[k].0@ == ts.last().0@;
                        assert(ts[k] == d[k]);
                    }
                }
            }
        }
    }
}

/// Keep the first target of each path (a directory reference overlapping a
/// file reference would otherwise enumerate a path twice).
pub fn dedup_targets<T: Copy>(targets: &[(String, T)]) -> (r: Vec<(String, T)>)
    ensures
        r@ == dedup_spec(targets@),
{
    let mut out: Vec<(String, T)> = Vec::new();
    let mut i: usize = 0;
    while i < targets.len()
        invariant
            i <= targets@.len(),
            out@ == dedup_spec(targets@.subrange(0, i as int)),
        decreases targets@.len() - i,
    {
        let ghost pre = targets@.subrange(0, i as int);
        let ghost post = targets@.subrange(0, i + 1);
        assert(post.drop_last() =~= pre);
        proof {
            lemma_dedup_paths(pre);
        }
        let path = targets[i].0.as_str();
        let mut seen = false;
        let mut k: usize = 0;
        while k < out.len()
            invariant
                k <= out@.len(),
                seen == (exists|m: int| 0 <= m < k && #[trigger] out@[m].0@ == path@),
            decreases out@.len() - k,
        {
            let key = out[k].0.as_str();
            if crate::text::chars_eq(&crate::text::chars_of(key), &crate::text::chars_of(path)) {
                seen = true;
            }
            k = k + 1;
        }
        assert(seen == has_path(out@, path@));
        assert(post.last() == targets@[i as int]);
        assert(has_path(pre, path@) == (exists|j: int|
            0 <= j < post.len() - 1 && #[trigger] post[j].0@ == post.last().0@)) by {
            if has_path(pre, path@) {
                let j = choose|j: int| 0 <= j < pre.len() && #[trigger] pre[j].0@ == path@;
                assert(post[j] == pre[j]);
            }
            if exists|j: int| 0 <= j < post.len() - 1 && #[trigger] post[j].0@ == post.last().0@ {
                let j = choose|j: int| 0 <= j < post.len() - 1 && #[trigger] post[j].0@ == post.last().0@;
                assert(pre[j] == post[j]);
            }
        }
        if !seen {
            let item = (targets[i].0.clone(), targets[i].1);
            out.push(item);
        }
        i = i + 1;
    }
    assert(targets@.subrange(0, targets@.len() as int) =~= targets@);
    out
}

} // verus!

verus! {

/// The coalescing gate of one workspace's reconciles: a trigger bumps `rev`;
/// a pass runs only while `rev != done`, and a successful pass advances
/// `done` to the revision it started from.
#[derive(Debug, Clone, Copy, PartialEq, Eq, Structural)]
pub struct CoalesceGate {
    pub rev: u64,
    pub done: u64,
}

/// The counters after one trigger (the counter wraps like `fetch_add`).
pub open spec fn gate_trigger(g: CoalesceGate) -> CoalesceGate {
    CoalesceGate { rev: if g.rev == u64::MAX { 0 } else { (g.rev + 1) as u64 }, done: g.done }
}

/// The revision a pass would reconcile, or `None` when the latest revision
/// is already reconciled.
pub open spec fn gate_begin(g: CoalesceGate) -> Option<u64> {
    if g.rev == g.done {
        None
    } else {
        Some(g.rev)
    }
}

/// The counters after a pass that started at revision `cur` ended (`ok` on success).
pub open spec fn gate_finish(g: CoalesceGate, cur: u64, ok: bool) -> CoalesceGate {
    if ok {
        CoalesceGate { rev: g.rev, done: cur }
    } else {
        g
    }
}

/// One task of a burst: begin, and if a pass runs, finish it with `ok`.
/// Returns the counters after and whether a pass ran.
pub open spec fn gate_task(g: CoalesceGate, ok: bool) -> (CoalesceGate, bool) {
    match gate_begin(g) {
        Some(cur) => (gate_finish(g, cur, ok), true),
        None => (g, false),
    }
}

/// Runs `n` successful tasks in a row; returns the counters and how many passes ran.
pub open spec fn gate_run_ok(g: CoalesceGate, n: nat) -> (CoalesceGate, nat)
    decreases n,
{
    if n == 0 {
        (g, 0)
    } else {
        let (g1, ran) = gate_task(g, true);
        let (g2, count) = gate_run_ok(g1, (n - 1) as nat);
        (g2, count + if ran { 1nat } else { 0nat })
    }
}

impl CoalesceGate {
    /// Nothing requested, nothing done.
    pub fn new() -> (g: Self)
        ensures
            g.rev == 0 && g.done == 0,
    {
        CoalesceGate { rev: 0, done: 0 }
    }

    /// Record a trigger.
    pub fn trigger(&mut self)
        ensures
            *final(self) == gate_trigger(*old(self)),
    {
        self.rev = self.rev.wrapping_add(1);
    }

    /// Whether a trigger arrived since the last successful pass.
    pub fn pending(&self) -> (r: bool)
        ensures
            r == (gate_begin(*self) is Some),
    {
        self.rev != self.done
    }

    /// The revision a pass should reconcile now, or `None` to skip.
    pub fn begin(&self) -> (r: Option<u64>)
        ensures
            r == gate_begin(*self),
    {
        if self.rev == self.done {
            None
        } else {
            Some(self.rev)
        }
    }

    /// Record the end of a pass that started at revision `cur`.
    pub fn finish(&mut self, cur: u64, ok: bool)
        ensures
            *final(self) == gate_finish(*old(self), cur, ok),
    {
        if ok {
            self.done = cur;
        }
    }
}

/// A burst of triggers followed by any number of successful tasks runs
/// exactly one pass when a trigger is outstanding, and none otherwise.
pub proof fn lemma_burst_runs_once(g: CoalesceGate, n: nat)
    requires
        n >= 1,
    ensures
        gate_run_ok(g, n).1 == (if g.rev != g.done { 1nat } else { 0nat }),
        gate_run_ok(g, n).0.rev == g.rev,
        gate_run_ok(g, n).0.done == g.rev,
    decreases n,
{
    if n > 1 {
        let (g1, _) = gate_task(g, true);
        lemma_burst_runs_once(g1, (n - 1) as nat);
    } else {
        let (g1, _) = gate_task(g, true);
        assert(gate_run_ok(g1, 0).1 == 0);
    }
}

/// A failed pass leaves its revision outstanding, so the next task retries.
pub proof fn lemma_failure_retries(g: CoalesceGate)
    requires
        gate_begin(g) is Some,
    ensures
        gate_begin(gate_finish(g, gate_begin(g)->0, false)) == gate_begin(g),
{
}

/// A trigger that lands while a pass is running leaves one more pass to run
/// after that pass succeeds.
pub proof fn lemma_trigger_during_pass_runs_again(g: CoalesceGate)
    requires
        gate_begin(g) is Some,
    ensures
        gate_begin(gate_finish(gate_trigger(g), gate_begin(g)->0, true)) is Some,
{
}

} // verus!
