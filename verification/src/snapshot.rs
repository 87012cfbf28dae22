//! Change detection for polled external sources: a snapshot maps each path
//! of a mount to a change signature (`modified:size`), and diffing a fresh
//! scan against the stored snapshot yields the created, modified and removed
//! paths.

use vstd::prelude::*;

use crate::strmap::StrMap;

verus! {

/// A path → change-signature map for one mount.
pub type Snapshot = StrMap;

/// The kind of a change.
#[derive(Debug, Clone, Copy, PartialEq, Eq, Structural)]
pub enum ChangeKind {
    Created,
    Modified,
    Removed,
}

/// One change discovered by diffing a fresh scan against the prior snapshot.
#[derive(Debug, Clone, PartialEq, Eq)]
pub enum Change {
    Created(String),
    Modified(String),
    Removed(String),
}

/// A change as a kind and a path.
pub open spec fn change_view(c: Change) -> (ChangeKind, Seq<char>) {
    match c {
        Change::Created(p) => (ChangeKind::Created, p@),
        Change::Modified(p) => (ChangeKind::Modified, p@),
        Change::Removed(p) => (ChangeKind::Removed, p@),
    }
}

/// The changes of a list of changes.
pub open spec fn changes_view(v: Seq<Change>) -> Seq<(ChangeKind, Seq<char>)> {
    Seq::new(v.len(), |i: int| change_view(v[i]))
}

/// Walking the fresh scan: a path the prior snapshot lacks is created, one
/// whose signature differs is modified.
pub open spec fn scan_changes(prev: Map<Seq<char>, Seq<char>>, next: Seq<(Seq<char>, Seq<char>)>) -> Seq<
    (ChangeKind, Seq<char>),
>
    decreases next.len(),
{
    if next.len() == 0 {
        Seq::empty()
    } else {
        let r = scan_changes(prev, next.drop_last());
        let (p, s) = next.last();
        if !prev.dom().contains(p) {
            r.push((ChangeKind::Created, p))
        } else if prev[p] != s {
            r.push((ChangeKind::Modified, p))
        } else {
            r
        }
    }
}

/// Walking the prior snapshot: a path the fresh scan lacks is removed.
pub open spec fn removed_changes(prev: Seq<(Seq<char>, Seq<char>)>, next: Map<Seq<char>, Seq<char>>) -> Seq<
    (ChangeKind, Seq<char>),
>
    decreases prev.len(),
{
    if prev.len() == 0 {
        Seq::empty()
    } else {
        let r = removed_changes(prev.drop_last(), next);
        if !next.dom().contains(prev.last().0) {
            r.push((ChangeKind::Removed, prev.last().0))
        } else {
            r
        }
    }
}

/// Diff `prev` → `next` into created/modified/removed changes: first those
/// found walking the fresh scan, then the removals, each in pair order.
pub fn diff_snapshots(prev: &Snapshot, next: &Snapshot) -> (out: Vec<Change>)
    requires
        prev.wf(),
        next.wf(),
    ensures
        changes_view(out@) == scan_changes(prev.view(), next.pairs()) + removed_changes(
            prev.pairs(),
            next.view(),
        ),
{
    let mut out: Vec<Change> = Vec::new();
    let mut i: usize = 0;
    while i < next.len()
        invariant
            prev.wf(),
            i <= next.pairs().len(),
            changes_view(out@) == scan_changes(prev.view(), next.pairs().subrange(0, i as int)),
        decreases next.pairs().len() - i,
    {
        let ghost pre = next.pairs().subrange(0, i as int);
        let ghost post = next.pairs().subrange(0, i + 1);
        assert(post.drop_last() =~= pre);
        let (path, sig) = next.pair_at(i);
        assert(post.last() == (path@, sig@));
        let ghost before = changes_view(out@);
        match prev.get(path.as_str()) {
            None => {
                out.push(Change::Created(path.clone()));
                assert(changes_view(out@) =~= before.push((ChangeKind::Created, path@)));
            },
            Some(old) => {
                if !(old == *sig) {
                    out.push(Change::Modified(path.clone()));
                    assert(changes_view(out@) =~= before.push((ChangeKind::Modified, path@)));
                }
            },
        }
        i = i + 1;
    }
    assert(next.pairs().subrange(0, next.pairs().len() as int) =~= next.pairs());
    let ghost scanned = changes_view(out@);
    let mut j: usize = 0;
    while j < prev.len()
        invariant
            next.wf(),
            j <= prev.pairs().len(),
            changes_view(out@) == scanned + removed_changes(prev.pairs().subrange(0, j as int), next.view()),
        decreases prev.pairs().len() - j,
    {
        let ghost pre = prev.pairs().subrange(0, j as int);
        let ghost post = prev.pairs().subrange(0, j + 1);
        assert(post.drop_last() =~= pre);
        let (path, _sig) = prev.pair_at(j);
        assert(post.last().0 == path@);
        let ghost before = changes_view(out@);
        if !next.contains_key(path.as_str()) {
            out.push(Change::Removed(path.clone()));
            assert(changes_view(out@) =~= before.push((ChangeKind::Removed, path@)));
        }
        j = j + 1;
    }
    assert(prev.pairs().subrange(0, prev.pairs().len() as int) =~= prev.pairs());
    out
}

proof fn lemma_scan_members(prev: Map<Seq<char>, Seq<char>>, next: Seq<(Seq<char>, Seq<char>)>, c: (
    ChangeKind,
    Seq<char>,
))
    ensures
        scan_changes(prev, next).contains(c) <==> exists|i: int|
            0 <= i < next.len() && #[trigger] next[i].0 == c.1 && (if !prev.dom().contains(
                next[i].0,
            ) {
                c.0 == ChangeKind::Created
            } else if prev[next[i].0] != next[i].1 {
                c.0 == ChangeKind::Modified
            } else {
                false
            }),
    decreases next.len(),
{
    if next.len() > 0 {
        let d = next.drop_last();
        lemma_scan_members(prev, d, c);
        let r = scan_changes(prev, d);
        if scan_changes(prev, next).contains(c) {
            let k = choose|k: int| 0 <= k < scan_changes(prev, next).len() && scan_changes(prev, next)[k] == c;
            if k < r.len() {
                assert(r[k] == c);
                assert(r.contains(c));
                let i = choose|i: int|
                    0 <= i < d.len() && #[trigger] d[i].0 == c.1 && (if !prev.dom().contains(d[i].0) {
                        c.0 == ChangeKind::Created
                    } else if prev[d[i].0] != d[i].1 {
                        c.0 == ChangeKind::Modified
                    } else {
                        false
                    });
                assert(next[i] == d[i]);
            } else {
                assert(next[next.len() - 1] == next.last());
            }
        }
        if exists|i: int|
            0 <= i < next.len() && #[trigger] next[i].0 == c.1 && (if !prev.dom().contains(next[i].0) {
                c.0 == ChangeKind::Created
            } else if prev[next[i].0] != next[i].1 {
                c.0 == ChangeKind::Modified
            } else {
                false
            }) {
            let i = choose|i: int|
                0 <= i < next.len() && #[trigger] next[i].0 == c.1 && (if !prev.dom().contains(next[i].0) {
                    c.0 == ChangeKind::Created
                } else if prev[next[i].0] != next[i].1 {
                    c.0 == ChangeKind::Modified
                } else {
                    false
                });
            if i < next.len() - 1 {
                assert(d[i] == next[i]);
                assert(r.contains(c));
                let k = choose|k: int| 0 <= k < r.len() && r[k] == c;
                let full = scan_changes(prev, next);
                assert(full[k] == c);
            } else {
                let full = scan_changes(prev, next);
                assert(full[full.len() - 1] == c);
            }
        }
    }
}

proof fn lemma_removed_members(prev: Seq<(Seq<char>, Seq<char>)>, next: Map<Seq<char>, Seq<char>>, c: (
    ChangeKind,
    Seq<char>,
))
    ensures
        removed_changes(prev, next).contains(c) <==> (c.0 == ChangeKind::Removed && !next.dom().contains(
            c.1,
        ) && exists|i: int| 0 <= i < prev.len() && #[trigger] prev[i].0 == c.1),
    decreases prev.len(),
{
    if prev.len() > 0 {
        let d = prev.drop_last();
        lemma_removed_members(d, next, c);
        let r = removed_changes(d, next);
        let full = removed_changes(prev, next);
        if full.contains(c) {
            let k = choose|k: int| 0 <= k < full.len() && full[k] == c;
            if k < r.len() {
                assert(r[k] == c);
                assert(r.contains(c));
                let i = choose|i: int| 0 <= i < d.len() && #[trigger] d[i].0 == c.1;
                assert(prev[i] == d[i]);
            } else {
                assert(prev[prev.len() - 1] == prev.last());
            }
        }
        if c.0 == ChangeKind::Removed && !next.dom().contains(c.1) && exists|i: int|
            0 <= i < prev.len() && #[trigger] prev[i].0 == c.1 {
            let i = choose|i: int| 0 <= i < prev.len() && #[trigger] prev[i].0 == c.1;
            if i < prev.len() - 1 {
                assert(d[i] == prev[i]);
                assert(r.contains(c));
                let k = choose|k: int| 0 <= k < r.len() && r[k] == c;
                assert(full[k] == c);
            } else {
                assert(full[full.len() - 1] == c);
            }
        }
    }
}

/// A diff reports exactly the paths that changed: a path is created when
/// only the fresh scan has it, modified when both have it with different
/// signatures, removed when only the prior snapshot has it; an unchanged
/// path produces nothing.
pub proof fn lemma_diff_reports_exactly_the_changes(prev: Snapshot, next: Snapshot, p: Seq<char>)
    requires
        prev.wf(),
        next.wf(),
    ensures
        ({
            let d = scan_changes(prev.view(), next.pairs()) + removed_changes(prev.pairs(), next.view());
            &&& d.contains((ChangeKind::Created, p)) <==> (next.view().dom().contains(p)
                && !prev.view().dom().contains(p))
            &&& d.contains((ChangeKind::Modified, p)) <==> (next.view().dom().contains(p)
                && prev.view().dom().contains(p) && prev.view()[p] != next.view()[p])
            &&& d.contains((ChangeKind::Removed, p)) <==> (prev.view().dom().contains(p)
                && !next.view().dom().contains(p))
        }),
{
    prev.lemma_pairs_view();
    next.lemma_pairs_view();
    let s = scan_changes(prev.view(), next.pairs());
    let r = removed_changes(prev.pairs(), next.view());
    let d = s + r;
    assert forall|kind: ChangeKind| #[trigger] d.contains((kind, p)) <==> (s.contains((kind, p)) || r.contains((kind, p))) by {
        if d.contains((kind, p)) {
            let k = choose|k: int| 0 <= k < d.len() && d[k] == (kind, p);
            if k < s.len() {
                assert(s[k] == d[k]);
            } else {
                assert(r[k - s.len()] == d[k]);
            }
        }
        if s.contains((kind, p)) {
            let k = choose|k: int| 0 <= k < s.len() && s[k] == (kind, p);
            assert(d[k] == s[k]);
        }
        if r.contains((kind, p)) {
            let k = choose|k: int| 0 <= k < r.len() && r[k] == (kind, p);
            assert(d[k + s.len()] == r[k]);
        }
    }
    lemma_scan_members(prev.view(), next.pairs(), (ChangeKind::Created, p));
    lemma_scan_members(prev.view(), next.pairs(), (ChangeKind::Modified, p));
    lemma_scan_members(prev.view(), next.pairs(), (ChangeKind::Removed, p));
    lemma_removed_members(prev.pairs(), next.view(), (ChangeKind::Created, p));
    lemma_removed_members(prev.pairs(), next.view(), (ChangeKind::Modified, p));
    lemma_removed_members(prev.pairs(), next.view(), (ChangeKind::Removed, p));
    if next.view().dom().contains(p) {
        let i = choose|i: int| 0 <= i < next.pairs().len() && next.pairs()[i].0 == p;
        assert(next.pairs()[i].0 == p);
    }
    if prev.view().dom().contains(p) {
        let i = choose|i: int| 0 <= i < prev.pairs().len() && prev.pairs()[i].0 == p;
        assert(prev.pairs()[i].0 == p);
    }
}

} // verus!
