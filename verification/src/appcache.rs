//! In-memory bookkeeping of the application state: how many knowledge
//! resyncs are in flight per project, the last resync error, the content-id
//! cache of knowledge files, the bounded cache of open document stores, and
//! the output buffer of an agent run in progress.
//!
//! The application shares these tables between tasks in concurrent maps
//! that change behind a shared reference. Verus takes what a shared
//! reference points to as unchanging, so the contents of such a map could
//! not be stated across its updates; here each table is an owned map (a
//! `HashMap` where the key is an integer), changed through `&mut self`,
//! which the application keeps behind its lock.

use std::collections::HashMap;

use vstd::prelude::*;
use vstd::std_specs::hash::spec_hash_map_iter;
use vstd::std_specs::iter::IteratorSpec;

use crate::text::str_eq;

verus! {

/// In-flight knowledge resyncs per project.
pub struct IndexingCounts {
    counts: HashMap<u128, u32>,
}

impl IndexingCounts {
    /// How many indexing passes of `project` are in progress.
    pub closed spec fn count(&self, project: u128) -> nat {
        if self.counts@.contains_key(project) {
            self.counts@[project] as nat
        } else {
            0
        }
    }

    /// No pass in progress.
    pub fn new() -> (c: Self)
        ensures
            forall|p: u128| c.count(p) == 0,
    {
        IndexingCounts { counts: HashMap::new() }
    }

    /// The count of `project`.
    fn get(&self, project: u128) -> (n: u32)
        ensures
            n == self.count(project),
    {
        broadcast use vstd::std_specs::hash::group_hash_axioms;

        match self.counts.get(&project) {
            Some(n) => *n,
            None => 0,
        }
    }

    /// A resync starts for `project`.
    pub fn begin(&mut self, project: u128)
        requires
            old(self).count(project) < u32::MAX,
        ensures
            final(self).count(project) == old(self).count(project) + 1,
            forall|p: u128| p != project ==> final(self).count(p) == old(self).count(p),
    {
        broadcast use vstd::std_specs::hash::group_hash_axioms;

        let n = self.get(project);
        self.counts.insert(project, n + 1);
    }

    /// A resync for `project` ended (the count never goes below zero).
    pub fn end(&mut self, project: u128)
        ensures
            final(self).count(project) == (if old(self).count(project) == 0 {
                0
            } else {
                old(self).count(project) - 1
            }),
            forall|p: u128| p != project ==> final(self).count(p) == old(self).count(p),
    {
        broadcast use vstd::std_specs::hash::group_hash_axioms;

        let n = self.get(project);
        if n > 0 {
            self.counts.insert(project, n - 1);
        }
    }

    /// Whether a resync is in flight for `project`.
    pub fn is_indexing(&self, project: u128) -> (r: bool)
        ensures
            r == (self.count(project) > 0),
    {
        self.get(project) > 0
    }
}

/// A content id cached for a knowledge file, with the modification time
/// (nanoseconds from the epoch) and size it was computed for.
pub struct FileIdEntry {
    pub project: u128,
    pub path: String,
    pub mtime: i128,
    pub size: u64,
    pub id: u128,
}

/// The content-id cache of knowledge files, keyed by project and path. It
/// is a list rather than a `HashMap` because the key holds a path and
/// vstd's hash-table specifications hold only for keys whose hashing it
/// models (the integer types), not for `String`.
pub struct FileIdCache {
    entries: Vec<FileIdEntry>,
}

/// The last entry for `(project, path)` in `es`, if any.
pub open spec fn last_entry(es: Seq<FileIdEntry>, project: u128, path: Seq<char>) -> Option<FileIdEntry>
    decreases es.len(),
{
    if es.len() == 0 {
        None
    } else if es.last().project == project && es.last().path@ == path {
        Some(es.last())
    } else {
        last_entry(es.drop_last(), project, path)
    }
}

/// What the cache answers for a file seen with `mtime` and `size`: the
/// cached id when the cached time and size still match, else nothing.
pub open spec fn cached_spec(es: Seq<FileIdEntry>, project: u128, path: Seq<char>, mtime: i128, size: u64) -> Option<u128> {
    match last_entry(es, project, path) {
        Some(e) => if e.mtime == mtime && e.size == size {
            Some(e.id)
        } else {
            None
        },
        None => None,
    }
}

impl FileIdCache {
    /// The cached entries, oldest first.
    pub closed spec fn entries_view(&self) -> Seq<FileIdEntry> {
        self.entries@
    }

    /// An empty cache.
    pub fn new() -> (c: Self)
        ensures
            c.entries_view() == Seq::<FileIdEntry>::empty(),
    {
        FileIdCache { entries: Vec::new() }
    }

    /// The cached id of a file, valid only while its time and size match.
    pub fn cached(&self, project: u128, path: &str, mtime: i128, size: u64) -> (r: Option<u128>)
        ensures
            r == cached_spec(self.entries_view(), project, path@, mtime, size),
    {
        let mut i: usize = self.entries.len();
        assert(self.entries@.subrange(0, self.entries@.len() as int) =~= self.entries@);
        while i > 0
            invariant
                i <= self.entries@.len(),
                last_entry(self.entries@, project, path@) == last_entry(self.entries@.subrange(0, i as int), project, path@),
            decreases i,
        {
            let e = &self.entries[i - 1];
            let ghost pre = self.entries@.subrange(0, i as int);
            assert(pre.drop_last() =~= self.entries@.subrange(0, i - 1));
            assert(pre.last() == *e);
            if e.project == project && str_eq(e.path.as_str(), path) {
                if e.mtime == mtime && e.size == size {
                    return Some(e.id);
                } else {
                    return None;
                }
            }
            i = i - 1;
        }
        None
    }

    /// Record a file's content id with the time and size it was computed for,
    /// replacing what was cached for the file.
    pub fn cache(&mut self, project: u128, path: String, mtime: i128, size: u64, id: u128)
        ensures
            final(self).entries_view() == old(self).entries_view().push(
                FileIdEntry { project, path, mtime, size, id },
            ),
    {
        self.entries.push(FileIdEntry { project, path, mtime, size, id });
    }
}

/// A read of the cache gives back the last id recorded for a file while
/// the file keeps the time and size it was recorded with, and nothing once
/// either changed; other files are unaffected by the recording.
pub proof fn lemma_cache_reads_back(
    es: Seq<FileIdEntry>,
    project: u128,
    path: String,
    mtime: i128,
    size: u64,
    id: u128,
    other_project: u128,
    other_path: Seq<char>,
    m2: i128,
    s2: u64,
)
    ensures
        ({
            let n = es.push(FileIdEntry { project, path, mtime, size, id });
            &&& cached_spec(n, project, path@, mtime, size) == Some(id)
            &&& (m2 != mtime || s2 != size) ==> cached_spec(n, project, path@, m2, s2) is None
            &&& !(other_project == project && other_path == path@) ==> cached_spec(
                n,
                other_project,
                other_path,
                m2,
                s2,
            ) == cached_spec(es, other_project, other_path, m2, s2)
        }),
{
    let n = es.push(FileIdEntry { project, path, mtime, size, id });
    assert(n.drop_last() =~= es);
}

/// Cap on simultaneously open document stores.
pub const MAX_OPEN_STORES: usize = 64;

/// What accessing a project's store does to the cache.
#[derive(Debug, Clone, Copy, PartialEq, Eq, Structural)]
pub enum StoreAccess {
    /// The store was open; its access time moved.
    Hit,
    /// The store must be opened; `evicted` names the least recently used
    /// store dropped to make room, if the cache was full.
    Miss { evicted: Option<u128> },
}

/// The open document stores by project, with their last access times.
pub struct StoreLru {
    entries: HashMap<u128, u64>,
}

impl StoreLru {
    /// The open stores with the time each was last used.
    pub closed spec fn view(&self) -> Map<u128, u64> {
        self.entries@
    }

    /// Never more stores than the cap.
    pub closed spec fn wf(&self) -> bool {
        self.entries@.dom().finite() && self.entries@.len() <= MAX_OPEN_STORES
    }

    /// No store open.
    pub fn new() -> (c: Self)
        ensures
            c.wf(),
            c.view() == Map::<u128, u64>::empty(),
    {
        StoreLru { entries: HashMap::new() }
    }

    /// Whether `project`'s store is open.
    pub open spec fn holds(&self, project: u128) -> bool {
        self.view().contains_key(project)
    }

    /// A project whose store was used least recently.
    fn oldest(&self) -> (r: u128)
        requires
            self.entries@.len() > 0,
            self.entries@.dom().finite(),
        ensures
            self.entries@.contains_key(r),
            forall|q: u128| #[trigger] self.entries@.contains_key(q) ==> self.entries@[r] <= self.entries@[q],
    {
        broadcast use vstd::std_specs::hash::group_hash_axioms;

        let mut best: Option<(u128, u64)> = None;
        for kv in it: self.entries.iter()
            invariant
                it.seq() == spec_hash_map_iter(&self.entries).remaining(),
                match best {
                    None => it.index() == 0,
                    Some((bk, bt)) => self.entries@.contains_key(bk) && self.entries@[bk] == bt
                        && forall|i: int| 0 <= i < it.index() ==> bt <= *(#[trigger] it.seq()[i]).1,
                },
        {
            let (k, t) = kv;
            match best {
                None => {
                    best = Some((*k, *t));
                },
                Some((_, bt)) => {
                    if *t < bt {
                        best = Some((*k, *t));
                    }
                },
            }
        }
        match best {
            Some((k, _)) => k,
            None => 0,
        }
    }

    /// Access `project`'s store at time `now`: an open store is touched; a
    /// closed one is added, evicting the least recently used store when the
    /// cache is full. The cache never holds more than the cap; afterwards
    /// it holds the accessed project, used at `now`, and every other store
    /// it held but the evicted one, with its time unchanged.
    pub fn access(&mut self, project: u128, now: u64) -> (r: StoreAccess)
        requires
            old(self).wf(),
        ensures
            final(self).wf(),
            (r == StoreAccess::Hit) == old(self).holds(project),
            r matches StoreAccess::Miss { evicted: Some(v) } ==> old(self).holds(v) && v != project
                && old(self).view().len() == MAX_OPEN_STORES && forall|q: u128|
                #[trigger] old(self).view().contains_key(q) ==> old(self).view()[v] <= old(self).view()[q],
            r matches StoreAccess::Miss { evicted: None } ==> old(self).view().len() < MAX_OPEN_STORES,
            final(self).view() == (match r {
                StoreAccess::Miss { evicted: Some(v) } => old(self).view().remove(v),
                _ => old(self).view(),
            }).insert(project, now),
    {
        broadcast use vstd::std_specs::hash::group_hash_axioms;

        if self.entries.contains_key(&project) {
            self.entries.insert(project, now);
            return StoreAccess::Hit;
        }
        let mut evicted: Option<u128> = None;
        if self.entries.len() >= MAX_OPEN_STORES {
            let o = self.oldest();
            self.entries.remove(&o);
            evicted = Some(o);
        }
        self.entries.insert(project, now);
        StoreAccess::Miss { evicted }
    }
}

/// The output buffer of an agent run in progress: outputs numbered from
/// zero in arrival order.
pub struct RunBuffer<T> {
    run_id: u128,
    next_seq: u64,
    outputs: Vec<(u64, T)>,
}

impl<T> RunBuffer<T> {
    /// The run the buffer belongs to.
    pub closed spec fn run_spec(&self) -> u128 {
        self.run_id
    }

    /// The run the buffer belongs to.
    pub fn run_id(&self) -> (r: u128)
        ensures
            r == self.run_spec(),
    {
        self.run_id
    }

    /// The buffered outputs with their numbers, in order.
    pub closed spec fn outputs_view(&self) -> Seq<(u64, T)> {
        self.outputs@
    }

    /// The number the next output gets.
    pub closed spec fn next(&self) -> nat {
        self.next_seq as nat
    }

    /// Outputs are numbered `0, 1, …` in order and the next number follows.
    pub closed spec fn wf(&self) -> bool {
        &&& self.next_seq == self.outputs@.len()
        &&& forall|i: int| 0 <= i < self.outputs@.len() ==> #[trigger] self.outputs@[i].0 == i
    }

    /// A run with no output yet.
    pub fn new(run_id: u128) -> (b: Self)
        ensures
            b.wf(),
            b.run_spec() == run_id,
            b.outputs_view().len() == 0,
    {
        RunBuffer { run_id, next_seq: 0, outputs: Vec::new() }
    }

    /// Append an output; returns the number it got, which is the number of
    /// outputs before it.
    pub fn push(&mut self, output: T) -> (seq: u64)
        requires
            old(self).wf(),
            old(self).outputs_view().len() < u64::MAX,
        ensures
            final(self).wf(),
            seq == old(self).outputs_view().len(),
            final(self).outputs_view() == old(self).outputs_view().push((seq, output)),
            final(self).run_spec() == old(self).run_spec(),
    {
        let seq = self.next_seq;
        self.next_seq = self.next_seq + 1;
        self.outputs.push((seq, output));
        seq
    }

    /// The outputs so far.
    pub fn outputs(&self) -> (r: &Vec<(u64, T)>)
        ensures
            r@ == self.outputs_view(),
    {
        &self.outputs
    }
}

/// The runs in progress, by session.
pub struct RunRegistry<T> {
    runs: HashMap<u128, RunBuffer<T>>,
}

impl<T> RunRegistry<T> {
    /// Each buffer well numbered.
    pub closed spec fn wf(&self) -> bool {
        forall|s: u128| #[trigger] self.runs@.contains_key(s) ==> self.runs@[s].wf()
    }

    /// Whether a run is in progress for `session`.
    pub closed spec fn active(&self, session: u128) -> bool {
        self.runs@.contains_key(session)
    }

    /// The buffer of `session`'s run, if any.
    pub closed spec fn buffer(&self, session: u128) -> Option<RunBuffer<T>> {
        if self.runs@.contains_key(session) {
            Some(self.runs@[session])
        } else {
            None
        }
    }

    /// No run in progress.
    pub fn new() -> (r: Self)
        ensures
            r.wf(),
            forall|s: u128| !r.active(s),
    {
        RunRegistry { runs: HashMap::new() }
    }

    /// Register a run for `session`, replacing a stale entry (a run whose
    /// end was never recorded); returns whether one was replaced.
    pub fn start(&mut self, session: u128, run_id: u128) -> (replaced: bool)
        requires
            old(self).wf(),
        ensures
            final(self).wf(),
            replaced == old(self).active(session),
            final(self).active(session),
            final(self).buffer(session) matches Some(b) && b.run_spec() == run_id && b.outputs_view().len() == 0,
            forall|s: u128| s != session ==> final(self).active(s) == old(self).active(s) && final(self).buffer(s) == old(self).buffer(s),
    {
        broadcast use vstd::std_specs::hash::group_hash_axioms;

        let prior = self.runs.insert(session, RunBuffer::new(run_id));
        prior.is_some()
    }

    /// Forget `session`'s run; returns whether one was registered.
    pub fn end(&mut self, session: u128) -> (was: bool)
        requires
            old(self).wf(),
        ensures
            final(self).wf(),
            was == old(self).active(session),
            !final(self).active(session),
            forall|s: u128| s != session ==> final(self).active(s) == old(self).active(s) && final(self).buffer(s) == old(self).buffer(s),
    {
        broadcast use vstd::std_specs::hash::group_hash_axioms;

        let prior = self.runs.remove(&session);
        prior.is_some()
    }

    /// Append an output to `session`'s run; returns its number, or `None`
    /// when no run is in progress for the session.
    pub fn push_output(&mut self, session: u128, output: T) -> (r: Option<u64>)
        requires
            old(self).wf(),
            old(self).buffer(session) matches Some(b) ==> b.outputs_view().len() < u64::MAX,
        ensures
            final(self).wf(),
            (r is Some) == old(self).active(session),
            r matches Some(seq) ==> (old(self).buffer(session) matches Some(b) && seq == b.outputs_view().len()
                && (final(self).buffer(session) matches Some(nb) && nb.run_spec() == b.run_spec()
                && nb.outputs_view() == b.outputs_view().push((seq, output)))),
            forall|s: u128| s != session ==> final(self).active(s) == old(self).active(s) && final(self).buffer(s) == old(self).buffer(s),
            final(self).active(session) == old(self).active(session),
    {
        broadcast use vstd::std_specs::hash::group_hash_axioms;

        match self.runs.remove(&session) {
            None => None,
            Some(mut buf) => {
                let seq = buf.push(output);
                self.runs.insert(session, buf);
                Some(seq)
            },
        }
    }

    /// Whether a run is in progress for `session`.
    pub fn has_active_run(&self, session: u128) -> (r: bool)
        ensures
            r == self.active(session),
    {
        broadcast use vstd::std_specs::hash::group_hash_axioms;

        self.runs.contains_key(&session)
    }
}

} // verus!
