//! Project/session directory layout under a data root, and the rule that
//! keeps a caller-supplied relative path inside its root.

use vstd::prelude::*;
use crate::io::IoErrorKind;

use crate::text::{
    chars_of, contains_char, has_char, join_with, split_chars, split_on, string_of, sub_chars, views,
};

verus! {

/// `PathBuf::join` on Unix: an absolute `seg` replaces `base`; otherwise a
/// separator is inserted unless `base` is empty or already ends in one.
pub open spec fn path_join(base: Seq<char>, seg: Seq<char>) -> Seq<char> {
    if seg.len() > 0 && seg[0] == '/' {
        seg
    } else if base.len() == 0 || base.last() == '/' {
        base + seg
    } else {
        base + seq!['/'] + seg
    }
}

/// Why a relative path was refused.
#[derive(Debug, Clone, Copy, PartialEq, Eq, Structural)]
pub enum PathError {
    /// The path is the empty string.
    Empty,
    /// The path holds a NUL character.
    NulByte,
    /// A `..` segment would climb out of the root.
    ParentDir,
    /// The path starts at the filesystem root.
    Absolute,
    /// Nothing but `.` segments and separators.
    EmptyAfterNormalization,
}

impl PathError {
    /// The reason reported for this error.
    pub open spec fn message_spec(&self) -> Seq<char> {
        match self {
            PathError::Empty => "path must not be empty"@,
            PathError::NulByte => "path must not contain NUL bytes"@,
            PathError::ParentDir => "path must not contain '..' segments"@,
            PathError::Absolute => "path must not be absolute"@,
            PathError::EmptyAfterNormalization => "path is empty after normalization"@,
        }
    }

    /// The I/O error kind a refused path is reported as: invalid input,
    /// whatever the reason.
    pub fn kind(&self) -> (k: IoErrorKind)
        ensures
            k == IoErrorKind::InvalidInput,
    {
        IoErrorKind::InvalidInput
    }

    /// The human-readable reason, as reported to callers.
    pub fn message(&self) -> (r: &'static str)
        ensures
            r@ == self.message_spec(),
    {
        match self {
            PathError::Empty => "path must not be empty",
            PathError::NulByte => "path must not contain NUL bytes",
            PathError::ParentDir => "path must not contain '..' segments",
            PathError::Absolute => "path must not be absolute",
            PathError::EmptyAfterNormalization => "path is empty after normalization",
        }
    }
}

/// The segment `.`.
pub open spec fn dot() -> Seq<char> {
    seq!['.']
}

/// The segment `..`.
pub open spec fn dotdot() -> Seq<char> {
    seq!['.', '.']
}

/// The `Normal` components of a split path: segments that are neither empty
/// nor `.`, in order.
pub open spec fn normal_parts(segs: Seq<Seq<char>>) -> Seq<Seq<char>>
    decreases segs.len(),
{
    if segs.len() == 0 {
        segs
    } else if segs.last().len() > 0 && segs.last() != dot() {
        normal_parts(segs.drop_last()).push(segs.last())
    } else {
        normal_parts(segs.drop_last())
    }
}

/// Whether some segment of `rel` is `..`.
pub open spec fn has_parent_segment(rel: Seq<char>) -> bool {
    exists|k: int| 0 <= k < split_on(rel, '/').len() && split_on(rel, '/')[k] == dotdot()
}

/// The normalized relative path that `rel` denotes, or why it is refused:
/// empty, holding NUL, absolute, climbing with `..`, or empty once `.`
/// segments and separators are dropped. Checked in that order.
pub open spec fn normalize_spec(rel: Seq<char>) -> Result<Seq<char>, PathError> {
    if rel.len() == 0 {
        Err(PathError::Empty)
    } else if has_char(rel, '\0') {
        Err(PathError::NulByte)
    } else if rel[0] == '/' {
        Err(PathError::Absolute)
    } else if has_parent_segment(rel) {
        Err(PathError::ParentDir)
    } else if normal_parts(split_on(rel, '/')).len() == 0 {
        Err(PathError::EmptyAfterNormalization)
    } else {
        Ok(join_with(normal_parts(split_on(rel, '/')), seq!['/']))
    }
}

/// `root` joined with the normalized form of `rel`, or why `rel` is refused.
pub open spec fn safe_join_spec(root: Seq<char>, rel: Seq<char>) -> Result<Seq<char>, PathError> {
    match normalize_spec(rel) {
        Ok(n) => Ok(path_join(root, n)),
        Err(e) => Err(e),
    }
}

/// `segs.join(sep)` over owned pieces.
pub fn join_chars(segs: &Vec<Vec<char>>, sep: &[char]) -> (r: Vec<char>)
    ensures
        r@ == join_with(views(segs@), sep@),
{
    let mut r: Vec<char> = Vec::new();
    let mut k: usize = 0;
    while k < segs.len()
        invariant
            k <= segs@.len(),
            r@ == join_with(views(segs@).subrange(0, k as int), sep@),
        decreases segs@.len() - k,
    {
        let ghost before = r@;
        if k > 0 {
            let mut i: usize = 0;
            while i < sep.len()
                invariant
                    i <= sep@.len(),
                    r@ == before + sep@.subrange(0, i as int),
                decreases sep@.len() - i,
            {
                r.push(sep[i]);
                i = i + 1;
                assert(r@ =~= before + sep@.subrange(0, i as int));
            }
            assert(sep@.subrange(0, sep@.len() as int) =~= sep@);
        }
        let ghost mid = r@;
        let seg = &segs[k];
        let mut j: usize = 0;
        while j < seg.len()
            invariant
                j <= seg@.len(),
                r@ == mid + seg@.subrange(0, j as int),
            decreases seg@.len() - j,
        {
            r.push(seg[j]);
            j = j + 1;
            assert(r@ =~= mid + seg@.subrange(0, j as int));
        }
        assert(seg@.subrange(0, seg@.len() as int) =~= seg@);
        let ghost pre = views(segs@).subrange(0, k as int);
        let ghost post = views(segs@).subrange(0, k + 1);
        assert(post.drop_last() =~= pre);
        assert(post.last() == seg@);
        if k == 0 {
            assert(r@ =~= join_with(post, sep@));
        } else {
            assert(r@ =~= join_with(post, sep@));
        }
        k = k + 1;
    }
    assert(views(segs@).subrange(0, segs@.len() as int) =~= views(segs@));
    r
}

/// `path_join` on owned character vectors.
pub fn join_path(base: &[char], seg: &[char]) -> (r: Vec<char>)
    ensures
        r@ == path_join(base@, seg@),
{
    if seg.len() > 0 && seg[0] == '/' {
        return sub_chars(seg, 0, seg.len());
    }
    let mut r = sub_chars(base, 0, base.len());
    assert(base@.subrange(0, base@.len() as int) =~= base@);
    if base.len() > 0 && base[base.len() - 1] != '/' {
        r.push('/');
    }
    let ghost mid = r@;
    let mut j: usize = 0;
    while j < seg.len()
        invariant
            j <= seg@.len(),
            r@ == mid + seg@.subrange(0, j as int),
        decreases seg@.len() - j,
    {
        r.push(seg[j]);
        j = j + 1;
        assert(r@ =~= mid + seg@.subrange(0, j as int));
    }
    assert(seg@.subrange(0, seg@.len() as int) =~= seg@);
    assert(r@ =~= path_join(base@, seg@));
    r
}

/// The normalized form of the relative path `rel`: its `Normal` segments
/// joined by `/`, or why it is refused (see [`normalize_spec`]).
pub fn normalize_rel(rel: &[char]) -> (r: Result<Vec<char>, PathError>)
    ensures
        match r {
            Ok(v) => normalize_spec(rel@) == Ok::<Seq<char>, PathError>(v@),
            Err(e) => normalize_spec(rel@) == Err::<Seq<char>, PathError>(e),
        },
        r matches Ok(v) ==> split_on(v@, '/') == split_on(rel@, '/').filter(names()),
{
    if rel.len() == 0 {
        return Err(PathError::Empty);
    }
    if contains_char(rel, '\0') {
        return Err(PathError::NulByte);
    }
    if rel[0] == '/' {
        return Err(PathError::Absolute);
    }
    let segs = split_chars(rel, '/');
    let ghost all = views(segs@);
    let mut parts: Vec<Vec<char>> = Vec::new();
    let mut k: usize = 0;
    while k < segs.len()
        invariant
            all == views(segs@),
            all == split_on(rel@, '/'),
            rel@.len() > 0,
            !has_char(rel@, '\0'),
            rel@[0] != '/',
            k <= segs@.len(),
            views(parts@) == normal_parts(all.subrange(0, k as int)),
            forall|m: int| 0 <= m < k ==> all[m] != dotdot(),
        decreases segs@.len() - k,
    {
        let seg = &segs[k];
        let ghost pre = all.subrange(0, k as int);
        let ghost post = all.subrange(0, k + 1);
        assert(post.drop_last() =~= pre);
        assert(post.last() == seg@);
        if seg.len() == 2 && seg[0] == '.' && seg[1] == '.' {
            assert(seg@ =~= dotdot());
            assert(has_parent_segment(rel@));
            return Err(PathError::ParentDir);
        }
        assert(seg@ != dotdot());
        let is_dot = seg.len() == 1 && seg[0] == '.';
        assert(is_dot == (seg@ == dot())) by {
            if seg@ == dot() {
                assert(seg@.len() == 1);
            }
            if is_dot {
                assert(seg@ =~= dot());
            }
        }
        if seg.len() > 0 && !is_dot {
            let ghost old_parts = views(parts@);
            parts.push(sub_chars(seg, 0, seg.len()));
            assert(seg@.subrange(0, seg@.len() as int) =~= seg@);
            assert(views(parts@) =~= old_parts.push(seg@));
        }
        k = k + 1;
    }
    assert(all.subrange(0, segs@.len() as int) =~= all);
    assert(!has_parent_segment(rel@));
    if parts.len() == 0 {
        return Err(PathError::EmptyAfterNormalization);
    }
    let sep = vec!['/'];
    assert(sep@ =~= seq!['/']);
    proof {
        lemma_normalize_keeps_names(rel@);
    }
    Ok(join_chars(&parts, &sep))
}

/// `root` joined with the normalized `rel`; refuses empty paths, NUL bytes,
/// `..` segments and absolute paths, and paths that normalize to nothing.
pub fn safe_join(root: &str, rel: &str) -> (r: Result<String, PathError>)
    ensures
        match r {
            Ok(p) => safe_join_spec(root@, rel@) == Ok::<Seq<char>, PathError>(p@),
            Err(e) => safe_join_spec(root@, rel@) == Err::<Seq<char>, PathError>(e),
        },
{
    let relc = chars_of(rel);
    match normalize_rel(&relc) {
        Ok(n) => {
            let rootc = chars_of(root);
            let joined = join_path(&rootc, &n);
            Ok(string_of(&joined))
        },
        Err(e) => Err(e),
    }
}

/// The write-size cap of an atomic file write: the running total after
/// accepting a further `n` bytes, or `None` once the total would pass
/// `max_bytes` (the write is then abandoned with `FileTooLarge`).
pub fn admit_chunk(total: u64, n: u64, max_bytes: u64) -> (r: Option<u64>)
    requires
        !(max_bytes == u64::MAX && total + n > u64::MAX),
    ensures
        r == (if total + n > max_bytes {
            None::<u64>
        } else {
            Some((total + n) as u64)
        }),
{
    if total > max_bytes || n > max_bytes - total {
        None
    } else {
        Some(total + n)
    }
}

/// The kind of a directory entry under a data root.
pub enum Dirent {
    Dir {},
    File {},
}

/// The on-disk layout of projects and sessions below a data root.
pub struct Storage {
    data_root: String,
}

impl Storage {
    /// The data root.
    pub closed spec fn root(&self) -> Seq<char> {
        self.data_root@
    }

    /// `root/projects/{pid}`.
    pub open spec fn project_dir_spec(&self, pid: Seq<char>) -> Seq<char> {
        path_join(path_join(self.root(), "projects"@), pid)
    }

    /// `root/projects/{pid}/workspace`.
    pub open spec fn workspace_dir_spec(&self, pid: Seq<char>) -> Seq<char> {
        path_join(self.project_dir_spec(pid), "workspace"@)
    }

    /// `root/projects/{pid}/sessions/{sid}`.
    pub open spec fn session_dir_spec(&self, pid: Seq<char>, sid: Seq<char>) -> Seq<char> {
        path_join(path_join(self.project_dir_spec(pid), "sessions"@), sid)
    }

    /// A layout under `data_root`.
    pub fn new(data_root: String) -> (s: Self)
        ensures
            s.root() == data_root@,
    {
        Storage { data_root }
    }

    fn join_lit(base: &[char], lit: &str) -> (r: Vec<char>)
        ensures
            r@ == path_join(base@, lit@),
    {
        let l = chars_of(lit);
        join_path(base, &l)
    }

    /// `data_root/projects/{pid}`.
    pub fn get_project_dir(&self, pid: &str) -> (r: String)
        ensures
            r@ == self.project_dir_spec(pid@),
    {
        let root = chars_of(self.data_root.as_str());
        let projects = Self::join_lit(&root, "projects");
        let p = chars_of(pid);
        string_of(&join_path(&projects, &p))
    }

    /// `data_root/projects/{pid}/workspace`.
    pub fn get_workspace_dir(&self, pid: &str) -> (r: String)
        ensures
            r@ == self.workspace_dir_spec(pid@),
    {
        let d = chars_of(self.get_project_dir(pid).as_str());
        string_of(&Self::join_lit(&d, "workspace"))
    }

    /// `data_root/projects/{pid}/sessions/{sid}`.
    pub fn get_session_dir(&self, pid: &str, sid: &str) -> (r: String)
        ensures
            r@ == self.session_dir_spec(pid@, sid@),
    {
        let d = chars_of(self.get_project_dir(pid).as_str());
        let sessions = Self::join_lit(&d, "sessions");
        let s = chars_of(sid);
        string_of(&join_path(&sessions, &s))
    }

    /// `data_root/projects/{pid}/sessions/{sid}/attachments`.
    pub fn get_attachments_dir(&self, pid: &str, sid: &str) -> (r: String)
        ensures
            r@ == path_join(self.session_dir_spec(pid@, sid@), "attachments"@),
    {
        let d = chars_of(self.get_session_dir(pid, sid).as_str());
        string_of(&Self::join_lit(&d, "attachments"))
    }

    /// `data_root/projects/{pid}/sessions/{sid}/artifacts`.
    pub fn get_artifacts_dir(&self, pid: &str, sid: &str) -> (r: String)
        ensures
            r@ == path_join(self.session_dir_spec(pid@, sid@), "artifacts"@),
    {
        let d = chars_of(self.get_session_dir(pid, sid).as_str());
        string_of(&Self::join_lit(&d, "artifacts"))
    }

    /// Where a workspace-relative `rel` of project `pid` lives, or why `rel`
    /// is refused.
    pub fn workspace_path(&self, pid: &str, rel: &str) -> (r: Result<String, PathError>)
        ensures
            match r {
                Ok(p) => safe_join_spec(self.workspace_dir_spec(pid@), rel@) == Ok::<
                    Seq<char>,
                    PathError,
                >(p@),
                Err(e) => safe_join_spec(self.workspace_dir_spec(pid@), rel@) == Err::<
                    Seq<char>,
                    PathError,
                >(e),
            },
    {
        let w = self.get_workspace_dir(pid);
        safe_join(w.as_str(), rel)
    }

    /// Where an attachment `rel` of session `sid` lives, or why `rel` is refused.
    pub fn attachment_path(&self, pid: &str, sid: &str, rel: &str) -> (r: Result<
        String,
        PathError,
    >)
        ensures
            match r {
                Ok(p) => safe_join_spec(
                    path_join(self.session_dir_spec(pid@, sid@), "attachments"@),
                    rel@,
                ) == Ok::<Seq<char>, PathError>(p@),
                Err(e) => safe_join_spec(
                    path_join(self.session_dir_spec(pid@, sid@), "attachments"@),
                    rel@,
                ) == Err::<Seq<char>, PathError>(e),
            },
    {
        let a = self.get_attachments_dir(pid, sid);
        safe_join(a.as_str(), rel)
    }
}

proof fn lemma_normal_parts_members(segs: Seq<Seq<char>>)
    ensures
        forall|k: int| 0 <= k < normal_parts(segs).len() ==> {
            &&& (#[trigger] normal_parts(segs)[k]).len() > 0
            &&& normal_parts(segs)[k] != dot()
            &&& exists|j: int| 0 <= j < segs.len() && segs[j] == normal_parts(segs)[k]
        },
    decreases segs.len(),
{
    if segs.len() > 0 {
        lemma_normal_parts_members(segs.drop_last());
        let r = normal_parts(segs.drop_last());
        assert forall|k: int| 0 <= k < normal_parts(segs).len() implies {
            &&& (#[trigger] normal_parts(segs)[k]).len() > 0
            &&& normal_parts(segs)[k] != dot()
            &&& exists|j: int| 0 <= j < segs.len() && segs[j] == normal_parts(segs)[k]
        } by {
            if k < r.len() {
                assert(normal_parts(segs)[k] == r[k]);
                let j = choose|j: int| 0 <= j < segs.drop_last().len() && segs.drop_last()[j] == r[k];
                assert(segs[j] == segs.drop_last()[j]);
            } else {
                assert(normal_parts(segs)[k] == segs.last());
                assert(segs[segs.len() - 1] == segs.last());
            }
        }
    }
}

/// Whether a path segment is a name: not empty and not `.`.
pub open spec fn is_name_segment(s: Seq<char>) -> bool {
    s.len() > 0 && s != seq!['.']
}

/// [`is_name_segment`] as a predicate on segments.
pub open spec fn names() -> spec_fn(Seq<char>) -> bool {
    |s: Seq<char>| is_name_segment(s)
}

proof fn lemma_normal_parts_filter(segs: Seq<Seq<char>>)
    ensures
        normal_parts(segs) == segs.filter(names()),
    decreases segs.len(),
{
    reveal(Seq::filter);
    if segs.len() > 0 {
        lemma_normal_parts_filter(segs.drop_last());
    }
}

/// Normalizing keeps every name: an accepted relative path normalizes to
/// exactly its segments other than empty and `.` ones, in order, joined by
/// `/` (a dot-file such as `.env` is a name and is kept).
pub proof fn lemma_normalize_keeps_names(rel: Seq<char>)
    requires
        normalize_spec(rel) is Ok,
    ensures
        normalize_spec(rel) matches Ok(n) && split_on(n, '/') == split_on(rel, '/').filter(names()),
{
    let parts = normal_parts(split_on(rel, '/'));
    lemma_normal_parts_filter(split_on(rel, '/'));
    lemma_normal_parts_members(split_on(rel, '/'));
    crate::text::lemma_split_pieces_lack_sep(rel, '/');
    assert forall|k: int| 0 <= k < parts.len() implies !has_char(#[trigger] parts[k], '/') by {
        let j = choose|j: int| 0 <= j < split_on(rel, '/').len() && split_on(rel, '/')[j] == parts[k];
        assert(!has_char(split_on(rel, '/')[j], '/'));
    }
    crate::text::lemma_split_join(parts, '/');
}

proof fn lemma_join_starts_with_first(parts: Seq<Seq<char>>, sep: Seq<char>)
    requires
        parts.len() >= 1,
    ensures
        parts[0].is_prefix_of(join_with(parts, sep)),
    decreases parts.len(),
{
    if parts.len() > 1 {
        lemma_join_starts_with_first(parts.drop_last(), sep);
        assert(parts.drop_last()[0] == parts[0]);
        let j = join_with(parts.drop_last(), sep);
        assert forall|i: int| 0 <= i < parts[0].len() implies (j + sep + parts.last())[i] == parts[0][i] by {
            assert((j + sep + parts.last())[i] == j[i]);
        }
    }
}

/// A relative path joined under a root stays below it: the normalized part
/// is non-empty, does not start at the filesystem root, and every one of its
/// segments is a plain name (never empty, `.` or `..`).
pub proof fn lemma_safe_join_stays_inside(root: Seq<char>, rel: Seq<char>)
    requires
        safe_join_spec(root, rel) is Ok,
    ensures
        normalize_spec(rel) matches Ok(n) && {
            &&& safe_join_spec(root, rel) == Ok::<Seq<char>, PathError>(path_join(root, n))
            &&& n.len() > 0
            &&& n[0] != '/'
            &&& forall|k: int| 0 <= k < split_on(n, '/').len() ==> {
                &&& (#[trigger] split_on(n, '/')[k]).len() > 0
                &&& split_on(n, '/')[k] != dot()
                &&& split_on(n, '/')[k] != dotdot()
            }
        },
{
    let segs = split_on(rel, '/');
    let parts = normal_parts(segs);
    lemma_normal_parts_members(segs);
    crate::text::lemma_split_pieces_lack_sep(rel, '/');
    assert forall|k: int| 0 <= k < parts.len() implies !has_char(#[trigger] parts[k], '/') && parts[k] != dotdot() by {
        let j = choose|j: int| 0 <= j < segs.len() && segs[j] == parts[k];
        assert(!has_char(segs[j], '/'));
        assert(!has_parent_segment(rel));
        assert(segs[j] != dotdot());
    }
    crate::text::lemma_split_join(parts, '/');
    let n = join_with(parts, seq!['/']);
    lemma_join_starts_with_first(parts, seq!['/']);
    assert(parts[0].len() > 0);
    assert(n[0] == parts[0][0]);
    assert(!has_char(parts[0], '/'));
    assert(parts[0][0] != '/');
}

} // verus!
