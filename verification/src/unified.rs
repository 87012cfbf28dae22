//! The decisions of the workspace filesystem: how metadata and errors of
//! local files and provider objects are expressed, which paths of the
//! unified guest tree are local files (under `files/`) and which belong to a
//! provider mount, what a read-only mount refuses, how a cursor over a mount
//! object moves, and which changes under `knowledge/` are reported.
//!
//! Times are seconds since the Unix epoch; `None` where a source does not
//! report them (or reports a time before the epoch).

use vstd::prelude::*;

use vstd::utf8::encode_utf8;

use crate::io::IoErrorKind;
use crate::text::{
    chars_eq, chars_of, push_chars, push_str, starts_with, string_of, sub_chars,
    trim_char, trim_matches, trim_start_char, trim_start_matches,
};

verus! {

/// Errors a workspace filesystem operation can produce.
#[derive(Debug, Clone, Copy, PartialEq, Eq, Structural)]
pub enum FsError {
    /// Operation not supported for this node.
    NotImplemented,
    /// Catch-all failure.
    GeneralFailure,
    /// Tried to create something that already exists.
    Exists,
    /// Path not found.
    NotFound,
    /// Operation not permitted.
    Forbidden,
}

/// The workspace error an I/O error kind maps to.
pub open spec fn fs_error_of_io(k: IoErrorKind) -> FsError {
    match k {
        IoErrorKind::NotFound => FsError::NotFound,
        IoErrorKind::AlreadyExists => FsError::Exists,
        IoErrorKind::PermissionDenied => FsError::Forbidden,
        _ => FsError::GeneralFailure,
    }
}

/// Kind of a provider object.
#[derive(Debug, Clone, Copy, PartialEq, Eq, Structural)]
pub enum FileKind {
    File,
    Dir,
}

/// Metadata a provider reports for an object.
#[derive(Debug, Clone, Copy, PartialEq, Eq, Structural)]
pub struct FileStat {
    pub kind: FileKind,
    pub size: u64,
    pub mtime: Option<u64>,
    pub atime: Option<u64>,
    pub ctime: Option<u64>,
}

/// One entry of a provider directory listing.
pub struct VfsDirEntry {
    pub name: String,
    pub kind: FileKind,
    pub size: u64,
    pub mtime: Option<u64>,
}

/// A provider failure, as the provider classifies it.
pub enum VfsError {
    NotFound,
    Unsupported,
    Backend(String),
}

/// The workspace error a provider failure maps to.
pub open spec fn fs_error_of_vfs(e: VfsError) -> FsError {
    match e {
        VfsError::NotFound => FsError::NotFound,
        VfsError::Unsupported => FsError::NotImplemented,
        VfsError::Backend(_) => FsError::GeneralFailure,
    }
}

impl FsError {
    /// The workspace error for a local I/O failure.
    pub fn from_io(k: IoErrorKind) -> (e: FsError)
        ensures
            e == fs_error_of_io(k),
    {
        match k {
            IoErrorKind::NotFound => FsError::NotFound,
            IoErrorKind::AlreadyExists => FsError::Exists,
            IoErrorKind::PermissionDenied => FsError::Forbidden,
            _ => FsError::GeneralFailure,
        }
    }

    /// The workspace error for a provider failure: not found stays not
    /// found, an unsupported operation is not implemented, anything else is
    /// a general failure.
    pub fn from_vfs(e: &VfsError) -> (r: FsError)
        ensures
            r == fs_error_of_vfs(*e),
    {
        match e {
            VfsError::NotFound => FsError::NotFound,
            VfsError::Unsupported => FsError::NotImplemented,
            VfsError::Backend(_) => FsError::GeneralFailure,
        }
    }
}

/// How a file should be opened.
#[derive(Debug, Clone, Copy, Default)]
pub struct OpenOptions {
    pub read: bool,
    pub write: bool,
    pub append: bool,
    pub truncate: bool,
    pub create: bool,
    pub create_new: bool,
}

/// Whether entry metadata of a listing follows symlinks.
#[derive(Debug, Clone, Copy, PartialEq, Eq, Structural)]
pub enum ReadDirMeta {
    /// Entry metadata follows symlinks.
    Data,
    /// Entry metadata describes the symlink itself.
    DataSymlink,
    /// No optimisation; behaves like `DataSymlink`.
    NoHint,
}

/// Whether a listing with this hint stats the link target.
pub fn follows_symlinks(meta: ReadDirMeta) -> (r: bool)
    ensures
        r == (meta == ReadDirMeta::Data),
{
    match meta {
        ReadDirMeta::Data => true,
        _ => false,
    }
}

/// The kind of a filesystem node; a symlink arises only from a local
/// `symlink_metadata`.
#[derive(Debug, Clone, Copy, PartialEq, Eq, Structural)]
pub enum NodeKind {
    File,
    Dir,
    Symlink,
}

/// File metadata of a local file or a provider object.
#[derive(Debug, Clone, Copy, PartialEq, Eq, Structural)]
pub struct Stat {
    pub kind: NodeKind,
    pub len: u64,
    pub modified: Option<u64>,
    pub accessed: Option<u64>,
    pub created: Option<u64>,
    pub status_changed: Option<u64>,
    pub executable: Option<bool>,
}

impl Stat {
    /// Whether the node is a directory.
    pub fn is_dir(&self) -> (r: bool)
        ensures
            r == (self.kind == NodeKind::Dir),
    {
        match self.kind {
            NodeKind::Dir => true,
            _ => false,
        }
    }

    /// Whether the node is a regular file.
    pub fn is_file(&self) -> (r: bool)
        ensures
            r == (self.kind == NodeKind::File),
    {
        match self.kind {
            NodeKind::File => true,
            _ => false,
        }
    }

    /// Whether the node is a symbolic link.
    pub fn is_symlink(&self) -> (r: bool)
        ensures
            r == (self.kind == NodeKind::Symlink),
    {
        match self.kind {
            NodeKind::Symlink => true,
            _ => false,
        }
    }
}

/// The node kind of a provider object kind.
pub fn node_kind_of(kind: FileKind) -> (r: NodeKind)
    ensures
        r == (match kind {
            FileKind::Dir => NodeKind::Dir,
            FileKind::File => NodeKind::File,
        }),
{
    match kind {
        FileKind::Dir => NodeKind::Dir,
        FileKind::File => NodeKind::File,
    }
}

/// The metadata of a provider object: kind, size and the times the provider
/// reports; the local-only fields stay unknown.
pub fn stat_from_vfs(fs: FileStat) -> (s: Stat)
    ensures
        s.kind == (match fs.kind {
            FileKind::Dir => NodeKind::Dir,
            FileKind::File => NodeKind::File,
        }),
        s.len == fs.size,
        s.modified == fs.mtime,
        s.accessed == fs.atime,
        s.created is None,
        s.status_changed == fs.ctime,
        s.executable is None,
{
    Stat {
        kind: node_kind_of(fs.kind),
        len: fs.size,
        modified: fs.mtime,
        accessed: fs.atime,
        created: None,
        status_changed: fs.ctime,
        executable: None,
    }
}

/// One entry of a workspace directory listing, with the metadata captured
/// when the directory was listed.
pub struct DirEntry {
    name: Vec<u8>,
    metadata: Result<Stat, FsError>,
}

impl DirEntry {
    /// An entry with the given raw name and metadata.
    pub fn new(name: Vec<u8>, metadata: Result<Stat, FsError>) -> (e: DirEntry)
        ensures
            e.name_view() == name@,
            e.metadata_view() == metadata,
    {
        DirEntry { name, metadata }
    }

    /// The entry's name bytes.
    pub closed spec fn name_view(&self) -> Seq<u8> {
        self.name@
    }

    /// The entry's metadata, or why it could not be read.
    pub closed spec fn metadata_view(&self) -> Result<Stat, FsError> {
        self.metadata
    }

    /// Raw filename bytes (no path).
    pub fn name(&self) -> (r: Vec<u8>)
        ensures
            r@ == self.name_view(),
    {
        let mut r: Vec<u8> = Vec::new();
        let mut i: usize = 0;
        while i < self.name.len()
            invariant
                i <= self.name@.len(),
                r@ == self.name@.subrange(0, i as int),
            decreases self.name@.len() - i,
        {
            r.push(self.name[i]);
            i = i + 1;
            assert(r@ =~= self.name@.subrange(0, i as int));
        }
        assert(self.name@.subrange(0, self.name@.len() as int) =~= self.name@);
        r
    }

    /// Metadata captured when the directory was listed.
    pub fn metadata(&self) -> (r: Result<Stat, FsError>)
        ensures
            r == self.metadata_view(),
    {
        self.metadata
    }
}

/// A workspace entry for a provider listing entry: its name, and the kind,
/// size and modification time the provider reported.
pub fn dir_entry_from_vfs(e: VfsDirEntry) -> (d: DirEntry)
    ensures
        d.name_view() == encode_utf8(e.name@),
        d.metadata_view() == Ok::<Stat, FsError>(
            Stat {
                kind: match e.kind {
                    FileKind::Dir => NodeKind::Dir,
                    FileKind::File => NodeKind::File,
                },
                len: e.size,
                modified: e.mtime,
                accessed: None,
                created: None,
                status_changed: None,
                executable: None,
            },
        ),
{
    let stat = Stat {
        kind: node_kind_of(e.kind),
        len: e.size,
        modified: e.mtime,
        accessed: None,
        created: None,
        status_changed: None,
        executable: None,
    };
    let bytes = str_bytes(e.name.as_str());
    DirEntry { name: bytes, metadata: Ok(stat) }
}

/// The UTF-8 bytes of `s`.
fn str_bytes(s: &str) -> (r: Vec<u8>)
    ensures
        r@ == encode_utf8(s@),
{
    let b = s.as_bytes();
    let mut r: Vec<u8> = Vec::new();
    let mut i: usize = 0;
    while i < b.len()
        invariant
            i <= b@.len(),
            r@ == b@.subrange(0, i as int),
        decreases b@.len() - i,
    {
        r.push(b[i]);
        i = i + 1;
        assert(r@ =~= b@.subrange(0, i as int));
    }
    assert(b@.subrange(0, b@.len() as int) =~= b@);
    r
}

/// The metadata of a directory the tree synthesises: a directory of size
/// zero with no times.
pub open spec fn synthetic_dir_stat() -> Stat {
    Stat {
        kind: NodeKind::Dir,
        len: 0,
        modified: None,
        accessed: None,
        created: None,
        status_changed: None,
        executable: None,
    }
}

/// The entry a mount shows as at the workspace root: a directory.
pub fn mount_dir_entry(name: &str) -> (d: DirEntry)
    ensures
        d.name_view() == encode_utf8(name@),
        d.metadata_view() == Ok::<Stat, FsError>(synthetic_dir_stat()),
{
    DirEntry {
        name: str_bytes(name),
        metadata: Ok(
            Stat {
                kind: NodeKind::Dir,
                len: 0,
                modified: None,
                accessed: None,
                created: None,
                status_changed: None,
                executable: None,
            },
        ),
    }
}

/// Whether a mount open asks for any kind of write; a mount is read-only.
pub open spec fn wants_write(o: OpenOptions) -> bool {
    o.write || o.append || o.create || o.create_new || o.truncate
}

/// Whether a local open is a write, which makes its prior existence matter.
pub open spec fn is_write_open(o: OpenOptions) -> bool {
    o.write || o.append || o.create || o.create_new
}

/// Whether opening a mount object with `options` is allowed, given the kind
/// the provider reports for it: a write intent of any kind is refused before
/// the provider is asked, and a directory cannot be opened as a file.
pub fn mount_open_check(options: &OpenOptions, kind: Option<FileKind>) -> (r: Result<(), FsError>)
    ensures
        wants_write(*options) ==> r == Err::<(), FsError>(FsError::Forbidden),
        !wants_write(*options) ==> (r is Ok <==> kind == Some(FileKind::File)),
        r is Err ==> r == Err::<(), FsError>(FsError::Forbidden),
{
    if options.write || options.append || options.create || options.create_new || options.truncate {
        return Err(FsError::Forbidden);
    }
    match kind {
        Some(FileKind::File) => Ok(()),
        _ => Err(FsError::Forbidden),
    }
}

/// Whether a workspace-relative path lives under `knowledge/`: the leading
/// directory must be exactly `knowledge`.
pub open spec fn is_knowledge_spec(rel: Seq<char>) -> bool {
    "knowledge/"@.is_prefix_of(trim_start_char(rel, '/'))
}

/// Whether a workspace-relative path lives under `knowledge/`.
pub fn is_knowledge(rel: &str) -> (r: bool)
    ensures
        r == is_knowledge_spec(rel@),
{
    let p = trim_start_matches(&chars_of(rel), '/');
    starts_with(&p, &chars_of("knowledge/"))
}

/// Whether a unified-tree path lives under `files/knowledge/`, where the
/// local knowledge files appear.
pub open spec fn is_unified_knowledge_spec(path: Seq<char>) -> bool {
    "files/knowledge/"@.is_prefix_of(trim_start_char(path, '/'))
}

/// Whether a unified-tree path lives under `files/knowledge/`.
pub fn is_unified_knowledge(path: &str) -> (r: bool)
    ensures
        r == is_unified_knowledge_spec(path@),
{
    let p = trim_start_matches(&chars_of(path), '/');
    starts_with(&p, &chars_of("files/knowledge/"))
}

/// A change under `knowledge/` that the side-processing hears of.
#[derive(Debug, Clone, Copy, PartialEq, Eq, Structural)]
pub enum KnowledgeChange {
    /// A new file appeared.
    Inserted,
    /// An existing file was overwritten.
    Updated,
    /// A file left `knowledge/`.
    Removed,
}

/// The change an arrival at a path is: an overwrite when something was
/// there, else an insert.
pub open spec fn arrival(existed: bool) -> KnowledgeChange {
    if existed {
        KnowledgeChange::Updated
    } else {
        KnowledgeChange::Inserted
    }
}

/// Tracks a write to a knowledge file so its completion is reported once.
pub struct WriteObserver {
    pub existed: bool,
    pub wrote: bool,
}

impl WriteObserver {
    /// An observer for a write open under `knowledge/`; `existed` is whether
    /// the file was there before the open.
    pub fn new(existed: bool) -> (o: WriteObserver)
        ensures
            o.existed == existed,
            !o.wrote,
    {
        WriteObserver { existed, wrote: false }
    }

    /// Bytes were written.
    pub fn note_write(&mut self)
        ensures
            final(self).wrote,
            final(self).existed == old(self).existed,
    {
        self.wrote = true;
    }

    /// A flush: reports the write when bytes were written since the last
    /// report, so a second flush on the same handle reports nothing.
    pub fn flush(&mut self) -> (r: Option<KnowledgeChange>)
        ensures
            r == (if old(self).wrote {
                Some(arrival(old(self).existed))
            } else {
                None
            }),
            !final(self).wrote,
            final(self).existed == old(self).existed,
    {
        if self.wrote {
            self.wrote = false;
            if self.existed {
                Some(KnowledgeChange::Updated)
            } else {
                Some(KnowledgeChange::Inserted)
            }
        } else {
            None
        }
    }
}

/// Whether a local open is observed: only writes under `knowledge/`.
pub fn observes_open(options: &OpenOptions, rel: &str) -> (r: bool)
    ensures
        r == (is_write_open(*options) && is_knowledge_spec(rel@)),
{
    (options.write || options.append || options.create || options.create_new) && is_knowledge(rel)
}

/// What a local rename reports: whether the source left `knowledge/`, and
/// the arrival at the destination when it is under `knowledge/`.
pub fn rename_report(from: &str, to: &str, to_existed: bool) -> (r: (bool, Option<KnowledgeChange>))
    ensures
        r.0 == is_knowledge_spec(from@),
        r.1 == (if is_knowledge_spec(to@) {
            Some(arrival(to_existed))
        } else {
            None
        }),
{
    let removed = is_knowledge(from);
    let arrived = if is_knowledge(to) {
        if to_existed {
            Some(KnowledgeChange::Updated)
        } else {
            Some(KnowledgeChange::Inserted)
        }
    } else {
        None
    };
    (removed, arrived)
}

/// What a local copy reports: the arrival at the destination when it is
/// under `knowledge/`.
pub fn copy_report(to: &str, to_existed: bool) -> (r: Option<KnowledgeChange>)
    ensures
        r == (if is_knowledge_spec(to@) {
            Some(arrival(to_existed))
        } else {
            None
        }),
{
    if is_knowledge(to) {
        if to_existed {
            Some(KnowledgeChange::Updated)
        } else {
            Some(KnowledgeChange::Inserted)
        }
    } else {
        None
    }
}

/// A change the unified tree announces.
#[derive(Debug, Clone, Copy, PartialEq, Eq, Structural)]
pub enum FsEventKind {
    Created,
    Modified,
    Removed,
}

/// What the knowledge hook does with a change: changes under
/// `files/knowledge/` are inserts, updates and removals; others are ignored.
pub fn knowledge_action(kind: FsEventKind, path: &str) -> (r: Option<KnowledgeChange>)
    ensures
        r == (if is_unified_knowledge_spec(path@) {
            Some(
                match kind {
                    FsEventKind::Created => KnowledgeChange::Inserted,
                    FsEventKind::Modified => KnowledgeChange::Updated,
                    FsEventKind::Removed => KnowledgeChange::Removed,
                },
            )
        } else {
            None
        }),
{
    if !is_unified_knowledge(path) {
        return None;
    }
    Some(
        match kind {
            FsEventKind::Created => KnowledgeChange::Inserted,
            FsEventKind::Modified => KnowledgeChange::Updated,
            FsEventKind::Removed => KnowledgeChange::Removed,
        },
    )
}

/// A seek request on a mount cursor.
#[derive(Debug, Clone, Copy, PartialEq, Eq, Structural)]
pub enum SeekPos {
    Start(u64),
    Current(i64),
    End(i64),
}

/// A read-only cursor over a mounted provider object.
pub struct MountFile {
    pub path: String,
    pub offset: u64,
}

/// `max(base + delta, 0)` as an offset.
pub open spec fn clamp_offset(base: i64, delta: i64) -> u64 {
    if base + delta < 0 {
        0
    } else {
        (base + delta) as u64
    }
}

impl MountFile {
    /// A cursor at the start of the object at `path`.
    pub fn new(path: String) -> (m: MountFile)
        ensures
            m.path@ == path@,
            m.offset == 0,
    {
        MountFile { path, offset: 0 }
    }

    /// Move the cursor; `size` is the object's size, consulted only for a
    /// seek from the end. A position before the start clamps to zero.
    pub fn seek(&mut self, pos: SeekPos, size: u64) -> (r: u64)
        requires
            pos matches SeekPos::Current(d) ==> i64::MIN <= (old(self).offset as i64) + d
                <= i64::MAX,
            pos matches SeekPos::End(d) ==> i64::MIN <= (size as i64) + d <= i64::MAX,
        ensures
            r == match pos {
                SeekPos::Start(n) => n,
                SeekPos::Current(d) => clamp_offset(old(self).offset as i64, d),
                SeekPos::End(d) => clamp_offset(size as i64, d),
            },
            final(self).offset == r,
            final(self).path == old(self).path,
    {
        let new = match pos {
            SeekPos::Start(n) => n,
            SeekPos::Current(d) => {
                let v = (self.offset as i64) + d;
                if v < 0 {
                    0
                } else {
                    v as u64
                }
            },
            SeekPos::End(d) => {
                let v = (size as i64) + d;
                if v < 0 {
                    0
                } else {
                    v as u64
                }
            },
        };
        self.offset = new;
        new
    }

    /// The byte range the next read of `count` bytes asks the provider for:
    /// from the cursor, `count` bytes on, capped at the largest offset.
    pub fn read_range(&self, count: usize) -> (r: (u64, u64))
        ensures
            r.0 == self.offset,
            r.1 == (if self.offset + count > u64::MAX {
                u64::MAX as int
            } else {
                self.offset + count
            }),
    {
        let c: u64 = count as u64;
        (self.offset, self.offset.saturating_add(c))
    }

    /// The provider returned `n` bytes: the cursor moves past them (a short
    /// read is honoured as is).
    pub fn advance(&mut self, n: usize)
        ensures
            final(self).offset == (if old(self).offset + n > u64::MAX {
                u64::MAX as int
            } else {
                old(self).offset + n
            }),
            final(self).path == old(self).path,
    {
        let c: u64 = n as u64;
        self.offset = self.offset.saturating_add(c);
    }
}

/// Largest single read of the guest read loop.
pub const READ_CHUNK: usize = 262144;

/// How many bytes the guest read loop asks for next, having `have` bytes:
/// what is left of the requested size, or a chunk when reading to the end;
/// never more than a chunk. Zero ends the loop.
pub open spec fn want_spec(size: Option<u64>, have: usize) -> int {
    let w = match size {
        Some(s) => if (s as usize) >= have {
            (s as usize) - have
        } else {
            0
        },
        None => READ_CHUNK as int,
    };
    if w < READ_CHUNK {
        w
    } else {
        READ_CHUNK as int
    }
}

/// The size of the next read of the guest read loop.
pub fn read_want(size: Option<u64>, have: usize) -> (r: usize)
    ensures
        r == want_spec(size, have),
{
    let want: usize = match size {
        Some(s) => (s as usize).saturating_sub(have),
        None => READ_CHUNK,
    };
    if want < READ_CHUNK {
        want
    } else {
        READ_CHUNK
    }
}

/// The reserved top-level directory of the guest tree holding the
/// workspace's local files; every other top-level name is a provider mount.
pub const GUEST_LOCAL_DIR: &'static str = "files";

/// The local remainder of a guest path under `files/`: `/files` is `/`,
/// `/files/a/b` is `/a/b`; anything else is not local.
pub open spec fn guest_local_rel_spec(path: Seq<char>) -> Option<Seq<char>> {
    let rest = trim_start_char(path, '/');
    if rest == GUEST_LOCAL_DIR@ {
        Some("/"@)
    } else if (GUEST_LOCAL_DIR@ + "/"@).is_prefix_of(rest) {
        Some("/"@ + rest.skip(GUEST_LOCAL_DIR@.len() as int + 1))
    } else {
        None
    }
}

/// The local remainder of a guest path, when it is under `files/`.
pub fn guest_local_rel(path: &str) -> (r: Option<String>)
    ensures
        match r {
            Some(s) => guest_local_rel_spec(path@) == Some(s@),
            None => guest_local_rel_spec(path@) is None,
        },
{
    let rest = trim_start_matches(&chars_of(path), '/');
    let dir = chars_of(GUEST_LOCAL_DIR);
    if chars_eq(&rest, &dir) {
        return Some("/".to_string());
    }
    let mut prefix = chars_of(GUEST_LOCAL_DIR);
    push_str(&mut prefix, "/");
    if starts_with(&rest, &prefix) {
        let mut out: Vec<char> = Vec::new();
        push_str(&mut out, "/");
        let tail = sub_chars(&rest, prefix.len(), rest.len());
        push_chars(&mut out, &tail);
        proof {
            reveal_strlit("files");
            reveal_strlit("/");
        }
        assert(tail@ =~= rest@.skip(GUEST_LOCAL_DIR@.len() as int + 1));
        Some(string_of(&out))
    } else {
        None
    }
}

/// Whether a path is the workspace root (`/`, empty, or only slashes).
pub open spec fn is_root_path_spec(path: Seq<char>) -> bool {
    trim_char(path, '/').len() == 0
}

/// Whether a path is the workspace root, where mount names are surfaced.
pub fn is_root_path(path: &str) -> (r: bool)
    ensures
        r == is_root_path_spec(path@),
{
    trim_matches(&chars_of(path), '/').len() == 0
}

/// Where a guest path leads.
pub enum GuestTarget {
    /// A local file; the path relative to the local root.
    Local(String),
    /// An object of a provider mount.
    Mount,
    /// No node of the unified tree.
    Missing,
}

/// Where a guest path leads, given whether a provider mount routes it: the
/// local tree wins for paths under `files/`, then a routed mount; a path in
/// neither namespace has no node (it never falls through to local disk).
pub fn guest_target(path: &str, routed: bool) -> (r: GuestTarget)
    ensures
        match guest_local_rel_spec(path@) {
            Some(rel) => r matches GuestTarget::Local(s) && s@ == rel,
            None => if routed {
                r is Mount
            } else {
                r is Missing
            },
        },
{
    match guest_local_rel(path) {
        Some(rel) => GuestTarget::Local(rel),
        None => if routed {
            GuestTarget::Mount
        } else {
            GuestTarget::Missing
        },
    }
}

/// How a guest rename is carried out.
pub enum GuestRename {
    /// Both ends are local: rename on disk.
    Local(String, String),
    /// One end is local and the other is not: refused.
    CrossBoundary,
    /// Both ends are on a provider mount: the provider renames.
    Provider,
    /// Some end has no node.
    Missing,
}

/// How a guest rename is carried out, given whether a mount routes each end.
pub fn guest_rename(from: &str, to: &str, from_routed: bool, to_routed: bool) -> (r: GuestRename)
    ensures
        match (guest_local_rel_spec(from@), guest_local_rel_spec(to@)) {
            (Some(a), Some(b)) => r matches GuestRename::Local(x, y) && x@ == a && y@ == b,
            (Some(_), None) => r is CrossBoundary,
            (None, Some(_)) => r is CrossBoundary,
            (None, None) => if from_routed && to_routed {
                r is Provider
            } else {
                r is Missing
            },
        },
{
    match (guest_local_rel(from), guest_local_rel(to)) {
        (Some(a), Some(b)) => GuestRename::Local(a, b),
        (Some(_), None) => GuestRename::CrossBoundary,
        (None, Some(_)) => GuestRename::CrossBoundary,
        (None, None) => if from_routed && to_routed {
            GuestRename::Provider
        } else {
            GuestRename::Missing
        },
    }
}

/// One entry of a guest directory listing.
pub struct FwdEntry {
    pub name: String,
    pub is_dir: bool,
    pub size: u64,
    pub mtime: Option<u64>,
}

/// Metadata of a guest path.
#[derive(Debug, Clone, Copy, PartialEq, Eq, Structural)]
pub struct FwdStat {
    pub exists: bool,
    pub is_dir: bool,
    pub size: u64,
    pub mtime: Option<u64>,
    pub atime: Option<u64>,
    pub ctime: Option<u64>,
}

impl FwdStat {
    /// The answer for a path with no node.
    pub fn missing() -> (s: FwdStat)
        ensures
            !s.exists,
            !s.is_dir,
            s.size == 0,
            s.mtime is None,
            s.atime is None,
            s.ctime is None,
    {
        FwdStat { exists: false, is_dir: false, size: 0, mtime: None, atime: None, ctime: None }
    }

    /// The answer for the root: an existing directory.
    pub fn root() -> (s: FwdStat)
        ensures
            s.exists,
            s.is_dir,
            s.size == 0,
            s.mtime is None,
            s.atime is None,
            s.ctime is None,
    {
        FwdStat { exists: true, is_dir: true, size: 0, mtime: None, atime: None, ctime: None }
    }

    /// The answer for a path whose metadata was read (`None` when reading it
    /// failed, which reads as missing).
    pub fn of(st: Option<Stat>) -> (s: FwdStat)
        ensures
            match st {
                Some(m) => s == FwdStat {
                    exists: true,
                    is_dir: m.kind == NodeKind::Dir,
                    size: m.len,
                    mtime: m.modified,
                    atime: m.accessed,
                    ctime: m.status_changed,
                },
                None => !s.exists && !s.is_dir && s.size == 0 && s.mtime is None && s.atime is None
                    && s.ctime is None,
            },
    {
        match st {
            Some(m) => FwdStat {
                exists: true,
                is_dir: m.is_dir(),
                size: m.len,
                mtime: m.modified,
                atime: m.accessed,
                ctime: m.status_changed,
            },
            None => FwdStat::missing(),
        }
    }
}

/// A guest listing entry; metadata that could not be read shows as a file
/// of size zero with no time.
pub fn fwd_entry(name: String, meta: Option<Stat>) -> (e: FwdEntry)
    ensures
        e.name@ == name@,
        match meta {
            Some(m) => e.is_dir == (m.kind == NodeKind::Dir) && e.size == m.len && e.mtime
                == m.modified,
            None => !e.is_dir && e.size == 0 && e.mtime is None,
        },
{
    match meta {
        Some(m) => FwdEntry { name, is_dir: m.is_dir(), size: m.len, mtime: m.modified },
        None => FwdEntry { name, is_dir: false, size: 0, mtime: None },
    }
}

/// The listing of the guest root: the local `files` directory first, then
/// each provider mount, all as directories.
pub fn root_listing(mount_names: &[String]) -> (r: Vec<FwdEntry>)
    ensures
        r@.len() == mount_names@.len() + 1,
        r@[0].name@ == GUEST_LOCAL_DIR@,
        forall|i: int|
            1 <= i < r@.len() ==> (#[trigger] r@[i]).name@ == mount_names@[i - 1]@,
        forall|i: int|
            0 <= i < r@.len() ==> (#[trigger] r@[i]).is_dir && r@[i].size == 0 && r@[i].mtime is None,
{
    let mut r: Vec<FwdEntry> = Vec::new();
    r.push(FwdEntry { name: GUEST_LOCAL_DIR.to_string(), is_dir: true, size: 0, mtime: None });
    let mut k: usize = 0;
    while k < mount_names.len()
        invariant
            k <= mount_names@.len(),
            r@.len() == k + 1,
            r@[0].name@ == GUEST_LOCAL_DIR@,
            forall|i: int| 1 <= i < r@.len() ==> (#[trigger] r@[i]).name@ == mount_names@[i - 1]@,
            forall|i: int|
                0 <= i < r@.len() ==> (#[trigger] r@[i]).is_dir && r@[i].size == 0 && r@[i].mtime is None,
        decreases mount_names@.len() - k,
    {
        r.push(FwdEntry { name: mount_names[k].clone(), is_dir: true, size: 0, mtime: None });
        k = k + 1;
    }
    r
}

} // verus!
