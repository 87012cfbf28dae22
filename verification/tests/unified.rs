use agent_k_backend::io::IoErrorKind;
use agent_k_backend::unified::{
    copy_report, dir_entry_from_vfs, follows_symlinks, fwd_entry, guest_local_rel, guest_rename,
    guest_target, is_knowledge, is_root_path, is_unified_knowledge, knowledge_action,
    mount_dir_entry, mount_open_check, node_kind_of, observes_open, read_want, rename_report,
    root_listing, stat_from_vfs, FileKind, FileStat, FsError, FsEventKind, FwdStat, GuestRename,
    GuestTarget, KnowledgeChange, MountFile, NodeKind, OpenOptions, ReadDirMeta, SeekPos, Stat,
    VfsDirEntry, VfsError, WriteObserver, READ_CHUNK,
};

fn file_stat(len: u64) -> Stat {
    Stat {
        kind: NodeKind::File,
        len,
        modified: Some(100),
        accessed: Some(101),
        created: None,
        status_changed: Some(102),
        executable: Some(false),
    }
}

#[test]
fn errors_map_by_kind() {
    assert_eq!(FsError::from_io(IoErrorKind::NotFound), FsError::NotFound);
    assert_eq!(FsError::from_io(IoErrorKind::AlreadyExists), FsError::Exists);
    assert_eq!(FsError::from_io(IoErrorKind::PermissionDenied), FsError::Forbidden);
    assert_eq!(FsError::from_io(IoErrorKind::InvalidInput), FsError::GeneralFailure);
    assert_eq!(FsError::from_vfs(&VfsError::Unsupported), FsError::NotImplemented);
    assert_eq!(FsError::from_vfs(&VfsError::Backend("x".into())), FsError::GeneralFailure);
    assert_eq!(FsError::from_vfs(&VfsError::NotFound), FsError::NotFound);
}

#[test]
fn provider_metadata_becomes_stat() {
    let s = stat_from_vfs(FileStat { kind: FileKind::Dir, size: 3, mtime: Some(9), atime: None, ctime: Some(8) });
    assert!(s.is_dir() && !s.is_file() && !s.is_symlink());
    assert_eq!((s.len, s.modified, s.status_changed, s.created, s.executable), (3, Some(9), Some(8), None, None));
    assert_eq!(node_kind_of(FileKind::File), NodeKind::File);
    let e = dir_entry_from_vfs(VfsDirEntry { name: "é.txt".into(), kind: FileKind::File, size: 4, mtime: None });
    assert_eq!(e.name(), "é.txt".as_bytes().to_vec());
    assert_eq!(e.metadata().unwrap().len, 4);
    let m = mount_dir_entry("notion");
    assert_eq!(m.name(), b"notion".to_vec());
    assert!(m.metadata().unwrap().is_dir());
    assert!(follows_symlinks(ReadDirMeta::Data));
    assert!(!follows_symlinks(ReadDirMeta::NoHint));
}

#[test]
fn mounts_are_read_only() {
    let read = OpenOptions { read: true, ..Default::default() };
    let write = OpenOptions { read: true, truncate: true, ..Default::default() };
    assert!(mount_open_check(&read, Some(FileKind::File)).is_ok());
    assert_eq!(mount_open_check(&read, Some(FileKind::Dir)), Err(FsError::Forbidden));
    assert_eq!(mount_open_check(&write, Some(FileKind::File)), Err(FsError::Forbidden));
}

#[test]
fn knowledge_classification() {
    assert!(is_knowledge("/knowledge/a.md"));
    assert!(!is_knowledge("/knowledgebase/a.md"));
    assert!(is_unified_knowledge("files/knowledge/a.md"));
    assert!(!is_unified_knowledge("/knowledge/a.md"));
    let w = OpenOptions { write: true, create: true, ..Default::default() };
    assert!(observes_open(&w, "/knowledge/x"));
    assert!(!observes_open(&w, "/docs/x"));
    assert!(!observes_open(&OpenOptions { read: true, ..Default::default() }, "/knowledge/x"));
    assert_eq!(rename_report("/knowledge/a", "/docs/a", false), (true, None));
    assert_eq!(rename_report("/docs/a", "/knowledge/a", true), (false, Some(KnowledgeChange::Updated)));
    assert_eq!(copy_report("/knowledge/b", false), Some(KnowledgeChange::Inserted));
    assert_eq!(knowledge_action(FsEventKind::Removed, "/files/knowledge/a"), Some(KnowledgeChange::Removed));
    assert_eq!(knowledge_action(FsEventKind::Created, "/files/other/a"), None);
}

#[test]
fn observer_reports_each_write_once() {
    let mut o = WriteObserver::new(false);
    assert_eq!(o.flush(), None);
    o.note_write();
    assert_eq!(o.flush(), Some(KnowledgeChange::Inserted));
    assert_eq!(o.flush(), None);
    let mut u = WriteObserver::new(true);
    u.note_write();
    assert_eq!(u.flush(), Some(KnowledgeChange::Updated));
}

#[test]
fn mount_cursor_moves() {
    let mut m = MountFile::new("/a".into());
    assert_eq!(m.seek(SeekPos::Start(10), 0), 10);
    assert_eq!(m.seek(SeekPos::Current(-4), 0), 6);
    assert_eq!(m.seek(SeekPos::Current(-40), 0), 0);
    assert_eq!(m.seek(SeekPos::End(-1), 11), 10);
    assert_eq!(m.read_range(5), (10, 15));
    m.advance(3);
    assert_eq!(m.offset, 13);
    m.offset = u64::MAX - 1;
    assert_eq!(m.read_range(5), (u64::MAX - 1, u64::MAX));
    m.advance(5);
    assert_eq!(m.offset, u64::MAX);
}

#[test]
fn read_loop_sizes() {
    assert_eq!(read_want(None, 0), READ_CHUNK);
    assert_eq!(read_want(Some(10), 4), 6);
    assert_eq!(read_want(Some(10), 12), 0);
    assert_eq!(read_want(Some(10_000_000), 0), READ_CHUNK);
}

#[test]
fn guest_paths() {
    assert_eq!(guest_local_rel("/files").as_deref(), Some("/"));
    assert_eq!(guest_local_rel("files/a/b").as_deref(), Some("/a/b"));
    assert_eq!(guest_local_rel("/filesx/a"), None);
    assert_eq!(guest_local_rel("/notion/p"), None);
    assert!(is_root_path("/") && is_root_path("") && is_root_path("//"));
    assert!(!is_root_path("/a"));
    assert!(matches!(guest_target("/files/x", true), GuestTarget::Local(r) if r == "/x"));
    assert!(matches!(guest_target("/notion/x", true), GuestTarget::Mount));
    assert!(matches!(guest_target("/local.txt", false), GuestTarget::Missing));
    assert!(matches!(guest_rename("/files/a", "/files/b", false, false), GuestRename::Local(a, b) if a == "/a" && b == "/b"));
    assert!(matches!(guest_rename("/files/a", "/s3/b", false, true), GuestRename::CrossBoundary));
    assert!(matches!(guest_rename("/s3/a", "/s3/b", true, true), GuestRename::Provider));
    assert!(matches!(guest_rename("/s3/a", "/nowhere", true, false), GuestRename::Missing));
}

#[test]
fn guest_listing_and_stats() {
    let l = root_listing(&["notion".to_string(), "s3".to_string()]);
    let names: Vec<&str> = l.iter().map(|e| e.name.as_str()).collect();
    assert_eq!(names, vec!["files", "notion", "s3"]);
    assert!(l.iter().all(|e| e.is_dir && e.size == 0 && e.mtime.is_none()));
    let st = FwdStat::of(Some(file_stat(7)));
    assert_eq!((st.exists, st.is_dir, st.size, st.mtime, st.atime, st.ctime), (true, false, 7, Some(100), Some(101), Some(102)));
    assert_eq!(FwdStat::of(None), FwdStat::missing());
    assert!(FwdStat::root().is_dir);
    let e = fwd_entry("x".into(), None);
    assert_eq!((e.is_dir, e.size, e.mtime), (false, 0, None));
    let f = fwd_entry("y".into(), Some(file_stat(3)));
    assert_eq!((f.is_dir, f.size, f.mtime), (false, 3, Some(100)));
}
