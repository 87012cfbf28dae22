use agent_k_backend::fs_v2::{self, validate_pid, FSStateV2, FsError};
use agent_k_backend::storage::{admit_chunk, safe_join, PathError, Storage};
use agent_k_backend::io::IoErrorKind;

#[test]
fn safe_join_normalizes_and_refuses() {
    assert_eq!(safe_join("/data", "a/./b//c").unwrap(), "/data/a/b/c");
    assert_eq!(safe_join("/data/", "x.txt").unwrap(), "/data/x.txt");
    assert_eq!(safe_join("/data", ""), Err(PathError::Empty));
    assert_eq!(safe_join("/data", "a\0b"), Err(PathError::NulByte));
    assert_eq!(safe_join("/data", "/etc/passwd"), Err(PathError::Absolute));
    assert_eq!(safe_join("/data", "a/../../b"), Err(PathError::ParentDir));
    assert_eq!(safe_join("/data", "./."), Err(PathError::EmptyAfterNormalization));
    assert_eq!(PathError::ParentDir.message(), "path must not contain '..' segments");
}

#[test]
fn storage_layout() {
    let s = Storage::new("/srv".to_string());
    assert_eq!(s.get_project_dir("p1"), "/srv/projects/p1");
    assert_eq!(s.get_workspace_dir("p1"), "/srv/projects/p1/workspace");
    assert_eq!(s.get_session_dir("p1", "s1"), "/srv/projects/p1/sessions/s1");
    assert_eq!(s.get_attachments_dir("p1", "s1"), "/srv/projects/p1/sessions/s1/attachments");
    assert_eq!(s.get_artifacts_dir("p1", "s1"), "/srv/projects/p1/sessions/s1/artifacts");
}

#[test]
fn write_cap_is_enforced() {
    assert_eq!(admit_chunk(0, 10, 10), Some(10));
    assert_eq!(admit_chunk(5, 6, 10), None);
}

#[test]
fn project_ids_and_v2_joins() {
    assert!(validate_pid("p1").is_ok());
    assert_eq!(validate_pid(""), Err(FsError::InvalidPath("pid must not be empty".into())));
    assert_eq!(
        validate_pid("a/b"),
        Err(FsError::InvalidPath("pid contains illegal char: a/b".into()))
    );
    assert_eq!(validate_pid(".."), Err(FsError::InvalidPath("pid must not be '.' or '..'".into())));
    assert_eq!(
        fs_v2::safe_join("/r", "../x"),
        Err(FsError::InvalidPath("path must not contain '..' segments".into()))
    );
    let fs = FSStateV2::new("/r".to_string());
    assert_eq!(fs.project_dir("p").unwrap(), "/r/projects/p");
    assert_eq!(fs.workspace_safe_join("p", "a/b").unwrap(), "/r/projects/p/workspace/a/b");
    assert!(fs.workspace_safe_join("a/b", "x").is_err());
}

#[test]
fn invalid_pid_rejected() {
    let fs = FSStateV2::new("/r".to_string());
    for bad in ["", "../escape", "a/b", "a\\b", ".", ".."] {
        let err = fs.project_dir(bad).unwrap_err();
        assert!(matches!(err, FsError::InvalidPath(_)), "expected InvalidPath for {bad:?}, got {err:?}");
    }
}

#[test]
fn workspace_rejects_unsafe_rel_paths() {
    let fs = FSStateV2::new("/r".to_string());
    for bad in ["", "../escape", "/abs", "."] {
        let err = fs.workspace_safe_join("pid", bad).unwrap_err();
        assert!(matches!(err, FsError::InvalidPath(_)), "expected InvalidPath for {bad:?}, got {err:?}");
    }
}

#[test]
fn safe_join_rejects_unsafe_paths() {
    let storage = Storage::new("/tmp/data".to_string());
    for bad in ["", "../escape", "/abs", "."] {
        let err = storage.workspace_path("0", bad).unwrap_err();
        assert_eq!(err.kind(), IoErrorKind::InvalidInput, "bad={bad}");
    }
}
