use agent_k_backend::davfile::{dav_modified, dav_optional_time, to_dav, DavCursor, TreeError};
use agent_k_backend::unified::{FsError, SeekPos};

#[test]
fn tree_errors_read_as_dav_errors() {
    assert_eq!(to_dav(TreeError::NotFound), FsError::NotFound);
    assert_eq!(to_dav(TreeError::AlreadyExists), FsError::Exists);
    assert_eq!(to_dav(TreeError::ReadOnly), FsError::Forbidden);
    assert_eq!(to_dav(TreeError::Unsupported), FsError::Forbidden);
    assert_eq!(to_dav(TreeError::PermissionDenied), FsError::Forbidden);
    assert_eq!(to_dav(TreeError::Other), FsError::GeneralFailure);
}

#[test]
fn cursor_reads_writes_and_seeks() {
    let mut c = DavCursor::new(5);
    assert_eq!(c.read_len(3), 3);
    c.after_read(3);
    assert_eq!(c.read_len(10), 2);
    c.after_read(2);
    assert_eq!(c.read_len(10), 0);
    c.after_write(4);
    assert_eq!((c.offset, c.size), (9, 9));
    assert_eq!(c.seek(SeekPos::Start(2)), 2);
    c.after_write(1);
    assert_eq!((c.offset, c.size), (3, 9));
    assert_eq!(c.seek(SeekPos::End(-4)), 5);
    assert_eq!(c.seek(SeekPos::Current(-9)), 0);
}

#[test]
fn missing_times() {
    assert_eq!(dav_modified(None), 0);
    assert_eq!(dav_modified(Some(7)), 7);
    assert_eq!(dav_optional_time(None), Err(FsError::NotImplemented));
    assert_eq!(dav_optional_time(Some(3)), Ok(3));
}
