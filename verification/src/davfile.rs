//! The WebDAV view of a workspace file: how errors of the unified tree read
//! over WebDAV, how an open file's cursor and size move with positioned
//! reads and writes, and what metadata reports for times a source lacks.

use vstd::prelude::*;

use crate::unified::{clamp_offset, FsError, SeekPos};

verus! {

/// A failure of the unified workspace tree.
#[derive(Debug, Clone, Copy, PartialEq, Eq, Structural)]
pub enum TreeError {
    NotFound,
    AlreadyExists,
    ReadOnly,
    Unsupported,
    PermissionDenied,
    /// Any other failure.
    Other,
}

/// The WebDAV error a tree failure reads as: missing stays missing, an
/// existing target is a conflict, anything not permitted (read-only,
/// unsupported, denied) is forbidden, the rest a general failure.
pub fn to_dav(e: TreeError) -> (r: FsError)
    ensures
        r == match e {
            TreeError::NotFound => FsError::NotFound,
            TreeError::AlreadyExists => FsError::Exists,
            TreeError::ReadOnly | TreeError::Unsupported | TreeError::PermissionDenied => FsError::Forbidden,
            TreeError::Other => FsError::GeneralFailure,
        },
{
    match e {
        TreeError::NotFound => FsError::NotFound,
        TreeError::AlreadyExists => FsError::Exists,
        TreeError::ReadOnly | TreeError::Unsupported | TreeError::PermissionDenied => FsError::Forbidden,
        TreeError::Other => FsError::GeneralFailure,
    }
}

/// An open file over WebDAV: the cursor, and the size known for the file.
pub struct DavCursor {
    pub offset: u64,
    pub size: u64,
}

impl DavCursor {
    /// A cursor at the start of a file of `size` bytes.
    pub fn new(size: u64) -> (c: DavCursor)
        ensures
            c.offset == 0,
            c.size == size,
    {
        DavCursor { offset: 0, size }
    }

    /// How many bytes a read of `count` returns: what is left before the
    /// end, at most `count` (zero at or past the end).
    pub fn read_len(&self, count: usize) -> (n: u64)
        ensures
            n == (if self.offset >= self.size {
                0
            } else if count < self.size - self.offset {
                count as int
            } else {
                self.size - self.offset
            }),
    {
        let remaining = self.size.saturating_sub(self.offset);
        let c: u64 = count as u64;
        if c < remaining {
            c
        } else {
            remaining
        }
    }

    /// A read returned `n` bytes: the cursor moves past them.
    pub fn after_read(&mut self, n: u64)
        requires
            old(self).offset + n <= u64::MAX,
        ensures
            final(self).offset == old(self).offset + n,
            final(self).size == old(self).size,
    {
        self.offset = self.offset + n;
    }

    /// `n` bytes were written at the cursor: the cursor moves past them and
    /// the size grows to cover them.
    pub fn after_write(&mut self, n: u64)
        requires
            old(self).offset + n <= u64::MAX,
        ensures
            final(self).offset == old(self).offset + n,
            final(self).size == (if old(self).offset + n > old(self).size {
                old(self).offset + n
            } else {
                old(self).size as int
            }),
    {
        let end = self.offset + n;
        self.offset = end;
        if end > self.size {
            self.size = end;
        }
    }

    /// Move the cursor; a position before the start clamps to zero.
    pub fn seek(&mut self, pos: SeekPos) -> (r: u64)
        requires
            pos matches SeekPos::Current(d) ==> i64::MIN <= (old(self).offset as i64) + d <= i64::MAX,
            pos matches SeekPos::End(d) ==> i64::MIN <= (old(self).size as i64) + d <= i64::MAX,
        ensures
            r == match pos {
                SeekPos::Start(n) => n,
                SeekPos::Current(d) => clamp_offset(old(self).offset as i64, d),
                SeekPos::End(d) => clamp_offset(old(self).size as i64, d),
            },
            final(self).offset == r,
            final(self).size == old(self).size,
    {
        let new = match pos {
            SeekPos::Start(n) => n,
            SeekPos::Current(d) => {
                let v = (self.offset as i64) + d;
                if v < 0 {
                    0
                } else {
                    v as u64
                }
            },
            SeekPos::End(d) => {
                let v = (self.size as i64) + d;
                if v < 0 {
                    0
                } else {
                    v as u64
                }
            },
        };
        self.offset = new;
        new
    }
}

/// The modification time WebDAV reports: the source's, or the epoch when it
/// has none.
pub fn dav_modified(mtime: Option<u64>) -> (r: u64)
    ensures
        r == match mtime {
            Some(t) => t,
            None => 0,
        },
{
    match mtime {
        Some(t) => t,
        None => 0,
    }
}

/// A time WebDAV reports only when the source has it; otherwise the
/// property is not implemented.
pub fn dav_optional_time(t: Option<u64>) -> (r: Result<u64, FsError>)
    ensures
        match t {
            Some(v) => r == Ok::<u64, FsError>(v),
            None => r == Err::<u64, FsError>(FsError::NotImplemented),
        },
{
    match t {
        Some(v) => Ok(v),
        None => Err(FsError::NotImplemented),
    }
}

/// Reads never pass the end: the bytes a read returns stay within the file,
/// so reading to the end from any position returns exactly what is left.
pub proof fn lemma_reads_stay_in_file(offset: u64, size: u64, count: usize)
    ensures
        ({
            let n = if offset >= size {
                0
            } else if count < size - offset {
                count as int
            } else {
                size - offset
            };
            &&& 0 <= n <= count
            &&& offset < size ==> offset + n <= size
            &&& count >= size - offset && offset < size ==> offset + n == size
        }),
{
}

} // verus!
