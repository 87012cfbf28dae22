//! Path rules of the project-scoped file store: a project id names exactly
//! one directory under `projects/`, and workspace paths stay inside it.

use vstd::prelude::*;

use crate::io::IoErrorKind;
use crate::storage::{path_join, safe_join_spec, PathError, join_path};
use crate::text::{chars_of, has_char, string_of};

verus! {

/// A file-store failure: an I/O error of the given kind, or a refused path
/// with its reason.
#[derive(Debug, Clone, PartialEq, Eq)]
pub enum FsError {
    Io(IoErrorKind),
    InvalidPath(String),
}

/// Why a project id is refused, or `None` when it is acceptable: it must be
/// non-empty, hold no `/`, `\` or NUL, and be neither `.` nor `..`.
pub open spec fn pid_error(pid: Seq<char>) -> Option<Seq<char>> {
    if pid.len() == 0 {
        Some("pid must not be empty"@)
    } else if has_char(pid, '/') || has_char(pid, '\\') || has_char(pid, '\0') {
        Some("pid contains illegal char: "@ + pid)
    } else if pid == "."@ || pid == ".."@ {
        Some("pid must not be '.' or '..'"@)
    } else {
        None
    }
}

/// Accept a project id, or say why it is refused (see [`pid_error`]).
pub fn validate_pid(pid: &str) -> (r: Result<(), FsError>)
    ensures
        match r {
            Ok(()) => pid_error(pid@) is None,
            Err(FsError::InvalidPath(m)) => pid_error(pid@) == Some(m@),
            Err(FsError::Io(_)) => false,
        },
{
    let p = chars_of(pid);
    if p.len() == 0 {
        return Err(FsError::InvalidPath("pid must not be empty".to_string()));
    }
    if crate::text::contains_char(&p, '/') || crate::text::contains_char(&p, '\\')
        || crate::text::contains_char(&p, '\0') {
        let mut m = chars_of("pid contains illegal char: ");
        let ghost head = m@;
        let mut i: usize = 0;
        while i < p.len()
            invariant
                i <= p@.len(),
                m@ == head + p@.subrange(0, i as int),
            decreases p@.len() - i,
        {
            m.push(p[i]);
            i = i + 1;
            assert(m@ =~= head + p@.subrange(0, i as int));
        }
        assert(p@.subrange(0, p@.len() as int) =~= p@);
        return Err(FsError::InvalidPath(string_of(&m)));
    }
    let one = chars_of(".");
    let two = chars_of("..");
    if crate::text::chars_eq(&p, &one) || crate::text::chars_eq(&p, &two) {
        return Err(FsError::InvalidPath("pid must not be '.' or '..'".to_string()));
    }
    Ok(())
}

/// `root` joined with the normalized `rel`, refusing `rel` with the reason
/// [`PathError::message`] gives.
pub fn safe_join(root: &str, rel: &str) -> (r: Result<String, FsError>)
    ensures
        match r {
            Ok(p) => safe_join_spec(root@, rel@) == Ok::<Seq<char>, PathError>(p@),
            Err(FsError::InvalidPath(m)) => exists|e: PathError|
                safe_join_spec(root@, rel@) == Err::<Seq<char>, PathError>(e) && m@
                    == e.message_spec(),
            Err(FsError::Io(_)) => false,
        },
{
    match crate::storage::safe_join(root, rel) {
        Ok(p) => Ok(p),
        Err(e) => Err(FsError::InvalidPath(e.message().to_string())),
    }
}

/// The project-scoped file store rooted at `root`.
pub struct FSStateV2 {
    root: String,
}

impl FSStateV2 {
    /// The data root.
    pub closed spec fn root_spec(&self) -> Seq<char> {
        self.root@
    }

    /// `root/projects/{pid}`.
    pub open spec fn project_dir_spec(&self, pid: Seq<char>) -> Seq<char> {
        path_join(path_join(self.root_spec(), "projects"@), pid)
    }

    /// `root/projects/{pid}/workspace`.
    pub open spec fn workspace_dir_spec(&self, pid: Seq<char>) -> Seq<char> {
        path_join(self.project_dir_spec(pid), "workspace"@)
    }

    /// A store rooted at `root`.
    pub fn new(root: String) -> (s: Self)
        ensures
            s.root_spec() == root@,
    {
        FSStateV2 { root }
    }

    /// `root/projects/{pid}`, for a project id that [`validate_pid`] accepts.
    pub fn project_dir(&self, pid: &str) -> (r: Result<String, FsError>)
        ensures
            match r {
                Ok(p) => pid_error(pid@) is None && p@ == self.project_dir_spec(pid@),
                Err(FsError::InvalidPath(m)) => pid_error(pid@) == Some(m@),
                Err(FsError::Io(_)) => false,
            },
    {
        validate_pid(pid)?;
        let root = chars_of(self.root.as_str());
        let projects = chars_of("projects");
        let base = join_path(&root, &projects);
        let p = chars_of(pid);
        Ok(string_of(&join_path(&base, &p)))
    }

    /// Where the workspace-relative `rel` of project `pid` lives: the pid is
    /// validated first, then `rel` is joined onto the workspace directory.
    pub fn workspace_safe_join(&self, pid: &str, rel: &str) -> (r: Result<String, FsError>)
        ensures
            match r {
                Ok(p) => pid_error(pid@) is None && safe_join_spec(
                    self.workspace_dir_spec(pid@),
                    rel@,
                ) == Ok::<Seq<char>, PathError>(p@),
                Err(FsError::InvalidPath(m)) => pid_error(pid@) == Some(m@) || (pid_error(
                    pid@,
                ) is None && exists|e: PathError|
                    safe_join_spec(self.workspace_dir_spec(pid@), rel@) == Err::<
                        Seq<char>,
                        PathError,
                    >(e) && m@ == e.message_spec()),
                Err(FsError::Io(_)) => false,
            },
    {
        let dir = self.project_dir(pid)?;
        let d = chars_of(dir.as_str());
        let w = chars_of("workspace");
        let ws = string_of(&join_path(&d, &w));
        safe_join(ws.as_str(), rel)
    }
}

} // verus!
