//! Workspace records: the default workspace of a user, renaming, the rule
//! that keeps a default workspace from being deleted, and where a
//! workspace's files live under the data root.

use vstd::prelude::*;

use crate::api::{api_error, ApiError};
use crate::ids::{uuid_hyphenated, uuid_to_string};
use crate::storage::{join_path, path_join};
use crate::text::{chars_of, push_str, string_of};

verus! {

/// A partial update of a workspace.
pub struct UpdateWorkspaceRequest {
    pub title: Option<String>,
}

/// The title of a user's default workspace.
pub fn default_workspace_title(username: &str) -> (r: String)
    ensures
        r@ == username@ + "'s workspace"@,
{
    let mut out: Vec<char> = Vec::new();
    push_str(&mut out, username);
    push_str(&mut out, "'s workspace");
    string_of(&out)
}

/// The title after an update, and whether the record counts as modified
/// (only a given title touches it).
pub fn retitle(current: String, patch: UpdateWorkspaceRequest) -> (r: (String, bool))
    ensures
        match patch.title {
            Some(t) => r.0 == t && r.1,
            None => r.0 == current && !r.1,
        },
{
    match patch.title {
        Some(t) => (t, true),
        None => (current, false),
    }
}

/// A user's default workspace (whose id is the user's id) cannot be
/// deleted: 403.
pub fn require_deletable(workspace_id: u128, user_id: u128) -> (r: Result<(), ApiError>)
    ensures
        r is Ok <==> workspace_id != user_id,
        r matches Err(e) ==> e.status == 403 && e.message@ == "cannot delete your default workspace"@,
{
    if workspace_id == user_id {
        Err(api_error(403, "cannot delete your default workspace"))
    } else {
        Ok(())
    }
}

/// `data_root/workspaces/{wid}/files`: the file root of a workspace.
pub open spec fn workspace_root_spec(data_root: Seq<char>, wid: u128) -> Seq<char> {
    path_join(path_join(path_join(data_root, "workspaces"@), uuid_hyphenated(wid)), "files"@)
}

/// The file root of workspace `wid` under `data_root`.
pub fn workspace_root(data_root: &str, wid: u128) -> (r: String)
    ensures
        r@ == workspace_root_spec(data_root@, wid),
{
    let base = chars_of(data_root);
    let a = join_path(&base, &chars_of("workspaces"));
    let b = join_path(&a, &chars_of(uuid_to_string(wid).as_str()));
    let c = join_path(&b, &chars_of("files"));
    string_of(&c)
}

} // verus!
