//! Tenant checks of the routes: a caller reaches a workspace, or an agent,
//! session, automation or run inside one, only when the workspace is theirs.
//! A missing record and one of another tenant get the same answer, so that a
//! route never tells which of the two it was.

use vstd::prelude::*;
use crate::api::{api_error, ApiError};

verus! {

/// The kind of record a route looks up for its caller.
#[derive(Clone, Copy, Debug, PartialEq, Eq)]
pub enum Owned {
    Workspace,
    Agent,
    Session,
    Automation,
    Run,
}

/// The message of the `404` for a record of kind `k`.
pub open spec fn not_found_message(k: Owned) -> Seq<char> {
    match k {
        Owned::Workspace => "workspace not found"@,
        Owned::Agent => "agent not found"@,
        Owned::Session => "session not found"@,
        Owned::Automation => "automation not found"@,
        Owned::Run => "run not found"@,
    }
}

/// What a lookup answers: nothing when the owner of the record's workspace
/// is the caller, else the status and message of the refusal. `owner` is the
/// user owning the workspace that holds the record, `None` when the record
/// or its workspace is missing.
pub open spec fn ownership_refusal(k: Owned, owner: Option<u128>, user: u128) -> Option<
    (u16, Seq<char>),
> {
    if owner == Some(user) {
        None
    } else {
        Some((404u16, not_found_message(k)))
    }
}

impl Owned {
    /// The `404` answered for a missing or foreign record of this kind.
    pub fn not_found(self) -> (e: ApiError)
        ensures
            e.status == 404,
            e.message@ == not_found_message(self),
    {
        match self {
            Owned::Workspace => api_error(404, "workspace not found"),
            Owned::Agent => api_error(404, "agent not found"),
            Owned::Session => api_error(404, "session not found"),
            Owned::Automation => api_error(404, "automation not found"),
            Owned::Run => api_error(404, "run not found"),
        }
    }
}

/// Let the caller `user` through to a record of kind `kind` whose workspace
/// belongs to `owner` (`None`: the record or its workspace is missing).
pub fn require_owned(kind: Owned, owner: Option<u128>, user: u128) -> (r: Result<(), ApiError>)
    ensures
        r is Ok <==> ownership_refusal(kind, owner, user) is None,
        r matches Err(e) ==> ownership_refusal(kind, owner, user) == Some((e.status, e.message@)),
{
    match owner {
        Some(o) => if o == user {
            Ok(())
        } else {
            Err(kind.not_found())
        },
        None => Err(kind.not_found()),
    }
}

/// A record of another tenant is answered exactly as a missing one: same
/// status, same message.
pub proof fn lemma_foreign_looks_missing(k: Owned, owner: Option<u128>, user: u128)
    requires
        owner != Some(user),
    ensures
        ownership_refusal(k, owner, user) == ownership_refusal(k, None, user),
        ownership_refusal(k, owner, user) is Some,
{
}

/// The caller reaches exactly the records of their own workspaces.
pub proof fn lemma_owner_passes(k: Owned, owner: Option<u128>, user: u128)
    ensures
        ownership_refusal(k, owner, user) is None <==> owner == Some(user),
{
}

} // verus!
