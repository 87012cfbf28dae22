//! Verified core of the workspace backend: path safety, knowledge-reference
//! bookkeeping, the forward-protocol parsers, automation run lifecycle rules
//! and the session turn bookkeeping.

use vstd::prelude::*;

pub mod text;
pub mod api;
pub mod storage;
pub mod io;
pub mod fs_v2;
pub mod knowledge;
pub mod reconcile;
pub mod ids;
pub mod automation;
pub mod strmap;
pub mod forward;
pub mod prompt;
pub mod session;
pub mod snapshot;
pub mod dav;
pub mod project;
pub mod unified;
pub mod mounts;
pub mod agents;
pub mod automation_api;
pub mod chat;
pub mod workspaces;
pub mod ingest;
pub mod appcache;
pub mod davfile;
pub mod ownership;

verus! {

} // verus!
