//! Project chat sessions: the stored enumerations (who may see a session,
//! what created it, who sent a message), each stored by name, a stored name
//! that is none of them being invalid data; the fields a new session starts
//! with and how an update changes them; and what a session records of its
//! last message.

use vstd::prelude::*;

use crate::text::{push_str, str_eq, string_of};

verus! {

/// Who may see a session.
#[derive(Debug, Clone, Copy, PartialEq, Eq, Structural)]
pub enum ShareMode {
    Private,
    SharedReadonly,
    SharedChat,
}

/// What created a session.
#[derive(Debug, Clone, Copy, PartialEq, Eq, Structural)]
pub enum SessionOrigin {
    User,
    Automation,
}

/// Who sent a message.
#[derive(Debug, Clone, Copy, PartialEq, Eq, Structural)]
pub enum SenderKind {
    User,
    Agent,
}

/// Stored name of a share mode.
pub open spec fn share_mode_name(m: ShareMode) -> Seq<char> {
    match m {
        ShareMode::Private => "private"@,
        ShareMode::SharedReadonly => "shared_readonly"@,
        ShareMode::SharedChat => "shared_chat"@,
    }
}

/// Stored name of an origin.
pub open spec fn origin_name(o: SessionOrigin) -> Seq<char> {
    match o {
        SessionOrigin::User => "user"@,
        SessionOrigin::Automation => "automation"@,
    }
}

/// Stored name of a sender kind.
pub open spec fn sender_kind_name(k: SenderKind) -> Seq<char> {
    match k {
        SenderKind::User => "user"@,
        SenderKind::Agent => "agent"@,
    }
}

/// `prefix` followed by `s`.
fn invalid(prefix: &str, s: &str) -> (r: String)
    ensures
        r@ == prefix@ + s@,
{
    let mut m: Vec<char> = Vec::new();
    push_str(&mut m, prefix);
    push_str(&mut m, s);
    string_of(&m)
}

impl ShareMode {
    /// The stored name.
    pub fn as_str(self) -> (r: &'static str)
        ensures
            r@ == share_mode_name(self),
    {
        match self {
            ShareMode::Private => "private",
            ShareMode::SharedReadonly => "shared_readonly",
            ShareMode::SharedChat => "shared_chat",
        }
    }

    /// The share mode stored as `s`; any other name is invalid data.
    pub fn parse(s: &str) -> (r: Result<ShareMode, String>)
        ensures
            match r {
                Ok(m) => share_mode_name(m) == s@,
                Err(e) => e@ == "invalid share_mode: "@ + s@ && (forall|m: ShareMode|
                    share_mode_name(m) != s@),
            },
    {
        if str_eq(s, "private") {
            Ok(ShareMode::Private)
        } else if str_eq(s, "shared_readonly") {
            Ok(ShareMode::SharedReadonly)
        } else if str_eq(s, "shared_chat") {
            Ok(ShareMode::SharedChat)
        } else {
            assert forall|m: ShareMode| share_mode_name(m) != s@ by {
                match m {
                    ShareMode::Private => {},
                    ShareMode::SharedReadonly => {},
                    ShareMode::SharedChat => {},
                }
            }
            Err(invalid("invalid share_mode: ", s))
        }
    }
}

impl SessionOrigin {
    /// The stored name.
    pub fn as_str(self) -> (r: &'static str)
        ensures
            r@ == origin_name(self),
    {
        match self {
            SessionOrigin::User => "user",
            SessionOrigin::Automation => "automation",
        }
    }

    /// The origin stored as `s`; any other name is invalid data.
    pub fn parse(s: &str) -> (r: Result<SessionOrigin, String>)
        ensures
            match r {
                Ok(o) => origin_name(o) == s@,
                Err(e) => e@ == "invalid origin: "@ + s@ && (forall|o: SessionOrigin|
                    origin_name(o) != s@),
            },
    {
        if str_eq(s, "user") {
            Ok(SessionOrigin::User)
        } else if str_eq(s, "automation") {
            Ok(SessionOrigin::Automation)
        } else {
            assert forall|o: SessionOrigin| origin_name(o) != s@ by {
                match o {
                    SessionOrigin::User => {},
                    SessionOrigin::Automation => {},
                }
            }
            Err(invalid("invalid origin: ", s))
        }
    }
}

impl SenderKind {
    /// The stored name.
    pub fn as_str(self) -> (r: &'static str)
        ensures
            r@ == sender_kind_name(self),
    {
        match self {
            SenderKind::User => "user",
            SenderKind::Agent => "agent",
        }
    }

    /// The sender kind stored as `s`; any other name is invalid data.
    pub fn parse(s: &str) -> (r: Result<SenderKind, String>)
        ensures
            match r {
                Ok(k) => sender_kind_name(k) == s@,
                Err(e) => e@ == "invalid sender_kind: "@ + s@ && (forall|k: SenderKind|
                    sender_kind_name(k) != s@),
            },
    {
        if str_eq(s, "user") {
            Ok(SenderKind::User)
        } else if str_eq(s, "agent") {
            Ok(SenderKind::Agent)
        } else {
            assert forall|k: SenderKind| sender_kind_name(k) != s@ by {
                match k {
                    SenderKind::User => {},
                    SenderKind::Agent => {},
                }
            }
            Err(invalid("invalid sender_kind: ", s))
        }
    }
}

/// Stored names are distinct, so a stored mode reads back as itself.
pub proof fn lemma_share_mode_names_distinct(a: ShareMode, b: ShareMode)
    ensures
        share_mode_name(a) == share_mode_name(b) ==> a == b,
{
    reveal_strlit("private");
    reveal_strlit("shared_readonly");
    reveal_strlit("shared_chat");
    assert("private"@[0] != "shared_readonly"@[0]);
    assert("shared_readonly"@.len() != "shared_chat"@.len());
}

/// Stored names are distinct, so a stored origin reads back as itself.
pub proof fn lemma_origin_names_distinct(a: SessionOrigin, b: SessionOrigin)
    ensures
        origin_name(a) == origin_name(b) ==> a == b,
{
    reveal_strlit("user");
    reveal_strlit("automation");
    assert("user"@[0] != "automation"@[0]);
}

/// Stored names are distinct, so a stored sender kind reads back as itself.
pub proof fn lemma_sender_kind_names_distinct(a: SenderKind, b: SenderKind)
    ensures
        sender_kind_name(a) == sender_kind_name(b) ==> a == b,
{
    reveal_strlit("user");
    reveal_strlit("agent");
    assert("user"@[0] != "agent"@[0]);
}

/// The editable fields of a session.
pub struct SessionFields {
    pub title: Option<String>,
    pub share_mode: ShareMode,
    pub agent_type: Option<String>,
    pub model: Option<String>,
}

/// The fields of a new session: untitled and private, on the given agent
/// surface.
pub fn new_session_fields(agent_type: Option<String>, model: Option<String>) -> (r: SessionFields)
    ensures
        r.title is None,
        r.share_mode == ShareMode::Private,
        r.agent_type == agent_type,
        r.model == model,
{
    SessionFields { title: None, share_mode: ShareMode::Private, agent_type, model }
}

/// Apply an update of a session: `None` keeps a field, `Some(v)` replaces
/// it, so `Some(None)` clears the title, the agent type or the model.
pub fn apply_session_update(
    current: SessionFields,
    title: Option<Option<String>>,
    share_mode: Option<ShareMode>,
    agent_type: Option<Option<String>>,
    model: Option<Option<String>>,
) -> (r: SessionFields)
    ensures
        r.title == (match title {
            Some(t) => t,
            None => current.title,
        }),
        r.share_mode == (match share_mode {
            Some(m) => m,
            None => current.share_mode,
        }),
        r.agent_type == (match agent_type {
            Some(a) => a,
            None => current.agent_type,
        }),
        r.model == (match model {
            Some(m) => m,
            None => current.model,
        }),
{
    SessionFields {
        title: match title {
            Some(t) => t,
            None => current.title,
        },
        share_mode: match share_mode {
            Some(m) => m,
            None => current.share_mode,
        },
        agent_type: match agent_type {
            Some(a) => a,
            None => current.agent_type,
        },
        model: match model {
            Some(m) => m,
            None => current.model,
        },
    }
}

/// The latest message time of a session after a message stamped `now` is
/// appended to messages whose latest time was `last` (times in seconds
/// since the epoch).
pub open spec fn latest_after(last: Option<i64>, now: i64) -> i64 {
    match last {
        Some(t) => if t < now {
            now
        } else {
            t
        },
        None => now,
    }
}

/// What a session records of its last message once one is appended at
/// `now`: the latest message time and the given snippet.
pub fn touch_after_message(last: Option<i64>, now: i64, snippet: Option<String>) -> (r: (
    i64,
    Option<String>,
))
    ensures
        r.0 == latest_after(last, now),
        r.1 == snippet,
{
    let t = match last {
        Some(t) => if t < now {
            now
        } else {
            t
        },
        None => now,
    };
    (t, snippet)
}

/// A session's recorded last-message time never moves back, and covers the
/// message just appended.
pub proof fn lemma_latest_is_monotone(last: Option<i64>, now: i64)
    ensures
        latest_after(last, now) >= now,
        last matches Some(t) ==> latest_after(last, now) >= t,
{
}

/// The key by which a project's sessions are listed, most recent first: the
/// last message time, or the creation time of a session without messages.
pub fn activity_key(last_message_at: Option<i64>, created_at: i64) -> (r: i64)
    ensures
        r == (match last_message_at {
            Some(t) => t,
            None => created_at,
        }),
{
    match last_message_at {
        Some(t) => t,
        None => created_at,
    }
}

} // verus!
