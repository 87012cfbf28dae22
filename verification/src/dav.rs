//! Request gating of the WebDAV workspace routes: which workspace a path
//! names, and the bearer token a request carries.

use vstd::prelude::*;

use crate::forward::split_once_spec;
use crate::ids::{uuid_hyphenated, uuid_parse, uuid_parse_result, uuid_to_string};
use crate::text::{chars_eq, chars_of, starts_with, string_of, sub_chars, trim, trim_ws};

verus! {

/// Leading segment of every workspace DAV path.
pub const WORKSPACES_PREFIX: &'static str = "/workspaces/";

/// The workspace a DAV path names: the segment after `/workspaces/`, which
/// must be followed by a `/`, must parse as an id, and must be that id's
/// canonical lowercase hyphenated form.
pub open spec fn parse_wid_spec(path: Seq<char>) -> Option<u128> {
    if !WORKSPACES_PREFIX@.is_prefix_of(path) {
        None
    } else {
        match split_once_spec(path.skip(WORKSPACES_PREFIX@.len() as int), '/') {
            None => None,
            Some((seg, _)) => match uuid_parse_result(seg) {
                Some(w) => if seg == uuid_hyphenated(w) {
                    Some(w)
                } else {
                    None
                },
                None => None,
            },
        }
    }
}

/// The workspace named by a path segment `seg`, given what parsing it as an
/// id gave: the id, when the segment is that id's canonical lowercase
/// hyphenated form.
pub fn canonical_wid(seg: &str, parsed: Option<u128>) -> (r: Option<u128>)
    ensures
        r == (match parsed {
            Some(w) => if seg@ == uuid_hyphenated(w) {
                Some(w)
            } else {
                None
            },
            None => None,
        }),
{
    match parsed {
        None => None,
        Some(w) => {
            let canon = uuid_to_string(w);
            if chars_eq(&chars_of(seg), &chars_of(canon.as_str())) {
                Some(w)
            } else {
                None
            }
        },
    }
}

/// The workspace id of a DAV request path. A non-canonical spelling of an id
/// (uppercase, or without hyphens) is refused: the DAV prefix is matched
/// byte for byte against the canonical form.
pub fn parse_wid(path: &str) -> (r: Option<u128>)
    ensures
        r == parse_wid_spec(path@),
{
    let p = chars_of(path);
    let prefix = chars_of(WORKSPACES_PREFIX);
    if !starts_with(&p, &prefix) {
        return None;
    }
    let rest = sub_chars(&p, prefix.len(), p.len());
    assert(rest@ =~= path@.skip(WORKSPACES_PREFIX@.len() as int));
    match crate::forward::split_once_chars(&rest, '/') {
        None => None,
        Some((seg, _)) => {
            let seg_s = string_of(&seg);
            canonical_wid(seg_s.as_str(), uuid_parse(seg_s.as_str()))
        },
    }
}

/// The token of an `Authorization` header of the form `Bearer <token>`,
/// trimmed.
pub open spec fn dav_bearer_spec(header: Option<Seq<char>>) -> Option<Seq<char>> {
    match header {
        Some(h) => if "Bearer "@.is_prefix_of(h) {
            Some(trim(h.skip(7)))
        } else {
            None
        },
        None => None,
    }
}

/// The bearer token of a DAV request, trimmed; `None` when the header is
/// missing or not of the `Bearer ` form.
pub fn dav_bearer(header: Option<&str>) -> (r: Option<String>)
    ensures
        match r {
            Some(t) => dav_bearer_spec(
                match header {
                    Some(h) => Some(h@),
                    None => None,
                },
            ) == Some(t@),
            None => dav_bearer_spec(
                match header {
                    Some(h) => Some(h@),
                    None => None,
                },
            ) is None,
        },
{
    proof {
        reveal_strlit("Bearer ");
    }
    match header {
        None => None,
        Some(h) => {
            let hc = chars_of(h);
            if starts_with(&hc, &chars_of("Bearer ")) {
                let rest = sub_chars(&hc, 7, hc.len());
                assert(rest@ =~= h@.skip(7));
                Some(string_of(&trim_ws(&rest)))
            } else {
                None
            }
        },
    }
}

} // verus!
