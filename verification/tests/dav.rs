use agent_k_backend::dav::{canonical_wid, dav_bearer, parse_wid};

#[test]
fn parse_wid_requires_canonical_form() {
    let canon = "15fc016b-0000-4000-8000-000000000000";
    assert!(parse_wid(&format!("/workspaces/{canon}/files")).is_some());
    assert!(parse_wid(&format!("/workspaces/{canon}/files/sub/a.txt")).is_some());

    assert!(parse_wid("/workspaces/15FC016B-0000-4000-8000-000000000000/files").is_none());
    assert!(parse_wid("/workspaces/15fc016b000040008000000000000000/files").is_none());

    assert!(parse_wid("/workspaces/not-a-uuid/files").is_none());
    assert!(parse_wid(&format!("/workspaces/{canon}")).is_none());
}

#[test]
fn parse_wid_returns_the_id() {
    let w = parse_wid("/workspaces/15fc016b-0000-4000-8000-000000000000/sources").unwrap();
    assert_eq!(w, 0x15fc016b_0000_4000_8000_000000000000u128);
    assert!(parse_wid("/elsewhere/15fc016b-0000-4000-8000-000000000000/x").is_none());
}

#[test]
fn bearer_token_is_trimmed() {
    assert_eq!(dav_bearer(Some("Bearer  abc ")).as_deref(), Some("abc"));
    assert_eq!(dav_bearer(Some("Basic abc")), None);
    assert_eq!(dav_bearer(None), None);
}

#[test]
fn only_the_canonical_spelling_names_a_workspace() {
    let w = 0x67e55044_10b1_426f_9247_bb680e5fe0c8u128;
    assert_eq!(canonical_wid("67e55044-10b1-426f-9247-bb680e5fe0c8", Some(w)), Some(w));
    assert_eq!(canonical_wid("67E55044-10B1-426F-9247-BB680E5FE0C8", Some(w)), None);
    assert_eq!(canonical_wid("67e5504410b1426f9247bb680e5fe0c8", Some(w)), None);
    assert_eq!(canonical_wid("67e55044-10b1-426f-9247-bb680e5fe0c8", None), None);
}
