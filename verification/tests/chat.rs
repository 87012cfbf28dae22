use agent_k_backend::chat::{activity_key, apply_session_update, new_session_fields, touch_after_message};
use agent_k_backend::chat::{SenderKind, SessionOrigin, ShareMode};
use agent_k_backend::project::{derive_slug, slug_or_fallback};
use agent_k_backend::workspaces::{default_workspace_title, require_deletable, retitle, workspace_root, UpdateWorkspaceRequest};
use agent_k_backend::project::{apply_project_update, ProjectFields, SlugHistory};

#[test]
fn stored_names_round_trip() {
    for m in [ShareMode::Private, ShareMode::SharedReadonly, ShareMode::SharedChat] {
        assert_eq!(ShareMode::parse(m.as_str()), Ok(m));
    }
    assert_eq!(ShareMode::parse("public"), Err("invalid share_mode: public".to_string()));
    assert_eq!(SessionOrigin::parse("automation"), Ok(SessionOrigin::Automation));
    assert_eq!(SessionOrigin::parse("cron"), Err("invalid origin: cron".to_string()));
    assert_eq!(SenderKind::parse(SenderKind::Agent.as_str()), Ok(SenderKind::Agent));
    assert_eq!(SenderKind::parse("bot"), Err("invalid sender_kind: bot".to_string()));
}

#[test]
fn slugs() {
    assert_eq!(derive_slug(Some("given".into()), "Whatever"), "given");
    assert_eq!(derive_slug(None, "My Cool Project"), "my-cool-project");
    let made = derive_slug(None, "!!!");
    assert!(made.starts_with("project-"), "{made}");
    assert_eq!(made.len(), "project-".len() + 6);
}

#[test]
fn workspace_records() {
    assert_eq!(default_workspace_title("ann"), "ann's workspace");
    assert_eq!(retitle("old".into(), UpdateWorkspaceRequest { title: Some("new".into()) }), ("new".to_string(), true));
    assert_eq!(retitle("old".into(), UpdateWorkspaceRequest { title: None }), ("old".to_string(), false));
    assert_eq!(require_deletable(1, 1).err().unwrap().status, 403);
    assert!(require_deletable(2, 1).is_ok());
    assert_eq!(
        workspace_root("/data", 0x15fc016b_0000_4000_8000_000000000000u128),
        "/data/workspaces/15fc016b-0000-4000-8000-000000000000/files"
    );
}

#[test]
fn project_updates_retire_changed_slugs() {
    let cur = ProjectFields { slug: "alpha".into(), name: "Alpha".into(), description: Some("d".into()) };
    let (f, retired) = apply_project_update(cur, None, Some(None), Some("beta".into()));
    assert_eq!((f.slug.as_str(), f.name.as_str(), f.description), ("beta", "Alpha", None));
    assert_eq!(retired.as_deref(), Some("alpha"));
    let cur = ProjectFields { slug: "beta".into(), name: "B".into(), description: None };
    let (_, retired) = apply_project_update(cur, Some("B2".into()), None, Some("beta".into()));
    assert_eq!(retired, None);

    let mut h = SlugHistory::new();
    h.retire("alpha".into(), 1);
    h.retire("alpha".into(), 2);
    assert_eq!(h.retired_owner("alpha"), Some(1), "a retired slug is never reassigned");
    assert_eq!(h.retired_owner("gamma"), None);
}

#[test]
fn session_updates_keep_replace_or_clear() {
    let s = new_session_fields(Some("coworker".into()), None);
    assert_eq!(s.share_mode, ShareMode::Private);
    assert!(s.title.is_none());
    assert_eq!(s.agent_type.as_deref(), Some("coworker"));
    let s = apply_session_update(s, Some(Some("My session".into())), Some(ShareMode::SharedChat), None, None);
    assert_eq!(s.title.as_deref(), Some("My session"));
    assert_eq!(s.share_mode, ShareMode::SharedChat);
    assert_eq!(s.agent_type.as_deref(), Some("coworker"));
    let s = apply_session_update(s, None, None, Some(None), Some(Some("m".into())));
    assert_eq!(s.title.as_deref(), Some("My session"));
    assert!(s.agent_type.is_none());
    assert_eq!(s.model.as_deref(), Some("m"));
}

#[test]
fn last_message_time_only_moves_forward() {
    assert_eq!(touch_after_message(None, 100, Some("hi".into())), (100, Some("hi".to_string())));
    assert_eq!(touch_after_message(Some(90), 100, None), (100, None));
    assert_eq!(touch_after_message(Some(120), 100, None).0, 120);
    assert_eq!(activity_key(Some(5), 1), 5);
    assert_eq!(activity_key(None, 1), 1);
}

#[test]
fn an_empty_slug_falls_back_to_a_random_one() {
    assert_eq!(slug_or_fallback("my-project".into()), "my-project");
    let made = slug_or_fallback(String::new());
    assert!(made.starts_with("project-"));
    assert_eq!(made.len(), 14);
    assert!(made["project-".len()..].chars().all(|c| c.is_ascii_alphanumeric() || c == '_' || c == '-'));
}

#[test]
fn insert_derives_slug_from_name_when_omitted() {
    assert_eq!(derive_slug(None, "My Cool Project"), "my-cool-project");
}
