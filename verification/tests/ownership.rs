use agent_k_backend::ownership::{require_owned, Owned};

#[test]
fn foreign_and_missing_agents_answer_alike() {
    let alice: u128 = 1;
    let bob: u128 = 2;
    let foreign = require_owned(Owned::Agent, Some(alice), bob).unwrap_err();
    let missing = require_owned(Owned::Agent, None, bob).unwrap_err();
    assert_eq!(foreign.status, 404);
    assert_eq!(foreign.status, missing.status);
    assert_eq!(foreign.message, missing.message);
    assert_eq!(foreign.message, "agent not found");
    assert!(require_owned(Owned::Agent, Some(alice), alice).is_ok());
}

#[test]
fn each_kind_names_itself() {
    let cases = [
        (Owned::Workspace, "workspace not found"),
        (Owned::Agent, "agent not found"),
        (Owned::Session, "session not found"),
        (Owned::Automation, "automation not found"),
        (Owned::Run, "run not found"),
    ];
    for (k, msg) in cases {
        let e = require_owned(k, Some(7), 8).unwrap_err();
        assert_eq!(e.status, 404);
        assert_eq!(e.message, msg);
        assert!(require_owned(k, Some(8), 8).is_ok());
    }
}
