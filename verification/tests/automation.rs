use agent_k_backend::automation::{pick_due_run, reapable_runs, RunRow};
use agent_k_backend::automation::trigger_is_due;
use agent_k_backend::automation::{apply_run_update, is_due, is_reapable, queued_state, RunState};
use agent_k_backend::automation::{heartbeat_step, lease_until, HeartbeatStep};
use agent_k_backend::automation::{
    apply_run_event, bearer_token, default_true, new_webhook_token, occurrence_window,
    retry_allowed, retry_backoff_for, retry_plan, run_outcome, title_from_prompt,
    webhook_token_hash, RunEvent, RunLogKind, RunOutcome, RunStatus, TriggerKind, TriggerSpec,
};

#[test]
fn names_round_trip() {
    for s in [RunStatus::Queued, RunStatus::Running, RunStatus::Succeeded, RunStatus::Failed, RunStatus::Cancelled] {
        assert_eq!(RunStatus::parse(s.as_str()), Some(s));
    }
    assert_eq!(RunStatus::Succeeded.as_str(), "succeeded");
    assert_eq!(RunStatus::parse("done"), None);
    assert_eq!(TriggerKind::parse(TriggerKind::Webhook.as_str()), Some(TriggerKind::Webhook));
    assert_eq!(RunLogKind::parse(RunLogKind::Queued.as_str()), Some(RunLogKind::Queued));
    let cron = TriggerSpec::Cron { expr: "0 * * * *".into(), tz: None };
    assert_eq!(cron.kind(), TriggerKind::Cron);
    assert_eq!(TriggerSpec::Webhook {}.kind(), TriggerKind::Webhook);
    assert!(default_true());
}

#[test]
fn run_lifecycle_guards() {
    assert_eq!(apply_run_event(RunStatus::Queued, RunEvent::Claim), Some(RunStatus::Running));
    assert_eq!(apply_run_event(RunStatus::Running, RunEvent::Claim), None);
    assert_eq!(apply_run_event(RunStatus::Running, RunEvent::Reap), Some(RunStatus::Queued));
    assert_eq!(apply_run_event(RunStatus::Succeeded, RunEvent::Cancel), None);
    assert_eq!(
        apply_run_event(RunStatus::Queued, RunEvent::AutomationDisabled),
        Some(RunStatus::Cancelled)
    );
    assert!(matches!(run_outcome(None, false), RunOutcome::Abandon));
    assert!(matches!(run_outcome(Some(true), true), RunOutcome::Abandon));
}

#[test]
fn retries_back_off_and_stop() {
    assert_eq!(retry_backoff_for(1), Some(30));
    assert_eq!(retry_backoff_for(2), Some(120));
    assert_eq!(retry_backoff_for(3), None);
    assert_eq!(retry_plan(true, RunStatus::Failed, 1).map(|p| p.1), Some(2));
    assert_eq!(retry_plan(true, RunStatus::Succeeded, 1), None);
    assert_eq!(retry_plan(false, RunStatus::Failed, 1), None);
    assert!(retry_allowed(None));
    assert!(!retry_allowed(Some(false)));
}

#[test]
fn webhook_tokens() {
    let (token, hash) = new_webhook_token();
    assert_eq!(token.len(), 64);
    assert_eq!(hash, webhook_token_hash(&token));
    assert_eq!(
        webhook_token_hash("abc"),
        "ba7816bf8f01cfea414140de5dae2223b00361a396177a9cb410ff61f20015ad"
    );
    assert_eq!(bearer_token(Some("Bearer xyz")).as_deref(), Some("xyz"));
    assert_eq!(bearer_token(Some("bearer xyz")), None);
}

#[test]
fn occurrence_windows() {
    assert_eq!(occurrence_window(0, None).ok(), Some((0, 31 * 86400)));
    let e = occurrence_window(10, Some(10)).err().unwrap();
    assert_eq!((e.status, e.message.as_str()), (400, "`to` must be after `from`"));
    let e = occurrence_window(0, Some(367 * 86400)).err().unwrap();
    assert_eq!((e.status, e.message.as_str()), (400, "window too wide (max 366 days)"));
    assert_eq!(title_from_prompt(&"x".repeat(70)).len(), 60);
}

#[test]
fn leases_and_heartbeats() {
    assert_eq!(lease_until(1000), 1180);
    assert_eq!(heartbeat_step(Some(true)), HeartbeatStep::Continue);
    assert_eq!(heartbeat_step(None), HeartbeatStep::Continue);
    assert_eq!(heartbeat_step(Some(false)), HeartbeatStep::LeaseLost);
}

#[test]
fn hex_is_two_lowercase_digits_per_byte() {
    use_hex();
}

fn use_hex() {
    assert_eq!(agent_k_backend::ids::to_hex_lower(&[0x00, 0x0f, 0xa5, 0xff]), "000fa5ff");
    assert_eq!(agent_k_backend::ids::to_hex_lower(&[]), "");
}

#[test]
fn leases_follow_the_lifecycle() {
    let q = queued_state();
    assert_eq!(q, RunState { status: RunStatus::Queued, lease_until: None });
    assert!(is_due(q, 10, 10));
    assert!(!is_due(q, 11, 10));
    let r = apply_run_update(q, RunEvent::Claim, 100).unwrap();
    assert_eq!(r, RunState { status: RunStatus::Running, lease_until: Some(100) });
    assert!(!is_due(r, 0, 10));
    assert_eq!(apply_run_update(q, RunEvent::RenewLease, 5), None);
    let r2 = apply_run_update(r, RunEvent::RenewLease, 200).unwrap();
    assert_eq!(r2.lease_until, Some(200));
    assert!(is_reapable(r2, Some(201)));
    assert!(!is_reapable(r2, Some(200)));
    assert!(is_reapable(r2, None));
    assert!(!is_reapable(q, None));
    assert_eq!(apply_run_update(r2, RunEvent::Reap, 0), Some(q));
    let done = apply_run_update(r2, RunEvent::Finalize(RunStatus::Succeeded), 0).unwrap();
    assert_eq!(done, RunState { status: RunStatus::Succeeded, lease_until: None });
    assert_eq!(apply_run_update(done, RunEvent::Cancel, 0), None);
    assert_eq!(
        apply_run_update(r, RunEvent::Cancel, 0),
        Some(RunState { status: RunStatus::Cancelled, lease_until: None })
    );
}

#[test]
fn only_enabled_cron_triggers_come_due() {
    assert!(trigger_is_due(TriggerKind::Cron, true, Some(10), true, 10));
    assert!(!trigger_is_due(TriggerKind::Cron, true, Some(11), true, 10));
    assert!(!trigger_is_due(TriggerKind::Cron, false, Some(1), true, 10));
    assert!(!trigger_is_due(TriggerKind::Cron, true, Some(1), false, 10));
    assert!(!trigger_is_due(TriggerKind::Cron, true, None, true, 10));
    assert!(!trigger_is_due(TriggerKind::Webhook, true, Some(1), true, 10));
}

#[test]
fn workers_claim_the_oldest_due_run_and_reap_expired_leases() {
    let queued = RunState { status: RunStatus::Queued, lease_until: None };
    let running = |l: i64| RunState { status: RunStatus::Running, lease_until: Some(l) };
    let rows = [
        RunRow { id: 1, state: queued, scheduled_for: 50 },
        RunRow { id: 2, state: queued, scheduled_for: 20 },
        RunRow { id: 3, state: running(90), scheduled_for: 5 },
        RunRow { id: 4, state: queued, scheduled_for: 200 },
        RunRow { id: 5, state: running(150), scheduled_for: 5 },
    ];
    assert_eq!(pick_due_run(&rows, 100), Some(1));
    assert_eq!(pick_due_run(&rows, 10), None);
    assert_eq!(reapable_runs(&rows, Some(100)), vec![3]);
    assert_eq!(reapable_runs(&rows, None), vec![3, 5]);
    assert!(reapable_runs(&rows, Some(0)).is_empty());
}
