use agent_k_backend::automation_api::{
    adhoc_fields, adhoc_target, apply_update, collect_occurrences, first_fire,
    require_enabled, require_trigger_of, run_schedule, webhook_gate, AutomationFields, NewRun,
    RunSnapshot, TriggerFires, UpdateAutomationRequest,
};
use agent_k_backend::automation_api::{
    new_automation, plan_run_listing, require_window_order, CreateAutomationRequest, ListRunsQuery,
    RunListing, RUN_WINDOW_MAX,
};
use agent_k_backend::automation_api::{decide_retry, enqueue_run, require_name, retry_scheduled_log, RetryDecision};
use agent_k_backend::chat::SessionOrigin;
use agent_k_backend::agents::AgentType;
use agent_k_backend::automation::{RunLogKind, RunState, RunStatus};

fn fields() -> AutomationFields {
    AutomationFields {
        name: "daily".into(),
        description: None,
        prompt: "summarize".into(),
        agent_type: "coworker".into(),
        model: Some("m1".into()),
        enabled: true,
    }
}

fn empty_patch() -> UpdateAutomationRequest {
    UpdateAutomationRequest { name: None, description: None, prompt: None, agent_type: None, model: None, enabled: None }
}

#[test]
fn updates_merge_and_validate() {
    let (f, cancel) = apply_update(fields(), empty_patch()).ok().unwrap();
    assert_eq!((f.name.as_str(), f.model.as_deref(), f.enabled, cancel), ("daily", Some("m1"), true, false));
    let mut p = empty_patch();
    p.enabled = Some(false);
    p.description = Some("d".into());
    let (f, cancel) = apply_update(fields(), p).ok().unwrap();
    assert!(cancel && !f.enabled);
    assert_eq!(f.description.as_deref(), Some("d"));
    let mut p = empty_patch();
    p.name = Some("   ".into());
    let e = require_name(&p.name).err().unwrap();
    assert_eq!((e.status, e.message.as_str()), (400, "name must not be empty"));
    assert!(require_name(&None).is_ok());
    assert!(require_name(&Some("weekly".into())).is_ok());
    let (f, _) = apply_update(fields(), p).ok().unwrap();
    assert_eq!(f.name, "   ");
    let mut p = empty_patch();
    p.agent_type = Some("robot".into());
    let e = apply_update(fields(), p).err().unwrap();
    assert_eq!(e.message, "unknown agent_type: robot");
}

#[test]
fn runs_snapshot_their_source() {
    let r = NewRun::from_automation(1, 2, &fields(), Some(3), None);
    assert_eq!((r.automation_id, r.trigger_id, r.workspace_id), (Some(1), Some(3), 2));
    assert_eq!((r.title.as_str(), r.prompt.as_str()), ("daily", "summarize"));
    let prev = RunSnapshot {
        id: 9,
        automation_id: Some(1),
        trigger_id: None,
        workspace_id: 2,
        prompt: "p".repeat(80),
        agent_type: "coworker".into(),
        model: None,
    };
    let retry = NewRun::retry_of(&prev);
    assert_eq!(retry.previous_run_id, Some(9));
    assert_eq!(retry.title, "p".repeat(60));
    assert_eq!(retry.prompt, "p".repeat(80));
}

#[test]
fn run_requests() {
    assert_eq!(run_schedule(Some(50), 10), (50, "one_time"));
    assert_eq!(run_schedule(None, 10), (10, "manual"));
    assert_eq!(require_enabled(false).err().unwrap().status, 409);
    assert_eq!(adhoc_target(None, Some("x".into())).err().unwrap().message, "automation_id or workspace_id is required");
    assert_eq!(adhoc_target(Some(1), None).err().unwrap().message, "prompt is required for ad-hoc runs");
    assert_eq!(adhoc_target(Some(1), Some("x".into())).ok().unwrap(), (1, "x".to_string()));
    assert_eq!(adhoc_fields(" \n", None, None).err().unwrap().message, "prompt must not be empty");
    assert_eq!(adhoc_fields("do it", None, None).ok().unwrap(), ("do it".to_string(), "coworker".to_string()));
    assert_eq!(
        adhoc_fields("do it", Some("T".into()), Some("deep-research".into())).ok().unwrap(),
        ("T".to_string(), "deep-research".to_string())
    );
}

#[test]
fn triggers_and_webhooks() {
    assert_eq!(first_fire(true, true, 77), Some(77));
    assert_eq!(first_fire(true, false, 77), None);
    assert_eq!(require_trigger_of(Some(5), 6).err().unwrap().message, "trigger not found");
    assert!(require_trigger_of(Some(6), 6).is_ok());
    assert!(webhook_gate(true, Some(true)).is_ok());
    assert_eq!(webhook_gate(true, Some(false)).err().unwrap().status, 401);
    assert_eq!(webhook_gate(false, Some(true)).err().unwrap().message, "invalid token");
}

#[test]
fn occurrences_are_merged_in_fire_order() {
    let ts = vec![
        TriggerFires { trigger_id: 1, automation_id: 10, automation_name: "a".into(), tz: None, fires: Ok((vec![30, 10], false)) },
        TriggerFires { trigger_id: 2, automation_id: 20, automation_name: "b".into(), tz: Some("UTC".into()), fires: Err("bad expr".into()) },
        TriggerFires { trigger_id: 3, automation_id: 30, automation_name: "c".into(), tz: None, fires: Ok((vec![20], true)) },
    ];
    let (items, truncated) = collect_occurrences(ts);
    let order: Vec<(i64, u128)> = items.iter().map(|o| (o.fire_at, o.trigger_id)).collect();
    assert_eq!(order, vec![(10, 1), (20, 3), (30, 1)]);
    assert!(truncated);
    assert_eq!(items[1].automation_name, "c");
}

fn create_req(name: &str, prompt: &str, agent: Option<&str>) -> CreateAutomationRequest {
    CreateAutomationRequest {
        workspace_id: 1,
        name: name.into(),
        description: Some("d".into()),
        prompt: prompt.into(),
        agent_type: agent.map(|a| a.to_string()),
        model: None,
    }
}

#[test]
fn new_automations_are_checked_and_enabled() {
    let e = new_automation(create_req("  ", "p", None)).err().unwrap();
    assert_eq!((e.status, e.message.as_str()), (400, "name must not be empty"));
    let e = new_automation(create_req("n", " \t", None)).err().unwrap();
    assert_eq!((e.status, e.message.as_str()), (400, "prompt must not be empty"));
    let e = new_automation(create_req("n", "p", Some("wizard"))).err().unwrap();
    assert_eq!((e.status, e.message.as_str()), (400, "unknown agent_type: wizard"));
    let f = new_automation(create_req("n", "p", None)).ok().unwrap();
    assert_eq!(f.agent_type, "coworker");
    assert!(f.enabled);
    assert_eq!(f.description.as_deref(), Some("d"));
    let f = new_automation(create_req("n", "p", Some("deep-research"))).ok().unwrap();
    assert_eq!(f.agent_type, "deep-research");
}

#[test]
fn run_listings_follow_the_query() {
    let q = ListRunsQuery { automation_id: Some(9), workspace_id: None, from: Some(10), to: Some(20) };
    assert!(matches!(plan_run_listing(&q, 3), RunListing::Window { workspace: 3, from: 10, to: 20, limit } if limit == RUN_WINDOW_MAX));
    let q = ListRunsQuery { automation_id: Some(9), workspace_id: Some(4), from: Some(10), to: None };
    assert!(matches!(plan_run_listing(&q, 3), RunListing::ByAutomation { automation: 9 }));
    let q = ListRunsQuery { automation_id: None, workspace_id: Some(4), from: None, to: None };
    assert!(matches!(plan_run_listing(&q, 3), RunListing::ByWorkspace { workspace: 4 }));
    let q = ListRunsQuery { automation_id: None, workspace_id: None, from: None, to: None };
    assert!(matches!(plan_run_listing(&q, 3), RunListing::ByWorkspace { workspace: 3 }));
    assert!(require_window_order(10, 20).is_ok());
    let e = require_window_order(20, 20).err().unwrap();
    assert_eq!((e.status, e.message.as_str()), (400, "`to` must be after `from`"));
}

fn new_run(automation: Option<u128>) -> NewRun {
    NewRun {
        automation_id: automation,
        trigger_id: Some(7),
        workspace_id: 3,
        title: "daily".into(),
        prompt: "summarize".into(),
        agent_type: "coworker".into(),
        model: None,
        previous_run_id: None,
    }
}

#[test]
fn enqueued_runs_start_queued_and_are_gated_on_enabled() {
    assert!(enqueue_run(new_run(Some(1)), 10, 11, 100, false).is_none());
    let q = enqueue_run(new_run(Some(1)), 10, 11, 100, true).unwrap();
    assert_eq!((q.id, q.session_id, q.workspace_id, q.scheduled_for), (10, 11, 3, 100));
    assert_eq!(q.state, RunState { status: RunStatus::Queued, lease_until: None });
    assert_eq!(q.session_title, "daily");
    assert_eq!(q.events, vec![RunLogKind::Triggered, RunLogKind::Queued]);
    assert_eq!(q.session_origin, SessionOrigin::Automation);
    assert_eq!(q.session_agent, AgentType::Coworker);
    assert_eq!(q.session_model, None);
    let adhoc = enqueue_run(new_run(None), 12, 13, 5, false).unwrap();
    assert_eq!(adhoc.automation_id, None);
    assert_eq!(adhoc.trigger_id, Some(7));
}

fn failed_run(automation: Option<u128>) -> RunSnapshot {
    RunSnapshot {
        id: 9,
        automation_id: automation,
        trigger_id: None,
        workspace_id: 2,
        prompt: "summarize".into(),
        agent_type: "coworker".into(),
        model: None,
    }
}

#[test]
fn retries_of_disabled_automations_are_skipped_and_logged() {
    match decide_retry(&failed_run(Some(1)), Some(false), 2) {
        RetryDecision::Skip(l) => {
            assert_eq!((l.run_id, l.kind, l.reason, l.attempt), (9, RunLogKind::RetrySkipped, Some("automation_disabled"), 2));
            assert_eq!((l.next_run_id, l.scheduled_for), (None, None));
        }
        RetryDecision::Enqueue(_) => panic!("a disabled automation is not retried"),
    }
    for enabled in [Some(true), None] {
        let automation = if enabled.is_some() { Some(1) } else { None };
        match decide_retry(&failed_run(automation), enabled, 2) {
            RetryDecision::Enqueue(n) => {
                assert_eq!(n.previous_run_id, Some(9));
                assert_eq!(n.prompt, "summarize");
                assert_eq!(n.automation_id, automation);
            }
            RetryDecision::Skip(_) => panic!("retry expected"),
        }
    }
    let l = retry_scheduled_log(9, 10, 500, 2);
    assert_eq!((l.run_id, l.kind, l.reason, l.attempt, l.next_run_id, l.scheduled_for),
        (9, RunLogKind::RetryScheduled, None, 2, Some(10), Some(500)));
}

#[test]
fn occurrences_at_one_instant_keep_trigger_order() {
    let ts = vec![
        TriggerFires { trigger_id: 1, automation_id: 10, automation_name: "a".into(), tz: None, fires: Ok((vec![20, 40], false)) },
        TriggerFires { trigger_id: 2, automation_id: 20, automation_name: "b".into(), tz: None, fires: Ok((vec![10, 20], false)) },
        TriggerFires { trigger_id: 3, automation_id: 30, automation_name: "c".into(), tz: None, fires: Ok((vec![20], false)) },
    ];
    let (items, truncated) = collect_occurrences(ts);
    let order: Vec<(i64, u128)> = items.iter().map(|o| (o.fire_at, o.trigger_id)).collect();
    assert_eq!(order, vec![(10, 2), (20, 1), (20, 2), (20, 3), (40, 1)]);
    assert!(!truncated);
}
