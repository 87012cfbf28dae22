use agent_k_backend::session::{DriveStep, Fetch, Fetched, RunSlotError, RunSlots, SessionRunStatus};
use agent_k_backend::session::{
    attach_events, next_seq_start, replay_history, resume_point, AttachEvent, CompletedMessage,
    LiveAction, LiveFrame, MessageRole, StreamCursor, TurnOutcome, TurnTracker, INTERRUPT_NOTE,
};

fn assistant(calls: &[&str], stop: bool) -> CompletedMessage {
    CompletedMessage {
        depth: None,
        role: MessageRole::Assistant,
        finished_with_stop: stop,
        tool_call_ids: calls.iter().map(|c| c.to_string()).collect(),
        message_id: None,
    }
}

fn tool_result(id: &str) -> CompletedMessage {
    CompletedMessage {
        depth: Some(0),
        role: MessageRole::Tool,
        finished_with_stop: false,
        tool_call_ids: vec![],
        message_id: Some(id.to_string()),
    }
}

#[test]
fn sequence_numbers_are_consecutive_from_the_start() {
    let mut t = TurnTracker::new(5);
    assert_eq!(t.take_seq(), 5);
    assert_eq!(t.on_completed(&assistant(&[], true)), (6, 0));
    let sub = CompletedMessage {
        depth: Some(2),
        role: MessageRole::Assistant,
        finished_with_stop: true,
        tool_call_ids: vec!["x".into()],
        message_id: None,
    };
    assert_eq!(t.on_completed(&sub), (7, 2));
    assert_eq!(t.next_seq(), 8);
    // A sub-agent message leaves the top-level bookkeeping alone.
    assert!(t.pending_calls().is_empty());
}

#[test]
fn deltas_report_utf16_length_of_the_whole_answer() {
    let mut t = TurnTracker::new(0);
    assert_eq!(t.on_delta("ab"), 2);
    assert_eq!(t.on_delta("😀"), 4);
    assert_eq!(t.partial_text(), "ab😀");
    t.on_completed(&assistant(&[], false));
    assert_eq!(t.partial_text(), "");
}

#[test]
fn tool_results_settle_their_calls() {
    let mut t = TurnTracker::new(0);
    t.on_completed(&assistant(&["c1", "c2"], false));
    assert_eq!(t.pending_calls(), vec!["c1".to_string(), "c2".to_string()]);
    t.on_completed(&tool_result("c1"));
    assert_eq!(t.pending_calls(), vec!["c2".to_string()]);
    assert!(!t.completed_naturally());
}

#[test]
fn stop_stubs_dangling_calls_then_notes_the_partial_answer() {
    let mut t = TurnTracker::new(10);
    t.on_completed(&assistant(&["c1", "c2"], false));
    t.on_completed(&tool_result("c1"));
    t.on_delta("half an ans");
    t.on_cancel();
    assert!(t.is_stopped());
    assert!(!t.flushes_on_end());
    match t.finish() {
        TurnOutcome::Stopped { stubs, note_seq, note } => {
            assert_eq!(stubs, vec![(12, "c2".to_string())]);
            assert_eq!(note_seq, 13);
            assert_eq!(note, format!("half an ans\n\n{INTERRUPT_NOTE}"));
        }
        _ => panic!("expected a stopped turn"),
    }
}

#[test]
fn stop_without_partial_text_is_just_the_note() {
    let mut t = TurnTracker::new(0);
    t.on_cancel();
    match t.finish() {
        TurnOutcome::Stopped { stubs, note_seq, note } => {
            assert!(stubs.is_empty());
            assert_eq!(note_seq, 0);
            assert_eq!(note, INTERRUPT_NOTE);
        }
        _ => panic!("expected a stopped turn"),
    }
}

#[test]
fn stop_at_the_natural_end_is_a_completion() {
    let mut t = TurnTracker::new(0);
    t.on_completed(&assistant(&[], true));
    t.on_cancel();
    assert!(matches!(t.finish(), TurnOutcome::Done));
}

#[test]
fn errors_fail_the_turn_unless_stopping() {
    let mut t = TurnTracker::new(0);
    t.on_error("boom".to_string());
    match t.finish() {
        TurnOutcome::Failed { message } => assert_eq!(message, "boom"),
        _ => panic!("expected a failure"),
    }
    let mut s = TurnTracker::new(0);
    s.on_cancel();
    s.on_error("late".to_string());
    assert!(matches!(s.finish(), TurnOutcome::Stopped { .. }));
    let done = TurnTracker::new(3);
    assert!(matches!(done.finish(), TurnOutcome::Done));
    assert!(done.flushes_on_end());
}

#[test]
fn history_replays_top_level_rows_only() {
    assert_eq!(next_seq_start(Some(41)), 42);
    assert_eq!(next_seq_start(None), 0);
    let rows = vec![(0u8, "u1"), (1u8, "sub"), (0u8, "a1"), (2u8, "deep"), (0u8, "u2")];
    assert_eq!(replay_history(rows), vec!["u1", "a1", "u2"]);
}

#[test]
fn resume_point_prefers_the_header() {
    assert_eq!(resume_point(Some("17"), Some(3)), 17);
    assert_eq!(resume_point(Some("+17"), None), 17);
    assert_eq!(resume_point(Some("-5"), None), -5);
    assert_eq!(resume_point(Some("x"), Some(3)), 3);
    assert_eq!(resume_point(Some("99999999999999999999"), None), -1);
    assert_eq!(resume_point(None, None), -1);
}

#[test]
fn live_messages_are_deduplicated_against_the_catch_up() {
    let mut c = StreamCursor { last_seq: -1 };
    c.on_catch_up(4);
    assert_eq!(c.on_live(&LiveFrame::Message { seq: Some(4) }), LiveAction::Skip);
    assert_eq!(c.on_live(&LiveFrame::Message { seq: None }), LiveAction::Skip);
    assert_eq!(c.on_live(&LiveFrame::Unreadable), LiveAction::Skip);
    assert_eq!(c.on_live(&LiveFrame::Ephemeral), LiveAction::Forward);
    assert_eq!(c.on_live(&LiveFrame::Message { seq: Some(5) }), LiveAction::ForwardWithId(5));
    assert_eq!(c.last_seq, 5);
    assert_eq!(c.on_live(&LiveFrame::Message { seq: Some(5) }), LiveAction::Skip);
}

#[test]
fn attaching_mid_turn_replays_the_partial_answer() {
    assert!(attach_events(None).is_empty());
    let only = attach_events(Some(String::new()));
    assert_eq!(only.len(), 1);
    assert!(matches!(only[0], AttachEvent::RunStarted));
    let both = attach_events(Some("héllo".to_string()));
    assert_eq!(both.len(), 2);
    match &both[1] {
        AttachEvent::Delta { text, cum_len } => {
            assert_eq!(text, "héllo");
            assert_eq!(*cum_len, 5);
        }
        _ => panic!("expected a delta"),
    }
}

#[test]
fn a_stopped_turn_only_drains_what_is_ready() {
    let mut t = TurnTracker::new(0);
    assert_eq!(t.fetch_mode(), Fetch::Await);
    assert_eq!(t.drive_step(Fetched::Item), DriveStep::Handle);
    assert_eq!(t.drive_step(Fetched::EndOfStream), DriveStep::FlushThenEnd);
    t.on_cancel();
    assert_eq!(t.fetch_mode(), Fetch::TakeReady);
    assert_eq!(t.drive_step(Fetched::Item), DriveStep::Handle);
    assert_eq!(t.drive_step(Fetched::NothingReady), DriveStep::End);
    assert_eq!(t.drive_step(Fetched::EndOfStream), DriveStep::End);
}

#[test]
fn a_session_runs_one_turn_at_a_time() {
    let mut slots = RunSlots::new();
    assert!(slots.begin_run(7).is_ok());
    assert!(slots.is_running(7));
    assert_eq!(slots.begin_run(7), Err(RunSlotError::AlreadyRunning(7)));
    assert!(slots.begin_run(8).is_ok());
    slots.end_run(7);
    assert!(!slots.is_running(7));
    assert!(slots.is_running(8));
    assert!(slots.begin_run(7).is_ok());
}

#[test]
fn a_run_ends_with_one_terminal_event_and_frees_its_slot() {
    let mut slots = RunSlots::new();
    assert!(slots.live_partial(3).is_none());
    slots.begin_run(3).unwrap();
    assert_eq!(slots.live_partial(3).as_deref(), Some(""));
    slots.set_partial(3, "Hel".to_string());
    slots.set_partial(4, "ignored".to_string());
    assert_eq!(slots.live_partial(3).as_deref(), Some("Hel"));
    assert!(slots.live_partial(4).is_none());
    assert!(matches!(slots.finish_run(3, Ok(TurnOutcome::Done)), SessionRunStatus::Done));
    assert!(slots.live_partial(3).is_none());
    assert!(slots.begin_run(3).is_ok());
    let stopped = TurnOutcome::Stopped { stubs: vec![], note_seq: 1, note: "n".into() };
    assert!(matches!(slots.finish_run(3, Ok(stopped)), SessionRunStatus::Stopped));
    slots.begin_run(3).unwrap();
    match slots.finish_run(3, Ok(TurnOutcome::Failed { message: "boom".into() })) {
        SessionRunStatus::Error { message } => assert_eq!(message, "boom"),
        _ => panic!("a failed turn ends in an error"),
    }
    slots.begin_run(3).unwrap();
    match slots.finish_run(3, Err("session not found".into())) {
        SessionRunStatus::Error { message } => assert_eq!(message, "session not found"),
        _ => panic!("a failed setup ends in an error"),
    }
    assert!(!slots.is_running(3));
}
