use agent_k_backend::reconcile::{dedup_targets, plan_batches, skip_reconcile, stale_ids, CoalesceGate, IdSet};
use agent_k_backend::text::{parse_i64, parse_u64};

#[test]
fn batches_respect_the_byte_budget() {
    assert_eq!(plan_batches(&[4, 4, 4], 8), vec![(0, 2), (2, 3)]);
    assert_eq!(plan_batches(&[20, 1], 8), vec![(0, 1), (1, 2)]);
    assert!(plan_batches(&[], 8).is_empty());
}

#[test]
fn duplicate_targets_keep_the_first() {
    let t = vec![("/a".to_string(), 1u8), ("/b".to_string(), 2u8), ("/a".to_string(), 3u8)];
    assert_eq!(dedup_targets(&t), vec![("/a".to_string(), 1u8), ("/b".to_string(), 2u8)]);
}

#[test]
fn a_burst_of_triggers_runs_once() {
    let mut g = CoalesceGate::new();
    assert!(!g.pending());
    g.trigger();
    g.trigger();
    let cur = g.begin().unwrap();
    g.finish(cur, true);
    assert!(g.begin().is_none());
    g.trigger();
    let cur = g.begin().unwrap();
    g.finish(cur, false);
    assert!(g.pending());
}

#[test]
fn integer_parsing_follows_std() {
    for s in ["0", "+12", "-12", "9223372036854775807", "-9223372036854775808", "", "+", "-", "1_0", "9223372036854775808"] {
        assert_eq!(parse_i64(s), s.parse::<i64>().ok(), "{s:?}");
    }
    for s in ["0", "+7", "-7", "18446744073709551615", "18446744073709551616", "x", ""] {
        assert_eq!(parse_u64(s), s.parse::<u64>().ok(), "{s:?}");
    }
}

/// One resync task: skip when nothing is outstanding, else run `reconcile`
/// (which may record triggers meanwhile) and record how it ended.
fn coalesce(g: &mut CoalesceGate, reconcile: impl FnOnce(&mut CoalesceGate) -> bool) {
    if let Some(cur) = g.begin() {
        let ok = reconcile(g);
        g.finish(cur, ok);
    }
}

#[test]
fn coalesces_burst_to_one_reconcile() {
    let mut g = CoalesceGate::new();
    let mut calls = 0;
    for _ in 0..5 {
        g.trigger();
    }
    for _ in 0..5 {
        coalesce(&mut g, |_| {
            calls += 1;
            true
        });
    }
    assert_eq!(calls, 1);

    g.trigger();
    coalesce(&mut g, |_| {
        calls += 1;
        true
    });
    assert_eq!(calls, 2);
}

#[test]
fn err_does_not_advance_done_so_burst_retries() {
    let mut g = CoalesceGate::new();
    g.trigger();
    coalesce(&mut g, |_| false);

    let mut calls = 0;
    coalesce(&mut g, |_| {
        calls += 1;
        true
    });
    assert_eq!(calls, 1);
}

#[test]
fn trigger_during_reconcile_runs_one_more() {
    let mut g = CoalesceGate::new();
    let mut calls = 0;

    g.trigger();
    coalesce(&mut g, |g| {
        calls += 1;
        g.trigger();
        true
    });
    assert_eq!(g.done, 1);

    for _ in 0..3 {
        coalesce(&mut g, |_| {
            calls += 1;
            true
        });
    }
    assert_eq!(calls, 2);
}

#[test]
fn purge_takes_listed_documents_that_are_not_protected() {
    let mut protected = IdSet::new();
    protected.insert(1);
    let listed = vec![
        "67e55044-10b1-426f-9247-bb680e5fe0c8".to_string(),
        "not-a-uuid".to_string(),
        "00000000-0000-0000-0000-000000000001".to_string(),
        "00000000-0000-0000-0000-000000000002".to_string(),
    ];
    assert_eq!(stale_ids(&listed, &protected), vec![0x67e55044_10b1_426f_9247_bb680e5fe0c8u128, 2]);
    assert!(stale_ids(&[], &protected).is_empty());
}

#[test]
fn an_empty_pass_without_an_index_is_skipped() {
    assert!(skip_reconcile(0, false));
    assert!(!skip_reconcile(0, true));
    assert!(!skip_reconcile(3, false));
}
