use agent_k_backend::reconcile::{build_keepset, IdSet, Outcome, RefMemo, TargetState};

fn indexed(id: u128) -> TargetState {
    TargetState { last_indexed_id: Some(id), outcome: Outcome::Indexed }
}

fn set(ids: &[u128]) -> IdSet {
    let mut s = IdSet::new();
    for id in ids {
        s.insert(*id);
    }
    s
}

#[test]
fn transient_read_failure_protects_prior_doc() {
    let id = 1u128;
    let mut prev = RefMemo::new();
    prev.insert("/files/a.md".to_string(), indexed(id));
    let reads = vec![("/files/a.md".to_string(), None)];
    let (next, protected) = build_keepset(&prev, &reads, &IdSet::new());
    assert!(protected.contains(id));
    assert_eq!(next.get("/files/a.md").unwrap().last_indexed_id, Some(id));
    assert_eq!(next.get("/files/a.md").unwrap().outcome, Outcome::ReadFailed);
}

#[test]
fn removed_ref_is_purged() {
    let id = 1u128;
    let mut prev = RefMemo::new();
    prev.insert("/files/a.md".to_string(), indexed(id));
    let (next, protected) = build_keepset(&prev, &[], &IdSet::new());
    assert!(!protected.contains(id));
    assert!(next.is_empty());
}

#[test]
fn unreadable_never_indexed_protects_nothing() {
    let reads = vec![("/files/a.md".to_string(), None)];
    let (next, protected) = build_keepset(&RefMemo::new(), &reads, &IdSet::new());
    assert!(protected.is_empty());
    assert_eq!(next.get("/files/a.md").unwrap().last_indexed_id, None);
}

#[test]
fn broken_ref_does_not_block_unrelated_purge() {
    let removed_doc = 9u128;
    let reads = vec![("/mnt/broken.pdf".to_string(), None)];
    let (_, protected) = build_keepset(&RefMemo::new(), &reads, &IdSet::new());
    assert!(protected.is_empty());
    assert!(!protected.contains(removed_doc));
}

#[test]
fn ingest_failure_keeps_prior_doc() {
    let old = 1u128;
    let new = 2u128;
    let mut prev = RefMemo::new();
    prev.insert("/files/a.md".to_string(), indexed(old));
    let reads = vec![("/files/a.md".to_string(), Some(new))];
    let (next, protected) = build_keepset(&prev, &reads, &IdSet::new());
    assert!(protected.contains(old));
    assert_eq!(next.get("/files/a.md").unwrap().last_indexed_id, Some(old));
    assert_eq!(next.get("/files/a.md").unwrap().outcome, Outcome::IngestFailed);
}

#[test]
fn refmaps_carries_id_across_cycles() {
    let p = "/files/a.md".to_string();
    let x = 1u128;
    let hit = set(&[x]);

    let (m1, prot) = build_keepset(&RefMemo::new(), &[(p.clone(), Some(x))], &hit);
    assert!(prot.contains(x));
    assert_eq!(m1.get(&p).unwrap().last_indexed_id, Some(x));

    let (m2, prot) = build_keepset(&m1, &[(p.clone(), None)], &IdSet::new());
    assert!(prot.contains(x));
    let (m3, prot) = build_keepset(&m2, &[(p.clone(), None)], &IdSet::new());
    assert!(prot.contains(x));

    let (m4, prot) = build_keepset(&m3, &[(p.clone(), Some(x))], &hit);
    assert!(prot.contains(x));
    assert_eq!(m4.get(&p).unwrap().outcome, Outcome::Indexed);
}

#[test]
fn content_change_swaps_protected_id() {
    let old = 1u128;
    let new = 2u128;
    let mut prev = RefMemo::new();
    prev.insert("/files/a.md".to_string(), indexed(old));
    let reads = vec![("/files/a.md".to_string(), Some(new))];
    let succeeded = set(&[new]);
    let (next, protected) = build_keepset(&prev, &reads, &succeeded);
    assert!(protected.contains(new));
    assert!(!protected.contains(old));
    assert_eq!(next.get("/files/a.md").unwrap().last_indexed_id, Some(new));
    assert_eq!(next.get("/files/a.md").unwrap().outcome, Outcome::Indexed);
}

#[test]
fn mixed_batch_protects_each_target_independently() {
    let ok_id = 1u128;
    let blip_prior = 2u128;
    let removed_id = 3u128;
    let unconfirmed = 4u128;

    let mut prev = RefMemo::new();
    prev.insert("/files/ok.md".to_string(), indexed(ok_id));
    prev.insert("/files/blip.md".to_string(), indexed(blip_prior));
    prev.insert("/files/removed.md".to_string(), indexed(removed_id));

    let reads = vec![
        ("/files/ok.md".to_string(), Some(ok_id)),
        ("/files/blip.md".to_string(), None),
        ("/files/new.md".to_string(), Some(unconfirmed)),
    ];
    let succeeded = set(&[ok_id]);

    let (next, protected) = build_keepset(&prev, &reads, &succeeded);

    assert_eq!(protected.len(), 2);
    assert!(protected.contains(ok_id) && protected.contains(blip_prior));
    assert!(!protected.contains(removed_id));
    assert!(!protected.contains(unconfirmed));
    assert_eq!(next.get("/files/ok.md").unwrap().outcome, Outcome::Indexed);
    assert_eq!(next.get("/files/blip.md").unwrap().outcome, Outcome::ReadFailed);
    assert_eq!(next.get("/files/new.md").unwrap().outcome, Outcome::IngestFailed);
    assert_eq!(next.get("/files/new.md").unwrap().last_indexed_id, None);
    assert!(!next.contains_key("/files/removed.md"));
}
