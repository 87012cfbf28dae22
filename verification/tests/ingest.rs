use agent_k_backend::ingest::{enqueued, IngestStatus};

#[test]
fn a_job_runs_through_its_lifecycle() {
    let mut j = enqueued();
    assert!(!j.renew(10));
    assert!(j.claim(100));
    assert_eq!((j.status, j.attempts, j.lease_until), (IngestStatus::Running, 1, Some(100)));
    assert!(!j.claim(200), "a running job cannot be claimed again");
    assert!(j.renew(160));
    assert!(!j.reap(150), "the lease has not expired");
    assert!(j.reap(161));
    assert_eq!((j.status, j.attempts, j.lease_until), (IngestStatus::Queued, 1, None));
    assert!(j.claim(300));
    assert_eq!(j.attempts, 2);
    assert!(j.finish_done("doc-1".to_string()));
    assert_eq!(j.status, IngestStatus::Done);
    assert_eq!(j.document_id.as_deref(), Some("doc-1"));
    assert_eq!(j.lease_until, None);
    assert!(!j.finish_failed("late".to_string()), "a done job stays done");
    assert!(!j.reap(i64::MAX));
}

#[test]
fn failures_record_the_error() {
    let mut j = enqueued();
    j.claim(5);
    assert!(j.finish_failed("parse error".to_string()));
    assert_eq!(j.status, IngestStatus::Failed);
    assert_eq!(j.last_error.as_deref(), Some("parse error"));
    assert_eq!(j.lease_until, None);
    let fresh = enqueued();
    assert_eq!((fresh.status, fresh.attempts), (IngestStatus::Queued, 0));
    assert!(fresh.last_error.is_none() && fresh.document_id.is_none());
}

#[test]
fn status_names_round_trip() {
    for s in [IngestStatus::Queued, IngestStatus::Running, IngestStatus::Done, IngestStatus::Failed] {
        assert_eq!(IngestStatus::from_db(s.as_str()), Some(s));
    }
    assert_eq!(IngestStatus::from_db("paused"), None);
}
