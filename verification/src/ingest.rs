//! The lifecycle of a document ingest job, as the job table's guarded
//! updates define it: an enqueue (re)starts a job, a worker claims the
//! oldest queued job under a lease, renews the lease while it works, and
//! finishes the job as done or failed; the reaper requeues a running job
//! whose lease expired. Every guarded update applies only to a job in the
//! status it expects and otherwise leaves the row alone.

use vstd::prelude::*;

use crate::text::str_eq;

verus! {

/// Status of an ingest job.
#[derive(Debug, Clone, Copy, PartialEq, Eq, Structural)]
pub enum IngestStatus {
    Queued,
    Running,
    Done,
    Failed,
}

/// Stored name of a status.
pub open spec fn ingest_status_name(s: IngestStatus) -> Seq<char> {
    match s {
        IngestStatus::Queued => "queued"@,
        IngestStatus::Running => "running"@,
        IngestStatus::Done => "done"@,
        IngestStatus::Failed => "failed"@,
    }
}

impl IngestStatus {
    /// The stored name.
    pub fn as_str(self) -> (r: &'static str)
        ensures
            r@ == ingest_status_name(self),
    {
        match self {
            IngestStatus::Queued => "queued",
            IngestStatus::Running => "running",
            IngestStatus::Done => "done",
            IngestStatus::Failed => "failed",
        }
    }

    /// The status stored as `s`, if any.
    pub fn from_db(s: &str) -> (r: Option<IngestStatus>)
        ensures
            match r {
                Some(st) => ingest_status_name(st) == s@,
                None => forall|st: IngestStatus| ingest_status_name(st) != s@,
            },
    {
        if str_eq(s, "queued") {
            Some(IngestStatus::Queued)
        } else if str_eq(s, "running") {
            Some(IngestStatus::Running)
        } else if str_eq(s, "done") {
            Some(IngestStatus::Done)
        } else if str_eq(s, "failed") {
            Some(IngestStatus::Failed)
        } else {
            assert forall|st: IngestStatus| ingest_status_name(st) != s@ by {
                match st {
                    IngestStatus::Queued => {},
                    IngestStatus::Running => {},
                    IngestStatus::Done => {},
                    IngestStatus::Failed => {},
                }
            }
            None
        }
    }
}

/// The mutable columns of an ingest job (times in Unix seconds).
pub struct IngestJob {
    pub status: IngestStatus,
    pub attempts: i64,
    pub last_error: Option<String>,
    pub lease_until: Option<i64>,
    pub document_id: Option<String>,
}

/// A fresh (or re-enqueued) job: queued, no attempts, no error, no lease,
/// no document. An enqueue of an existing job resets it to this, so a
/// re-uploaded file goes through the worker again.
pub fn enqueued() -> (j: IngestJob)
    ensures
        j.status == IngestStatus::Queued,
        j.attempts == 0,
        j.last_error is None,
        j.lease_until is None,
        j.document_id is None,
{
    IngestJob { status: IngestStatus::Queued, attempts: 0, last_error: None, lease_until: None, document_id: None }
}

/// The job after a claim under a lease until `lease`, or `None` when the
/// guard (the job is queued) refuses it. A claim counts an attempt.
pub open spec fn claim_spec(j: IngestJob, lease: i64) -> Option<IngestJob> {
    if j.status == IngestStatus::Queued {
        Some(IngestJob { status: IngestStatus::Running, attempts: (j.attempts + 1) as i64, lease_until: Some(lease), ..j })
    } else {
        None
    }
}

/// The job after a lease renewal, or `None` unless it runs.
pub open spec fn renew_spec(j: IngestJob, lease: i64) -> Option<IngestJob> {
    if j.status == IngestStatus::Running {
        Some(IngestJob { lease_until: Some(lease), ..j })
    } else {
        None
    }
}

/// The job after it produced `doc`, or `None` unless it runs.
pub open spec fn done_spec(j: IngestJob, doc: String) -> Option<IngestJob> {
    if j.status == IngestStatus::Running {
        Some(IngestJob { status: IngestStatus::Done, document_id: Some(doc), lease_until: None, last_error: None, ..j })
    } else {
        None
    }
}

/// The job after it failed with `err`, or `None` unless it runs.
pub open spec fn failed_spec(j: IngestJob, err: String) -> Option<IngestJob> {
    if j.status == IngestStatus::Running {
        Some(IngestJob { status: IngestStatus::Failed, last_error: Some(err), lease_until: None, ..j })
    } else {
        None
    }
}

/// The job after the reaper ran at `now`, or `None` unless it runs under a
/// lease that ended before `now`. A reaped job keeps its attempt count.
pub open spec fn reap_spec(j: IngestJob, now: i64) -> Option<IngestJob> {
    if j.status == IngestStatus::Running && (j.lease_until matches Some(l) && l < now) {
        Some(IngestJob { status: IngestStatus::Queued, lease_until: None, ..j })
    } else {
        None
    }
}

/// The row after a guarded update: the new job, or the old one untouched.
pub open spec fn applied(j: IngestJob, r: Option<IngestJob>) -> IngestJob {
    match r {
        Some(n) => n,
        None => j,
    }
}

impl IngestJob {
    /// A worker picks the job up under a lease until `lease_until`.
    pub fn claim(&mut self, lease_until: i64) -> (claimed: bool)
        requires
            old(self).status == IngestStatus::Queued ==> old(self).attempts < i64::MAX,
        ensures
            claimed == claim_spec(*old(self), lease_until) is Some,
            *final(self) == applied(*old(self), claim_spec(*old(self), lease_until)),
    {
        match self.status {
            IngestStatus::Queued => {
                self.status = IngestStatus::Running;
                self.attempts = self.attempts + 1;
                self.lease_until = Some(lease_until);
                true
            },
            _ => false,
        }
    }

    /// The worker extends its lease.
    pub fn renew(&mut self, lease_until: i64) -> (renewed: bool)
        ensures
            renewed == renew_spec(*old(self), lease_until) is Some,
            *final(self) == applied(*old(self), renew_spec(*old(self), lease_until)),
    {
        match self.status {
            IngestStatus::Running => {
                self.lease_until = Some(lease_until);
                true
            },
            _ => false,
        }
    }

    /// The worker records the document it produced.
    pub fn finish_done(&mut self, document_id: String) -> (ok: bool)
        ensures
            ok == done_spec(*old(self), document_id) is Some,
            *final(self) == applied(*old(self), done_spec(*old(self), document_id)),
    {
        match self.status {
            IngestStatus::Running => {
                self.status = IngestStatus::Done;
                self.document_id = Some(document_id);
                self.lease_until = None;
                self.last_error = None;
                true
            },
            _ => false,
        }
    }

    /// The worker records a failure.
    pub fn finish_failed(&mut self, error: String) -> (ok: bool)
        ensures
            ok == failed_spec(*old(self), error) is Some,
            *final(self) == applied(*old(self), failed_spec(*old(self), error)),
    {
        match self.status {
            IngestStatus::Running => {
                self.status = IngestStatus::Failed;
                self.last_error = Some(error);
                self.lease_until = None;
                true
            },
            _ => false,
        }
    }

    /// The reaper at time `now`.
    pub fn reap(&mut self, now: i64) -> (reaped: bool)
        ensures
            reaped == reap_spec(*old(self), now) is Some,
            *final(self) == applied(*old(self), reap_spec(*old(self), now)),
    {
        match self.status {
            IngestStatus::Running => match self.lease_until {
                Some(l) => if l < now {
                    self.status = IngestStatus::Queued;
                    self.lease_until = None;
                    true
                } else {
                    false
                },
                None => false,
            },
            _ => false,
        }
    }
}

/// A job holds a lease exactly while it runs, a done job holds its
/// document, and attempts are never negative.
pub open spec fn job_wf(j: IngestJob) -> bool {
    &&& (j.lease_until is Some <==> j.status == IngestStatus::Running)
    &&& (j.status == IngestStatus::Done ==> j.document_id is Some)
    &&& j.attempts >= 0
}

/// Every transition keeps a job well formed, and a fresh job is well
/// formed.
pub proof fn lemma_transitions_keep_shape(j: IngestJob, lease: i64, now: i64, doc: String, err: String)
    requires
        job_wf(j),
        j.attempts < i64::MAX,
    ensures
        job_wf(IngestJob { status: IngestStatus::Queued, attempts: 0, last_error: None, lease_until: None, document_id: None }),
        job_wf(applied(j, claim_spec(j, lease))),
        job_wf(applied(j, renew_spec(j, lease))),
        job_wf(applied(j, done_spec(j, doc))),
        job_wf(applied(j, failed_spec(j, err))),
        job_wf(applied(j, reap_spec(j, now))),
{
}

/// Only a claim changes the attempt count, by one; a finished job (done or
/// failed) stays as it is under every worker and reaper transition, so only
/// a new enqueue restarts it.
pub proof fn lemma_attempts_and_finality(j: IngestJob, lease: i64, now: i64, doc: String, err: String)
    requires
        j.attempts < i64::MAX,
    ensures
        applied(j, claim_spec(j, lease)).attempts == j.attempts + (if j.status == IngestStatus::Queued { 1int } else { 0int }),
        applied(j, renew_spec(j, lease)).attempts == j.attempts,
        applied(j, done_spec(j, doc)).attempts == j.attempts,
        applied(j, failed_spec(j, err)).attempts == j.attempts,
        applied(j, reap_spec(j, now)).attempts == j.attempts,
        (j.status == IngestStatus::Done || j.status == IngestStatus::Failed) ==> {
            &&& claim_spec(j, lease) is None
            &&& renew_spec(j, lease) is None
            &&& done_spec(j, doc) is None
            &&& failed_spec(j, err) is None
            &&& reap_spec(j, now) is None
        },
{
}

} // verus!
