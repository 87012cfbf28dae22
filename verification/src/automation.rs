//! Automation runs: the wire names of statuses, trigger kinds and log kinds,
//! the run lifecycle that the store's guarded updates enforce, and the
//! worker's decisions after a run ends (final status, retry and backoff).

use vstd::prelude::*;

use crate::api::{api_error, ApiError};
use crate::ids::{hex_lower, sha256_hex, sha256_result, uuid_simple, uuid_simple_string, random_uuid};
use crate::text::{chars_of, str_eq, string_of, sub_chars, trim, trim_ws};
use vstd::string::StringSliceAdditionalSpecFns;
use vstd::utf8::encode_utf8;

verus! {

/// Total attempts including the first.
pub const MAX_ATTEMPTS: i64 = 3;

/// Status of an automation run.
#[derive(Debug, Clone, Copy, PartialEq, Eq, Structural)]
pub enum RunStatus {
    Queued,
    Running,
    Succeeded,
    Failed,
    Cancelled,
}

/// Stored name of a run status.
pub open spec fn run_status_name(s: RunStatus) -> Seq<char> {
    match s {
        RunStatus::Queued => "queued"@,
        RunStatus::Running => "running"@,
        RunStatus::Succeeded => "succeeded"@,
        RunStatus::Failed => "failed"@,
        RunStatus::Cancelled => "cancelled"@,
    }
}

/// The run status a stored name denotes.
pub open spec fn parse_run_status(s: Seq<char>) -> Option<RunStatus> {
    if s == "queued"@ {
        Some(RunStatus::Queued)
    } else if s == "running"@ {
        Some(RunStatus::Running)
    } else if s == "succeeded"@ {
        Some(RunStatus::Succeeded)
    } else if s == "failed"@ {
        Some(RunStatus::Failed)
    } else if s == "cancelled"@ {
        Some(RunStatus::Cancelled)
    } else {
        None
    }
}

impl RunStatus {
    /// The stored name.
    pub fn as_str(&self) -> (r: &'static str)
        ensures
            r@ == run_status_name(*self),
    {
        match self {
            RunStatus::Queued => "queued",
            RunStatus::Running => "running",
            RunStatus::Succeeded => "succeeded",
            RunStatus::Failed => "failed",
            RunStatus::Cancelled => "cancelled",
        }
    }

    /// The value a stored name denotes.
    pub fn parse(s: &str) -> (r: Option<Self>)
        ensures
            r == parse_run_status(s@),
    {
        if str_eq(s, "queued") {
            Some(RunStatus::Queued)
        } else if str_eq(s, "running") {
            Some(RunStatus::Running)
        } else if str_eq(s, "succeeded") {
            Some(RunStatus::Succeeded)
        } else if str_eq(s, "failed") {
            Some(RunStatus::Failed)
        } else if str_eq(s, "cancelled") {
            Some(RunStatus::Cancelled)
        } else {
            None
        }
    }
}

/// Kind of an automation trigger.
#[derive(Debug, Clone, Copy, PartialEq, Eq, Structural)]
pub enum TriggerKind {
    Cron,
    Webhook,
}

/// Stored name of a trigger kind.
pub open spec fn trigger_kind_name(k: TriggerKind) -> Seq<char> {
    match k {
        TriggerKind::Cron => "cron"@,
        TriggerKind::Webhook => "webhook"@,
    }
}

/// The trigger kind a stored name denotes.
pub open spec fn parse_trigger_kind(s: Seq<char>) -> Option<TriggerKind> {
    if s == "cron"@ {
        Some(TriggerKind::Cron)
    } else if s == "webhook"@ {
        Some(TriggerKind::Webhook)
    } else {
        None
    }
}

impl TriggerKind {
    /// The stored name.
    pub fn as_str(&self) -> (r: &'static str)
        ensures
            r@ == trigger_kind_name(*self),
    {
        match self {
            TriggerKind::Cron => "cron",
            TriggerKind::Webhook => "webhook",
        }
    }

    /// The value a stored name denotes.
    pub fn parse(s: &str) -> (r: Option<Self>)
        ensures
            r == parse_trigger_kind(s@),
    {
        if str_eq(s, "cron") {
            Some(TriggerKind::Cron)
        } else if str_eq(s, "webhook") {
            Some(TriggerKind::Webhook)
        } else {
            None
        }
    }
}

/// A trigger's configuration: a cron schedule, or a webhook fired by an
/// authenticated POST.
#[derive(Debug, Clone, PartialEq, Eq)]
pub enum TriggerSpec {
    Cron { expr: String, tz: Option<String> },
    Webhook {},
}

impl TriggerSpec {
    /// The kind of trigger the spec describes.
    pub fn kind(&self) -> (k: TriggerKind)
        ensures
            k == (match self {
                TriggerSpec::Cron { .. } => TriggerKind::Cron,
                TriggerSpec::Webhook {  } => TriggerKind::Webhook,
            }),
    {
        match self {
            TriggerSpec::Cron { .. } => TriggerKind::Cron,
            TriggerSpec::Webhook {} => TriggerKind::Webhook,
        }
    }
}

/// Kind of a run log entry.
#[derive(Debug, Clone, Copy, PartialEq, Eq, Structural)]
pub enum RunLogKind {
    Triggered,
    Queued,
    Started,
    Succeeded,
    Failed,
    RetryScheduled,
    RetrySkipped,
    LeaseLost,
    Cancelled,
}

/// Stored name of a run event kind.
pub open spec fn run_log_kind_name(k: RunLogKind) -> Seq<char> {
    match k {
        RunLogKind::Triggered => "triggered"@,
        RunLogKind::Queued => "queued"@,
        RunLogKind::Started => "started"@,
        RunLogKind::Succeeded => "succeeded"@,
        RunLogKind::Failed => "failed"@,
        RunLogKind::RetryScheduled => "retry_scheduled"@,
        RunLogKind::RetrySkipped => "retry_skipped"@,
        RunLogKind::LeaseLost => "lease_lost"@,
        RunLogKind::Cancelled => "cancelled"@,
    }
}

/// The run event kind a stored name denotes.
pub open spec fn parse_run_log_kind(s: Seq<char>) -> Option<RunLogKind> {
    if s == "triggered"@ {
        Some(RunLogKind::Triggered)
    } else if s == "queued"@ {
        Some(RunLogKind::Queued)
    } else if s == "started"@ {
        Some(RunLogKind::Started)
    } else if s == "succeeded"@ {
        Some(RunLogKind::Succeeded)
    } else if s == "failed"@ {
        Some(RunLogKind::Failed)
    } else if s == "retry_scheduled"@ {
        Some(RunLogKind::RetryScheduled)
    } else if s == "retry_skipped"@ {
        Some(RunLogKind::RetrySkipped)
    } else if s == "lease_lost"@ {
        Some(RunLogKind::LeaseLost)
    } else if s == "cancelled"@ {
        Some(RunLogKind::Cancelled)
    } else {
        None
    }
}

impl RunLogKind {
    /// The stored name.
    pub fn as_str(&self) -> (r: &'static str)
        ensures
            r@ == run_log_kind_name(*self),
    {
        match self {
            RunLogKind::Triggered => "triggered",
            RunLogKind::Queued => "queued",
            RunLogKind::Started => "started",
            RunLogKind::Succeeded => "succeeded",
            RunLogKind::Failed => "failed",
            RunLogKind::RetryScheduled => "retry_scheduled",
            RunLogKind::RetrySkipped => "retry_skipped",
            RunLogKind::LeaseLost => "lease_lost",
            RunLogKind::Cancelled => "cancelled",
        }
    }

    /// The value a stored name denotes.
    pub fn parse(s: &str) -> (r: Option<Self>)
        ensures
            r == parse_run_log_kind(s@),
    {
        if str_eq(s, "triggered") {
            Some(RunLogKind::Triggered)
        } else if str_eq(s, "queued") {
            Some(RunLogKind::Queued)
        } else if str_eq(s, "started") {
            Some(RunLogKind::Started)
        } else if str_eq(s, "succeeded") {
            Some(RunLogKind::Succeeded)
        } else if str_eq(s, "failed") {
            Some(RunLogKind::Failed)
        } else if str_eq(s, "retry_scheduled") {
            Some(RunLogKind::RetryScheduled)
        } else if str_eq(s, "retry_skipped") {
            Some(RunLogKind::RetrySkipped)
        } else if str_eq(s, "lease_lost") {
            Some(RunLogKind::LeaseLost)
        } else if str_eq(s, "cancelled") {
            Some(RunLogKind::Cancelled)
        } else {
            None
        }
    }
}

/// Every run status is stored under a name that parses back to it.
pub proof fn lemma_run_status_round_trip(s: RunStatus)
    ensures
        parse_run_status(run_status_name(s)) == Some(s),
{
    reveal_strlit("queued");
    reveal_strlit("running");
    reveal_strlit("succeeded");
    reveal_strlit("failed");
    reveal_strlit("cancelled");
    assert("running"@[0] != "queued"@[0]);
    assert("succeeded"@[0] != "queued"@[0] && "succeeded"@[0] != "running"@[0]);
    assert("failed"@[0] != "queued"@[0] && "failed"@[0] != "running"@[0] && "failed"@[0]
        != "succeeded"@[0]);
    assert("cancelled"@[0] != "queued"@[0] && "cancelled"@[0] != "running"@[0] && "cancelled"@[0]
        != "succeeded"@[0] && "cancelled"@[0] != "failed"@[0]);
}

/// A stored status name parses only to the status it names.
pub proof fn lemma_run_status_parse_names(t: Seq<char>)
    ensures
        parse_run_status(t) matches Some(s) ==> run_status_name(s) == t,
{
}

/// Every trigger kind is stored under a name that parses back to it.
pub proof fn lemma_trigger_kind_round_trip(k: TriggerKind)
    ensures
        parse_trigger_kind(trigger_kind_name(k)) == Some(k),
{
    reveal_strlit("cron");
    reveal_strlit("webhook");
    assert("webhook"@[0] != "cron"@[0]);
}

/// Every log kind is stored under a name that parses back to it.
pub proof fn lemma_run_log_kind_round_trip(k: RunLogKind)
    ensures
        parse_run_log_kind(run_log_kind_name(k)) == Some(k),
{
    reveal_strlit("triggered");
    reveal_strlit("queued");
    reveal_strlit("started");
    reveal_strlit("succeeded");
    reveal_strlit("failed");
    reveal_strlit("retry_scheduled");
    reveal_strlit("retry_skipped");
    reveal_strlit("lease_lost");
    reveal_strlit("cancelled");
    assert("queued"@[0] != "triggered"@[0]);
    assert("started"@[0] != "triggered"@[0] && "started"@[0] != "queued"@[0]);
    assert("succeeded"@[0] != "triggered"@[0] && "succeeded"@[0] != "queued"@[0]
        && "succeeded"@[1] != "started"@[1]);
    assert("failed"@[0] != "triggered"@[0] && "failed"@[0] != "queued"@[0] && "failed"@[0]
        != "started"@[0] && "failed"@[0] != "succeeded"@[0]);
    assert("retry_scheduled"@[0] != "triggered"@[0] && "retry_scheduled"@[0] != "queued"@[0]
        && "retry_scheduled"@[0] != "started"@[0] && "retry_scheduled"@[0] != "succeeded"@[0]
        && "retry_scheduled"@[0] != "failed"@[0]);
    assert("retry_skipped"@[0] != "triggered"@[0] && "retry_skipped"@[0] != "queued"@[0]
        && "retry_skipped"@[0] != "started"@[0] && "retry_skipped"@[0] != "succeeded"@[0]
        && "retry_skipped"@[0] != "failed"@[0] && "retry_skipped"@[7] != "retry_scheduled"@[7]);
    assert("lease_lost"@[0] != "triggered"@[0] && "lease_lost"@[0] != "queued"@[0]
        && "lease_lost"@[0] != "started"@[0] && "lease_lost"@[0] != "succeeded"@[0]
        && "lease_lost"@[0] != "failed"@[0] && "lease_lost"@[0] != "retry_scheduled"@[0]
        && "lease_lost"@[0] != "retry_skipped"@[0]);
    assert("cancelled"@[0] != "triggered"@[0] && "cancelled"@[0] != "queued"@[0]
        && "cancelled"@[0] != "started"@[0] && "cancelled"@[0] != "succeeded"@[0]
        && "cancelled"@[0] != "failed"@[0] && "cancelled"@[0] != "retry_scheduled"@[0]
        && "cancelled"@[0] != "retry_skipped"@[0] && "cancelled"@[0] != "lease_lost"@[0]);
}

/// The default of a trigger's `enabled` flag in a create request.
pub fn default_true() -> (r: bool)
    ensures
        r,
{
    true
}

/// The wait, in seconds, before the next attempt after attempt
/// `current_attempt` failed: 30 s after the first, 120 s after the second,
/// and none once [`MAX_ATTEMPTS`] is reached.
pub open spec fn retry_backoff_spec(current_attempt: int) -> Option<u64> {
    if current_attempt >= MAX_ATTEMPTS {
        None
    } else if current_attempt <= 1 {
        Some(30)
    } else {
        Some(120)
    }
}

/// The backoff before the next attempt (see [`retry_backoff_spec`]).
pub fn retry_backoff_for(current_attempt: i64) -> (r: Option<u64>)
    ensures
        r == retry_backoff_spec(current_attempt as int),
{
    if current_attempt >= MAX_ATTEMPTS {
        return None;
    }
    let backoffs: [u64; 2] = [30, 120];
    let idx: usize = if current_attempt <= 1 {
        0
    } else {
        (current_attempt - 1) as usize
    };
    if idx < 2 {
        Some(backoffs[idx])
    } else {
        None
    }
}

/// A change the store applies to a run row under a status guard.
#[derive(Debug, Clone, Copy, PartialEq, Eq, Structural)]
pub enum RunEvent {
    /// A worker claims a due queued run.
    Claim,
    /// The worker renews its lease.
    RenewLease,
    /// The worker records the run's end (`Succeeded` or `Failed`).
    Finalize(RunStatus),
    /// A user cancels the run.
    Cancel,
    /// The reaper requeues a run whose lease expired (or every running run at boot).
    Reap,
    /// The owning automation was disabled.
    AutomationDisabled,
}

/// The status after `ev`, or `None` when the guard refuses it (the row is
/// left untouched): claims take queued runs, renewals, finalizations and
/// reaps take running ones, a cancel takes queued or running ones, and a
/// disable cancels queued ones.
pub open spec fn run_transition(s: RunStatus, ev: RunEvent) -> Option<RunStatus> {
    match ev {
        RunEvent::Claim => if s == RunStatus::Queued {
            Some(RunStatus::Running)
        } else {
            None
        },
        RunEvent::RenewLease => if s == RunStatus::Running {
            Some(RunStatus::Running)
        } else {
            None
        },
        RunEvent::Finalize(to) => if s == RunStatus::Running {
            Some(to)
        } else {
            None
        },
        RunEvent::Cancel => if s == RunStatus::Queued || s == RunStatus::Running {
            Some(RunStatus::Cancelled)
        } else {
            None
        },
        RunEvent::Reap => if s == RunStatus::Running {
            Some(RunStatus::Queued)
        } else {
            None
        },
        RunEvent::AutomationDisabled => if s == RunStatus::Queued {
            Some(RunStatus::Cancelled)
        } else {
            None
        },
    }
}

/// The guard of the store's lifecycle updates (see [`run_transition`]).
pub fn apply_run_event(s: RunStatus, ev: RunEvent) -> (r: Option<RunStatus>)
    ensures
        r == run_transition(s, ev),
        ev == RunEvent::Cancel ==> (r == (if s == RunStatus::Queued || s == RunStatus::Running {
            Some(RunStatus::Cancelled)
        } else {
            None
        })),
{
    match ev {
        RunEvent::Claim => if s == RunStatus::Queued {
            Some(RunStatus::Running)
        } else {
            None
        },
        RunEvent::RenewLease => if s == RunStatus::Running {
            Some(RunStatus::Running)
        } else {
            None
        },
        RunEvent::Finalize(to) => if s == RunStatus::Running {
            Some(to)
        } else {
            None
        },
        RunEvent::Cancel => if s == RunStatus::Queued || s == RunStatus::Running {
            Some(RunStatus::Cancelled)
        } else {
            None
        },
        RunEvent::Reap => if s == RunStatus::Running {
            Some(RunStatus::Queued)
        } else {
            None
        },
        RunEvent::AutomationDisabled => if s == RunStatus::Queued {
            Some(RunStatus::Cancelled)
        } else {
            None
        },
    }
}

/// Whether a run has ended for good.
pub open spec fn is_terminal(s: RunStatus) -> bool {
    s == RunStatus::Succeeded || s == RunStatus::Failed || s == RunStatus::Cancelled
}

/// A run that has succeeded, failed or been cancelled is never changed again.
pub proof fn lemma_terminal_runs_are_final(s: RunStatus, ev: RunEvent)
    requires
        is_terminal(s),
    ensures
        run_transition(s, ev) is None,
{
}

/// What each lifecycle change does: a claim takes a queued run to running;
/// a renewal keeps a running run running; a finalization records the end
/// status of a running run; the reaper puts a running run back in the
/// queue; disabling the automation cancels a queued run. On any other
/// status each of them is refused.
pub proof fn lemma_lifecycle_changes(s: RunStatus, to: RunStatus)
    ensures
        run_transition(s, RunEvent::Claim) == (if s == RunStatus::Queued {
            Some(RunStatus::Running)
        } else {
            None
        }),
        run_transition(s, RunEvent::RenewLease) == (if s == RunStatus::Running {
            Some(RunStatus::Running)
        } else {
            None
        }),
        run_transition(s, RunEvent::Finalize(to)) == (if s == RunStatus::Running {
            Some(to)
        } else {
            None
        }),
        run_transition(s, RunEvent::Reap) == (if s == RunStatus::Running {
            Some(RunStatus::Queued)
        } else {
            None
        }),
        run_transition(s, RunEvent::AutomationDisabled) == (if s == RunStatus::Queued {
            Some(RunStatus::Cancelled)
        } else {
            None
        }),
{
}

/// A user may cancel a run that has not ended, queued or running alike; it
/// becomes cancelled and loses any lease. A run that has ended refuses it.
pub proof fn lemma_cancel_ends_live_runs(s: RunStatus, r: RunState, lease: i64)
    ensures
        run_transition(RunStatus::Queued, RunEvent::Cancel) == Some(RunStatus::Cancelled),
        run_transition(RunStatus::Running, RunEvent::Cancel) == Some(RunStatus::Cancelled),
        (s == RunStatus::Succeeded || s == RunStatus::Failed || s == RunStatus::Cancelled)
            ==> run_transition(s, RunEvent::Cancel) is None,
        (r.status == RunStatus::Queued || r.status == RunStatus::Running) ==> run_state_after(
            r,
            RunEvent::Cancel,
            lease,
        ) == Some(RunState { status: RunStatus::Cancelled, lease_until: None }),
{
}

/// Only a claim makes a run `Running`, and only from `Queued`; a lease is
/// renewed only while the run is running.
pub proof fn lemma_running_only_by_claim(s: RunStatus, ev: RunEvent)
    requires
        s != RunStatus::Running,
        run_transition(s, ev) == Some(RunStatus::Running),
    ensures
        ev == RunEvent::Claim,
        s == RunStatus::Queued,
{
}

/// The lifecycle columns of a stored run: its status and the end of the
/// lease a worker holds on it (seconds since the epoch).
#[derive(Debug, Clone, Copy, PartialEq, Eq, Structural)]
pub struct RunState {
    pub status: RunStatus,
    pub lease_until: Option<i64>,
}

/// A run holds a lease exactly while it is running.
pub open spec fn lease_consistent(r: RunState) -> bool {
    (r.lease_until is Some) <==> (r.status == RunStatus::Running)
}

/// The row after `ev` under its status guard, `None` when the guard refuses
/// it: a claim or a renewal sets the lease to `lease`, every other change
/// clears it.
pub open spec fn run_state_after(r: RunState, ev: RunEvent, lease: i64) -> Option<RunState> {
    match run_transition(r.status, ev) {
        None => None,
        Some(s) => Some(
            RunState {
                status: s,
                lease_until: match ev {
                    RunEvent::Claim => Some(lease),
                    RunEvent::RenewLease => Some(lease),
                    _ => None,
                },
            },
        ),
    }
}

/// The state a new run is queued in: no lease.
pub fn queued_state() -> (r: RunState)
    ensures
        r == (RunState { status: RunStatus::Queued, lease_until: None }),
        lease_consistent(r),
{
    RunState { status: RunStatus::Queued, lease_until: None }
}

/// Apply a lifecycle update to a run row (see [`run_state_after`]); `lease`
/// is the new lease end of a claim or a renewal and is ignored otherwise.
pub fn apply_run_update(r: RunState, ev: RunEvent, lease: i64) -> (n: Option<RunState>)
    ensures
        n == run_state_after(r, ev, lease),
        ev == RunEvent::Cancel ==> (n == (if r.status == RunStatus::Queued || r.status
            == RunStatus::Running {
            Some(RunState { status: RunStatus::Cancelled, lease_until: None })
        } else {
            None
        })),
{
    match apply_run_event(r.status, ev) {
        None => None,
        Some(s) => {
            let lease_until = match ev {
                RunEvent::Claim => Some(lease),
                RunEvent::RenewLease => Some(lease),
                _ => None,
            };
            Some(RunState { status: s, lease_until })
        },
    }
}

/// Every lifecycle update keeps "a lease exactly while running", provided a
/// finalization records an end status rather than `Running`.
pub proof fn lemma_lease_held_only_while_running(r: RunState, ev: RunEvent, lease: i64)
    requires
        lease_consistent(r),
        ev != RunEvent::Finalize(RunStatus::Running),
    ensures
        run_state_after(r, ev, lease) matches Some(n) ==> lease_consistent(n),
{
}

/// Whether a run is due for a worker to claim at `now`: queued, and
/// scheduled no later than `now`.
pub fn is_due(r: RunState, scheduled_for: i64, now: i64) -> (b: bool)
    ensures
        b == (r.status == RunStatus::Queued && scheduled_for <= now),
{
    match r.status {
        RunStatus::Queued => scheduled_for <= now,
        _ => false,
    }
}

/// Whether the reaper requeues a run: a running run whose lease ended before
/// `now`, or, at boot (`now` is `None`), every running run.
pub fn is_reapable(r: RunState, now: Option<i64>) -> (b: bool)
    ensures
        b == (r.status == RunStatus::Running && match now {
            None => true,
            Some(t) => r.lease_until matches Some(l) && l < t,
        }),
{
    match r.status {
        RunStatus::Running => match now {
            None => true,
            Some(t) => match r.lease_until {
                Some(l) => l < t,
                None => false,
            },
        },
        _ => false,
    }
}

/// A stored run as the claim and reap scans see it.
#[derive(Debug, Clone, Copy, PartialEq, Eq, Structural)]
pub struct RunRow {
    pub id: u128,
    pub state: RunState,
    pub scheduled_for: i64,
}

/// Whether a row is due for a claim at `now`.
pub open spec fn row_due(r: RunRow, now: i64) -> bool {
    r.state.status == RunStatus::Queued && r.scheduled_for <= now
}

/// The run a worker claims at `now`: a due run scheduled no later than any
/// other due run (the oldest due run), or `None` when nothing is due.
pub fn pick_due_run(rows: &[RunRow], now: i64) -> (r: Option<usize>)
    ensures
        match r {
            Some(i) => i < rows@.len() && row_due(rows@[i as int], now) && forall|j: int|
                0 <= j < rows@.len() && row_due(#[trigger] rows@[j], now)
                    ==> rows@[i as int].scheduled_for <= rows@[j].scheduled_for,
            None => forall|j: int| 0 <= j < rows@.len() ==> !row_due(#[trigger] rows@[j], now),
        },
{
    let mut best: Option<usize> = None;
    let mut i: usize = 0;
    while i < rows.len()
        invariant
            i <= rows@.len(),
            match best {
                Some(b) => b < i && row_due(rows@[b as int], now) && forall|j: int|
                    0 <= j < i && row_due(#[trigger] rows@[j], now)
                        ==> rows@[b as int].scheduled_for <= rows@[j].scheduled_for,
                None => forall|j: int| 0 <= j < i ==> !row_due(#[trigger] rows@[j], now),
            },
        decreases rows@.len() - i,
    {
        if is_due(rows[i].state, rows[i].scheduled_for, now) {
            match best {
                None => {
                    best = Some(i);
                },
                Some(b) => {
                    if rows[i].scheduled_for < rows[b].scheduled_for {
                        best = Some(i);
                    }
                },
            }
        }
        i = i + 1;
    }
    best
}

/// Whether the reaper requeues a row at `now` (see [`is_reapable`]).
pub open spec fn row_reapable(r: RunRow, now: Option<i64>) -> bool {
    r.state.status == RunStatus::Running && match now {
        None => true,
        Some(t) => r.state.lease_until matches Some(l) && l < t,
    }
}

/// The ids of the rows the reaper requeues, in order.
pub open spec fn reap_spec(rows: Seq<RunRow>, now: Option<i64>) -> Seq<u128>
    decreases rows.len(),
{
    if rows.len() == 0 {
        Seq::empty()
    } else {
        let rest = reap_spec(rows.drop_last(), now);
        if row_reapable(rows.last(), now) {
            rest.push(rows.last().id)
        } else {
            rest
        }
    }
}

/// The runs the reaper requeues at `now` (every running run at boot, when
/// `now` is `None`), in the order they are listed.
pub fn reapable_runs(rows: &[RunRow], now: Option<i64>) -> (r: Vec<u128>)
    ensures
        r@ == reap_spec(rows@, now),
{
    let mut out: Vec<u128> = Vec::new();
    let mut i: usize = 0;
    while i < rows.len()
        invariant
            i <= rows@.len(),
            out@ == reap_spec(rows@.subrange(0, i as int), now),
        decreases rows@.len() - i,
    {
        let ghost pre = rows@.subrange(0, i as int);
        let ghost post = rows@.subrange(0, i + 1);
        assert(post.drop_last() =~= pre);
        assert(post.last() == rows@[i as int]);
        if is_reapable(rows[i].state, now) {
            out.push(rows[i].id);
        }
        i = i + 1;
    }
    assert(rows@.subrange(0, rows@.len() as int) =~= rows@);
    out
}

/// Whether a trigger fires on the scheduler tick at `now`: a cron trigger
/// that is enabled, of an enabled automation, with a fire instant no later
/// than `now`.
pub fn trigger_is_due(
    kind: TriggerKind,
    enabled: bool,
    next_fire_at: Option<i64>,
    automation_enabled: bool,
    now: i64,
) -> (b: bool)
    ensures
        b == (kind == TriggerKind::Cron && enabled && automation_enabled && (next_fire_at matches Some(
            t,
        ) && t <= now)),
{
    match kind {
        TriggerKind::Cron => enabled && automation_enabled && match next_fire_at {
            Some(t) => t <= now,
            None => false,
        },
        TriggerKind::Webhook => false,
    }
}

/// What the worker does once a claimed run's execution ends.
#[derive(Debug, Clone, Copy, PartialEq, Eq, Structural)]
pub enum RunOutcome {
    /// The heartbeat ended or the lease was lost: leave the row to the reaper.
    Abandon,
    /// Record the final status with this log kind.
    Finalize(RunStatus, RunLogKind),
}

/// The worker's decision after a run: `finished` is `None` when the heartbeat
/// ended first, else whether the agent succeeded; a lost lease abandons.
pub fn run_outcome(finished: Option<bool>, lease_lost: bool) -> (r: RunOutcome)
    ensures
        r == (match finished {
            None => RunOutcome::Abandon,
            Some(ok) => if lease_lost {
                RunOutcome::Abandon
            } else if ok {
                RunOutcome::Finalize(RunStatus::Succeeded, RunLogKind::Succeeded)
            } else {
                RunOutcome::Finalize(RunStatus::Failed, RunLogKind::Failed)
            },
        }),
{
    match finished {
        None => RunOutcome::Abandon,
        Some(ok) => {
            if lease_lost {
                RunOutcome::Abandon
            } else if ok {
                RunOutcome::Finalize(RunStatus::Succeeded, RunLogKind::Succeeded)
            } else {
                RunOutcome::Finalize(RunStatus::Failed, RunLogKind::Failed)
            }
        },
    }
}

/// The retry to schedule after a run ended: `(backoff seconds, next attempt)`
/// when the worker still owned the row at finalization, the run failed, and
/// attempts remain.
pub open spec fn retry_plan_spec(finalize_owned: bool, status: RunStatus, attempt: int) -> Option<
    (u64, int),
> {
    if finalize_owned && status == RunStatus::Failed {
        match retry_backoff_spec(attempt) {
            Some(b) => Some((b, attempt + 1)),
            None => None,
        }
    } else {
        None
    }
}

/// The retry to schedule after a run ended (see [`retry_plan_spec`]).
pub fn retry_plan(finalize_owned: bool, status: RunStatus, attempt: i64) -> (r: Option<(u64, i64)>)
    ensures
        match r {
            Some((b, n)) => retry_plan_spec(finalize_owned, status, attempt as int) == Some(
                (b, n as int),
            ),
            None => retry_plan_spec(finalize_owned, status, attempt as int) is None,
        },
{
    if finalize_owned && status == RunStatus::Failed {
        match retry_backoff_for(attempt) {
            Some(b) => Some((b, attempt + 1)),
            None => None,
        }
    } else {
        None
    }
}

/// The attempt numbers of a retry chain started at `attempt`, each retry
/// following the previous failure.
pub open spec fn chain_len_from(attempt: int) -> nat
    decreases MAX_ATTEMPTS - attempt,
{
    match retry_plan_spec(true, RunStatus::Failed, attempt) {
        Some((_, next)) => if next > attempt {
            1 + chain_len_from(next)
        } else {
            1
        },
        None => 1,
    }
}

/// A run that keeps failing is attempted at most [`MAX_ATTEMPTS`] times: a
/// retry is only ever planned while the next attempt number stays within it.
pub proof fn lemma_retries_bounded(attempt: int, status: RunStatus, owned: bool)
    ensures
        retry_plan_spec(owned, status, attempt) matches Some((_, next)) ==> next <= MAX_ATTEMPTS
            && next == attempt + 1,
        attempt >= 1 ==> chain_len_from(attempt) == if attempt >= MAX_ATTEMPTS {
            1
        } else {
            MAX_ATTEMPTS - attempt + 1
        },
    decreases MAX_ATTEMPTS - attempt,
{
    if attempt >= 1 && attempt < MAX_ATTEMPTS {
        lemma_retries_bounded(attempt + 1, status, owned);
    }
}

/// Whether a retry may be scheduled: runs of an automation need it enabled;
/// ad-hoc runs (no automation) always retry.
pub fn retry_allowed(automation_enabled: Option<bool>) -> (r: bool)
    ensures
        r == (match automation_enabled {
            Some(e) => e,
            None => true,
        }),
{
    match automation_enabled {
        Some(e) => e,
        None => true,
    }
}

/// The first 60 characters of a prompt, used as a run's session title.
pub fn title_from_prompt(prompt: &str) -> (r: String)
    ensures
        r@ == prompt@.subrange(0, if prompt@.len() < 60 { prompt@.len() as int } else { 60 }),
{
    let p = chars_of(prompt);
    let end = if p.len() < 60 {
        p.len()
    } else {
        60
    };
    string_of(&sub_chars(&p, 0, end))
}

/// Whether an ad-hoc prompt is acceptable: not blank.
pub fn adhoc_prompt_ok(prompt: &str) -> (r: bool)
    ensures
        r == (trim(prompt@).len() > 0),
{
    trim_ws(&chars_of(prompt)).len() > 0
}

/// Lowercase hex SHA-256 of a webhook token: the lookup key stored for it.
pub fn webhook_token_hash(token: &str) -> (r: String)
    ensures
        r@ == hex_lower(sha256_result(token.spec_bytes())),
{
    sha256_hex(token)
}

/// A fresh webhook token (two random ids, 64 hex digits) and its hash.
pub fn new_webhook_token() -> (r: (String, String))
    ensures
        exists|a: u128, b: u128| r.0@ == uuid_simple(a) + uuid_simple(b),
        r.1@ == hex_lower(sha256_result(encode_utf8(r.0@))),
{
    let a = random_uuid();
    let b = random_uuid();
    let s1 = uuid_simple_string(a);
    let s2 = uuid_simple_string(b);
    let mut t = chars_of(s1.as_str());
    let tail = chars_of(s2.as_str());
    let ghost head = t@;
    let mut i: usize = 0;
    while i < tail.len()
        invariant
            i <= tail@.len(),
            t@ == head + tail@.subrange(0, i as int),
        decreases tail@.len() - i,
    {
        t.push(tail[i]);
        i = i + 1;
        assert(t@ =~= head + tail@.subrange(0, i as int));
    }
    assert(tail@.subrange(0, tail@.len() as int) =~= tail@);
    let token = string_of(&t);
    let hash = sha256_hex(token.as_str());
    (token, hash)
}

/// The token of an `Authorization: Bearer <token>` header, if it has that form.
pub fn bearer_token(header: Option<&str>) -> (r: Option<String>)
    ensures
        match header {
            None => r is None,
            Some(h) => if "Bearer "@.is_prefix_of(h@) {
                r matches Some(t) && t@ == h@.subrange(7, h@.len() as int)
            } else {
                r is None
            },
        },
{
    match header {
        None => None,
        Some(h) => {
            let hc = chars_of(h);
            let prefix = chars_of("Bearer ");
            if crate::text::starts_with(&hc, &prefix) {
                proof {
                    reveal_strlit("Bearer ");
                }
                Some(string_of(&sub_chars(&hc, 7, hc.len())))
            } else {
                None
            }
        },
    }
}

/// Seconds in a day.
pub const DAY_SECS: i64 = 86400;

/// Widest window of cron occurrences that may be listed, in days.
pub const OCCURRENCE_WINDOW_MAX_DAYS: i64 = 366;

/// The most occurrences one trigger contributes to a preview; the cron
/// expansion is asked for no more and reports when it was cut short.
pub const OCCURRENCE_PER_TRIGGER_MAX: usize = 500;

/// The window `[from, to)` of occurrences to list (times in Unix seconds):
/// `to` defaults to 31 days after `from`; it must lie after `from` and at
/// most [`OCCURRENCE_WINDOW_MAX_DAYS`] days after it, else the answer is a
/// 400 saying which.
pub fn occurrence_window(from: i64, to: Option<i64>) -> (r: Result<(i64, i64), ApiError>)
    requires
        to is None ==> from + 31 * DAY_SECS <= i64::MAX,
    ensures
        ({
            let t = match to {
                Some(t) => t as int,
                None => from + 31 * DAY_SECS,
            };
            match r {
                Ok((a, b)) => a == from && b == t && t > from && t - from <= 366 * DAY_SECS,
                Err(e) => e.status == 400 && if t <= from {
                    e.message@ == "`to` must be after `from`"@
                } else {
                    t - from > 366 * DAY_SECS && e.message@ == "window too wide (max 366 days)"@
                },
            }
        }),
{
    let t = match to {
        Some(t) => t,
        None => from + 31 * DAY_SECS,
    };
    if t <= from {
        return Err(api_error(400, "`to` must be after `from`"));
    }
    if (t as i128) - (from as i128) > (OCCURRENCE_WINDOW_MAX_DAYS * DAY_SECS) as i128 {
        return Err(api_error(400, "window too wide (max 366 days)"));
    }
    Ok((from, t))
}

/// Length of a run's lease, in seconds.
pub const LEASE_SECS: i64 = 180;

/// The lease a claim or a renewal at `now` takes.
pub fn lease_until(now: i64) -> (r: i64)
    requires
        now + LEASE_SECS <= i64::MAX,
    ensures
        r == now + LEASE_SECS,
{
    now + LEASE_SECS
}

/// What the heartbeat does after a renewal attempt.
#[derive(Debug, Clone, Copy, PartialEq, Eq, Structural)]
pub enum HeartbeatStep {
    /// The lease was renewed (or the renewal failed transiently): beat again.
    Continue,
    /// The row is no longer ours: mark the lease lost and cancel the agent.
    LeaseLost,
}

/// The heartbeat's decision: `renewed` is the outcome of the renewal, `None`
/// when it failed with an error (logged, retried at the next beat).
pub fn heartbeat_step(renewed: Option<bool>) -> (r: HeartbeatStep)
    ensures
        r == (if renewed == Some(false) {
            HeartbeatStep::LeaseLost
        } else {
            HeartbeatStep::Continue
        }),
{
    match renewed {
        Some(false) => HeartbeatStep::LeaseLost,
        _ => HeartbeatStep::Continue,
    }
}

} // verus!
