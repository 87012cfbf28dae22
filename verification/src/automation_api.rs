//! The rules of the automation routes: applying an update to an automation,
//! what a new run snapshots, the checks before a run or a trigger is
//! created, the checks of the webhook receiver, and the calendar preview of
//! cron occurrences.

use vstd::prelude::*;

use crate::agents::{agent_type_of, automation_agent, AgentType, CatalogAgentType};
use crate::chat::SessionOrigin;
use crate::api::{api_error, ApiError};
use crate::automation::{queued_state, title_from_prompt, RunLogKind, RunState, RunStatus, TriggerSpec};
use crate::text::{chars_of, push_str, string_of, trim, trim_ws};

verus! {

/// The editable fields of an automation.
pub struct AutomationFields {
    pub name: String,
    pub description: Option<String>,
    pub prompt: String,
    pub agent_type: String,
    pub model: Option<String>,
    pub enabled: bool,
}

/// A partial update of an automation; an absent field keeps its value.
pub struct UpdateAutomationRequest {
    pub name: Option<String>,
    pub description: Option<String>,
    pub prompt: Option<String>,
    pub agent_type: Option<String>,
    pub model: Option<String>,
    pub enabled: Option<bool>,
}

/// `patch` if present, else `current`.
pub open spec fn keep_or<T>(patch: Option<T>, current: T) -> T {
    match patch {
        Some(v) => v,
        None => current,
    }
}

/// Whether an agent type names a catalog surface.
pub open spec fn known_agent_type(t: Seq<char>) -> bool {
    t == "coworker"@ || t == "deep-research"@
}

/// The route's check of an update's name: a given name must not be blank
/// (400). The stored update itself takes any name.
pub fn require_name(name: &Option<String>) -> (r: Result<(), ApiError>)
    ensures
        r is Err <==> (name matches Some(n) && trim(n@).len() == 0),
        r matches Err(e) ==> e.status == 400 && e.message@ == "name must not be empty"@,
{
    match name {
        Some(n) => if trim_ws(&chars_of(n.as_str())).len() == 0 {
            Err(api_error(400, "name must not be empty"))
        } else {
            Ok(())
        },
        None => Ok(()),
    }
}

/// Apply an update: an absent field keeps its value; the resulting agent
/// type must name a known surface (400). Returns the new fields and whether
/// queued runs must be cancelled, which is when the update disables an
/// enabled automation.
pub fn apply_update(current: AutomationFields, patch: UpdateAutomationRequest) -> (r: Result<
    (AutomationFields, bool),
    ApiError,
>)
    ensures
        ({
            let agent = keep_or(patch.agent_type, current.agent_type);
            if !known_agent_type(agent@) {
                r matches Err(e) && e.status == 400 && e.message@ == "unknown agent_type: "@
                    + agent@
            } else {
                r matches Ok((f, cancel)) && f.name == keep_or(patch.name, current.name)
                    && f.description == keep_or(
                    match patch.description {
                        Some(d) => Some(Some(d)),
                        None => None,
                    },
                    current.description,
                ) && f.prompt == keep_or(patch.prompt, current.prompt) && f.agent_type == agent
                    && f.model == keep_or(
                    match patch.model {
                        Some(m) => Some(Some(m)),
                        None => None,
                    },
                    current.model,
                ) && f.enabled == keep_or(patch.enabled, current.enabled) && cancel == (
                current.enabled && !f.enabled)
            }
        }),
{
    let was_enabled = current.enabled;
    let name = match patch.name {
        Some(n) => n,
        None => current.name,
    };
    let description = match patch.description {
        Some(d) => Some(d),
        None => current.description,
    };
    let prompt = match patch.prompt {
        Some(p) => p,
        None => current.prompt,
    };
    let agent_type = match patch.agent_type {
        Some(a) => a,
        None => current.agent_type,
    };
    if CatalogAgentType::parse(agent_type.as_str()).is_none() {
        let mut m: Vec<char> = Vec::new();
        push_str(&mut m, "unknown agent_type: ");
        push_str(&mut m, agent_type.as_str());
        return Err(ApiError { status: 400, message: string_of(&m) });
    }
    let model = match patch.model {
        Some(m) => Some(m),
        None => current.model,
    };
    let enabled = match patch.enabled {
        Some(e) => e,
        None => was_enabled,
    };
    let cancel = was_enabled && !enabled;
    Ok((AutomationFields { name, description, prompt, agent_type, model, enabled }, cancel))
}

/// What a new run snapshots: the prompt and agent surface it will execute,
/// so later edits of the automation do not change it.
pub struct NewRun {
    pub automation_id: Option<u128>,
    pub trigger_id: Option<u128>,
    pub workspace_id: u128,
    pub title: String,
    pub prompt: String,
    pub agent_type: String,
    pub model: Option<String>,
    pub previous_run_id: Option<u128>,
}

/// The snapshot fields of a run.
pub struct RunSnapshot {
    pub id: u128,
    pub automation_id: Option<u128>,
    pub trigger_id: Option<u128>,
    pub workspace_id: u128,
    pub prompt: String,
    pub agent_type: String,
    pub model: Option<String>,
}

/// A copy of an optional string.
fn clone_opt(s: &Option<String>) -> (r: Option<String>)
    ensures
        r == *s,
{
    match s {
        Some(v) => Some(v.clone()),
        None => None,
    }
}

impl NewRun {
    /// A run of automation `automation_id`: its name is the title, and its
    /// prompt and agent surface are copied.
    pub fn from_automation(
        automation_id: u128,
        workspace_id: u128,
        a: &AutomationFields,
        trigger_id: Option<u128>,
        previous_run_id: Option<u128>,
    ) -> (r: NewRun)
        ensures
            r.automation_id == Some(automation_id),
            r.trigger_id == trigger_id,
            r.workspace_id == workspace_id,
            r.title == a.name,
            r.prompt == a.prompt,
            r.agent_type == a.agent_type,
            r.model == a.model,
            r.previous_run_id == previous_run_id,
    {
        NewRun {
            automation_id: Some(automation_id),
            trigger_id,
            workspace_id,
            title: a.name.clone(),
            prompt: a.prompt.clone(),
            agent_type: a.agent_type.clone(),
            model: clone_opt(&a.model),
            previous_run_id,
        }
    }

    /// A retry of `prev`: the same executed snapshot (not the automation's
    /// possibly changed template), titled by the prompt's first 60
    /// characters, chained to `prev`.
    pub fn retry_of(prev: &RunSnapshot) -> (r: NewRun)
        ensures
            r.automation_id == prev.automation_id,
            r.trigger_id == prev.trigger_id,
            r.workspace_id == prev.workspace_id,
            r.title@ == prev.prompt@.subrange(
                0,
                if prev.prompt@.len() < 60 {
                    prev.prompt@.len() as int
                } else {
                    60
                },
            ),
            r.prompt == prev.prompt,
            r.agent_type == prev.agent_type,
            r.model == prev.model,
            r.previous_run_id == Some(prev.id),
    {
        NewRun {
            automation_id: prev.automation_id,
            trigger_id: prev.trigger_id,
            workspace_id: prev.workspace_id,
            title: title_from_prompt(prev.prompt.as_str()),
            prompt: prev.prompt.clone(),
            agent_type: prev.agent_type.clone(),
            model: clone_opt(&prev.model),
            previous_run_id: Some(prev.id),
        }
    }
}

/// A run as the store writes it when it is enqueued, with the session it
/// executes in and the events recorded with it. The session is marked as
/// driven by the automation worker, and its agent is built from the preset
/// and model pin recorded here.
pub struct QueuedRun {
    pub id: u128,
    pub automation_id: Option<u128>,
    pub trigger_id: Option<u128>,
    pub session_id: u128,
    pub workspace_id: u128,
    pub prompt: String,
    pub agent_type: String,
    pub model: Option<String>,
    pub state: RunState,
    pub scheduled_for: i64,
    pub previous_run_id: Option<u128>,
    /// The title of the run's session.
    pub session_title: String,
    /// What created the run's session: always the automation worker.
    pub session_origin: SessionOrigin,
    /// The preset the session's agent is built from.
    pub session_agent: AgentType,
    /// The model the session's agent is pinned to, if any.
    pub session_model: Option<String>,
    /// The events recorded with the run, in order.
    pub events: Vec<RunLogKind>,
}

/// Enqueue `spec` as run `id` in a new session `session_id`, due at
/// `scheduled_for`. A run of an automation is refused (`None`) unless the
/// automation is still enabled (`automation_enabled`); an ad-hoc run never
/// is. The run starts queued without a lease, titled in its session by the
/// spec's title, and is recorded as triggered, then queued. Its session has
/// the automation origin and runs the preset the run's agent type names
/// (the coworker for an unknown one) with the run's model pin.
pub fn enqueue_run(
    spec: NewRun,
    id: u128,
    session_id: u128,
    scheduled_for: i64,
    automation_enabled: bool,
) -> (r: Option<QueuedRun>)
    ensures
        (r is None) == (spec.automation_id is Some && !automation_enabled),
        r matches Some(q) ==> {
            &&& q.id == id
            &&& q.automation_id == spec.automation_id
            &&& q.trigger_id == spec.trigger_id
            &&& q.session_id == session_id
            &&& q.workspace_id == spec.workspace_id
            &&& q.prompt == spec.prompt
            &&& q.agent_type == spec.agent_type
            &&& q.model == spec.model
            &&& q.state == (RunState { status: RunStatus::Queued, lease_until: None })
            &&& q.scheduled_for == scheduled_for
            &&& q.previous_run_id == spec.previous_run_id
            &&& q.session_title == spec.title
            &&& q.session_origin == SessionOrigin::Automation
            &&& q.session_agent == (match agent_type_of(spec.agent_type@) {
                Some(a) => a,
                None => AgentType::Coworker,
            })
            &&& q.session_model == spec.model
            &&& q.events@ == seq![RunLogKind::Triggered, RunLogKind::Queued]
        },
{
    if spec.automation_id.is_some() && !automation_enabled {
        return None;
    }
    let session_agent = automation_agent(spec.agent_type.as_str());
    let session_model = clone_opt(&spec.model);
    let mut events: Vec<RunLogKind> = Vec::new();
    events.push(RunLogKind::Triggered);
    events.push(RunLogKind::Queued);
    Some(
        QueuedRun {
            id,
            automation_id: spec.automation_id,
            trigger_id: spec.trigger_id,
            session_id,
            workspace_id: spec.workspace_id,
            prompt: spec.prompt,
            agent_type: spec.agent_type,
            model: spec.model,
            state: queued_state(),
            scheduled_for,
            previous_run_id: spec.previous_run_id,
            session_title: spec.title,
            session_origin: SessionOrigin::Automation,
            session_agent,
            session_model,
            events,
        },
    )
}

/// Whether `n` is the retry of `prev`: the same executed snapshot, titled by
/// the prompt's first 60 characters, chained to `prev`.
pub open spec fn is_retry_of(n: NewRun, prev: RunSnapshot) -> bool {
    &&& n.automation_id == prev.automation_id
    &&& n.trigger_id == prev.trigger_id
    &&& n.workspace_id == prev.workspace_id
    &&& n.title@ == prev.prompt@.subrange(
        0,
        if prev.prompt@.len() < 60 {
            prev.prompt@.len() as int
        } else {
            60
        },
    )
    &&& n.prompt == prev.prompt
    &&& n.agent_type == prev.agent_type
    &&& n.model == prev.model
    &&& n.previous_run_id == Some(prev.id)
}

/// An entry the retry scheduler writes on the previous run's event log.
pub struct RetryLog {
    /// The run the entry belongs to: the run being retried.
    pub run_id: u128,
    pub kind: RunLogKind,
    /// Why no retry was made, for a skip.
    pub reason: Option<&'static str>,
    /// The attempt the retry would be.
    pub attempt: i64,
    /// The retry run, once scheduled.
    pub next_run_id: Option<u128>,
    /// When the retry is due, once scheduled.
    pub scheduled_for: Option<i64>,
}

/// What the retry scheduler does for a failed run.
pub enum RetryDecision {
    /// Make no retry and write this entry on the failed run.
    Skip(RetryLog),
    /// Enqueue this run; once it exists, write [`retry_scheduled_log`] for it.
    Enqueue(NewRun),
}

/// The retry scheduler's decision for the failed run `prev`, whose retry
/// would be attempt `next_attempt`. `automation_enabled` is `None` for an
/// ad-hoc run, else whether its automation still exists and is enabled. A
/// run of a disabled (or deleted) automation is not retried, and its log
/// gets a "retry skipped" entry giving the reason `automation_disabled` and
/// the attempt; any other run is retried with the same snapshot.
pub fn decide_retry(prev: &RunSnapshot, automation_enabled: Option<bool>, next_attempt: i64) -> (r:
    RetryDecision)
    ensures
        automation_enabled == Some(false) ==> (r matches RetryDecision::Skip(l) && l.run_id
            == prev.id && l.kind == RunLogKind::RetrySkipped && (l.reason matches Some(m) && m@
            == "automation_disabled"@) && l.attempt == next_attempt && l.next_run_id is None
            && l.scheduled_for is None),
        automation_enabled != Some(false) ==> (r matches RetryDecision::Enqueue(n) && is_retry_of(
            n,
            *prev,
        )),
{
    match automation_enabled {
        Some(false) => RetryDecision::Skip(
            RetryLog {
                run_id: prev.id,
                kind: RunLogKind::RetrySkipped,
                reason: Some("automation_disabled"),
                attempt: next_attempt,
                next_run_id: None,
                scheduled_for: None,
            },
        ),
        _ => RetryDecision::Enqueue(NewRun::retry_of(prev)),
    }
}

/// The "retry scheduled" entry written on the failed run `prev_id` once its
/// retry `next_run_id` is enqueued, due at `scheduled_for`, as attempt
/// `attempt`.
pub fn retry_scheduled_log(prev_id: u128, next_run_id: u128, scheduled_for: i64, attempt: i64) -> (r:
    RetryLog)
    ensures
        r.run_id == prev_id,
        r.kind == RunLogKind::RetryScheduled,
        r.reason is None,
        r.attempt == attempt,
        r.next_run_id == Some(next_run_id),
        r.scheduled_for == Some(scheduled_for),
{
    RetryLog {
        run_id: prev_id,
        kind: RunLogKind::RetryScheduled,
        reason: None,
        attempt,
        next_run_id: Some(next_run_id),
        scheduled_for: Some(scheduled_for),
    }
}

/// When a requested run starts and what it is recorded as: at the given
/// time as a one-time run, else now as a manual run.
pub fn run_schedule(scheduled_for: Option<i64>, now: i64) -> (r: (i64, &'static str))
    ensures
        match scheduled_for {
            Some(t) => r.0 == t && r.1@ == "one_time"@,
            None => r.0 == now && r.1@ == "manual"@,
        },
{
    match scheduled_for {
        Some(t) => (t, "one_time"),
        None => (now, "manual"),
    }
}

/// A run of an automation can be requested only while it is enabled: 409.
pub fn require_enabled(enabled: bool) -> (r: Result<(), ApiError>)
    ensures
        r is Ok <==> enabled,
        r matches Err(e) ==> e.status == 409 && e.message@ == "automation is disabled"@,
{
    if enabled {
        Ok(())
    } else {
        Err(api_error(409, "automation is disabled"))
    }
}

/// An ad-hoc run names its workspace and prompt (400 otherwise).
pub fn adhoc_target(workspace_id: Option<u128>, prompt: Option<String>) -> (r: Result<
    (u128, String),
    ApiError,
>)
    ensures
        match (workspace_id, prompt) {
            (None, _) => r matches Err(e) && e.status == 400 && e.message@
                == "automation_id or workspace_id is required"@,
            (Some(_), None) => r matches Err(e) && e.status == 400 && e.message@
                == "prompt is required for ad-hoc runs"@,
            (Some(w), Some(p)) => r matches Ok((x, q)) && x == w && q == p,
        },
{
    match workspace_id {
        None => Err(api_error(400, "automation_id or workspace_id is required")),
        Some(w) => match prompt {
            None => Err(api_error(400, "prompt is required for ad-hoc runs")),
            Some(p) => Ok((w, p)),
        },
    }
}

/// The title and agent type of an ad-hoc run, once its workspace is known
/// to be the caller's: a blank prompt is refused (400); the title defaults
/// to the prompt's first 60 characters and the agent type to the coworker.
pub fn adhoc_fields(prompt: &str, title: Option<String>, agent_type: Option<String>) -> (r: Result<
    (String, String),
    ApiError,
>)
    ensures
        trim(prompt@).len() == 0 ==> (r matches Err(e) && e.status == 400 && e.message@
            == "prompt must not be empty"@),
        trim(prompt@).len() > 0 ==> (r matches Ok((t, a)) && t@ == (match title {
            Some(x) => x@,
            None => prompt@.subrange(
                0,
                if prompt@.len() < 60 {
                    prompt@.len() as int
                } else {
                    60
                },
            ),
        }) && a@ == (match agent_type {
            Some(x) => x@,
            None => "coworker"@,
        })),
{
    if trim_ws(&chars_of(prompt)).len() == 0 {
        return Err(api_error(400, "prompt must not be empty"));
    }
    let t = match title {
        Some(x) => x,
        None => title_from_prompt(prompt),
    };
    let a = match agent_type {
        Some(x) => x,
        None => "coworker".to_string(),
    };
    Ok((t, a))
}

/// The body of a request to create an automation.
pub struct CreateAutomationRequest {
    pub workspace_id: u128,
    pub name: String,
    pub description: Option<String>,
    pub prompt: String,
    pub agent_type: Option<String>,
    pub model: Option<String>,
}

/// The fields of a new automation, once its workspace is known to be the
/// caller's: a blank name or prompt is refused (400, the name checked
/// first); the agent type defaults to the coworker and must name a known
/// surface (400). A new automation is enabled.
pub fn new_automation(req: CreateAutomationRequest) -> (r: Result<AutomationFields, ApiError>)
    ensures
        trim(req.name@).len() == 0 ==> (r matches Err(e) && e.status == 400 && e.message@
            == "name must not be empty"@),
        trim(req.name@).len() > 0 && trim(req.prompt@).len() == 0 ==> (r matches Err(e)
            && e.status == 400 && e.message@ == "prompt must not be empty"@),
        trim(req.name@).len() > 0 && trim(req.prompt@).len() > 0 ==> {
            let agent = match req.agent_type {
                Some(a) => a@,
                None => "coworker"@,
            };
            if !known_agent_type(agent) {
                r matches Err(e) && e.status == 400 && e.message@ == "unknown agent_type: "@
                    + agent
            } else {
                r matches Ok(f) && f.name == req.name && f.description == req.description
                    && f.prompt == req.prompt && f.agent_type@ == agent && f.model == req.model
                    && f.enabled
            }
        },
{
    if trim_ws(&chars_of(req.name.as_str())).len() == 0 {
        return Err(api_error(400, "name must not be empty"));
    }
    if trim_ws(&chars_of(req.prompt.as_str())).len() == 0 {
        return Err(api_error(400, "prompt must not be empty"));
    }
    let agent_type = match req.agent_type {
        Some(a) => a,
        None => "coworker".to_string(),
    };
    if CatalogAgentType::parse(agent_type.as_str()).is_none() {
        let mut m: Vec<char> = Vec::new();
        push_str(&mut m, "unknown agent_type: ");
        push_str(&mut m, agent_type.as_str());
        return Err(ApiError { status: 400, message: string_of(&m) });
    }
    Ok(
        AutomationFields {
            name: req.name,
            description: req.description,
            prompt: req.prompt,
            agent_type,
            model: req.model,
            enabled: true,
        },
    )
}

/// The filter of a run listing; `from` and `to` are seconds since the epoch.
pub struct ListRunsQuery {
    pub automation_id: Option<u128>,
    pub workspace_id: Option<u128>,
    pub from: Option<i64>,
    pub to: Option<i64>,
}

/// The most runs a window listing returns.
pub const RUN_WINDOW_MAX: i64 = 500;

/// Which runs a listing returns.
pub enum RunListing {
    /// The runs of `workspace` scheduled in `[from, to)`, at most `limit`.
    Window { workspace: u128, from: i64, to: i64, limit: i64 },
    /// The runs of one automation.
    ByAutomation { automation: u128 },
    /// The runs of a workspace.
    ByWorkspace { workspace: u128 },
}

/// The listing a query asks for, for `user`, whose default workspace bears
/// the user's id: a window when both bounds are given (in the named or the
/// default workspace), else the runs of the named automation, else those of
/// the named or the default workspace. The caller checks that it owns what
/// the listing names before anything else.
pub fn plan_run_listing(q: &ListRunsQuery, user: u128) -> (r: RunListing)
    ensures
        match (q.from, q.to) {
            (Some(f), Some(t)) => r == RunListing::Window {
                workspace: keep_or(q.workspace_id, user),
                from: f,
                to: t,
                limit: RUN_WINDOW_MAX,
            },
            _ => match q.automation_id {
                Some(a) => r == RunListing::ByAutomation { automation: a },
                None => r == RunListing::ByWorkspace { workspace: keep_or(q.workspace_id, user) },
            },
        },
{
    let ws = match q.workspace_id {
        Some(w) => w,
        None => user,
    };
    match (q.from, q.to) {
        (Some(f), Some(t)) => RunListing::Window { workspace: ws, from: f, to: t, limit: RUN_WINDOW_MAX },
        _ => match q.automation_id {
            Some(a) => RunListing::ByAutomation { automation: a },
            None => RunListing::ByWorkspace { workspace: ws },
        },
    }
}

/// A window must end after it starts (400).
pub fn require_window_order(from: i64, to: i64) -> (r: Result<(), ApiError>)
    ensures
        r is Ok <==> from < to,
        r matches Err(e) ==> e.status == 400 && e.message@ == "`to` must be after `from`"@,
{
    if to <= from {
        Err(api_error(400, "`to` must be after `from`"))
    } else {
        Ok(())
    }
}

/// The first fire instant a new cron trigger is stored with: scheduled only
/// while both the trigger and its automation are enabled.
pub fn first_fire(trigger_enabled: bool, automation_enabled: bool, fire: i64) -> (r: Option<i64>)
    ensures
        r == (if trigger_enabled && automation_enabled {
            Some(fire)
        } else {
            None
        }),
{
    if trigger_enabled && automation_enabled {
        Some(fire)
    } else {
        None
    }
}

/// Request to add a trigger to an automation.
pub struct CreateTriggerRequest {
    pub spec: TriggerSpec,
    /// Whether the trigger starts enabled (by default it does).
    pub enabled: bool,
}

/// A partial update of a trigger: a new spec of the same kind, a new
/// enabled state; an absent field keeps its value.
pub struct UpdateTriggerRequest {
    pub spec: Option<TriggerSpec>,
    pub enabled: Option<bool>,
}

/// A trigger addressed under an automation must belong to it; a missing or
/// foreign trigger is 404.
pub fn require_trigger_of(trigger_automation: Option<u128>, automation_id: u128) -> (r: Result<
    (),
    ApiError,
>)
    ensures
        r is Ok <==> trigger_automation == Some(automation_id),
        r matches Err(e) ==> e.status == 404 && e.message@ == "trigger not found"@,
{
    match trigger_automation {
        Some(a) => if a == automation_id {
            Ok(())
        } else {
            Err(api_error(404, "trigger not found"))
        },
        None => Err(api_error(404, "trigger not found")),
    }
}

/// The webhook receiver answers every unusable token alike, 401: a missing
/// bearer token, one that matches no trigger, one of a disabled trigger.
pub fn webhook_gate(has_token: bool, trigger_enabled: Option<bool>) -> (r: Result<(), ApiError>)
    ensures
        r is Ok <==> (has_token && trigger_enabled == Some(true)),
        r matches Err(e) ==> e.status == 401 && e.message@ == "invalid token"@,
{
    if has_token && trigger_enabled == Some(true) {
        Ok(())
    } else {
        Err(api_error(401, "invalid token"))
    }
}

/// A planned cron fire of a trigger, for the calendar preview.
pub struct Occurrence {
    pub trigger_id: u128,
    pub automation_id: u128,
    pub automation_name: String,
    pub fire_at: i64,
    pub tz: Option<String>,
}

/// A trigger's expansion over the window: the fire instants and whether the
/// per-trigger cap cut it short, or why it could not be expanded.
pub struct TriggerFires {
    pub trigger_id: u128,
    pub automation_id: u128,
    pub automation_name: String,
    pub tz: Option<String>,
    pub fires: Result<(Vec<i64>, bool), String>,
}

/// Whether occurrences are in fire order.
pub open spec fn fire_sorted(s: Seq<Occurrence>) -> bool {
    forall|i: int, j: int| 0 <= i <= j < s.len() ==> #[trigger] s[i].fire_at <= #[trigger] s[j].fire_at
}

/// The occurrences of the expandable triggers, in trigger order, each
/// trigger's fires in order.
pub open spec fn expanded(ts: Seq<TriggerFires>) -> Seq<Occurrence>
    decreases ts.len(),
{
    if ts.len() == 0 {
        Seq::empty()
    } else {
        let t = ts.last();
        expanded(ts.drop_last()) + match t.fires {
            Ok((f, _)) => Seq::new(
                f@.len(),
                |i: int|
                    Occurrence {
                        trigger_id: t.trigger_id,
                        automation_id: t.automation_id,
                        automation_name: t.automation_name,
                        fire_at: f@[i],
                        tz: t.tz,
                    },
            ),
            Err(_) => Seq::empty(),
        }
    }
}

/// Whether any expandable trigger hit its cap.
pub open spec fn any_truncated(ts: Seq<TriggerFires>) -> bool
    decreases ts.len(),
{
    if ts.len() == 0 {
        false
    } else {
        any_truncated(ts.drop_last()) || match ts.last().fires {
            Ok((_, cut)) => cut,
            Err(_) => false,
        }
    }
}

/// Whether trigger expansion `t` was cut short by its cap.
pub open spec fn cut_short(t: TriggerFires) -> bool {
    t.fires matches Ok((_, c)) && c
}

/// The preview is marked truncated exactly when some trigger's expansion
/// was cut short by its cap, whichever trigger it was.
pub proof fn lemma_truncated_iff_some_trigger_cut(ts: Seq<TriggerFires>)
    ensures
        any_truncated(ts) <==> exists|i: int| 0 <= i < ts.len() && cut_short(#[trigger] ts[i]),
    decreases ts.len(),
{
    if ts.len() > 0 {
        let d = ts.drop_last();
        lemma_truncated_iff_some_trigger_cut(d);
        if any_truncated(ts) {
            if any_truncated(d) {
                let i = choose|i: int| 0 <= i < d.len() && cut_short(#[trigger] d[i]);
                assert(ts[i] == d[i]);
            } else {
                assert(cut_short(ts[ts.len() - 1]));
            }
        } else {
            assert forall|i: int| 0 <= i < ts.len() implies !cut_short(#[trigger] ts[i]) by {
                if i < ts.len() - 1 {
                    assert(ts[i] == d[i]);
                }
            }
        }
    }
}

/// Whether an occurrence fires at `x`.
pub open spec fn at_time(x: i64) -> spec_fn(Occurrence) -> bool {
    |o: Occurrence| o.fire_at == x
}

/// Filtering out every element leaves nothing.
proof fn lemma_filter_none(s: Seq<Occurrence>, p: spec_fn(Occurrence) -> bool)
    requires
        forall|k: int| 0 <= k < s.len() ==> !p(#[trigger] s[k]),
    ensures
        s.filter(p) == Seq::<Occurrence>::empty(),
    decreases s.len(),
{
    reveal(Seq::filter);
    if s.len() > 0 {
        lemma_filter_none(s.drop_last(), p);
        assert(!p(s[s.len() - 1]));
    }
}

/// Inserting `o` in front of occurrences that all fire later than it keeps,
/// at every instant, the order it would have if appended.
proof fn lemma_insert_keeps_time_order(out: Seq<Occurrence>, i: int, o: Occurrence, x: i64)
    requires
        0 <= i <= out.len(),
        forall|k: int| i <= k < out.len() ==> #[trigger] out[k].fire_at > o.fire_at,
    ensures
        out.insert(i, o).filter(at_time(x)) == out.push(o).filter(at_time(x)),
{
    let p = at_time(x);
    let a = out.subrange(0, i);
    let b = out.subrange(i, out.len() as int);
    let one = seq![o];
    assert(out.insert(i, o) =~= a + one + b);
    assert(out =~= a + b);
    Seq::filter_distributes_over_add(a + one, b, p);
    Seq::filter_distributes_over_add(a, one, p);
    Seq::filter_distributes_over_add(a, b, p);
    Seq::<Occurrence>::empty().lemma_filter_push(o, p);
    assert(Seq::<Occurrence>::empty().push(o) =~= one);
    lemma_filter_none(Seq::<Occurrence>::empty(), p);
    out.lemma_filter_push(o, p);
    if o.fire_at == x {
        assert forall|k: int| 0 <= k < b.len() implies !p(#[trigger] b[k]) by {
            assert(b[k] == out[i + k]);
        }
        lemma_filter_none(b, p);
        assert(a.filter(p) + b.filter(p) =~= a.filter(p));
        assert(a.filter(p) + one.filter(p) + b.filter(p) =~= (a.filter(p) + b.filter(p)).push(o));
    } else {
        assert(a.filter(p) + one.filter(p) =~= a.filter(p));
    }
}

/// Inserts `o` into the fire-ordered `out` after every occurrence not later
/// than it.
fn insert_sorted(out: &mut Vec<Occurrence>, o: Occurrence)
    requires
        fire_sorted(old(out)@),
    ensures
        fire_sorted(final(out)@),
        final(out)@.to_multiset() == old(out)@.to_multiset().insert(o),
        forall|x: i64| #[trigger] final(out)@.filter(at_time(x)) == old(out)@.push(o).filter(at_time(x)),
{
    let mut i: usize = out.len();
    while i > 0 && out[i - 1].fire_at > o.fire_at
        invariant
            i <= out@.len(),
            fire_sorted(out@),
            forall|k: int| i <= k < out@.len() ==> #[trigger] out@[k].fire_at > o.fire_at,
        decreases i,
    {
        i = i - 1;
    }
    proof {
        vstd::seq_lib::to_multiset_insert(out@, i as int, o);
    }
    let ghost before = out@;
    out.insert(i, o);
    assert forall|x: i64| #[trigger] out@.filter(at_time(x)) == before.push(o).filter(at_time(x)) by {
        lemma_insert_keeps_time_order(before, i as int, o, x);
        assert(out@ == before.insert(i as int, o));
    }
    assert forall|a: int, b: int| 0 <= a <= b < out@.len() implies #[trigger] out@[a].fire_at
        <= #[trigger] out@[b].fire_at by {
        if a < i && b < i {
            assert(out@[a] == before[a] && out@[b] == before[b]);
        } else if a < i && b == i {
            assert(out@[a] == before[a]);
            if i > 0 {
                assert(before[a].fire_at <= before[i - 1].fire_at);
            }
        } else if a < i && b > i {
            assert(out@[a] == before[a] && out@[b] == before[b - 1]);
        } else if a == i && b > i {
            assert(out@[b] == before[b - 1]);
        } else if a > i {
            assert(out@[a] == before[a - 1] && out@[b] == before[b - 1]);
        }
    }
}

/// The calendar preview: every fire of every expandable trigger (a trigger
/// that cannot be expanded is skipped), ordered by fire instant, occurrences
/// at one instant kept in trigger order (a stable sort), and whether any
/// trigger was cut short by its cap.
pub fn collect_occurrences(triggers: Vec<TriggerFires>) -> (r: (Vec<Occurrence>, bool))
    ensures
        fire_sorted(r.0@),
        r.0@.to_multiset() == expanded(triggers@).to_multiset(),
        forall|x: i64| #[trigger] r.0@.filter(at_time(x)) == expanded(triggers@).filter(at_time(x)),
        r.1 == any_truncated(triggers@),
        r.1 <==> exists|i: int| 0 <= i < triggers@.len() && cut_short(#[trigger] triggers@[i]),
{
    let ghost all = triggers@;
    let mut out: Vec<Occurrence> = Vec::new();
    let mut truncated = false;
    let mut k: usize = 0;
    while k < triggers.len()
        invariant
            all == triggers@,
            k <= triggers@.len(),
            fire_sorted(out@),
            out@.to_multiset() == expanded(all.subrange(0, k as int)).to_multiset(),
            forall|x: i64| #[trigger] out@.filter(at_time(x)) == expanded(all.subrange(0, k as int)).filter(at_time(x)),
            truncated == any_truncated(all.subrange(0, k as int)),
        decreases triggers@.len() - k,
    {
        let ghost pre = all.subrange(0, k as int);
        let ghost post = all.subrange(0, k + 1);
        assert(post.drop_last() =~= pre);
        let t = &triggers[k];
        assert(post.last() == *t);
        match &t.fires {
            Ok((fires, cut)) => {
                let ghost block = Seq::new(
                    fires@.len(),
                    |i: int|
                        Occurrence {
                            trigger_id: t.trigger_id,
                            automation_id: t.automation_id,
                            automation_name: t.automation_name,
                            fire_at: fires@[i],
                            tz: t.tz,
                        },
                );
                let ghost base = out@.to_multiset();
                assert(expanded(pre) + block.subrange(0, 0) =~= expanded(pre));
                proof {
                    let e = block.subrange(0, 0);
                    e.to_multiset_ensures();
                    vstd::multiset::lemma_multiset_empty_len(e.to_multiset());
                    assert(base.add(e.to_multiset()) =~= base);
                }
                let mut j: usize = 0;
                while j < fires.len()
                    invariant
                        j <= fires@.len(),
                        fire_sorted(out@),
                        out@.to_multiset() == base.add(block.subrange(0, j as int).to_multiset()),
                        forall|x: i64| #[trigger] out@.filter(at_time(x)) == (expanded(pre) + block.subrange(0, j as int)).filter(at_time(x)),
                        block.len() == fires@.len(),
                        forall|i: int| 0 <= i < block.len() ==> #[trigger] block[i] == (Occurrence {
                            trigger_id: t.trigger_id,
                            automation_id: t.automation_id,
                            automation_name: t.automation_name,
                            fire_at: fires@[i],
                            tz: t.tz,
                        }),
                    decreases fires@.len() - j,
                {
                    let o = Occurrence {
                        trigger_id: t.trigger_id,
                        automation_id: t.automation_id,
                        automation_name: t.automation_name.clone(),
                        fire_at: fires[j],
                        tz: clone_opt(&t.tz),
                    };
                    assert(o == block[j as int]);
                    proof {
                        let s = block.subrange(0, j as int);
                        assert(block.subrange(0, j + 1) =~= s.push(o));
                        vstd::seq_lib::to_multiset_build(s, o);
                    }
                    let ghost prev_out = out@;
                    insert_sorted(&mut out, o);
                    proof {
                        let s = block.subrange(0, j as int);
                        assert(expanded(pre) + block.subrange(0, j + 1) =~= (expanded(pre) + s).push(o));
                        assert forall|x: i64| #[trigger] out@.filter(at_time(x)) == (expanded(pre) + block.subrange(0, j + 1)).filter(at_time(x)) by {
                            prev_out.lemma_filter_push(o, at_time(x));
                            (expanded(pre) + s).lemma_filter_push(o, at_time(x));
                        }
                        assert(s.push(o).to_multiset() == s.to_multiset().insert(o));
                        assert(base.add(s.to_multiset()).insert(o) =~= base.add(s.to_multiset().insert(o)));
                    }
                    j = j + 1;
                }
                assert(block.subrange(0, fires@.len() as int) =~= block);
                proof {
                    vstd::seq_lib::lemma_multiset_commutative(expanded(pre), block);
                    assert(expanded(post) =~= expanded(pre) + block);
                }
                if *cut {
                    truncated = true;
                }
            },
            Err(_) => {
                assert(expanded(post) =~= expanded(pre) + Seq::<Occurrence>::empty());
            },
        }
        k = k + 1;
    }
    assert(all.subrange(0, triggers@.len() as int) =~= all);
    proof {
        lemma_truncated_iff_some_trigger_cut(all);
    }
    (out, truncated)
}

} // verus!
