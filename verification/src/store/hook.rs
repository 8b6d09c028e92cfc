//! Sender-executed on_delivery hooks: `sh -c` with a 15 s limit; a failure
//! is reported, never fatal. Here: the hook's environment and the decisions
//! of its wait loop.

use vstd::prelude::*;
use crate::envelope::{kind_name, Envelope};
use crate::text::{join2, join3, json_string, json_string_text, owned};

verus! {

/// How long a hook may run, in milliseconds.
pub const HOOK_TIMEOUT_MS: u64 = 15000;

/// How long the wait loop sleeps between polls, in milliseconds.
pub const HOOK_POLL_MS: u64 = 50;

/// Whether a hook succeeded, and a short account of how it ended.
#[derive(Debug)]
pub struct HookOutcome {
    pub ok: bool,
    pub detail: String,
}

/// What polling the hook's process reported.
#[derive(Debug)]
pub enum ChildStatus {
    /// It exited; `status` is how the system describes the exit.
    Exited { success: bool, status: String },
    /// It is still running.
    Running,
    /// Polling failed, with the error's message.
    WaitFailed(String),
}

/// What the wait loop does next.
#[derive(Debug)]
pub enum HookStep {
    /// Stop waiting with this outcome.
    Finish(HookOutcome),
    /// Kill the process, reap it, and stop with this outcome.
    KillThenFinish(HookOutcome),
    /// Sleep one poll interval and poll again.
    Sleep,
}

/// The environment variables a delivery hook gets, besides the sender's.
pub fn delivery_hook_env(instance: &str, env: &Envelope) -> (vars: Vec<(String, String)>)
    ensures
        vars@.len() == 4,
        vars@[0].0@ == "AGENTBUS_INSTANCE"@ && vars@[0].1@ == instance@,
        vars@[1].0@ == "AGENTBUS_ENVELOPE_ID"@ && vars@[1].1@ == env.id@,
        vars@[2].0@ == "AGENTBUS_KIND"@ && vars@[2].1@ == kind_name(env.kind),
        vars@[3].0@ == "AGENTBUS_FROM"@ && vars@[3].1@ == env.from@,
{
    let mut vars: Vec<(String, String)> = Vec::new();
    vars.push((owned("AGENTBUS_INSTANCE"), owned(instance)));
    vars.push((owned("AGENTBUS_ENVELOPE_ID"), env.id.clone()));
    vars.push((owned("AGENTBUS_KIND"), owned(env.kind.as_str())));
    vars.push((owned("AGENTBUS_FROM"), env.from.clone()));
    vars
}

/// The environment variables a hook re-fired by the sweep gets: the
/// instance only.
pub fn sweep_hook_env(instance: &str) -> (vars: Vec<(String, String)>)
    ensures
        vars@.len() == 1,
        vars@[0].0@ == "AGENTBUS_INSTANCE"@ && vars@[0].1@ == instance@,
{
    let mut vars: Vec<(String, String)> = Vec::new();
    vars.push((owned("AGENTBUS_INSTANCE"), owned(instance)));
    vars
}

/// The outcome when the hook's process could not be started.
pub fn spawn_failed(error: &str) -> (o: HookOutcome)
    ensures
        !o.ok,
        o.detail@ == "spawn: "@ + error@,
{
    HookOutcome { ok: false, detail: join2("spawn: ", error) }
}

/// One step of waiting for a hook: a successful exit is `ok`; a failed
/// exit reports its status; a failed poll or the deadline kills the
/// process.
pub fn hook_wait_step(status: ChildStatus, past_deadline: bool) -> (step: HookStep)
    ensures
        match status {
            ChildStatus::Exited { success, status: text } => if success {
                step matches HookStep::Finish(o) && o.ok && o.detail@ == "ok"@
            } else {
                step matches HookStep::Finish(o) && !o.ok && o.detail@ == "exit: "@ + text@
            },
            ChildStatus::WaitFailed(m) => step matches HookStep::KillThenFinish(o) && !o.ok
                && o.detail@ == "wait: "@ + m@,
            ChildStatus::Running => if past_deadline {
                step matches HookStep::KillThenFinish(o) && !o.ok && o.detail@ == "timeout"@
            } else {
                step is Sleep
            },
        },
{
    match status {
        ChildStatus::Exited { success, status } => {
            if success {
                HookStep::Finish(HookOutcome { ok: true, detail: owned("ok") })
            } else {
                HookStep::Finish(HookOutcome { ok: false, detail: join2("exit: ", status.as_str()) })
            }
        },
        ChildStatus::WaitFailed(m) => HookStep::KillThenFinish(
            HookOutcome { ok: false, detail: join2("wait: ", m.as_str()) },
        ),
        ChildStatus::Running => {
            if past_deadline {
                HookStep::KillThenFinish(HookOutcome { ok: false, detail: owned("timeout") })
            } else {
                HookStep::Sleep
            }
        },
    }
}

/// The `bus.delivery_hook_failed` payload around JSON texts: keys in the
/// order `serde_json` writes them, `detail`, `envelope_id`, `event`,
/// `instance`.
pub open spec fn hook_failure_json_text(detail_json: Seq<char>, envelope_id_json: Seq<char>, instance_json: Seq<char>) -> Seq<char> {
    "{\"detail\":"@ + detail_json + ",\"envelope_id\":"@ + envelope_id_json
        + ",\"event\":\"bus.delivery_hook_failed\",\"instance\":"@ + instance_json + "}"@
}

/// The payload of the `bus.delivery_hook_failed` event; a missing envelope
/// id is `null`.
pub open spec fn hook_failure_text(instance: Seq<char>, envelope_id: Option<Seq<char>>, detail: Seq<char>) -> Seq<char> {
    hook_failure_json_text(
        json_string_text(detail),
        match envelope_id {
            Some(i) => json_string_text(i),
            None => "null"@,
        },
        json_string_text(instance),
    )
}

/// Builds the `bus.delivery_hook_failed` payload from its values already
/// written as JSON.
pub fn hook_failure_json(detail_json: &str, envelope_id_json: &str, instance_json: &str) -> (p: String)
    ensures
        p@ == hook_failure_json_text(detail_json@, envelope_id_json@, instance_json@),
{
    let a = join3("{\"detail\":", detail_json, ",\"envelope_id\":");
    let b = join3(a.as_str(), envelope_id_json, ",\"event\":\"bus.delivery_hook_failed\",\"instance\":");
    join3(b.as_str(), instance_json, "}")
}

/// The event payload that records a failed hook; `None` when the hook
/// succeeded, which records nothing.
pub fn hook_failure_payload(instance: &str, envelope_id: Option<&str>, outcome: &HookOutcome) -> (r: Option<String>)
    ensures
        outcome.ok ==> r is None,
        !outcome.ok ==> (r matches Some(p) && p@ == hook_failure_text(
            instance@,
            match envelope_id {
                Some(i) => Some(i@),
                None => None,
            },
            outcome.detail@,
        )),
{
    if outcome.ok {
        return None;
    }
    let detail = json_string(outcome.detail.as_str());
    let id = match envelope_id {
        Some(i) => json_string(i),
        None => owned("null"),
    };
    let inst = json_string(instance);
    Some(hook_failure_json(detail.as_str(), id.as_str(), inst.as_str()))
}

} // verus!
