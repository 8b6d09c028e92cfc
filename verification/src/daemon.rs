//! The daemon's request dispatcher: what each method does to the registry,
//! the router and the caller's connection, and what it answers.
//!
//! Waiting is left to the caller: an `await_message` on an empty mailbox
//! answers `Waiting`, and an accepted `ask` answers `Asking`; the caller
//! then polls with `await_step`, or with the router's `take_outcome` and
//! `expire` followed by `finish_ask`.

use vstd::prelude::*;
use crate::envelope::{Envelope, Kind};
use crate::ids::{is_envelope_id, new_envelope_id, now_utc};
use crate::mailbox::{mailbox_ok, pop_model, pop_outcome, push_model, MailboxModel, RecvError};
use crate::order::{strictly_sorted, views};
use crate::registry::{register_effect, InstanceRecord, OwnerToken, Registry, RegisterError};
use crate::router::{
    ask_table, ask_effect, cancel_table, lemma_reply_resolves_ask, reply_effect, send_effect, stamped, AskState, AskTable,
    RouteError, Router,
};
use crate::service::{
    ask_timeout, claimed, clamp_ask_timeout, default_mailbox_size, err, plain_rpc_error,
    register_rpc, register_rpc_error, released, route_rpc, route_rpc_error, ConnCtx, RpcError,
};
use crate::text::{copy_opt, join3, json_string, json_string_text, owned, str_eq};

verus! {

/// The parameters of a request, as read from its JSON `params`: each field
/// is present when the parameter is there with the right JSON type.
/// `payload` is the JSON text of the `payload` value.
#[derive(Debug)]
pub struct RpcParams {
    pub instance_id: Option<String>,
    pub mailbox_size: Option<u64>,
    pub timeout_ms: Option<u64>,
    pub from: Option<String>,
    pub to: Option<String>,
    pub request_id: Option<String>,
    pub kind: Option<String>,
    pub payload: Option<String>,
}

/// The methods the daemon serves.
#[derive(Debug, Clone, Copy, PartialEq, Eq, Structural)]
pub enum Method {
    Register,
    Unregister,
    ListInstances,
    AwaitMessage,
    CheckInbox,
    Send,
    Ask,
    Reply,
    PublishEvent,
}

/// The method called `s`, if any.
pub open spec fn method_named(s: Seq<char>) -> Option<Method> {
    if s == "register"@ {
        Some(Method::Register)
    } else if s == "unregister"@ {
        Some(Method::Unregister)
    } else if s == "list_instances"@ {
        Some(Method::ListInstances)
    } else if s == "await_message"@ {
        Some(Method::AwaitMessage)
    } else if s == "check_inbox"@ {
        Some(Method::CheckInbox)
    } else if s == "send"@ {
        Some(Method::Send)
    } else if s == "ask"@ {
        Some(Method::Ask)
    } else if s == "reply"@ {
        Some(Method::Reply)
    } else if s == "publish_event"@ {
        Some(Method::PublishEvent)
    } else {
        None
    }
}

/// Looks up a method by name.
pub fn parse_method(s: &str) -> (m: Option<Method>)
    ensures
        m == method_named(s@),
{
    if str_eq(s, "register") {
        Some(Method::Register)
    } else if str_eq(s, "unregister") {
        Some(Method::Unregister)
    } else if str_eq(s, "list_instances") {
        Some(Method::ListInstances)
    } else if str_eq(s, "await_message") {
        Some(Method::AwaitMessage)
    } else if str_eq(s, "check_inbox") {
        Some(Method::CheckInbox)
    } else if str_eq(s, "send") {
        Some(Method::Send)
    } else if str_eq(s, "ask") {
        Some(Method::Ask)
    } else if str_eq(s, "reply") {
        Some(Method::Reply)
    } else if str_eq(s, "publish_event") {
        Some(Method::PublishEvent)
    } else {
        None
    }
}

/// A successful answer.
#[derive(Debug)]
pub enum RpcValue {
    /// `{"ok": b}`
    Ack(bool),
    /// `{"instances": [...]}`
    Instances(Vec<String>),
    /// `{"envelope": e}`
    Envelope(Envelope),
    /// The mailbox is empty: wait up to `timeout_ms` for an envelope.
    Waiting { instance_id: String, timeout_ms: u64 },
    /// `{"envelope": null, "timeout": true}`
    TimedOut,
    /// `{"envelopes": [...]}`
    Envelopes(Vec<Envelope>),
    /// `{"id": id}`
    Id(String),
    /// The ask is on its way: wait up to `timeout_ms` for its reply.
    Asking { request_id: String, timeout_ms: u64 },
    /// `{"reply": e}`
    Reply(Envelope),
}

/// An answer, and the envelopes to append to the event log and broadcast,
/// in order.
#[derive(Debug)]
pub struct Answer {
    pub result: Result<RpcValue, RpcError>,
    pub logged: Vec<Envelope>,
}

/// The daemon's state: the registry, the router, and the ask timeouts.
pub struct Bus {
    pub registry: Registry,
    pub router: Router,
    pub default_timeout_ms: u64,
    pub max_timeout_ms: u64,
}

/// `a` refuses the request with `code` and `message`, logging nothing.
pub open spec fn refused(a: Answer, code: int, message: Seq<char>) -> bool {
    &&& a.result matches Err(e) && plain_rpc_error(e, code, message)
    &&& a.logged@.len() == 0
}

/// The bus is left as it was.
pub open spec fn same_bus(b: Bus, b2: Bus) -> bool {
    &&& b2.registry@ == b.registry@
    &&& b2.router@.pending == b.router@.pending
    &&& b2.router@.resolved == b.router@.resolved
}

/// The router is left as it was.
pub open spec fn same_router(b: Bus, b2: Bus) -> bool {
    &&& b2.router@.pending == b.router@.pending
    &&& b2.router@.resolved == b.router@.resolved
}

/// The JSON text of an optional payload; `null` when absent.
pub open spec fn payload_text(p: Option<String>) -> Seq<char> {
    match p {
        Some(t) => t@,
        None => "null"@,
    }
}

/// The mailbox size a registration asks for; 256 when it names none.
pub open spec fn requested_size(p: RpcParams) -> nat {
    (match p.mailbox_size {
        Some(n) => n,
        None => 256u64,
    }) as usize as nat
}

/// The wait of an `await_message`; 30 s when it names none.
pub open spec fn await_timeout(p: RpcParams) -> u64 {
    match p.timeout_ms {
        Some(t) => t,
        None => 30_000u64,
    }
}

/// `e` is the envelope of `kind` that a request with `p` describes: empty
/// id, the sender, recipient, timeout and payload of `p`, no request id.
pub open spec fn built_from(e: Envelope, p: RpcParams, kind: Kind) -> bool {
    &&& e.id@.len() == 0
    &&& e.kind == kind
    &&& (p.from matches Some(f) && f@ == e.from@)
    &&& e.to == p.to
    &&& e.timeout_ms == p.timeout_ms
    &&& e.payload@ == payload_text(p.payload)
}

/// `{"data":<data>,"type":<kind>}` around JSON texts.
pub open spec fn event_payload_json_text(data_json: Seq<char>, kind_json: Seq<char>) -> Seq<char> {
    "{\"data\":"@ + data_json + ",\"type\":"@ + kind_json + "}"@
}

/// The payload of a published event: `{"data":<payload>,"type":<kind>}`.
pub open spec fn event_payload_text(p: RpcParams) -> Seq<char> {
    let kind = match p.kind {
        Some(k) => k@,
        None => "event"@,
    };
    event_payload_json_text(payload_text(p.payload), json_string_text(kind))
}

/// Builds a published event's payload from its data and kind already
/// written as JSON.
pub fn event_payload_json(data_json: &str, kind_json: &str) -> (p: String)
    ensures
        p@ == event_payload_json_text(data_json@, kind_json@),
{
    let head = join3("{\"data\":", data_json, ",\"type\":");
    join3(head.as_str(), kind_json, "}")
}

/// `after` is `before` with the oldest envelope of `id`'s mailbox taken.
pub open spec fn popped(before: Map<Seq<char>, InstanceRecord>, after: Map<Seq<char>, InstanceRecord>, id: Seq<char>) -> bool {
    &&& after.dom() == before.dom()
    &&& forall|k: Seq<char>| k != id && #[trigger] before.contains_key(k) ==> after[k] == before[k]
    &&& after[id].id == before[id].id
    &&& after[id].owner == before[id].owner
    &&& after[id].mailbox@ == pop_model(before[id].mailbox@)
}

/// `after` is `before` with `id`'s mailbox emptied.
pub open spec fn drained(before: Map<Seq<char>, InstanceRecord>, after: Map<Seq<char>, InstanceRecord>, id: Seq<char>) -> bool {
    &&& after.dom() == before.dom()
    &&& forall|k: Seq<char>| k != id && #[trigger] before.contains_key(k) ==> after[k] == before[k]
    &&& after[id].id == before[id].id
    &&& after[id].owner == before[id].owner
    &&& after[id].mailbox@ == (MailboxModel { queue: Seq::empty(), ..before[id].mailbox@ })
}

/// `register`: claims `instance_id` for the connection.
pub open spec fn register_outcome(b: Bus, b2: Bus, c: ConnCtx, c2: ConnCtx, p: RpcParams, a: Answer) -> bool {
    match p.instance_id {
        None => refused(a, -32602, "missing instance_id"@) && same_bus(b, b2) && c2 == c,
        Some(id) => {
            &&& same_router(b, b2)
            &&& a.logged@.len() == 0
            &&& exists|r0: Result<(), RegisterError>|
                #[trigger] register_effect(b.registry@, b2.registry@, id@, c.owner, requested_size(p), r0)
                    && match r0 {
                    Ok(_) => (a.result matches Ok(RpcValue::Ack(x)) && x) && claimed(c, c2, id@),
                    Err(e) => (a.result matches Err(x) && register_rpc(e, x)) && c2 == c,
                }
        },
    }
}

/// `unregister`: drops the connection's registration of `instance_id`;
/// the asks aimed at it end as disconnected.
pub open spec fn unregister_outcome(b: Bus, b2: Bus, c: ConnCtx, c2: ConnCtx, p: RpcParams, a: Answer) -> bool {
    match p.instance_id {
        None => refused(a, -32602, "missing instance_id"@) && same_bus(b, b2) && c2 == c,
        Some(id) => {
            let removed = b.registry@.contains_key(id@) && b.registry@[id@].owner == c.owner;
            &&& a.logged@.len() == 0
            &&& a.result matches Ok(RpcValue::Ack(x)) && x == removed
            &&& if removed {
                &&& b2.registry@ == b.registry@.remove(id@)
                &&& b2.router@.pending == cancel_table(b.router@, id@).pending
                &&& b2.router@.resolved == cancel_table(b.router@, id@).resolved
                &&& released(c, c2, id@)
            } else {
                same_bus(b, b2) && c2 == c
            }
        },
    }
}

/// `list_instances`: every registered id, in ascending order.
pub open spec fn list_outcome(b: Bus, b2: Bus, a: Answer) -> bool {
    &&& same_bus(b, b2)
    &&& a.logged@.len() == 0
    &&& a.result matches Ok(RpcValue::Instances(v)) && strictly_sorted(views(v@)) && views(v@).to_set()
        == b.registry@.dom()
}

/// `await_message`: the oldest envelope of the mailbox, or a wait when it
/// is empty.
pub open spec fn await_outcome(b: Bus, b2: Bus, p: RpcParams, a: Answer) -> bool {
    &&& same_router(b, b2)
    &&& match p.instance_id {
        None => refused(a, -32602, "missing instance_id"@) && b2.registry@ == b.registry@,
        Some(id) => if !b.registry@.contains_key(id@) {
            refused(a, 1003, "unknown_instance"@) && b2.registry@ == b.registry@
        } else {
            &&& popped(b.registry@, b2.registry@, id@)
            &&& match pop_outcome(b.registry@[id@].mailbox@) {
                Some(Ok(e)) => (a.result matches Ok(RpcValue::Envelope(x)) && x == e) && a.logged@.len() == 0,
                Some(Err(_)) => refused(a, 1004, "mailbox_closed"@),
                None => (a.result matches Ok(RpcValue::Waiting { instance_id: i, timeout_ms: t })
                    && i@ == id@ && t == await_timeout(p)) && a.logged@.len() == 0,
            }
        },
    }
}

/// `check_inbox`: the whole mailbox, oldest first, without waiting.
pub open spec fn check_outcome(b: Bus, b2: Bus, p: RpcParams, a: Answer) -> bool {
    &&& same_router(b, b2)
    &&& match p.instance_id {
        None => refused(a, -32602, "missing instance_id"@) && b2.registry@ == b.registry@,
        Some(id) => if !b.registry@.contains_key(id@) {
            refused(a, 1003, "unknown_instance"@) && b2.registry@ == b.registry@
        } else {
            &&& drained(b.registry@, b2.registry@, id@)
            &&& a.logged@.len() == 0
            &&& a.result matches Ok(RpcValue::Envelopes(v)) && v@ == b.registry@[id@].mailbox@.queue
        },
    }
}

/// `send`: routes a message; the envelope as the request described it is
/// logged once it was delivered.
pub open spec fn send_outcome(b: Bus, b2: Bus, p: RpcParams, a: Answer) -> bool {
    &&& same_router(b, b2)
    &&& match p.from {
        None => refused(a, -32602, "missing from"@) && b2.registry@ == b.registry@,
        Some(_) => exists|e: Envelope, id: String, ts: i128, r0: Result<String, RouteError>|
            built_from(e, p, Kind::Message) && e.request_id is None && is_envelope_id(id@)
                && #[trigger] send_effect(b.registry@, b2.registry@, e, id, ts, r0) && match r0 {
                Ok(x) => (a.result matches Ok(RpcValue::Id(y)) && y@ == x@) && a.logged@ == seq![e],
                Err(re) => (a.result matches Err(y) && route_rpc(re, y)) && a.logged@.len() == 0,
            },
    }
}

/// `ask`: logs the ask as the request described it, then starts it with
/// the clamped timeout.
pub open spec fn ask_outcome(b: Bus, b2: Bus, p: RpcParams, a: Answer) -> bool {
    &&& match p.from {
        None => refused(a, -32602, "missing from"@) && same_bus(b, b2),
        Some(_) => exists|e: Envelope, id: String, ts: i128, r0: Result<String, RouteError>|
            built_from(e, p, Kind::Ask) && e.request_id is None && is_envelope_id(id@)
                && #[trigger] ask_effect(b.registry@, b2.registry@, b.router@, b2.router@, e, id, ts, r0)
                && a.logged@ == seq![e] && match r0 {
                Ok(x) => a.result matches Ok(RpcValue::Asking { request_id: y, timeout_ms: t }) && y@ == x@
                    && t == ask_timeout(p.timeout_ms, b.default_timeout_ms, b.max_timeout_ms),
                Err(re) => a.result matches Err(y) && route_rpc(re, y),
            },
    }
}

/// `reply`: resolves the ask named by `request_id`; the reply as the
/// request described it is logged once accepted.
pub open spec fn reply_outcome(b: Bus, b2: Bus, p: RpcParams, a: Answer) -> bool {
    &&& b2.registry@ == b.registry@
    &&& match p.from {
        None => refused(a, -32602, "missing from"@) && same_router(b, b2),
        Some(_) => exists|e: Envelope, id: String, ts: i128, r0: Result<(), RouteError>|
            built_from(e, p, Kind::Reply) && e.request_id == p.request_id && is_envelope_id(id@)
                && #[trigger] reply_effect(b.router@, b2.router@, e, id, ts, r0) && match r0 {
                Ok(_) => (a.result matches Ok(RpcValue::Ack(x)) && x) && a.logged@ == seq![e],
                Err(re) => (a.result matches Err(y) && route_rpc(re, y)) && a.logged@.len() == 0,
            },
    }
}

/// `publish_event`: logs a fresh event from `from` (or `unknown`) whose
/// payload carries the request's `kind` (or `event`) and payload.
pub open spec fn publish_outcome(b: Bus, b2: Bus, p: RpcParams, a: Answer) -> bool {
    &&& same_bus(b, b2)
    &&& a.logged@.len() == 1
    &&& {
        let e = a.logged@[0];
        &&& is_envelope_id(e.id@)
        &&& a.result matches Ok(RpcValue::Id(x)) && x@ == e.id@
        &&& e.kind == Kind::Event
        &&& e.from@ == match p.from {
            Some(f) => f@,
            None => "unknown"@,
        }
        &&& e.to is None
        &&& e.request_id is None
        &&& e.timeout_ms is None
        &&& e.payload@ == event_payload_text(p)
    }
}

/// The router's tables after the asks aimed at each of `ids`, in order,
/// end as disconnected.
pub open spec fn cancel_each(t: AskTable, ids: Seq<Seq<char>>) -> AskTable
    decreases ids.len(),
{
    if ids.len() == 0 {
        t
    } else {
        cancel_table(cancel_each(t, ids.drop_last()), ids.last())
    }
}

/// The answer of the HTTP registration endpoint.
#[derive(Debug)]
pub enum HttpRegistered {
    /// 201: registered under a fresh owner token.
    Created { owner: OwnerToken },
    /// 409: the id is held by another owner.
    Taken(String),
    /// 400: the id is not valid.
    Invalid,
}

/// The envelope a request with `p` describes, as `built_from` says.
fn build_envelope(p: &RpcParams, kind: Kind) -> (r: Result<Envelope, RpcError>)
    ensures
        p.from is None ==> (r matches Err(e) && plain_rpc_error(e, -32602, "missing from"@)),
        p.from is Some ==> (r matches Ok(e) && built_from(e, *p, kind) && e.request_id is None),
{
    let from = match &p.from {
        Some(f) => f.clone(),
        None => return Err(err(-32602, "missing from")),
    };
    let payload = match &p.payload {
        Some(t) => t.clone(),
        None => owned("null"),
    };
    Ok(
        Envelope {
            id: String::new(),
            kind,
            from,
            to: copy_opt(&p.to),
            request_id: None,
            timeout_ms: p.timeout_ms,
            ts: now_utc(),
            payload,
        },
    )
}

/// An answer that logs nothing.
fn answer(result: Result<RpcValue, RpcError>) -> (a: Answer)
    ensures
        a.result == result,
        a.logged@.len() == 0,
{
    Answer { result, logged: Vec::new() }
}

/// An answer that logs `e`.
fn answer_logging(result: Result<RpcValue, RpcError>, e: Envelope) -> (a: Answer)
    ensures
        a.result == result,
        a.logged@ == seq![e],
{
    let mut logged = Vec::new();
    logged.push(e);
    Answer { result, logged }
}

impl Bus {
    pub open spec fn wf(&self) -> bool {
        self.registry.wf() && self.router.wf()
    }

    /// An empty bus with the given ask timeouts.
    pub fn new(default_timeout_ms: u64, max_timeout_ms: u64) -> (b: Bus)
        ensures
            b.wf(),
            b.registry@ == Map::<Seq<char>, InstanceRecord>::empty(),
            b.router@.pending.is_empty(),
            b.router@.resolved.is_empty(),
            b.default_timeout_ms == default_timeout_ms,
            b.max_timeout_ms == max_timeout_ms,
    {
        Bus { registry: Registry::new(), router: Router::new(), default_timeout_ms, max_timeout_ms }
    }

    fn rpc_register(&mut self, ctx: &mut ConnCtx, p: &RpcParams) -> (a: Answer)
        requires
            old(self).wf(),
            p.instance_id matches Some(id) && crate::registry::instance_id_ok(id@)
                && !old(self).registry@.contains_key(id@) ==> requested_size(*p) > 0,
        ensures
            final(self).wf(),
            final(self).registry.next_token() == old(self).registry.next_token(),
            final(self).default_timeout_ms == old(self).default_timeout_ms,
            final(self).max_timeout_ms == old(self).max_timeout_ms,
            register_outcome(*old(self), *final(self), *old(ctx), *final(ctx), *p, a),
    {
        let id = match &p.instance_id {
            Some(i) => i,
            None => return answer(Err(err(-32602, "missing instance_id"))),
        };
        let size: usize = match p.mailbox_size {
            Some(n) => n as usize,
            None => default_mailbox_size(),
        };
        let r0 = self.registry.register(id.as_str(), ctx.owner, size);
        let ghost g0 = r0;
        let a = match r0 {
            Ok(()) => {
                ctx.claim(id.as_str());
                answer(Ok(RpcValue::Ack(true)))
            },
            Err(e) => answer(Err(register_rpc_error(&e))),
        };
        proof {
            assert(register_effect(old(self).registry@, self.registry@, id@, old(ctx).owner, requested_size(*p), g0));
        }
        a
    }

    fn rpc_unregister(&mut self, ctx: &mut ConnCtx, p: &RpcParams) -> (a: Answer)
        requires
            old(self).wf(),
        ensures
            final(self).wf(),
            final(self).registry.next_token() == old(self).registry.next_token(),
            final(self).default_timeout_ms == old(self).default_timeout_ms,
            final(self).max_timeout_ms == old(self).max_timeout_ms,
            unregister_outcome(*old(self), *final(self), *old(ctx), *final(ctx), *p, a),
    {
        let id = match &p.instance_id {
            Some(i) => i,
            None => return answer(Err(err(-32602, "missing instance_id"))),
        };
        let ok = self.registry.unregister(id.as_str(), ctx.owner);
        if ok {
            self.router.cancel_pending_for(id.as_str());
            ctx.release(id.as_str());
        }
        answer(Ok(RpcValue::Ack(ok)))
    }

    fn rpc_await(&mut self, p: &RpcParams) -> (a: Answer)
        requires
            old(self).wf(),
        ensures
            final(self).wf(),
            final(self).registry.next_token() == old(self).registry.next_token(),
            final(self).default_timeout_ms == old(self).default_timeout_ms,
            final(self).max_timeout_ms == old(self).max_timeout_ms,
            await_outcome(*old(self), *final(self), *p, a),
    {
        let id = match &p.instance_id {
            Some(i) => i,
            None => return answer(Err(err(-32602, "missing instance_id"))),
        };
        let timeout_ms = match p.timeout_ms {
            Some(t) => t,
            None => 30_000,
        };
        match self.registry.pop_from(id.as_str()) {
            None => answer(Err(err(1003, "unknown_instance"))),
            Some(Some(Ok(e))) => answer(Ok(RpcValue::Envelope(e))),
            Some(Some(Err(_))) => answer(Err(err(1004, "mailbox_closed"))),
            Some(None) => answer(Ok(RpcValue::Waiting { instance_id: id.clone(), timeout_ms })),
        }
    }

    fn rpc_check_inbox(&mut self, p: &RpcParams) -> (a: Answer)
        requires
            old(self).wf(),
        ensures
            final(self).wf(),
            final(self).registry.next_token() == old(self).registry.next_token(),
            final(self).default_timeout_ms == old(self).default_timeout_ms,
            final(self).max_timeout_ms == old(self).max_timeout_ms,
            check_outcome(*old(self), *final(self), *p, a),
    {
        let id = match &p.instance_id {
            Some(i) => i,
            None => return answer(Err(err(-32602, "missing instance_id"))),
        };
        match self.registry.drain_from(id.as_str()) {
            None => answer(Err(err(1003, "unknown_instance"))),
            Some(v) => answer(Ok(RpcValue::Envelopes(v))),
        }
    }

    fn rpc_send(&mut self, p: &RpcParams) -> (a: Answer)
        requires
            old(self).wf(),
        ensures
            final(self).wf(),
            final(self).registry.next_token() == old(self).registry.next_token(),
            final(self).default_timeout_ms == old(self).default_timeout_ms,
            final(self).max_timeout_ms == old(self).max_timeout_ms,
            send_outcome(*old(self), *final(self), *p, a),
    {
        let env = match build_envelope(p, Kind::Message) {
            Ok(e) => e,
            Err(x) => return answer(Err(x)),
        };
        let copy = env.duplicate();
        let ghost ge = env;
        let r0 = self.router.send(&mut self.registry, env);
        let ghost g0 = r0;
        proof {
            let (gid, gts) = choose|id: String, ts: i128| is_envelope_id(id@)
                && #[trigger] send_effect(old(self).registry@, self.registry@, ge, id, ts, g0);
            assert(built_from(ge, *p, Kind::Message) && ge.request_id is None && is_envelope_id(gid@)
                && send_effect(old(self).registry@, self.registry@, ge, gid, gts, g0));
        }
        match r0 {
            Ok(x) => answer_logging(Ok(RpcValue::Id(x)), copy),
            Err(re) => answer(Err(route_rpc_error(re))),
        }
    }

    fn rpc_ask(&mut self, p: &RpcParams) -> (a: Answer)
        requires
            old(self).wf(),
        ensures
            final(self).wf(),
            final(self).registry.next_token() == old(self).registry.next_token(),
            final(self).default_timeout_ms == old(self).default_timeout_ms,
            final(self).max_timeout_ms == old(self).max_timeout_ms,
            ask_outcome(*old(self), *final(self), *p, a),
    {
        let timeout_ms = clamp_ask_timeout(p.timeout_ms, self.default_timeout_ms, self.max_timeout_ms);
        let env = match build_envelope(p, Kind::Ask) {
            Ok(e) => e,
            Err(x) => return answer(Err(x)),
        };
        let copy = env.duplicate();
        let ghost ge = env;
        let r0 = self.router.ask(&mut self.registry, env);
        let ghost g0 = r0;
        proof {
            let (gid, gts) = choose|id: String, ts: i128| is_envelope_id(id@)
                && #[trigger] ask_effect(old(self).registry@, self.registry@, old(self).router@, self.router@, ge, id, ts, g0);
            assert(built_from(ge, *p, Kind::Ask) && ge.request_id is None && is_envelope_id(gid@)
                && ask_effect(old(self).registry@, self.registry@, old(self).router@, self.router@, ge, gid, gts, g0));
        }
        match r0 {
            Ok(x) => answer_logging(Ok(RpcValue::Asking { request_id: x, timeout_ms }), copy),
            Err(re) => answer_logging(Err(route_rpc_error(re)), copy),
        }
    }

    fn rpc_reply(&mut self, p: &RpcParams) -> (a: Answer)
        requires
            old(self).wf(),
        ensures
            final(self).wf(),
            final(self).registry.next_token() == old(self).registry.next_token(),
            final(self).default_timeout_ms == old(self).default_timeout_ms,
            final(self).max_timeout_ms == old(self).max_timeout_ms,
            reply_outcome(*old(self), *final(self), *p, a),
    {
        let mut env = match build_envelope(p, Kind::Reply) {
            Ok(e) => e,
            Err(x) => return answer(Err(x)),
        };
        env.request_id = copy_opt(&p.request_id);
        let copy = env.duplicate();
        let ghost ge = env;
        let r0 = self.router.reply(env);
        let ghost g0 = r0;
        proof {
            let (gid, gts) = choose|id: String, ts: i128| is_envelope_id(id@)
                && #[trigger] reply_effect(old(self).router@, self.router@, ge, id, ts, g0);
            assert(built_from(ge, *p, Kind::Reply) && ge.request_id == p.request_id && is_envelope_id(gid@)
                && reply_effect(old(self).router@, self.router@, ge, gid, gts, g0));
        }
        match r0 {
            Ok(()) => answer_logging(Ok(RpcValue::Ack(true)), copy),
            Err(re) => answer(Err(route_rpc_error(re))),
        }
    }

    fn rpc_publish(&self, p: &RpcParams) -> (a: Answer)
        ensures
            publish_outcome(*self, *self, *p, a),
    {
        let id = new_envelope_id();
        let from = match &p.from {
            Some(f) => f.clone(),
            None => owned("unknown"),
        };
        let kind = match &p.kind {
            Some(k) => json_string(k.as_str()),
            None => json_string("event"),
        };
        let data = match &p.payload {
            Some(t) => t.clone(),
            None => owned("null"),
        };
        let payload = event_payload_json(data.as_str(), kind.as_str());
        let env = Envelope {
            id,
            kind: Kind::Event,
            from,
            to: None,
            request_id: None,
            timeout_ms: None,
            ts: now_utc(),
            payload,
        };
        let rid = env.id.clone();
        answer_logging(Ok(RpcValue::Id(rid)), env)
    }

    /// Serves one request of the connection `ctx`: `method` with `p`.
    /// Each method's effect and answer is stated by its `*_outcome`; an
    /// unknown method is refused with `-32601`.
    pub fn dispatch(&mut self, ctx: &mut ConnCtx, method: &str, p: RpcParams) -> (a: Answer)
        requires
            old(self).wf(),
            method_named(method@) == Some(Method::Register) && (p.instance_id matches Some(id)
                && crate::registry::instance_id_ok(id@) && !old(self).registry@.contains_key(id@))
                ==> requested_size(p) > 0,
        ensures
            final(self).wf(),
            final(self).registry.next_token() == old(self).registry.next_token(),
            final(self).default_timeout_ms == old(self).default_timeout_ms,
            final(self).max_timeout_ms == old(self).max_timeout_ms,
            match method_named(method@) {
                None => refused(a, -32601, "method not found"@) && same_bus(*old(self), *final(self))
                    && *final(ctx) == *old(ctx),
                Some(Method::Register) => register_outcome(*old(self), *final(self), *old(ctx), *final(ctx), p, a),
                Some(Method::Unregister) => unregister_outcome(*old(self), *final(self), *old(ctx), *final(ctx), p, a),
                Some(Method::ListInstances) => list_outcome(*old(self), *final(self), a) && *final(ctx) == *old(ctx),
                Some(Method::AwaitMessage) => await_outcome(*old(self), *final(self), p, a) && *final(ctx) == *old(ctx),
                Some(Method::CheckInbox) => check_outcome(*old(self), *final(self), p, a) && *final(ctx) == *old(ctx),
                Some(Method::Send) => send_outcome(*old(self), *final(self), p, a) && *final(ctx) == *old(ctx),
                Some(Method::Ask) => ask_outcome(*old(self), *final(self), p, a) && *final(ctx) == *old(ctx),
                Some(Method::Reply) => reply_outcome(*old(self), *final(self), p, a) && *final(ctx) == *old(ctx),
                Some(Method::PublishEvent) => publish_outcome(*old(self), *final(self), p, a) && *final(ctx) == *old(ctx),
            },
    {
        match parse_method(method) {
            None => answer(Err(err(-32601, "method not found"))),
            Some(Method::Register) => self.rpc_register(ctx, &p),
            Some(Method::Unregister) => self.rpc_unregister(ctx, &p),
            Some(Method::ListInstances) => answer(Ok(RpcValue::Instances(self.registry.list_ids()))),
            Some(Method::AwaitMessage) => self.rpc_await(&p),
            Some(Method::CheckInbox) => self.rpc_check_inbox(&p),
            Some(Method::Send) => self.rpc_send(&p),
            Some(Method::Ask) => self.rpc_ask(&p),
            Some(Method::Reply) => self.rpc_reply(&p),
            Some(Method::PublishEvent) => self.rpc_publish(&p),
        }
    }

    /// One poll of a waiting `await_message` on `instance_id`: the answer
    /// once there is one, `None` to keep waiting. An instance that went
    /// away while waited on had its mailbox closed.
    pub fn await_step(&mut self, instance_id: &str) -> (r: Option<Answer>)
        requires
            old(self).wf(),
        ensures
            final(self).wf(),
            final(self).registry.next_token() == old(self).registry.next_token(),
            final(self).default_timeout_ms == old(self).default_timeout_ms,
            final(self).max_timeout_ms == old(self).max_timeout_ms,
            same_router(*old(self), *final(self)),
            !old(self).registry@.contains_key(instance_id@) ==> (r matches Some(a) && refused(a, 1004, "mailbox_closed"@))
                && final(self).registry@ == old(self).registry@,
            old(self).registry@.contains_key(instance_id@) ==> {
                &&& popped(old(self).registry@, final(self).registry@, instance_id@)
                &&& match pop_outcome(old(self).registry@[instance_id@].mailbox@) {
                    Some(Ok(e)) => r matches Some(a) && (a.result matches Ok(RpcValue::Envelope(x)) && x == e)
                        && a.logged@.len() == 0,
                    Some(Err(_)) => r matches Some(a) && refused(a, 1004, "mailbox_closed"@),
                    None => r is None,
                }
            },
    {
        match self.registry.pop_from(instance_id) {
            None => Some(answer(Err(err(1004, "mailbox_closed")))),
            Some(Some(Ok(e))) => Some(answer(Ok(RpcValue::Envelope(e)))),
            Some(Some(Err(_))) => Some(answer(Err(err(1004, "mailbox_closed")))),
            Some(None) => None,
        }
    }

    /// Ends a connection: every id its owner token holds is unregistered
    /// and the asks aimed at them end as disconnected. Returns those ids.
    pub fn disconnect(&mut self, owner: OwnerToken) -> (closed: Vec<String>)
        requires
            old(self).wf(),
        ensures
            final(self).wf(),
            final(self).registry.next_token() == old(self).registry.next_token(),
            final(self).default_timeout_ms == old(self).default_timeout_ms,
            final(self).max_timeout_ms == old(self).max_timeout_ms,
            forall|k: Seq<char>|
                #[trigger] final(self).registry@.contains_key(k) <==> old(self).registry@.contains_key(k)
                    && old(self).registry@[k].owner != owner,
            forall|k: Seq<char>| #[trigger] final(self).registry@.contains_key(k)
                ==> final(self).registry@[k] == old(self).registry@[k],
            forall|k: Seq<char>|
                views(closed@).contains(k) <==> #[trigger] old(self).registry@.contains_key(k)
                    && old(self).registry@[k].owner == owner,
            final(self).router@.pending == cancel_each(old(self).router@, views(closed@)).pending,
            final(self).router@.resolved == cancel_each(old(self).router@, views(closed@)).resolved,
    {
        let closed = self.registry.unregister_owner(owner);
        let ghost t0 = self.router@;
        let ghost ids = views(closed@);
        let ghost reg = self.registry@;
        let mut i: usize = 0;
        while i < closed.len()
            invariant
                self.router.wf(),
                self.registry.wf(),
                self.registry@ == reg,
                self.registry.next_token() == old(self).registry.next_token(),
                self.default_timeout_ms == old(self).default_timeout_ms,
                self.max_timeout_ms == old(self).max_timeout_ms,
                ids == views(closed@),
                0 <= i <= closed@.len(),
                self.router@.pending == cancel_each(t0, ids.take(i as int)).pending,
                self.router@.resolved == cancel_each(t0, ids.take(i as int)).resolved,
            decreases closed@.len() - i,
        {
            let ghost before = self.router@;
            self.router.cancel_pending_for(closed[i].as_str());
            proof {
                assert(ids.take(i + 1).drop_last() =~= ids.take(i as int));
                assert(ids.take(i + 1).last() == closed@[i as int]@);
                assert(cancel_table(before, ids[i as int]) == cancel_table(cancel_each(t0, ids.take(i as int)), ids[i as int]));
            }
            i = i + 1;
        }
        proof {
            assert(ids.take(i as int) =~= ids);
        }
        closed
    }

    /// The HTTP registration: a fresh owner token registers `id`; the
    /// status is 201, 409 or 400.
    pub fn http_register(&mut self, id: &str, mailbox_size: usize) -> (r: (u16, HttpRegistered))
        requires
            old(self).wf(),
            crate::registry::instance_id_ok(id@) && !old(self).registry@.contains_key(id@) ==> 0 < mailbox_size,
        ensures
            final(self).wf(),
            final(self).default_timeout_ms == old(self).default_timeout_ms,
            final(self).max_timeout_ms == old(self).max_timeout_ms,
            same_router(*old(self), *final(self)),
            final(self).registry.next_token() == old(self).registry.next_token().wrapping_add(1),
            exists|r0: Result<(), RegisterError>|
                #[trigger] register_effect(old(self).registry@, final(self).registry@, id@, old(self).registry.next_token(), mailbox_size as nat, r0)
                && match r0 {
                    Ok(_) => r.0 == 201 && (r.1 matches HttpRegistered::Created { owner } && owner == old(self).registry.next_token()),
                    Err(RegisterError::Collision(_)) => r.0 == 409 && (r.1 matches HttpRegistered::Taken(x) && x@ == id@),
                    Err(RegisterError::Invalid) => r.0 == 400 && r.1 is Invalid,
                },
    {
        let owner = self.registry.issue_owner_token();
        let r0 = self.registry.register(id, owner, mailbox_size);
        let ghost g0 = r0;
        let r = match r0 {
            Ok(()) => (201, HttpRegistered::Created { owner }),
            Err(RegisterError::Collision(x)) => (409, HttpRegistered::Taken(x)),
            Err(RegisterError::Invalid) => (400, HttpRegistered::Invalid),
        };
        proof {
            assert(register_effect(old(self).registry@, self.registry@, id@, owner, mailbox_size as nat, g0));
        }
        r
    }

    /// The HTTP unregistration with the caller's owner token, if it sent
    /// one: 400 without a token, 204 once removed (its pending asks end as
    /// disconnected), 403 when the token does not hold the id.
    pub fn http_unregister(&mut self, id: &str, token: Option<OwnerToken>) -> (status: u16)
        requires
            old(self).wf(),
        ensures
            final(self).wf(),
            final(self).registry.next_token() == old(self).registry.next_token(),
            final(self).default_timeout_ms == old(self).default_timeout_ms,
            final(self).max_timeout_ms == old(self).max_timeout_ms,
            match token {
                None => status == 400 && same_bus(*old(self), *final(self)),
                Some(t) => if old(self).registry@.contains_key(id@) && old(self).registry@[id@].owner == t {
                    &&& status == 204
                    &&& final(self).registry@ == old(self).registry@.remove(id@)
                    &&& final(self).router@.pending == cancel_table(old(self).router@, id@).pending
                    &&& final(self).router@.resolved == cancel_table(old(self).router@, id@).resolved
                } else {
                    status == 403 && same_bus(*old(self), *final(self))
                },
            },
    {
        let t = match token {
            Some(t) => t,
            None => return 400,
        };
        if self.registry.unregister(id, t) {
            self.router.cancel_pending_for(id);
            204
        } else {
            403
        }
    }
}

/// The answer to an ask whose wait ended with `outcome` (from the router's
/// `take_outcome` or `expire`): the reply, logged, or the routing error.
pub fn finish_ask(outcome: Result<Envelope, RouteError>) -> (a: Answer)
    ensures
        match outcome {
            Ok(e) => (a.result matches Ok(RpcValue::Reply(x)) && x == e) && a.logged@ == seq![e],
            Err(re) => (a.result matches Err(y) && route_rpc(re, y)) && a.logged@.len() == 0,
        },
{
    match outcome {
        Ok(e) => {
            let copy = e.duplicate();
            answer_logging(Ok(RpcValue::Reply(e)), copy)
        },
        Err(re) => answer(Err(route_rpc_error(re))),
    }
}

/// The answer to an `await_message` whose wait ran out.
pub fn timed_out() -> (a: Answer)
    ensures
        a.result matches Ok(RpcValue::TimedOut),
        a.logged@.len() == 0,
{
    answer(Ok(RpcValue::TimedOut))
}

/// What a `send` delivers is what the recipient's next `await_message`
/// returns when its mailbox was empty: the message with the id the send
/// answered, from the sender, with the payload sent.
pub proof fn lemma_send_then_await(
    b0: Bus,
    b1: Bus,
    b2: Bus,
    ps: RpcParams,
    sent: Answer,
    pa: RpcParams,
    got: Answer,
)
    requires
        b0.wf(),
        send_outcome(b0, b1, ps, sent),
        sent.result is Ok,
        await_outcome(b1, b2, pa, got),
        ps.to is Some,
        pa.instance_id matches Some(i) && i@ == ps.to->0@,
        b0.registry@.contains_key(ps.to->0@) ==> b0.registry@[ps.to->0@].mailbox@.queue.len() == 0,
    ensures
        got.result matches Ok(RpcValue::Envelope(e)) && {
            &&& sent.result matches Ok(RpcValue::Id(x)) && x@ == e.id@
            &&& e.kind == Kind::Message
            &&& ps.from matches Some(f) && f@ == e.from@
            &&& e.to == ps.to
            &&& e.payload@ == payload_text(ps.payload)
        },
{
    let to = ps.to->0;
    let (e, id, ts, r0) = choose|e: Envelope, id: String, ts: i128, r0: Result<String, RouteError>|
        built_from(e, ps, Kind::Message) && e.request_id is None && is_envelope_id(id@)
            && #[trigger] send_effect(b0.registry@, b1.registry@, e, id, ts, r0) && match r0 {
            Ok(x) => (sent.result matches Ok(RpcValue::Id(y)) && y@ == x@) && sent.logged@ == seq![e],
            Err(re) => (sent.result matches Err(y) && route_rpc(re, y)) && sent.logged@.len() == 0,
        };
    assert(r0 is Ok);
    let s = stamped(e, id, ts, e.kind);
    b0.registry.lemma_wf_entries(to@);
    let m = b0.registry@[to@].mailbox@;
    assert(mailbox_ok(m));
    assert(push_model(m, s).queue =~= seq![s]);
    assert(pop_outcome(b1.registry@[to@].mailbox@) == Some(Ok::<Envelope, RecvError>(s)));
}

/// An ask answered by a `reply` that names its request id and leaves `to`
/// out is resolved with that reply, addressed back to the asker: the
/// asker's wait then ends with it.
pub proof fn lemma_ask_then_reply(
    b0: Bus,
    b1: Bus,
    b2: Bus,
    pk: RpcParams,
    asked: Answer,
    pr: RpcParams,
    replied: Answer,
)
    requires
        ask_outcome(b0, b1, pk, asked),
        asked.result is Ok,
        reply_outcome(b1, b2, pr, replied),
        pr.to is None,
        pr.from matches Some(f) && f@.len() > 0,
        asked.result matches Ok(RpcValue::Asking { request_id: rid, timeout_ms: _ }) && pr.request_id matches Some(
            r,
        ) && r@ == rid@,
    ensures
        replied.result matches Ok(RpcValue::Ack(true)),
        asked.result matches Ok(RpcValue::Asking { request_id: rid, timeout_ms: _ }) && {
            &&& b2.router@.resolved.contains_key(rid@)
            &&& b2.router@.resolved[rid@] matches AskState::Replied(e) && {
                &&& e.kind == Kind::Reply
                &&& pr.from matches Some(f) && e.from@ == f@
                &&& e.to matches Some(x) && pk.from matches Some(f) && x@ == f@
                &&& e.payload@ == payload_text(pr.payload)
            }
            &&& !b2.router@.pending.contains_key(rid@)
        },
{
    let (ea, ida, tsa, ra) = choose|e: Envelope, id: String, ts: i128, r0: Result<String, RouteError>|
        built_from(e, pk, Kind::Ask) && e.request_id is None && is_envelope_id(id@)
            && #[trigger] ask_effect(b0.registry@, b1.registry@, b0.router@, b1.router@, e, id, ts, r0)
            && asked.logged@ == seq![e] && match r0 {
            Ok(x) => asked.result matches Ok(RpcValue::Asking { request_id: y, timeout_ms: t }) && y@ == x@
                && t == ask_timeout(pk.timeout_ms, b0.default_timeout_ms, b0.max_timeout_ms),
            Err(re) => asked.result matches Err(y) && route_rpc(re, y),
        };
    assert(ra is Ok);
    let ask = stamped(ea, ida, tsa, Kind::Ask);
    let (er, idr, tsr, rr) = choose|e: Envelope, id: String, ts: i128, r0: Result<(), RouteError>|
        built_from(e, pr, Kind::Reply) && e.request_id == pr.request_id && is_envelope_id(id@)
            && #[trigger] reply_effect(b1.router@, b2.router@, e, id, ts, r0) && match r0 {
            Ok(_) => (replied.result matches Ok(RpcValue::Ack(x)) && x) && replied.logged@ == seq![e],
            Err(re) => (replied.result matches Err(y) && route_rpc(re, y)) && replied.logged@.len() == 0,
        };
    let reply = stamped(er, idr, tsr, Kind::Reply);
    let t1 = ask_table(b0.router@, ask);
    assert(b1.router@ == t1);
    lemma_reply_resolves_ask(b0.router@, ask, reply);
}

/// A registration of a new, valid id makes a fresh, empty, open mailbox
/// whose capacity is the requested `mailbox_size`, and 256 when the request
/// names none.
pub proof fn lemma_register_capacity(b: Bus, b2: Bus, c: ConnCtx, c2: ConnCtx, p: RpcParams, a: Answer)
    requires
        register_outcome(b, b2, c, c2, p, a),
        p.instance_id is Some,
        crate::registry::instance_id_ok(p.instance_id->0@),
        !b.registry@.contains_key(p.instance_id->0@),
    ensures
        a.result matches Ok(RpcValue::Ack(x)) && x,
        b2.registry@.contains_key(p.instance_id->0@),
        b2.registry@[p.instance_id->0@].mailbox@.queue.len() == 0,
        !b2.registry@[p.instance_id->0@].mailbox@.closed,
        p.mailbox_size is None ==> b2.registry@[p.instance_id->0@].mailbox@.capacity == 256,
        p.mailbox_size matches Some(n) ==> b2.registry@[p.instance_id->0@].mailbox@.capacity == n as usize,
{
    let id = p.instance_id->0;
    let r0 = choose|r0: Result<(), RegisterError>|
        #[trigger] register_effect(b.registry@, b2.registry@, id@, c.owner, requested_size(p), r0) && match r0 {
            Ok(_) => (a.result matches Ok(RpcValue::Ack(x)) && x) && claimed(c, c2, id@),
            Err(e) => (a.result matches Err(x) && register_rpc(e, x)) && c2 == c,
        };
    assert(b2.registry@.dom().contains(id@));
}

} // verus!
