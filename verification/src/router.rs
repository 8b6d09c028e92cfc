//! Routes envelopes into mailboxes and correlates asks with replies.
//!
//! The router keeps the table of asks awaiting a reply and of asks already
//! resolved (replied to, or whose target went away); the asker's wait, with
//! its timeout, is left to the caller.

use vstd::prelude::*;
use crate::envelope::{first_violation, Envelope, Kind, ValidationError};
use crate::ids::{new_envelope_id, now_utc};
use crate::keyed::{keyed_map, keys_unique, lemma_keyed_dom, lemma_keyed_index, lemma_keyed_push,
    lemma_keyed_push_unique, lemma_keyed_remove, lemma_keyed_update};
use crate::registry::{pushed_into, InstanceRecord, Registry};
use crate::mailbox::{mailbox_ok, pop_outcome, push_model, RecvError};
use crate::ids::is_envelope_id;
use crate::text::{owned, str_eq};

verus! {

/// Why a routing operation failed.
#[derive(Debug)]
pub enum RouteError {
    UnknownInstance(String),
    AskTimeout { ms: u64 },
    InstanceDisconnected(String),
    UnknownRequestId(String),
    Validation(ValidationError),
}

/// An ask awaiting its reply.
#[derive(Debug)]
pub struct PendingAsk {
    pub request_id: String,
    pub to: String,
    pub asker: String,
}

/// How a resolved ask ended, for the asker to collect.
#[derive(Debug)]
pub struct Resolution {
    pub request_id: String,
    pub result: Result<Envelope, RouteError>,
}

/// How an ask was resolved: by a reply, or by its target going away.
pub enum AskState {
    Replied(Envelope),
    Disconnected(Seq<char>),
}

/// The router's tables: pending asks and resolved asks, keyed by request id.
pub struct AskTable {
    pub pending: Map<Seq<char>, PendingAsk>,
    pub resolved: Map<Seq<char>, AskState>,
}

/// What a reply leads to.
pub enum ReplyVerdict {
    MissingRequestId,
    UnknownRequest(Seq<char>),
    Invalid(ValidationError),
    Accepted(Envelope),
}

pub open spec fn pending_key() -> spec_fn(PendingAsk) -> Seq<char> {
    |p: PendingAsk| p.request_id@
}

pub open spec fn resolution_key() -> spec_fn(Resolution) -> Seq<char> {
    |r: Resolution| r.request_id@
}

/// The state a stored resolution stands for.
pub open spec fn resolution_state(r: Resolution) -> AskState {
    match r.result {
        Ok(e) => AskState::Replied(e),
        Err(RouteError::InstanceDisconnected(s)) => AskState::Disconnected(s@),
        Err(_) => AskState::Disconnected(Seq::empty()),
    }
}

/// The result handed to the asker matches the recorded state.
pub open spec fn result_matches(r: Result<Envelope, RouteError>, s: AskState) -> bool {
    match s {
        AskState::Replied(e) => r == Ok::<Envelope, RouteError>(e),
        AskState::Disconnected(id) => r matches Err(RouteError::InstanceDisconnected(x)) && x@ == id,
    }
}

/// `e` with the given id, timestamp and kind.
pub open spec fn stamped(e: Envelope, id: String, ts: i128, kind: Kind) -> Envelope {
    Envelope { id, ts, kind, ..e }
}

/// The table after an ask with request id `e.id` to `e.to` from `e.from`
/// starts waiting; an earlier entry under the same id is taken over.
pub open spec fn ask_table(t: AskTable, e: Envelope) -> AskTable {
    AskTable {
        pending: t.pending.insert(
            e.id@,
            PendingAsk { request_id: e.id, to: e.to->0, asker: e.from },
        ),
        resolved: t.resolved.remove(e.id@),
    }
}

/// A reply with its missing `to` filled in from the pending ask's asker.
pub open spec fn filled_reply(t: AskTable, e: Envelope) -> Envelope {
    if e.to is None {
        Envelope { to: Some(t.pending[e.request_id->0@].asker), ..e }
    } else {
        e
    }
}

/// What a (stamped) reply leads to, given the table.
pub open spec fn reply_verdict(t: AskTable, e: Envelope) -> ReplyVerdict {
    match e.request_id {
        None => ReplyVerdict::MissingRequestId,
        Some(rid) => if !t.pending.contains_key(rid@) {
            ReplyVerdict::UnknownRequest(rid@)
        } else {
            match first_violation(filled_reply(t, e)) {
                Some(v) => ReplyVerdict::Invalid(v),
                None => ReplyVerdict::Accepted(filled_reply(t, e)),
            }
        },
    }
}

/// The table after a reply: an accepted reply resolves its ask.
pub open spec fn reply_table(t: AskTable, e: Envelope) -> AskTable {
    match reply_verdict(t, e) {
        ReplyVerdict::Accepted(f) => AskTable {
            pending: t.pending.remove(e.request_id->0@),
            resolved: t.resolved.insert(e.request_id->0@, AskState::Replied(f)),
        },
        _ => t,
    }
}

/// The pending asks addressed to `instance`.
pub open spec fn aimed_at(t: AskTable, k: Seq<char>, instance: Seq<char>) -> bool {
    t.pending.contains_key(k) && t.pending[k].to@ == instance
}

/// The table after `instance` goes away: its pending asks are resolved as
/// disconnected.
pub open spec fn cancel_table(t: AskTable, instance: Seq<char>) -> AskTable {
    AskTable {
        pending: t.pending.restrict(t.pending.dom().filter(|k: Seq<char>| t.pending[k].to@ != instance)),
        resolved: Map::new(
            |k: Seq<char>| t.resolved.contains_key(k) || aimed_at(t, k, instance),
            |k: Seq<char>|
                if aimed_at(t, k, instance) {
                    AskState::Disconnected(instance)
                } else {
                    t.resolved[k]
                },
        ),
    }
}

/// What routing `env`, stamped with `id` and `ts`, does to the registry
/// and returns: a broken rule or a missing or unknown recipient is refused
/// and changes nothing; otherwise the envelope enters the recipient's
/// mailbox and its id is returned.
pub open spec fn send_effect(
    before: Map<Seq<char>, InstanceRecord>,
    after: Map<Seq<char>, InstanceRecord>,
    env: Envelope,
    id: String,
    ts: i128,
    r: Result<String, RouteError>,
) -> bool {
    let e = stamped(env, id, ts, env.kind);
    match first_violation(e) {
        Some(v) => (r matches Err(RouteError::Validation(w)) && w == v) && after == before,
        None => match e.to {
            None => (r matches Err(RouteError::UnknownInstance(s)) && s@.len() == 0) && after == before,
            Some(to) => if before.contains_key(to@) {
                (r matches Ok(x) && x@ == id@) && pushed_into(before, after, to@, e)
            } else {
                (r matches Err(RouteError::UnknownInstance(s)) && s@ == to@) && after == before
            },
        },
    }
}

/// What starting `env`, stamped with `id`, `ts` and kind `ask`, does: as
/// `send_effect`, and an accepted ask is recorded as pending.
pub open spec fn ask_effect(
    before: Map<Seq<char>, InstanceRecord>,
    after: Map<Seq<char>, InstanceRecord>,
    t: AskTable,
    t2: AskTable,
    env: Envelope,
    id: String,
    ts: i128,
    r: Result<String, RouteError>,
) -> bool {
    let e = stamped(env, id, ts, Kind::Ask);
    let unchanged = after == before && t2.pending == t.pending && t2.resolved == t.resolved;
    match first_violation(e) {
        Some(v) => (r matches Err(RouteError::Validation(w)) && w == v) && unchanged,
        None => match e.to {
            None => (r matches Err(RouteError::UnknownInstance(s)) && s@.len() == 0) && unchanged,
            Some(to) => if before.contains_key(to@) {
                (r matches Ok(x) && x@ == id@)
                    && pushed_into(before, after, to@, e)
                    && t2.pending == ask_table(t, e).pending
                    && t2.resolved == ask_table(t, e).resolved
            } else {
                (r matches Err(RouteError::UnknownInstance(s)) && s@ == to@) && unchanged
            },
        },
    }
}

/// What delivering `env`, stamped with `id`, `ts` and kind `reply`, does:
/// the verdict decides the result, and an accepted reply resolves its ask.
pub open spec fn reply_effect(
    t: AskTable,
    t2: AskTable,
    env: Envelope,
    id: String,
    ts: i128,
    r: Result<(), RouteError>,
) -> bool {
    let e = stamped(env, id, ts, Kind::Reply);
    &&& match reply_verdict(t, e) {
        ReplyVerdict::MissingRequestId => r matches Err(RouteError::UnknownRequestId(s)) && s@.len() == 0,
        ReplyVerdict::UnknownRequest(k) => r matches Err(RouteError::UnknownRequestId(s)) && s@ == k,
        ReplyVerdict::Invalid(v) => r matches Err(RouteError::Validation(w)) && w == v,
        ReplyVerdict::Accepted(_) => r is Ok,
    }
    &&& t2.pending == reply_table(t, e).pending
    &&& t2.resolved == reply_table(t, e).resolved
}

/// The routing state: pending and resolved asks.
pub struct Router {
    pending: Vec<PendingAsk>,
    resolved: Vec<Resolution>,
}

impl View for Router {
    type V = AskTable;

    closed spec fn view(&self) -> AskTable {
        AskTable {
            pending: keyed_map(self.pending@, pending_key()),
            resolved: keyed_map(self.resolved@, resolution_key()).map_values(
                |r: Resolution| resolution_state(r),
            ),
        }
    }
}

/// A stored resolution is a reply or a disconnection.
pub open spec fn resolution_ok(r: Resolution) -> bool {
    r.result is Ok || r.result matches Err(RouteError::InstanceDisconnected(_))
}

impl Router {
    pub closed spec fn wf(&self) -> bool {
        &&& keys_unique(self.pending@, pending_key())
        &&& keys_unique(self.resolved@, resolution_key())
        &&& forall|i: int| 0 <= i < self.resolved@.len() ==> resolution_ok(#[trigger] self.resolved@[i])
    }

    /// A router with no asks.
    pub fn new() -> (r: Router)
        ensures
            r.wf(),
            r@.pending == Map::<Seq<char>, PendingAsk>::empty(),
            r@.resolved == Map::<Seq<char>, AskState>::empty(),
    {
        let r = Router { pending: Vec::new(), resolved: Vec::new() };
        proof {
            assert(r@.pending =~= Map::<Seq<char>, PendingAsk>::empty());
            assert(r@.resolved =~= Map::<Seq<char>, AskState>::empty());
        }
        r
    }

    fn find_pending(&self, rid: &str) -> (r: Option<usize>)
        requires
            self.wf(),
        ensures
            match r {
                Some(i) => i < self.pending@.len() && self.pending@[i as int].request_id@ == rid@
                    && self@.pending.contains_key(rid@) && self@.pending[rid@] == self.pending@[i as int],
                None => !self@.pending.contains_key(rid@),
            },
    {
        let mut i: usize = 0;
        while i < self.pending.len()
            invariant
                self.wf(),
                0 <= i <= self.pending@.len(),
                forall|j: int| 0 <= j < i ==> self.pending@[j].request_id@ != rid@,
            decreases self.pending@.len() - i,
        {
            if str_eq(self.pending[i].request_id.as_str(), rid) {
                proof {
                    lemma_keyed_index(self.pending@, pending_key(), i as int);
                }
                return Some(i);
            }
            i = i + 1;
        }
        proof {
            lemma_keyed_dom(self.pending@, pending_key(), rid@);
        }
        None
    }

    fn find_resolved(&self, rid: &str) -> (r: Option<usize>)
        requires
            self.wf(),
        ensures
            match r {
                Some(i) => i < self.resolved@.len() && self.resolved@[i as int].request_id@ == rid@
                    && self@.resolved.contains_key(rid@)
                    && self@.resolved[rid@] == resolution_state(self.resolved@[i as int]),
                None => !self@.resolved.contains_key(rid@),
            },
    {
        let mut i: usize = 0;
        while i < self.resolved.len()
            invariant
                self.wf(),
                0 <= i <= self.resolved@.len(),
                forall|j: int| 0 <= j < i ==> self.resolved@[j].request_id@ != rid@,
            decreases self.resolved@.len() - i,
        {
            if str_eq(self.resolved[i].request_id.as_str(), rid) {
                proof {
                    lemma_keyed_index(self.resolved@, resolution_key(), i as int);
                }
                return Some(i);
            }
            i = i + 1;
        }
        proof {
            lemma_keyed_dom(self.resolved@, resolution_key(), rid@);
        }
        None
    }

    /// Removes and returns the resolution stored under `rid`.
    fn take_resolved(&mut self, rid: &str) -> (r: Option<Resolution>)
        requires
            old(self).wf(),
        ensures
            final(self).wf(),
            final(self).pending@ == old(self).pending@,
            final(self)@.pending == old(self)@.pending,
            final(self)@.resolved == old(self)@.resolved.remove(rid@),
            r is Some <==> old(self)@.resolved.contains_key(rid@),
            r matches Some(x) ==> resolution_state(x) == old(self)@.resolved[rid@] && resolution_ok(x),
    {
        match self.find_resolved(rid) {
            Some(i) => {
                let ghost old_res = self.resolved@;
                proof {
                    lemma_keyed_remove(old_res, resolution_key(), i as int);
                }
                let x = self.resolved.remove(i);
                proof {
                    assert(self.resolved@ == old_res.remove(i as int));
                    assert forall|j: int| 0 <= j < self.resolved@.len() implies resolution_ok(#[trigger] self.resolved@[j]) by {
                        if j < i {
                            assert(self.resolved@[j] == old_res[j]);
                        } else {
                            assert(self.resolved@[j] == old_res[j + 1]);
                        }
                    }
                    assert(self@.resolved =~= old(self)@.resolved.remove(rid@));
                }
                Some(x)
            },
            None => {
                proof {
                    assert(self@.resolved =~= old(self)@.resolved.remove(rid@));
                }
                None
            },
        }
    }

    /// Removes the pending entry under `rid`, if any.
    fn drop_pending(&mut self, rid: &str)
        requires
            old(self).wf(),
        ensures
            final(self).wf(),
            final(self)@.pending == old(self)@.pending.remove(rid@),
            final(self)@.resolved == old(self)@.resolved,
    {
        match self.find_pending(rid) {
            Some(i) => {
                let ghost old_p = self.pending@;
                proof {
                    lemma_keyed_remove(old_p, pending_key(), i as int);
                }
                let _p = self.pending.remove(i);
            },
            None => {
                proof {
                    assert(self@.pending =~= old(self)@.pending.remove(rid@));
                }
            },
        }
    }

    /// Stores a resolution; the key must not be resolved yet.
    fn add_resolved(&mut self, r: Resolution)
        requires
            old(self).wf(),
            resolution_ok(r),
            !old(self)@.resolved.contains_key(r.request_id@),
        ensures
            final(self).wf(),
            final(self).pending@ == old(self).pending@,
            final(self)@.pending == old(self)@.pending,
            final(self)@.resolved == old(self)@.resolved.insert(r.request_id@, resolution_state(r)),
    {
        let ghost old_res = self.resolved@;
        proof {
            lemma_keyed_push_unique(old_res, resolution_key(), r);
            lemma_keyed_push(old_res, resolution_key(), r);
        }
        self.resolved.push(r);
        proof {
            assert(self.resolved@ == old_res.push(r));
            assert forall|j: int| 0 <= j < self.resolved@.len() implies resolution_ok(#[trigger] self.resolved@[j]) by {
                if j < old_res.len() {
                    assert(self.resolved@[j] == old_res[j]);
                }
            }
            assert(self@.resolved =~= old(self)@.resolved.insert(r.request_id@, resolution_state(r)));
        }
    }

    /// Stamps a fresh id and the current time on `env`, then routes it.
    pub fn send(&self, registry: &mut Registry, env: Envelope) -> (r: Result<String, RouteError>)
        requires
            old(registry).wf(),
        ensures
            final(registry).wf(),
            final(registry).next_token() == old(registry).next_token(),
            exists|id: String, ts: i128| is_envelope_id(id@)
                && #[trigger] send_effect(old(registry)@, final(registry)@, env, id, ts, r),
    {
        let id = new_envelope_id();
        let ts = now_utc();
        let ghost gid = id;
        let ghost genv = env;
        let r = self.send_stamped(registry, env, id, ts);
        proof {
            assert(is_envelope_id(gid@) && send_effect(old(registry)@, registry@, genv, gid, ts, r));
        }
        r
    }

    /// Routes `env` stamped with `id` and `ts`: validates it, then pushes
    /// it into the mailbox of its recipient.
    pub fn send_stamped(&self, registry: &mut Registry, env: Envelope, id: String, ts: i128) -> (r: Result<String, RouteError>)
        requires
            old(registry).wf(),
        ensures
            final(registry).wf(),
            final(registry).next_token() == old(registry).next_token(),
            send_effect(old(registry)@, final(registry)@, env, id, ts, r),
    {
        let mut env = env;
        env.id = id;
        env.ts = ts;
        match env.validate() {
            Err(v) => return Err(RouteError::Validation(v)),
            Ok(()) => {},
        }
        let to = match &env.to {
            Some(t) => t.clone(),
            None => return Err(RouteError::UnknownInstance(String::new())),
        };
        let rid = env.id.clone();
        match registry.push_to(to.as_str(), env) {
            Some(_) => Ok(rid),
            None => Err(RouteError::UnknownInstance(to)),
        }
    }

    /// Inserts or replaces the pending entry under `p.request_id`.
    fn put_pending(&mut self, p: PendingAsk)
        requires
            old(self).wf(),
        ensures
            final(self).wf(),
            final(self)@.pending == old(self)@.pending.insert(p.request_id@, p),
            final(self)@.resolved == old(self)@.resolved,
    {
        match self.find_pending(p.request_id.as_str()) {
            Some(i) => {
                let ghost old_p = self.pending@;
                proof {
                    lemma_keyed_update(old_p, pending_key(), i as int, p);
                }
                let _old = self.pending.remove(i);
                self.pending.insert(i, p);
                proof {
                    assert(self.pending@ =~= old_p.update(i as int, p));
                }
            },
            None => {
                let ghost old_p = self.pending@;
                proof {
                    lemma_keyed_push_unique(old_p, pending_key(), p);
                    lemma_keyed_push(old_p, pending_key(), p);
                }
                self.pending.push(p);
            },
        }
    }

    /// Stamps a fresh id and the current time on `env` and starts it as an
    /// ask; returns the request id under which the reply will be resolved.
    pub fn ask(&mut self, registry: &mut Registry, env: Envelope) -> (r: Result<String, RouteError>)
        requires
            old(self).wf(),
            old(registry).wf(),
        ensures
            final(self).wf(),
            final(registry).wf(),
            final(registry).next_token() == old(registry).next_token(),
            exists|id: String, ts: i128| is_envelope_id(id@)
                && #[trigger] ask_effect(old(registry)@, final(registry)@, old(self)@, final(self)@, env, id, ts, r),
    {
        let id = new_envelope_id();
        let ts = now_utc();
        let ghost gid = id;
        let ghost genv = env;
        let r = self.ask_stamped(registry, env, id, ts);
        proof {
            assert(is_envelope_id(gid@) && ask_effect(old(registry)@, registry@, old(self)@, self@, genv, gid, ts, r));
        }
        r
    }

    /// Starts `env`, stamped with `id`, `ts` and kind `ask`, as an ask: it
    /// is validated, recorded as pending and pushed to its recipient.
    pub fn ask_stamped(&mut self, registry: &mut Registry, env: Envelope, id: String, ts: i128) -> (r: Result<String, RouteError>)
        requires
            old(self).wf(),
            old(registry).wf(),
        ensures
            final(self).wf(),
            final(registry).wf(),
            final(registry).next_token() == old(registry).next_token(),
            ask_effect(old(registry)@, final(registry)@, old(self)@, final(self)@, env, id, ts, r),
    {
        let mut env = env;
        env.id = id;
        env.ts = ts;
        env.kind = Kind::Ask;
        match env.validate() {
            Err(v) => return Err(RouteError::Validation(v)),
            Ok(()) => {},
        }
        let to = match &env.to {
            Some(t) => t.clone(),
            None => return Err(RouteError::UnknownInstance(String::new())),
        };
        if registry.lookup(to.as_str()).is_none() {
            return Err(RouteError::UnknownInstance(to));
        }
        let rid = env.id.clone();
        let p = PendingAsk { request_id: env.id.clone(), to: to.clone(), asker: env.from.clone() };
        self.put_pending(p);
        let _stale = self.take_resolved(rid.as_str());
        let pushed = registry.push_to(to.as_str(), env);
        proof {
            assert(pushed is Some);
        }
        Ok(rid)
    }

    /// Stamps a fresh id and the current time on `env` and delivers it as
    /// the reply to the pending ask named by its `request_id`.
    pub fn reply(&mut self, env: Envelope) -> (r: Result<(), RouteError>)
        requires
            old(self).wf(),
        ensures
            final(self).wf(),
            exists|id: String, ts: i128| is_envelope_id(id@)
                && #[trigger] reply_effect(old(self)@, final(self)@, env, id, ts, r),
    {
        let id = new_envelope_id();
        let ts = now_utc();
        let ghost gid = id;
        let ghost genv = env;
        let r = self.reply_stamped(env, id, ts);
        proof {
            assert(is_envelope_id(gid@) && reply_effect(old(self)@, self@, genv, gid, ts, r));
        }
        r
    }

    /// Delivers `env`, stamped with `id`, `ts` and kind `reply`, to the
    /// pending ask named by its `request_id`; a missing `to` is filled in
    /// with the asker.
    pub fn reply_stamped(&mut self, env: Envelope, id: String, ts: i128) -> (r: Result<(), RouteError>)
        requires
            old(self).wf(),
        ensures
            final(self).wf(),
            reply_effect(old(self)@, final(self)@, env, id, ts, r),
    {
        let mut env = env;
        env.id = id;
        env.ts = ts;
        env.kind = Kind::Reply;
        let rid = match &env.request_id {
            Some(x) => x.clone(),
            None => return Err(RouteError::UnknownRequestId(String::new())),
        };
        let i = match self.find_pending(rid.as_str()) {
            Some(i) => i,
            None => return Err(RouteError::UnknownRequestId(rid)),
        };
        if env.to.is_none() {
            env.to = Some(self.pending[i].asker.clone());
        }
        match env.validate() {
            Err(v) => return Err(RouteError::Validation(v)),
            Ok(()) => {},
        }
        self.drop_pending(rid.as_str());
        let _stale = self.take_resolved(rid.as_str());
        let ghost f = env;
        self.add_resolved(Resolution { request_id: rid, result: Ok(env) });
        proof {
            assert(self@.resolved =~= old(self)@.resolved.insert(rid@, AskState::Replied(f)));
        }
        Ok(())
    }

    /// Resolves every pending ask addressed to `instance_id` as disconnected.
    pub fn cancel_pending_for(&mut self, instance_id: &str)
        requires
            old(self).wf(),
        ensures
            final(self).wf(),
            final(self)@.pending == cancel_table(old(self)@, instance_id@).pending,
            final(self)@.resolved == cancel_table(old(self)@, instance_id@).resolved,
    {
        let ghost t = old(self)@;
        let ghost inst = instance_id@;
        let mut i: usize = 0;
        while i < self.pending.len()
            invariant
                self.wf(),
                0 <= i <= self.pending@.len(),
                inst == instance_id@,
                forall|j: int| 0 <= j < i ==> (#[trigger] self.pending@[j]).to@ != inst,
                forall|k: Seq<char>| #[trigger] self@.pending.contains_key(k) ==> t.pending.contains_key(k)
                    && self@.pending[k] == t.pending[k],
                forall|k: Seq<char>| #[trigger] t.pending.contains_key(k) && t.pending[k].to@ != inst
                    ==> self@.pending.contains_key(k),
                forall|k: Seq<char>| #[trigger] self@.resolved.contains_key(k) <==> t.resolved.contains_key(k)
                    || (aimed_at(t, k, inst) && !self@.pending.contains_key(k)),
                forall|k: Seq<char>| #[trigger] self@.resolved.contains_key(k) ==> self@.resolved[k] == if aimed_at(t, k, inst) && !self@.pending.contains_key(k) {
                    AskState::Disconnected(inst)
                } else {
                    t.resolved[k]
                },
            decreases self.pending@.len() - i,
        {
            if str_eq(self.pending[i].to.as_str(), instance_id) {
                let ghost before = self@;
                let ghost old_p = self.pending@;
                let ghost k0 = old_p[i as int].request_id@;
                proof {
                    lemma_keyed_index(old_p, pending_key(), i as int);
                    lemma_keyed_remove(old_p, pending_key(), i as int);
                }
                let p = self.pending.remove(i);
                proof {
                    assert(self.pending@ == old_p.remove(i as int));
                    assert(self@.pending == before.pending.remove(k0));
                    assert forall|j: int| 0 <= j < i implies (#[trigger] self.pending@[j]).to@ != inst by {
                        assert(self.pending@[j] == old_p[j]);
                    }
                }
                let ghost mid = self@;
                let _stale = self.take_resolved(p.request_id.as_str());
                let gone = owned(instance_id);
                self.add_resolved(Resolution {
                    request_id: p.request_id,
                    result: Err(RouteError::InstanceDisconnected(gone)),
                });
                proof {
                    assert(t.pending.contains_key(k0) && t.pending[k0] == before.pending[k0]);
                    assert(aimed_at(t, k0, inst));
                    assert(mid.resolved == before.resolved);
                    assert(!self@.pending.contains_key(k0));
                    assert(self@.resolved == mid.resolved.remove(k0).insert(k0, AskState::Disconnected(inst)));
                    assert forall|k: Seq<char>| #[trigger] self@.resolved.contains_key(k) <==> t.resolved.contains_key(k)
                        || (aimed_at(t, k, inst) && !self@.pending.contains_key(k)) by {
                        if k != k0 {
                            assert(self@.pending.contains_key(k) == before.pending.contains_key(k));
                            assert(self@.resolved.contains_key(k) == before.resolved.contains_key(k));
                        }
                    }
                    assert forall|k: Seq<char>| #[trigger] self@.resolved.contains_key(k) implies self@.resolved[k] == if aimed_at(t, k, inst) && !self@.pending.contains_key(k) {
                        AskState::Disconnected(inst)
                    } else {
                        t.resolved[k]
                    } by {
                        if k != k0 {
                            assert(self@.pending.contains_key(k) == before.pending.contains_key(k));
                            assert(self@.resolved[k] == before.resolved[k]);
                        }
                    }
                }
            } else {
                i = i + 1;
            }
        }
        proof {
            assert forall|k: Seq<char>| #[trigger] self@.pending.contains_key(k) implies self@.pending[k].to@ != inst by {
                lemma_keyed_dom(self.pending@, pending_key(), k);
                let j = choose|j: int| 0 <= j < self.pending@.len() && (pending_key())(self.pending@[j]) == k;
                lemma_keyed_index(self.pending@, pending_key(), j);
            }
            assert(self@.pending =~= cancel_table(t, inst).pending);
            assert(self@.resolved =~= cancel_table(t, inst).resolved);
        }
    }

    /// Collects the resolution of the ask `rid`, if it has one.
    pub fn take_outcome(&mut self, rid: &str) -> (r: Option<Result<Envelope, RouteError>>)
        requires
            old(self).wf(),
        ensures
            final(self).wf(),
            r is Some <==> old(self)@.resolved.contains_key(rid@),
            r matches Some(x) ==> result_matches(x, old(self)@.resolved[rid@]),
            final(self)@.pending == old(self)@.pending,
            final(self)@.resolved == old(self)@.resolved.remove(rid@),
    {
        match self.take_resolved(rid) {
            Some(x) => Some(x.result),
            None => None,
        }
    }

    /// Ends the wait for the ask `rid` at its deadline: its resolution if it
    /// has one, otherwise the ask is dropped and `AskTimeout` returned.
    pub fn expire(&mut self, rid: &str, ms: u64) -> (r: Result<Envelope, RouteError>)
        requires
            old(self).wf(),
        ensures
            final(self).wf(),
            old(self)@.resolved.contains_key(rid@) ==> result_matches(r, old(self)@.resolved[rid@])
                && final(self)@.pending == old(self)@.pending
                && final(self)@.resolved == old(self)@.resolved.remove(rid@),
            !old(self)@.resolved.contains_key(rid@) ==> (r matches Err(RouteError::AskTimeout { ms: m }) && m == ms)
                && final(self)@.pending == old(self)@.pending.remove(rid@)
                && final(self)@.resolved == old(self)@.resolved,
    {
        match self.take_resolved(rid) {
            Some(x) => x.result,
            None => {
                self.drop_pending(rid);
                Err(RouteError::AskTimeout { ms })
            },
        }
    }
}

/// A reply to a pending ask resolves it with the reply, whose missing `to`
/// is filled in with the asker, and the ask stops being pending.
pub proof fn lemma_reply_resolves_ask(t: AskTable, ask: Envelope, reply: Envelope)
    requires
        ask.to is Some,
        reply.request_id matches Some(rid) && rid@ == ask.id@,
        reply.to is None,
        reply.kind == Kind::Reply,
        reply.id@.len() > 0,
        reply.from@.len() > 0,
    ensures
        ({
            let t1 = ask_table(t, ask);
            let f = Envelope { to: Some(ask.from), ..reply };
            &&& reply_verdict(t1, reply) == ReplyVerdict::Accepted(f)
            &&& reply_table(t1, reply).resolved.contains_key(ask.id@)
            &&& reply_table(t1, reply).resolved[ask.id@] == AskState::Replied(f)
            &&& !reply_table(t1, reply).pending.contains_key(ask.id@)
        }),
{
}

/// A reply is delivered at most once: after one is accepted, a second reply
/// naming the same request id is refused as unknown.
pub proof fn lemma_reply_consumes_ask(t: AskTable, first: Envelope, second: Envelope)
    requires
        reply_verdict(t, first) is Accepted,
        second.request_id matches Some(r2) && first.request_id matches Some(r1) && r2@ == r1@,
    ensures
        reply_verdict(reply_table(t, first), second) == ReplyVerdict::UnknownRequest(
            first.request_id->0@,
        ),
{
}

/// When an instance goes away, each ask pending on it is resolved as
/// disconnected from it, and asks to other instances stay pending.
pub proof fn lemma_cancel_resolves_pending(t: AskTable, instance: Seq<char>, k: Seq<char>)
    ensures
        aimed_at(t, k, instance) ==> cancel_table(t, instance).resolved.contains_key(k)
            && cancel_table(t, instance).resolved[k] == AskState::Disconnected(instance)
            && !cancel_table(t, instance).pending.contains_key(k),
        t.pending.contains_key(k) && t.pending[k].to@ != instance ==> cancel_table(t, instance).pending.contains_key(k)
            && cancel_table(t, instance).pending[k] == t.pending[k],
{
}

/// After an ask has expired, a late reply to it is refused as unknown.
pub proof fn lemma_reply_after_expiry(t: AskTable, rid: Seq<char>, reply: Envelope)
    requires
        reply.request_id matches Some(r) && r@ == rid,
    ensures
        reply_verdict(AskTable { pending: t.pending.remove(rid), ..t }, reply) == ReplyVerdict::UnknownRequest(rid),
{
}

/// A message routed to a registered instance is delivered: it becomes the
/// newest envelope of the recipient's mailbox, and the next receive from a
/// mailbox that was empty yields it.
pub proof fn lemma_sent_is_received(
    before: Map<Seq<char>, InstanceRecord>,
    after: Map<Seq<char>, InstanceRecord>,
    env: Envelope,
    id: String,
    ts: i128,
    r: Result<String, RouteError>,
)
    requires
        send_effect(before, after, env, id, ts, r),
        r is Ok,
        forall|k: Seq<char>| #[trigger] before.contains_key(k) ==> mailbox_ok(before[k].mailbox@),
    ensures
        env.to is Some,
        after.contains_key(env.to->0@),
        after[env.to->0@].mailbox@.queue.last() == stamped(env, id, ts, env.kind),
        before[env.to->0@].mailbox@.queue.len() == 0 ==> pop_outcome(after[env.to->0@].mailbox@) == Some(
            Ok::<Envelope, RecvError>(stamped(env, id, ts, env.kind)),
        ),
{
    let e = stamped(env, id, ts, env.kind);
    let to = env.to->0;
    let m = before[to@].mailbox@;
    assert(mailbox_ok(m));
    if m.queue.len() == m.capacity {
        assert(push_model(m, e).queue.last() == e);
    }
}

/// Cancelling the asks aimed at `instance` leaves every other ask alone:
/// an id that was not pending on `instance` keeps its pending entry and
/// its resolution (a reply already delivered survives), and one that was
/// pending on it ends as disconnected from it.
pub proof fn lemma_cancel_touches_only_its_instance(t: AskTable, instance: Seq<char>, k: Seq<char>)
    ensures
        !(t.pending.contains_key(k) && t.pending[k].to@ == instance) ==> {
            &&& cancel_table(t, instance).resolved.contains_key(k) == t.resolved.contains_key(k)
            &&& t.resolved.contains_key(k) ==> cancel_table(t, instance).resolved[k] == t.resolved[k]
            &&& cancel_table(t, instance).pending.contains_key(k) == t.pending.contains_key(k)
            &&& t.pending.contains_key(k) ==> cancel_table(t, instance).pending[k] == t.pending[k]
        },
        t.pending.contains_key(k) && t.pending[k].to@ == instance ==> {
            &&& !cancel_table(t, instance).pending.contains_key(k)
            &&& cancel_table(t, instance).resolved.contains_key(k)
            &&& cancel_table(t, instance).resolved[k] == AskState::Disconnected(instance)
        },
{
}

} // verus!
