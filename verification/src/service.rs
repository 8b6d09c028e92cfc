//! Decisions of the daemon and the MCP shim around the bus: the bind
//! address rule, ask timeouts, error codes and statuses, event stream
//! filters, per-connection claims, and the shim's session.

use vstd::prelude::*;
use vstd::string::StrSliceExecFns;
use crate::envelope::{kind_named, Envelope, Kind};
use crate::order::views;
use crate::registry::{OwnerToken, RegisterError};
use crate::router::RouteError;
use crate::store::error::validation_text;
use crate::store::paths::{join_path, path_join};
use crate::text::{decimal, decimal_text, join2, join3, owned, str_eq};

verus! {

/// An IP address: four octets, or eight 16-bit segments.
#[derive(Debug, Clone, Copy)]
pub enum BindAddr {
    V4([u8; 4]),
    V6([u16; 8]),
}

/// Why a configuration was refused.
#[derive(Debug, Clone, Copy)]
pub enum ConfigError {
    /// Only loopback addresses may be bound.
    NonLoopbackBind(BindAddr),
}

/// The loopback addresses: every address of `127.0.0.0/8`, and `::1`.
pub open spec fn is_loopback_bind(a: BindAddr) -> bool {
    match a {
        BindAddr::V4(o) => o@[0] == 127u8,
        BindAddr::V6(s) => s@ == seq![0u16, 0, 0, 0, 0, 0, 0, 1],
    }
}

/// Accepts only a loopback bind address.
pub fn validate_bind(bind: BindAddr) -> (r: Result<(), ConfigError>)
    ensures
        r is Ok <==> is_loopback_bind(bind),
        r matches Err(ConfigError::NonLoopbackBind(a)) ==> a == bind,
{
    match bind {
        BindAddr::V4(o) => {
            if o[0] == 127 {
                Ok(())
            } else {
                Err(ConfigError::NonLoopbackBind(bind))
            }
        },
        BindAddr::V6(s) => {
            if s[0] == 0 && s[1] == 0 && s[2] == 0 && s[3] == 0 && s[4] == 0 && s[5] == 0 && s[6] == 0
                && s[7] == 1 {
                proof {
                    assert(s@ =~= seq![0u16, 0, 0, 0, 0, 0, 0, 1]);
                }
                Ok(())
            } else {
                proof {
                    if s@ == seq![0u16, 0, 0, 0, 0, 0, 0, 1] {
                        assert(s@[0] == 0u16 && s@[7] == 1u16);
                        assert(s@[1] == 0u16 && s@[2] == 0u16 && s@[3] == 0u16);
                        assert(s@[4] == 0u16 && s@[5] == 0u16 && s@[6] == 0u16);
                    }
                }
                Err(ConfigError::NonLoopbackBind(bind))
            }
        },
    }
}

/// The ask timeout actually used: the requested one (or the default),
/// capped at `max_ms`, and at least one second.
pub open spec fn ask_timeout(requested: Option<u64>, default_ms: u64, max_ms: u64) -> u64 {
    let raw = match requested {
        Some(t) => t,
        None => default_ms,
    };
    let capped = if raw < max_ms { raw } else { max_ms };
    if capped < 1000 { 1000 } else { capped }
}

/// Clamps a caller's ask timeout into `[1000, max_ms]` ms.
pub fn clamp_ask_timeout(requested: Option<u64>, default_ms: u64, max_ms: u64) -> (t: u64)
    ensures
        t == ask_timeout(requested, default_ms, max_ms),
{
    let raw = match requested {
        Some(t) => t,
        None => default_ms,
    };
    let capped = if raw < max_ms { raw } else { max_ms };
    if capped < 1000 { 1000 } else { capped }
}

/// The timeout is at least a second, and at most the cap when the cap is
/// at least a second.
pub proof fn lemma_ask_timeout_bounds(requested: Option<u64>, default_ms: u64, max_ms: u64)
    ensures
        1000 <= ask_timeout(requested, default_ms, max_ms),
        1000 <= max_ms ==> ask_timeout(requested, default_ms, max_ms) <= max_ms,
{
}

/// The mailbox size of a registration that names none.
pub fn default_mailbox_size() -> (n: usize)
    ensures
        n == 256,
{
    256
}

/// Detail attached to an RPC error.
#[derive(Debug)]
pub enum RpcData {
    /// The instance id concerned.
    Id(String),
    /// The timeout that expired, in milliseconds.
    TimeoutMs(u64),
    /// The request id concerned.
    RequestId(String),
}

/// A JSON-RPC error.
#[derive(Debug)]
pub struct RpcError {
    pub code: i64,
    pub message: String,
    pub data: Option<RpcData>,
}

/// An RPC error without detail.
pub fn err(code: i64, message: &str) -> (e: RpcError)
    ensures
        e.code == code && e.message@ == message@ && e.data is None,
{
    RpcError { code, message: owned(message), data: None }
}

/// `r` is the error `code`/`message` without detail.
pub open spec fn plain_rpc_error(r: RpcError, code: int, message: Seq<char>) -> bool {
    r.code == code && r.message@ == message && r.data is None
}

/// The RPC error that answers a refused registration.
pub open spec fn register_rpc(e: RegisterError, r: RpcError) -> bool {
    match e {
        RegisterError::Collision(_) => plain_rpc_error(r, 1001, "instance_id_taken"@),
        RegisterError::Invalid => plain_rpc_error(r, 1002, "invalid_instance_id"@),
    }
}

/// The RPC error of a refused registration.
pub fn register_rpc_error(e: &RegisterError) -> (r: RpcError)
    ensures
        register_rpc(*e, r),
{
    match e {
        RegisterError::Collision(_) => err(1001, "instance_id_taken"),
        RegisterError::Invalid => err(1002, "invalid_instance_id"),
    }
}

/// The message of a routing error.
pub open spec fn route_text(e: RouteError) -> Seq<char> {
    match e {
        RouteError::UnknownInstance(s) => "unknown instance `"@ + s@ + "`"@,
        RouteError::AskTimeout { ms } => "ask timed out after "@ + decimal_text(ms as nat) + " ms"@,
        RouteError::InstanceDisconnected(s) => "instance `"@ + s@ + "` disconnected before replying"@,
        RouteError::UnknownRequestId(s) => "unknown request_id `"@ + s@ + "`"@,
        RouteError::Validation(v) => "envelope validation: "@ + validation_text(v),
    }
}

impl RouteError {
    /// The error's message.
    pub fn message(&self) -> (s: String)
        ensures
            s@ == route_text(*self),
    {
        match self {
            RouteError::UnknownInstance(x) => join3("unknown instance `", x.as_str(), "`"),
            RouteError::AskTimeout { ms } => {
                let d = decimal(*ms);
                join3("ask timed out after ", d.as_str(), " ms")
            },
            RouteError::InstanceDisconnected(x) => join3(
                "instance `",
                x.as_str(),
                "` disconnected before replying",
            ),
            RouteError::UnknownRequestId(x) => join3("unknown request_id `", x.as_str(), "`"),
            RouteError::Validation(v) => {
                let m = v.message();
                join2("envelope validation: ", m.as_str())
            },
        }
    }
}

/// The RPC error that answers a failed routing operation, with its detail.
pub open spec fn route_rpc(e: RouteError, r: RpcError) -> bool {
        match e {
            RouteError::UnknownInstance(id) => r.code == 1003 && r.message@ == "unknown_instance"@
                && (r.data matches Some(RpcData::Id(x)) && x@ == id@),
            RouteError::AskTimeout { ms } => r.code == 1005 && r.message@ == "timeout"@
                && (r.data matches Some(RpcData::TimeoutMs(m)) && m == ms),
            RouteError::InstanceDisconnected(id) => r.code == 1006 && r.message@ == "instance_disconnected"@
                && (r.data matches Some(RpcData::Id(x)) && x@ == id@),
            RouteError::UnknownRequestId(rid) => r.code == 1007 && r.message@ == "unknown_request_id"@
                && (r.data matches Some(RpcData::RequestId(x)) && x@ == rid@),
            RouteError::Validation(v) => r.code == -32602 && r.message@ == validation_text(v) && r.data is None,
        }
}

/// The RPC error of a failed routing operation, with its detail.
pub fn route_rpc_error(e: RouteError) -> (r: RpcError)
    ensures
        route_rpc(e, r),
{
    match e {
        RouteError::UnknownInstance(id) => RpcError {
            code: 1003,
            message: owned("unknown_instance"),
            data: Some(RpcData::Id(id)),
        },
        RouteError::AskTimeout { ms } => RpcError {
            code: 1005,
            message: owned("timeout"),
            data: Some(RpcData::TimeoutMs(ms)),
        },
        RouteError::InstanceDisconnected(id) => RpcError {
            code: 1006,
            message: owned("instance_disconnected"),
            data: Some(RpcData::Id(id)),
        },
        RouteError::UnknownRequestId(rid) => RpcError {
            code: 1007,
            message: owned("unknown_request_id"),
            data: Some(RpcData::RequestId(rid)),
        },
        RouteError::Validation(v) => RpcError { code: -32602, message: v.message(), data: None },
    }
}

/// The HTTP status of a failed ask.
pub fn ask_error_status(e: &RouteError) -> (s: u16)
    ensures
        s == match *e {
            RouteError::AskTimeout { .. } => 504u16,
            RouteError::UnknownInstance(_) => 404u16,
            RouteError::InstanceDisconnected(_) => 410u16,
            _ => 400u16,
        },
{
    match e {
        RouteError::AskTimeout { .. } => 504,
        RouteError::UnknownInstance(_) => 404,
        RouteError::InstanceDisconnected(_) => 410,
        _ => 400,
    }
}

/// The HTTP status of a failed message send.
pub fn send_error_status(e: &RouteError) -> (s: u16)
    ensures
        s == if e is UnknownInstance { 404u16 } else { 400u16 },
{
    match e {
        RouteError::UnknownInstance(_) => 404,
        _ => 400,
    }
}

/// The HTTP status of a failed reply.
pub fn reply_error_status(e: &RouteError) -> (s: u16)
    ensures
        s == if e is UnknownRequestId { 404u16 } else { 400u16 },
{
    match e {
        RouteError::UnknownRequestId(_) => 404,
        _ => 400,
    }
}

/// Whether the event stream's filters admit `e`: `instance` must be its
/// sender or recipient; a known `kind` name must be its kind, and an
/// unknown one admits everything.
pub open spec fn stream_admits(e: Envelope, instance: Option<Seq<char>>, kind: Option<Seq<char>>) -> bool {
    &&& (instance matches Some(i) ==> (e.to matches Some(t) && t@ == i) || e.from@ == i)
    &&& (kind matches Some(k) ==> (kind_named(k) matches Some(want) ==> e.kind == want))
}

/// Applies the event stream's filters to `e`.
pub fn event_matches(e: &Envelope, instance: Option<&str>, kind: Option<&str>) -> (r: bool)
    ensures
        r == stream_admits(
            *e,
            match instance {
                Some(i) => Some(i@),
                None => None,
            },
            match kind {
                Some(k) => Some(k@),
                None => None,
            },
        ),
{
    if let Some(i) = instance {
        let to_hit = match &e.to {
            Some(t) => str_eq(t.as_str(), i),
            None => false,
        };
        let hit = to_hit || str_eq(e.from.as_str(), i);
        if !hit {
            return false;
        }
    }
    if let Some(k) = kind {
        match Kind::parse(k) {
            Some(want) => {
                if e.kind != want {
                    return false;
                }
            },
            None => return true,
        }
    }
    true
}

/// Whether a live event goes out on the stream: it was not already sent
/// by the replay (by id), and the filters admit it.
pub open spec fn live_admits(e: Envelope, replayed: Seq<Seq<char>>, instance: Option<Seq<char>>, kind: Option<Seq<char>>) -> bool {
    !replayed.contains(e.id@) && stream_admits(e, instance, kind)
}

/// Decides whether a live event goes out after a replay of the envelopes
/// with ids `replayed_ids`.
pub fn live_event_admitted(e: &Envelope, replayed_ids: &Vec<String>, instance: Option<&str>, kind: Option<&str>) -> (r: bool)
    ensures
        r == live_admits(
            *e,
            views(replayed_ids@),
            match instance {
                Some(i) => Some(i@),
                None => None,
            },
            match kind {
                Some(k) => Some(k@),
                None => None,
            },
        ),
{
    let mut i: usize = 0;
    while i < replayed_ids.len()
        invariant
            0 <= i <= replayed_ids@.len(),
            forall|j: int| 0 <= j < i ==> replayed_ids@[j]@ != e.id@,
        decreases replayed_ids@.len() - i,
    {
        if str_eq(replayed_ids[i].as_str(), e.id.as_str()) {
            proof {
                assert(views(replayed_ids@)[i as int] == e.id@);
            }
            return false;
        }
        i = i + 1;
    }
    proof {
        if views(replayed_ids@).contains(e.id@) {
            let j = choose|j: int| 0 <= j < views(replayed_ids@).len() && views(replayed_ids@)[j] == e.id@;
            assert(replayed_ids@[j]@ == e.id@);
        }
    }
    event_matches(e, instance, kind)
}

/// An event that the replay already sent is never sent again live, so a
/// subscriber sees each event once across the replay and the live tail.
pub proof fn lemma_replayed_not_repeated(
    e: Envelope,
    replayed: Seq<Seq<char>>,
    instance: Option<Seq<char>>,
    kind: Option<Seq<char>>,
)
    requires
        replayed.contains(e.id@),
    ensures
        !live_admits(e, replayed, instance, kind),
{
}

/// A connection's owner token and the ids it claimed.
#[derive(Debug)]
pub struct ConnCtx {
    pub owner: OwnerToken,
    pub claimed_ids: Vec<String>,
}

/// `c2` is `c` with a claim on `id` recorded once.
pub open spec fn claimed(c: ConnCtx, c2: ConnCtx, id: Seq<char>) -> bool {
    &&& c2.owner == c.owner
    &&& views(c.claimed_ids@).contains(id) ==> c2.claimed_ids@ == c.claimed_ids@
    &&& !views(c.claimed_ids@).contains(id) ==> views(c2.claimed_ids@) == views(c.claimed_ids@).push(id)
}

/// `c2` is `c` with every claim on `id` dropped.
pub open spec fn released(c: ConnCtx, c2: ConnCtx, id: Seq<char>) -> bool {
    &&& c2.owner == c.owner
    &&& views(c2.claimed_ids@) == views(c.claimed_ids@).filter(|x: Seq<char>| x != id)
}

impl ConnCtx {
    /// A connection that has claimed nothing yet.
    pub fn new(owner: OwnerToken) -> (c: ConnCtx)
        ensures
            c.owner == owner && c.claimed_ids@.len() == 0,
    {
        ConnCtx { owner, claimed_ids: Vec::new() }
    }

    /// Records a claim on `id`, once.
    pub fn claim(&mut self, id: &str)
        ensures
            claimed(*old(self), *final(self), id@),
    {
        let mut i: usize = 0;
        while i < self.claimed_ids.len()
            invariant
                0 <= i <= self.claimed_ids@.len(),
                self.claimed_ids@ == old(self).claimed_ids@,
                self.owner == old(self).owner,
                forall|j: int| 0 <= j < i ==> self.claimed_ids@[j]@ != id@,
            decreases self.claimed_ids@.len() - i,
        {
            if str_eq(self.claimed_ids[i].as_str(), id) {
                proof {
                    assert(views(self.claimed_ids@)[i as int] == id@);
                }
                return;
            }
            i = i + 1;
        }
        proof {
            if views(old(self).claimed_ids@).contains(id@) {
                let j = choose|j: int| 0 <= j < views(old(self).claimed_ids@).len() && views(old(self).claimed_ids@)[j] == id@;
                assert(self.claimed_ids@[j]@ == id@);
            }
        }
        let ghost before = self.claimed_ids@;
        self.claimed_ids.push(owned(id));
        proof {
            assert(views(self.claimed_ids@) =~= views(before).push(id@));
        }
    }

    /// Drops every claim on `id`.
    pub fn release(&mut self, id: &str)
        ensures
            released(*old(self), *final(self), id@),
    {
        let ghost all = views(self.claimed_ids@);
        let ghost keep = |x: Seq<char>| x != id@;
        let mut rest: Vec<String> = Vec::new();
        std::mem::swap(&mut rest, &mut self.claimed_ids);
        let total = rest.len();
        let mut n: usize = 0;
        while rest.len() > 0
            invariant
                all.len() == total,
                n + rest@.len() == total,
                views(rest@) == all.skip(n as int),
                views(self.claimed_ids@) == all.take(n as int).filter(keep),
                keep == (|x: Seq<char>| x != id@),
                self.owner == old(self).owner,
            decreases rest@.len(),
        {
            let ghost r0 = rest@;
            let x = rest.remove(0);
            let ghost gx = x@;
            proof {
                assert(r0[0] == x);
                assert(rest@ =~= r0.subrange(1, r0.len() as int));
                assert(views(r0)[0] == gx);
                assert(all.skip(n as int)[0] == all[n as int]);
                assert(all[n as int] == gx);
                assert(all.take(n + 1) =~= all.take(n as int).push(gx));
                assert(all.take(n as int).push(gx).filter(keep) == if keep(gx) {
                    all.take(n as int).filter(keep).push(gx)
                } else {
                    all.take(n as int).filter(keep)
                }) by {
                    reveal_with_fuel(Seq::<_>::filter, 1);
                    assert(all.take(n as int).push(gx).drop_last() =~= all.take(n as int));
                }
            }
            let ghost prev = self.claimed_ids@;
            if !str_eq(x.as_str(), id) {
                self.claimed_ids.push(x);
                proof {
                    assert(views(self.claimed_ids@) =~= views(prev).push(gx));
                }
            }
            proof {
                assert(views(rest@) =~= views(r0).skip(1));
                assert(all.skip(n + 1) =~= all.skip(n as int).skip(1));
            }
            n = n + 1;
        }
        proof {
            assert(all.take(n as int) =~= all);
        }
    }
}

/// A connection claims each id at most once, and holds every id it
/// claimed.
pub proof fn lemma_claims_stay_distinct(c: ConnCtx, c2: ConnCtx, id: Seq<char>)
    requires
        views(c.claimed_ids@).no_duplicates(),
        claimed(c, c2, id),
    ensures
        views(c2.claimed_ids@).no_duplicates(),
        views(c2.claimed_ids@).contains(id),
{
    let s = views(c.claimed_ids@);
    if s.contains(id) {
        assert(views(c2.claimed_ids@) =~= s);
    } else {
        let t = views(c2.claimed_ids@);
        assert(t =~= s.push(id));
        assert(t[s.len() as int] == id);
        assert forall|i: int, j: int| 0 <= i < t.len() && 0 <= j < t.len() && i != j implies t[i] != t[j] by {
            if i < s.len() && j < s.len() {
                assert(t[i] == s[i] && t[j] == s[j]);
            } else if i < s.len() {
                assert(t[i] == s[i]);
            } else {
                assert(t[j] == s[j]);
            }
        }
    }
}

/// Why the hook inbox refused an id.
#[derive(Debug, Clone, Copy, PartialEq, Eq, Structural)]
pub enum HookInboxError {
    /// The id contains `/` or `..`.
    BadId,
}

/// Mirrors envelopes addressed to an instance into `<dir>/<id>.jsonl`.
#[derive(Debug)]
pub struct HookInbox {
    pub dir: String,
}

/// Whether `s` contains `/` or `..`, which could leave the directory.
pub open spec fn escapes_dir(s: Seq<char>) -> bool {
    (exists|i: int| 0 <= i < s.len() && s[i] == '/') || (exists|i: int|
        0 <= i < s.len() - 1 && #[trigger] s[i] == '.' && s[i + 1] == '.')
}

impl HookInbox {
    /// A hook inbox over `dir`.
    pub fn at(dir: String) -> (h: HookInbox)
        ensures
            h.dir == dir,
    {
        HookInbox { dir }
    }

    /// The file for `instance_id`; ids that could leave the directory are
    /// refused.
    pub fn path_for(&self, instance_id: &str) -> (r: Result<String, HookInboxError>)
        ensures
            escapes_dir(instance_id@) ==> r == Err::<String, HookInboxError>(HookInboxError::BadId),
            !escapes_dir(instance_id@) ==> (r matches Ok(p) && p@ == path_join(self.dir@, instance_id@ + ".jsonl"@)),
    {
        let n = instance_id.unicode_len();
        let mut i: usize = 0;
        while i < n
            invariant
                n == instance_id@.len(),
                0 <= i <= n,
                forall|j: int| 0 <= j < i ==> instance_id@[j] != '/',
                forall|j: int| 0 <= j < i && j + 1 < n ==> !(#[trigger] instance_id@[j] == '.' && instance_id@[j + 1] == '.'),
            decreases n - i,
        {
            let c = instance_id.get_char(i);
            if c == '/' {
                return Err(HookInboxError::BadId);
            }
            if c == '.' && i + 1 < n && instance_id.get_char(i + 1) == '.' {
                return Err(HookInboxError::BadId);
            }
            i = i + 1;
        }
        let file = join2(instance_id, ".jsonl");
        Ok(join_path(self.dir.as_str(), file.as_str()))
    }
}

/// The MCP shim's session: the non-persistent ids registered through it,
/// released when the client goes away.
#[derive(Debug)]
pub struct Session {
    registered: Vec<String>,
}

impl Session {
    /// The ids to release at the end of the session, in registration order.
    pub closed spec fn ids(&self) -> Seq<Seq<char>> {
        views(self.registered@)
    }

    /// A session that registered nothing.
    pub fn new() -> (s: Session)
        ensures
            s.ids() == Seq::<Seq<char>>::empty(),
    {
        let s = Session { registered: Vec::new() };
        proof {
            assert(s.ids() =~= Seq::<Seq<char>>::empty());
        }
        s
    }

    /// Notes a registration. A non-persistent one is released with the
    /// session; a persistent one outlives it, so any earlier claim of the
    /// session on that id is dropped.
    pub fn registered(&mut self, id: &str, persistent: bool)
        ensures
            persistent ==> final(self).ids() == old(self).ids().filter(|x: Seq<char>| x != id@),
            !persistent ==> final(self).ids() == old(self).ids().push(id@),
    {
        if persistent {
            self.unregistered(id);
        } else {
            let ghost before = self.registered@;
            self.registered.push(owned(id));
            proof {
                assert(views(self.registered@) =~= views(before).push(id@));
            }
        }
    }

    /// Notes that `id` was unregistered.
    pub fn unregistered(&mut self, id: &str)
        ensures
            final(self).ids() == old(self).ids().filter(|x: Seq<char>| x != id@),
    {
        let mut c = ConnCtx { owner: 0, claimed_ids: Vec::new() };
        std::mem::swap(&mut c.claimed_ids, &mut self.registered);
        c.release(id);
        std::mem::swap(&mut c.claimed_ids, &mut self.registered);
    }

    /// Takes the ids still to be released, leaving the session empty.
    pub fn take_registered(&mut self) -> (ids: Vec<String>)
        ensures
            views(ids@) == old(self).ids(),
            final(self).ids() == Seq::<Seq<char>>::empty(),
    {
        let mut ids: Vec<String> = Vec::new();
        std::mem::swap(&mut ids, &mut self.registered);
        proof {
            assert(views(self.registered@) =~= Seq::<Seq<char>>::empty());
        }
        ids
    }
}

/// The query of a blocking ask over HTTP.
#[derive(Debug)]
pub struct AskQuery {
    pub timeout_ms: Option<u64>,
}

/// The body of a registration over HTTP.
#[derive(Debug)]
pub struct RegisterReq {
    pub instance_id: String,
    pub mailbox_size: usize,
}

/// The query of the event stream.
#[derive(Debug)]
pub struct EventsQuery {
    pub since: Option<String>,
    pub instance: Option<String>,
    pub kind: Option<String>,
}

/// The event stream's filters: an instance filter admits exactly the
/// envelopes from or to that instance; a known kind name admits exactly
/// the envelopes of that kind, whatever the instance filter; an unknown
/// kind name admits everything.
pub proof fn lemma_stream_filters(e: Envelope, instance: Option<Seq<char>>, kind: Option<Seq<char>>)
    ensures
        stream_admits(e, instance, kind) <==> {
            &&& (instance is None || e.from@ == instance->0 || (e.to is Some && e.to->0@ == instance->0))
            &&& (kind is None || kind_named(kind->0) is None || kind_named(kind->0) == Some(e.kind))
        },
{
}

/// A known kind name admits only envelopes of that kind, whatever the
/// instance filter.
pub proof fn lemma_kind_filter_selects_kind(e: Envelope, instance: Option<Seq<char>>, k: Seq<char>, w: Kind)
    requires
        kind_named(k) == Some(w),
        stream_admits(e, instance, Some(k)),
    ensures
        e.kind == w,
{
}

} // verus!
