//! Crash recovery decisions: dead registrations, expired asks, inboxes
//! whose hook must fire again, and orphaned inbox files.

use vstd::prelude::*;
use vstd::string::StrSliceExecFns;
use crate::ids::{parse_rfc3339, rfc3339_instant};
use crate::order::views;
use crate::store::liveness::{pid_alive, KillProbe};
use crate::text::{join3, json_string, json_string_text, owned, str_eq};

verus! {

/// Options of a sweep.
#[derive(Debug, Clone, Copy, PartialEq, Eq, Structural)]
pub struct SweepOpts {
    /// How long, in milliseconds, an inbox must sit non-empty and
    /// unmodified before its on_delivery hook is fired again.
    pub grace_ms: u64,
    pub purge_orphans: bool,
}

/// What a sweep did.
#[derive(Debug)]
pub struct SweepReport {
    pub dead_instances: Vec<String>,
    pub rehooked: Vec<String>,
    pub expired_asks: Vec<String>,
    pub purged_inboxes: Vec<String>,
}

impl Default for SweepOpts {
    fn default() -> (o: SweepOpts)
        ensures
            o.grace_ms == 60000 && !o.purge_orphans,
    {
        SweepOpts { grace_ms: 60000, purge_orphans: false }
    }
}

impl SweepReport {
    /// A report of a sweep that did nothing.
    pub fn empty() -> (r: SweepReport)
        ensures
            r.dead_instances@.len() == 0 && r.rehooked@.len() == 0 && r.expired_asks@.len() == 0
                && r.purged_inboxes@.len() == 0,
    {
        SweepReport {
            dead_instances: Vec::new(),
            rehooked: Vec::new(),
            expired_asks: Vec::new(),
            purged_inboxes: Vec::new(),
        }
    }
}

/// A non-persistent registration, its pid, and what probing that pid
/// reported (`None` when it has no pid).
#[derive(Debug)]
pub struct PidRow {
    pub id: String,
    pub pid: Option<i32>,
    pub probe: Option<KillProbe>,
}

/// A non-persistent row is dead unless it has a pid that is alive.
pub open spec fn row_dead(r: PidRow) -> bool {
    match (r.pid, r.probe) {
        (Some(p), Some(k)) => !(0 < p && k != KillProbe::Failed),
        _ => true,
    }
}

/// The dead rows among `rows`, in order.
pub fn select_dead(rows: Vec<PidRow>) -> (dead: Vec<PidRow>)
    ensures
        dead@ == rows@.filter(|r: PidRow| row_dead(r)),
{
    let ghost all = rows@;
    let ghost pred = |r: PidRow| row_dead(r);
    let mut rows = rows;
    let mut dead: Vec<PidRow> = Vec::new();
    let mut n: usize = 0;
    let total = rows.len();
    while rows.len() > 0
        invariant
            all.len() == total,
            pred == (|r: PidRow| row_dead(r)),
            n + rows@.len() == total,
            rows@ == all.skip(n as int),
            dead@ == all.take(n as int).filter(pred),
        decreases rows@.len(),
    {
        let r = rows.remove(0);
        let ghost gr = r;
        proof {
            assert(all.take(n + 1) =~= all.take(n as int).push(gr));
            assert(all.take(n as int).push(gr).filter(pred) == if pred(gr) {
                all.take(n as int).filter(pred).push(gr)
            } else {
                all.take(n as int).filter(pred)
            }) by {
                reveal_with_fuel(Seq::<_>::filter, 1);
                assert(all.take(n as int).push(gr).drop_last() =~= all.take(n as int));
            }
            assert(rows@ =~= all.skip(n + 1));
        }
        let alive = match (r.pid, r.probe) {
            (Some(p), Some(k)) => pid_alive(p, k),
            _ => false,
        };
        let ghost prev = dead@;
        if !alive {
            dead.push(r);
        }
        proof {
            assert(pred(gr) == !alive);
        }
        n = n + 1;
    }
    proof {
        assert(all.take(n as int) =~= all);
    }
    dead
}

/// An unanswered ask whose expiry text names an instant at or before
/// `now` has expired; unreadable expiry text never expires.
pub open spec fn expiry_passed(expires_at: Seq<char>, now: i128) -> bool {
    match rfc3339_instant(expires_at) {
        Some(t) => t <= now,
        None => false,
    }
}

/// Whether an ask that expires at `expires_at` (RFC 3339) has expired at
/// `now` (nanoseconds since the Unix epoch).
pub fn ask_expired(expires_at: &str, now: i128) -> (r: bool)
    ensures
        r == expiry_passed(expires_at@, now),
{
    match parse_rfc3339(expires_at) {
        Ok(t) => expiry_reached(Some(t), now),
        Err(_) => expiry_reached(None, now),
    }
}

/// Whether an expiry instant, when it could be read, is at or before
/// `now`; an unreadable one never expires.
pub fn expiry_reached(expires_at: Option<i128>, now: i128) -> (r: bool)
    ensures
        r == match expires_at {
            Some(t) => t <= now,
            None => false,
        },
{
    match expires_at {
        Some(t) => t <= now,
        None => false,
    }
}

/// Whether an inbox must have its hook fired again: it is non-empty and
/// has gone unmodified for at least the grace period (an unknown age
/// never qualifies).
pub fn inbox_stale(len: u64, age_ms: Option<u128>, grace_ms: u64) -> (r: bool)
    ensures
        r == (0 < len && (age_ms matches Some(a) && grace_ms as u128 <= a)),
{
    if len == 0 {
        return false;
    }
    match age_ms {
        Some(a) => (grace_ms as u128) <= a,
        None => false,
    }
}

/// The instance whose spool a file of the inbox directory is, if its
/// name is `<id>.jsonl`.
pub open spec fn spool_owner(name: Seq<char>) -> Option<Seq<char>> {
    if name.len() >= 6 && name.subrange(name.len() - 6, name.len() as int) == ".jsonl"@ {
        Some(name.subrange(0, name.len() - 6))
    } else {
        None
    }
}

/// The id whose spool file `name` is, when no registered instance (of
/// `known`) owns it; `None` for registered ids and for other files.
pub fn orphan_inbox(name: &str, known: &Vec<String>) -> (r: Option<String>)
    ensures
        match spool_owner(name@) {
            Some(id) => if views(known@).contains(id) { r is None } else { r matches Some(x) && x@ == id },
            None => r is None,
        },
{
    let n = name.unicode_len();
    if n < 6 {
        return None;
    }
    let tail = name.substring_char(n - 6, n);
    proof {
        assert(tail@ == name@.subrange(name@.len() - 6, name@.len() as int));
    }
    if !str_eq(tail, ".jsonl") {
        proof {
            assert(spool_owner(name@) is None);
        }
        return None;
    }
    let id = name.substring_char(0, n - 6);
    proof {
        assert(spool_owner(name@) == Some(id@));
    }
    let mut i: usize = 0;
    while i < known.len()
        invariant
            spool_owner(name@) == Some(id@),
            0 <= i <= known@.len(),
            forall|j: int| 0 <= j < i ==> known@[j]@ != id@,
        decreases known@.len() - i,
    {
        if str_eq(known[i].as_str(), id) {
            proof {
                assert(views(known@)[i as int] == id@);
            }
            return None;
        }
        i = i + 1;
    }
    proof {
        if views(known@).contains(id@) {
            let j = choose|j: int| 0 <= j < views(known@).len() && views(known@)[j] == id@;
            assert(known@[j]@ == id@);
        }
    }
    Some(owned(id))
}

/// The `bus.ask_expired` payload around the JSON text of a request id.
pub open spec fn ask_expired_json_text(request_id_json: Seq<char>) -> Seq<char> {
    "{\"event\":\"bus.ask_expired\",\"request_id\":"@ + request_id_json + "}"@
}

/// The payload of the `bus.ask_expired` event for the ask `request_id`.
pub open spec fn ask_expired_text(request_id: Seq<char>) -> Seq<char> {
    ask_expired_json_text(json_string_text(request_id))
}

/// Builds the `bus.ask_expired` payload from the request id already
/// written as a JSON string.
pub fn ask_expired_json(request_id_json: &str) -> (p: String)
    ensures
        p@ == ask_expired_json_text(request_id_json@),
{
    join3("{\"event\":\"bus.ask_expired\",\"request_id\":", request_id_json, "}")
}

/// The event payload that reports the ask `request_id` as expired.
pub fn ask_expired_payload(request_id: &str) -> (p: String)
    ensures
        p@ == ask_expired_text(request_id@),
{
    let q = json_string(request_id);
    ask_expired_json(q.as_str())
}

} // verus!
