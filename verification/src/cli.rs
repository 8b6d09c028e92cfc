//! Decisions of the command-line front end that do not touch the terminal.

use vstd::prelude::*;
use crate::envelope::{kind_parse_outcome, Kind};
use crate::store::events::EventsPage;
use crate::store::sweep::SweepOpts;

verus! {

/// The command line: the store directory, when given, and the command.
#[derive(Debug)]
pub struct Cli {
    pub dir: Option<String>,
    pub cmd: Cmd,
}

/// The commands of the command-line front end.
#[derive(Debug)]
pub enum Cmd {
    Register { id: String, persistent: bool, on_delivery: Option<String> },
    Unregister { id: String },
    Ls,
    Send { to: String, from: String, file: Option<String> },
    Ask { to: String, from: String, timeout_ms: u64, file: Option<String> },
    AskResult { request_id: String },
    Reply { request_id: String, from: String, file: Option<String> },
    CheckInbox { id: String },
    Await { id: String, timeout_ms: u64 },
    Publish { from: String, file: Option<String> },
    Events { follow: bool, since: i64, instance: Option<String>, kind: Option<String>, interval_ms: u64 },
    Watch { id: String, interval_ms: u64 },
    Sweep { purge_orphans: bool, grace_secs: u64 },
}

/// What `parse_kind` gives for an optional `--kind` argument.
pub open spec fn kind_argument(arg: Option<Seq<char>>) -> Result<Option<Kind>, Seq<char>> {
    match arg {
        None => Ok(None),
        Some(s) => match kind_parse_outcome(s) {
            Ok(k) => Ok(Some(k)),
            Err(m) => Err(m),
        },
    }
}

/// Parses the optional `--kind` filter of `events`: absent means no
/// filter, a known name gives its kind, anything else is refused.
pub fn parse_kind(kind: Option<&str>) -> (r: Result<Option<Kind>, String>)
    ensures
        r matches Ok(k) ==> kind_argument(opt_view(kind)) == Ok::<Option<Kind>, Seq<char>>(k),
        r matches Err(m) ==> kind_argument(opt_view(kind)) == Err::<Option<Kind>, Seq<char>>(m@),
{
    match kind {
        None => Ok(None),
        Some(s) => match Kind::from_text(s) {
            Ok(k) => Ok(Some(k)),
            Err(m) => Err(m),
        },
    }
}

/// The characters of an optional string slice.
pub open spec fn opt_view(o: Option<&str>) -> Option<Seq<char>> {
    match o {
        Some(s) => Some(s@),
        None => None,
    }
}

/// One step of draining the event log: where the next read starts, and
/// whether the log is drained (the page was empty and the cursor stood).
pub fn stream_step(cursor: i64, page: &EventsPage) -> (r: (i64, bool))
    ensures
        r.0 == page.cursor,
        r.1 == (page.events@.len() == 0 && page.cursor == cursor),
{
    let drained = page.events.len() == 0 && page.cursor == cursor;
    (page.cursor, drained)
}

/// The sweep options of `sweep --grace-secs`: the grace in milliseconds,
/// saturating.
pub fn sweep_opts(purge_orphans: bool, grace_secs: u64) -> (o: SweepOpts)
    ensures
        o.purge_orphans == purge_orphans,
        o.grace_ms == if grace_secs * 1000 <= u64::MAX { (grace_secs * 1000) as u64 } else { u64::MAX },
{
    let grace_ms = match grace_secs.checked_mul(1000) {
        Some(ms) => ms,
        None => u64::MAX,
    };
    SweepOpts { grace_ms, purge_orphans }
}

} // verus!
