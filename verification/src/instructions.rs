//! Usage guidance that the MCP shim hands clients at initialize time, when
//! no skill teaches them the bus.

use vstd::prelude::*;
use crate::text::str_eq;

verus! {

/// How much guidance to give.
#[derive(Debug, Clone, Copy, PartialEq, Eq, Structural)]
pub enum Level {
    Off,
    Minimal,
    Full,
}

/// The short guidance.
pub const MINIMAL: &'static str = "agentbus message bus. register(instance_id) first; send/ask to talk; check_inbox or await_message to receive (batch; empty = timeout). Answer an inbound ask with reply(request_id = the ask envelope's id; omit `to`). Never ask your own id (deadlock).";

/// The full guidance.
pub const FULL: &'static str = "agentbus is a daemonless message bus over a shared local store (~/.agentbus). Envelope kinds: message (one-way), ask (blocks for a reply), reply (resolves an ask), event (broadcast log).\n\nQuickstart:\n1. register(instance_id) first. Only recipients need registration; any `from` string may send.\n2. send / ask / publish_event to talk. check_inbox (non-blocking) or await_message (blocking) to receive; both return {\"envelopes\": [...]}. An empty await_message batch means timeout — a normal outcome, not an error.\n3. To answer an inbound ask: reply(from=<you>, request_id=<the ask envelope's id>, payload=...). Do not set `to`; the store routes it.\n\nRules:\n- Never ask your own instance_id: you would block waiting for a reply only you could write (deadlock).\n- payload is structured JSON (object/array/number), not a stringified blob.\n- An ask timeout does not discard the request; the error data carries the request_id and a late reply stays retrievable (CLI: agentbus ask-result <request_id>).\n- Registrations default to dying with this session; persistent=true survives until unregister.\n- Errors arrive as {\"message\": <stable code>, \"data\": <detail with a recovery hint>}.";

/// The level a name selects: `none`, `minimal` or `full`, exactly.
pub open spec fn level_named(s: Seq<char>) -> Option<Level> {
    if s == "none"@ {
        Some(Level::Off)
    } else if s == "minimal"@ {
        Some(Level::Minimal)
    } else if s == "full"@ {
        Some(Level::Full)
    } else {
        None
    }
}

impl Level {
    /// Parses a level name; anything but the three names is `None`.
    pub fn parse(s: &str) -> (r: Option<Level>)
        ensures
            r == level_named(s@),
    {
        if str_eq(s, "none") {
            Some(Level::Off)
        } else if str_eq(s, "minimal") {
            Some(Level::Minimal)
        } else if str_eq(s, "full") {
            Some(Level::Full)
        } else {
            None
        }
    }
}

/// The guidance text of a level; none for `Level::Off`.
pub fn text(level: Level) -> (r: Option<&'static str>)
    ensures
        match level {
            Level::Off => r is None,
            Level::Minimal => r matches Some(t) && t@ == MINIMAL@,
            Level::Full => r matches Some(t) && t@ == FULL@,
        },
{
    match level {
        Level::Off => None,
        Level::Minimal => Some(MINIMAL),
        Level::Full => Some(FULL),
    }
}

/// Whether `needle` occurs in `s` starting at `at`.
pub open spec fn occurs_at(s: Seq<char>, needle: Seq<char>, at: int) -> bool {
    0 <= at && at + needle.len() <= s.len() && s.subrange(at, at + needle.len()) == needle
}

/// Both texts teach the reply rule: a reply's `request_id` is the ask
/// envelope's id.
pub proof fn lemma_texts_teach_reply_rule()
    ensures
        occurs_at(MINIMAL@, "ask envelope's id"@, 185),
        occurs_at(FULL@, "ask envelope's id"@, 575),
{
    reveal_strlit("ask envelope's id");
    reveal_strlit("agentbus message bus. register(instance_id) first; send/ask to talk; check_inbox or await_message to receive (batch; empty = timeout). Answer an inbound ask with reply(request_id = the ask envelope's id; omit `to`). Never ask your own id (deadlock).");
    reveal_strlit("agentbus is a daemonless message bus over a shared local store (~/.agentbus). Envelope kinds: message (one-way), ask (blocks for a reply), reply (resolves an ask), event (broadcast log).\n\nQuickstart:\n1. register(instance_id) first. Only recipients need registration; any `from` string may send.\n2. send / ask / publish_event to talk. check_inbox (non-blocking) or await_message (blocking) to receive; both return {\"envelopes\": [...]}. An empty await_message batch means timeout — a normal outcome, not an error.\n3. To answer an inbound ask: reply(from=<you>, request_id=<the ask envelope's id>, payload=...). Do not set `to`; the store routes it.\n\nRules:\n- Never ask your own instance_id: you would block waiting for a reply only you could write (deadlock).\n- payload is structured JSON (object/array/number), not a stringified blob.\n- An ask timeout does not discard the request; the error data carries the request_id and a late reply stays retrievable (CLI: agentbus ask-result <request_id>).\n- Registrations default to dying with this session; persistent=true survives until unregister.\n- Errors arrive as {\"message\": <stable code>, \"data\": <detail with a recovery hint>}.");
    assert(MINIMAL@.subrange(185, 202) =~= "ask envelope's id"@);
    assert(FULL@.subrange(575, 592) =~= "ask envelope's id"@);
}

} // verus!
