//! The append-only JSONL event log: the size limit on appended lines, and
//! replay of the envelopes logged up to a snapshot offset.

use vstd::prelude::*;
use crate::envelope::Envelope;
use crate::lines::{split_lines, text_lines, byte_views, LineMode};
use crate::text::{join3, decimal, decimal_text, join2};

verus! {

/// Why an event-log operation failed.
#[derive(Debug)]
pub enum LogError {
    /// An I/O failure, with the operating system's message.
    Io(String),
    /// The serialized envelope exceeded the payload limit plus 4096 bytes
    /// of envelope overhead.
    PayloadTooLarge { max: usize },
}

/// Whether a serialized envelope of `line_len` bytes fits a log whose
/// payload limit is `max_payload`.
pub open spec fn line_fits(max_payload: usize, line_len: usize) -> bool {
    line_len <= max_payload + 4096
}

/// Checks the size of a serialized envelope before it is appended.
pub fn check_line_size(max_payload: usize, line_len: usize) -> (r: Result<(), LogError>)
    ensures
        r is Ok <==> line_fits(max_payload, line_len),
        r matches Err(e) ==> (e matches LogError::PayloadTooLarge { max } && max == max_payload),
{
    if (max_payload as u128) + 4096 < line_len as u128 {
        Err(LogError::PayloadTooLarge { max: max_payload })
    } else {
        Ok(())
    }
}

/// The lines a replay reads: the non-empty lines of the first
/// `min(until_offset, len)` bytes, trailing `\r` trimmed.
pub open spec fn replay_text(content: Seq<u8>, until_offset: u64) -> Seq<Seq<u8>> {
    let cap = if until_offset < content.len() { until_offset as int } else { content.len() as int };
    text_lines(LineMode::Replay, content.subrange(0, cap))
}

/// The lines of a log file that a replay up to `until_offset` reads.
pub fn replay_lines(content: &[u8], until_offset: u64) -> (lines: Vec<Vec<u8>>)
    ensures
        byte_views(lines@) == replay_text(content@, until_offset),
{
    let cap: usize = if (until_offset as u128) < content.len() as u128 {
        until_offset as usize
    } else {
        content.len()
    };
    let prefix = &content[0..cap];
    split_lines(LineMode::Replay, prefix)
}

/// Whether an envelope was logged at or after `s`.
pub open spec fn at_or_after(s: i128) -> spec_fn(Envelope) -> bool {
    |e: Envelope| s <= e.ts
}

/// The envelopes of `envs` logged at or after `since`, in log order.
pub open spec fn since_filter(envs: Seq<Envelope>, since: Option<i128>) -> Seq<Envelope> {
    match since {
        None => envs,
        Some(s) => envs.filter(at_or_after(s)),
    }
}

/// Keeps the envelopes at or after `since`; all of them when `since` is
/// `None`.
pub fn replay_since(envs: Vec<Envelope>, since: Option<i128>) -> (out: Vec<Envelope>)
    ensures
        out@ == since_filter(envs@, since),
{
    match since {
        None => envs,
        Some(s) => {
            let ghost all = envs@;
            let mut envs = envs;
            let mut out: Vec<Envelope> = Vec::new();
            let mut n: usize = 0;
            let total = envs.len();
            while envs.len() > 0
                invariant
                    all.len() == total,
                    n + envs@.len() == total,
                    envs@ == all.skip(n as int),
                    out@ == all.take(n as int).filter(at_or_after(s)),
                decreases envs@.len(),
            {
                let e = envs.remove(0);
                proof {
                    assert(all.take(n + 1) =~= all.take(n as int).push(e));
                    assert(all.take(n as int).push(e).filter(at_or_after(s)) == if at_or_after(s)(e) {
                        all.take(n as int).filter(at_or_after(s)).push(e)
                    } else {
                        all.take(n as int).filter(at_or_after(s))
                    }) by {
                        reveal_with_fuel(Seq::<_>::filter, 1);
                        assert(all.take(n as int).push(e).drop_last() =~= all.take(n as int));
                    }
                    assert(envs@ =~= all.skip(n + 1));
                }
                let ghost prev = out@;
                let ghost ge = e;
                if s <= e.ts {
                    out.push(e);
                }
                proof {
                    assert(at_or_after(s)(ge) == (s <= ge.ts));
                    if s <= ge.ts {
                        assert(out@ == prev.push(ge));
                    } else {
                        assert(out@ == prev);
                    }
                }
                n = n + 1;
            }
            proof {
                assert(all.take(n as int) =~= all);
            }
            out
        },
    }
}

impl LogError {
    /// The error's message.
    pub fn message(&self) -> (s: String)
        ensures
            match *self {
                LogError::Io(m) => s@ == "io: "@ + m@,
                LogError::PayloadTooLarge { max } => s@ == "payload exceeds max size "@ + decimal_text(
                    max as nat,
                ) + " bytes"@,
            },
    {
        match self {
            LogError::Io(m) => join2("io: ", m.as_str()),
            LogError::PayloadTooLarge { max } => {
                let d = decimal(*max as u64);
                join3("payload exceeds max size ", d.as_str(), " bytes")
            },
        }
    }
}

} // verus!
