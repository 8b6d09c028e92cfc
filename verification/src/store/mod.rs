//! The decision logic of the spool store: SQLite holds the registry, asks
//! and the event log, per-instance JSONL files hold the inboxes. What the
//! store reads and writes on disk is done by its caller; what it decides
//! from what was read is here.

pub mod events;
pub mod hook;
pub mod messages;
pub mod spool;
pub mod sweep;
pub mod error;
pub mod paths;
pub mod liveness;
pub mod instances;

use vstd::prelude::*;
use crate::envelope::{first_violation, Envelope, Kind, ValidationError};
use crate::ids::{is_envelope_id, new_envelope_id, now_utc};
use crate::store::error::StoreError;
use crate::text::owned;

verus! {

/// A new envelope of `kind` from `from` to `to` carrying `payload` (JSON
/// text), stamped with a fresh id and the current time.
pub fn new_envelope(kind: Kind, from: &str, to: Option<&str>, payload: String) -> (e: Envelope)
    ensures
        is_envelope_id(e.id@),
        e.kind == kind,
        e.from@ == from@,
        match to {
            Some(t) => e.to matches Some(x) && x@ == t@,
            None => e.to is None,
        },
        e.request_id is None,
        e.timeout_ms is None,
        e.payload == payload,
{
    let id = new_envelope_id();
    let ts = now_utc();
    let to = match to {
        Some(t) => Some(owned(t)),
        None => None,
    };
    Envelope { id, kind, from: owned(from), to, request_id: None, timeout_ms: None, ts, payload }
}

/// Builds and validates a `kind` envelope; an invalid one is refused as
/// `InvalidEnvelope`.
pub fn prepare_envelope(kind: Kind, from: &str, to: Option<&str>, payload: String) -> (r: Result<Envelope, StoreError>)
    ensures
        match r {
            Ok(e) => first_violation(e) is None && e.kind == kind && e.from@ == from@ && is_envelope_id(e.id@)
                && e.payload == payload && match to {
                    Some(t) => e.to matches Some(x) && x@ == t@,
                    None => e.to is None,
                },
            Err(err) => err matches StoreError::InvalidEnvelope(v) && v == if from@.len() == 0 {
                ValidationError::EmptyFrom
            } else {
                match kind {
                    Kind::Message => ValidationError::MessageMissingTo,
                    Kind::Ask => ValidationError::AskMissingTo,
                    Kind::Reply => ValidationError::ReplyMissingFields,
                    Kind::Event => ValidationError::EventHasTo,
                }
            },
        },
        r is Ok <==> (from@.len() > 0 && match kind {
            Kind::Message | Kind::Ask => to is Some,
            Kind::Reply => false,
            Kind::Event => to is None,
        }),
{
    let e = new_envelope(kind, from, to, payload);
    proof {
        assert(e.id@.len() == 30);
    }
    match e.validate() {
        Ok(()) => Ok(e),
        Err(v) => Err(StoreError::InvalidEnvelope(v)),
    }
}

} // verus!
