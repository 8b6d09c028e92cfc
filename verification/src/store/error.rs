//! The store's error model: each error has a stable wire code and a message
//! that carries a recovery hint.

use vstd::prelude::*;
use crate::envelope::ValidationError;
use crate::text::{join2, join3, owned};

verus! {

/// What went wrong in a store operation.
#[derive(Debug)]
pub enum StoreError {
    UnknownInstance(String),
    InstanceIdTaken(String),
    InvalidInstanceId,
    Timeout(String),
    UnknownRequestId(String),
    StoreLocked,
    InvalidEnvelope(ValidationError),
    /// An I/O failure, with the operating system's message.
    Io(String),
    /// Any other SQLite failure, with SQLite's message.
    Sqlite(String),
}

/// How SQLite reported a failure: the database was busy, locked, or
/// something else went wrong.
#[derive(Debug, Clone, Copy, PartialEq, Eq, Structural)]
pub enum SqliteFault {
    Busy,
    Locked,
    Other,
}

/// The stable wire code of an error.
pub open spec fn error_code(e: StoreError) -> Seq<char> {
    match e {
        StoreError::UnknownInstance(_) => "unknown_instance"@,
        StoreError::InstanceIdTaken(_) => "instance_id_taken"@,
        StoreError::InvalidInstanceId => "invalid_instance_id"@,
        StoreError::Timeout(_) => "timeout"@,
        StoreError::UnknownRequestId(_) => "unknown_request_id"@,
        StoreError::StoreLocked => "store_locked"@,
        StoreError::InvalidEnvelope(_) => "invalid_envelope"@,
        StoreError::Io(_) => "io"@,
        StoreError::Sqlite(_) => "sqlite"@,
    }
}

/// The message of a validation error.
pub open spec fn validation_text(v: ValidationError) -> Seq<char> {
    match v {
        ValidationError::AskMissingTo => "ask envelopes require `to`"@,
        ValidationError::ReplyMissingFields => "reply envelopes require `to` and `request_id`"@,
        ValidationError::MessageMissingTo => "message envelopes require `to`"@,
        ValidationError::EventHasTo => "event envelopes must not have `to`"@,
        ValidationError::EmptyFrom => "`from` is empty"@,
        ValidationError::EmptyId => "`id` is empty"@,
    }
}

/// The message of a store error.
pub open spec fn error_text(e: StoreError) -> Seq<char> {
    match e {
        StoreError::UnknownInstance(s) => "unknown instance `"@ + s@
            + "` (recipients must register first; check list_instances / `agentbus ls`)"@,
        StoreError::InstanceIdTaken(s) => "instance_id `"@ + s@
            + "` is registered to another live process (pick a different id; dead owners are replaced automatically)"@,
        StoreError::InvalidInstanceId => "invalid instance_id (must match [A-Za-z0-9_.:-]{1,128})"@,
        StoreError::Timeout(s) => "ask `"@ + s@ + "` timed out (a late reply stays retrievable via ask-result)"@,
        StoreError::UnknownRequestId(s) => "unknown request_id `"@ + s@
            + "` (the request_id must be the ask envelope's id; plain `message` envelopes take no reply)"@,
        StoreError::StoreLocked => "store locked: busy_timeout exhausted (transient write contention; retry after a short wait)"@,
        StoreError::InvalidEnvelope(v) => "invalid envelope: "@ + validation_text(v),
        StoreError::Io(s) => "io: "@ + s@,
        StoreError::Sqlite(s) => "sqlite: "@ + s@,
    }
}

impl ValidationError {
    /// The error's message.
    pub fn message(&self) -> (s: String)
        ensures
            s@ == validation_text(*self),
    {
        match self {
            ValidationError::AskMissingTo => owned("ask envelopes require `to`"),
            ValidationError::ReplyMissingFields => owned("reply envelopes require `to` and `request_id`"),
            ValidationError::MessageMissingTo => owned("message envelopes require `to`"),
            ValidationError::EventHasTo => owned("event envelopes must not have `to`"),
            ValidationError::EmptyFrom => owned("`from` is empty"),
            ValidationError::EmptyId => owned("`id` is empty"),
        }
    }
}

impl StoreError {
    /// The stable wire identifier of this error.
    pub fn code(&self) -> (c: &'static str)
        ensures
            c@ == error_code(*self),
    {
        match self {
            StoreError::UnknownInstance(_) => "unknown_instance",
            StoreError::InstanceIdTaken(_) => "instance_id_taken",
            StoreError::InvalidInstanceId => "invalid_instance_id",
            StoreError::Timeout(_) => "timeout",
            StoreError::UnknownRequestId(_) => "unknown_request_id",
            StoreError::StoreLocked => "store_locked",
            StoreError::InvalidEnvelope(_) => "invalid_envelope",
            StoreError::Io(_) => "io",
            StoreError::Sqlite(_) => "sqlite",
        }
    }

    /// The error's message, with its recovery hint.
    pub fn message(&self) -> (s: String)
        ensures
            s@ == error_text(*self),
    {
        match self {
            StoreError::UnknownInstance(x) => join3(
                "unknown instance `",
                x.as_str(),
                "` (recipients must register first; check list_instances / `agentbus ls`)",
            ),
            StoreError::InstanceIdTaken(x) => join3(
                "instance_id `",
                x.as_str(),
                "` is registered to another live process (pick a different id; dead owners are replaced automatically)",
            ),
            StoreError::InvalidInstanceId => owned("invalid instance_id (must match [A-Za-z0-9_.:-]{1,128})"),
            StoreError::Timeout(x) => join3(
                "ask `",
                x.as_str(),
                "` timed out (a late reply stays retrievable via ask-result)",
            ),
            StoreError::UnknownRequestId(x) => join3(
                "unknown request_id `",
                x.as_str(),
                "` (the request_id must be the ask envelope's id; plain `message` envelopes take no reply)",
            ),
            StoreError::StoreLocked => owned(
                "store locked: busy_timeout exhausted (transient write contention; retry after a short wait)",
            ),
            StoreError::InvalidEnvelope(v) => {
                let m = v.message();
                join2("invalid envelope: ", m.as_str())
            },
            StoreError::Io(x) => join2("io: ", x.as_str()),
            StoreError::Sqlite(x) => join2("sqlite: ", x.as_str()),
        }
    }

    /// The store error for a SQLite failure: a busy or locked database is
    /// `StoreLocked`, anything else `Sqlite` with SQLite's message.
    pub fn from_sqlite(fault: SqliteFault, detail: String) -> (e: StoreError)
        ensures
            fault != SqliteFault::Other ==> e is StoreLocked,
            fault == SqliteFault::Other ==> (e matches StoreError::Sqlite(d) && d@ == detail@),
    {
        match fault {
            SqliteFault::Busy | SqliteFault::Locked => StoreError::StoreLocked,
            SqliteFault::Other => StoreError::Sqlite(detail),
        }
    }
}

impl From<ValidationError> for StoreError {
    fn from(v: ValidationError) -> (e: StoreError) {
        StoreError::InvalidEnvelope(v)
    }
}

impl vstd::std_specs::convert::FromSpecImpl<ValidationError> for StoreError {
    open spec fn obeys_from_spec() -> bool {
        true
    }

    open spec fn from_spec(v: ValidationError) -> StoreError {
        StoreError::InvalidEnvelope(v)
    }
}

} // verus!
