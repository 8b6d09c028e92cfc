//! The canonical wire envelope and its validation rules.

use vstd::prelude::*;
use crate::text::{copy_opt, join3, str_eq};

verus! {

/// The four envelope kinds.
#[derive(Debug, Clone, Copy, PartialEq, Eq, Structural)]
pub enum Kind {
    Message,
    Ask,
    Reply,
    Event,
}

/// One envelope. `ts` is the UTC instant in nanoseconds since the Unix
/// epoch; `payload` is the JSON text of the payload value.
#[derive(Debug)]
pub struct Envelope {
    pub id: String,
    pub kind: Kind,
    pub from: String,
    pub to: Option<String>,
    pub request_id: Option<String>,
    pub timeout_ms: Option<u64>,
    pub ts: i128,
    pub payload: String,
}

/// Why an envelope is not well formed.
#[derive(Debug, Clone, Copy, PartialEq, Eq, Structural)]
pub enum ValidationError {
    AskMissingTo,
    ReplyMissingFields,
    MessageMissingTo,
    EventHasTo,
    EmptyFrom,
    EmptyId,
}

/// The wire name of a kind.
pub open spec fn kind_name(k: Kind) -> Seq<char> {
    match k {
        Kind::Message => "message"@,
        Kind::Ask => "ask"@,
        Kind::Reply => "reply"@,
        Kind::Event => "event"@,
    }
}

/// The kind whose wire name is `s`, if any.
pub open spec fn kind_named(s: Seq<char>) -> Option<Kind> {
    if s == "message"@ {
        Some(Kind::Message)
    } else if s == "ask"@ {
        Some(Kind::Ask)
    } else if s == "reply"@ {
        Some(Kind::Reply)
    } else if s == "event"@ {
        Some(Kind::Event)
    } else {
        None
    }
}

/// The first rule an envelope breaks, checked in the order: id, from, then
/// the addressing rule of its kind.
pub open spec fn first_violation(e: Envelope) -> Option<ValidationError> {
    if e.id@.len() == 0 {
        Some(ValidationError::EmptyId)
    } else if e.from@.len() == 0 {
        Some(ValidationError::EmptyFrom)
    } else {
        match e.kind {
            Kind::Ask => if e.to is None { Some(ValidationError::AskMissingTo) } else { None },
            Kind::Reply => if e.to is None || e.request_id is None {
                Some(ValidationError::ReplyMissingFields)
            } else {
                None
            },
            Kind::Message => if e.to is None { Some(ValidationError::MessageMissingTo) } else { None },
            Kind::Event => if e.to is Some { Some(ValidationError::EventHasTo) } else { None },
        }
    }
}

/// What `validate` returns for `e`.
pub open spec fn validation_outcome(e: Envelope) -> Result<(), ValidationError> {
    match first_violation(e) {
        Some(v) => Err(v),
        None => Ok(()),
    }
}

impl Kind {
    /// The wire name of this kind.
    pub fn as_str(&self) -> (r: &'static str)
        ensures
            r@ == kind_name(*self),
    {
        match self {
            Kind::Message => "message",
            Kind::Ask => "ask",
            Kind::Reply => "reply",
            Kind::Event => "event",
        }
    }

    /// Parses a wire name; `None` for anything but the four names.
    pub fn parse(s: &str) -> (r: Option<Kind>)
        ensures
            r == kind_named(s@),
    {
        if str_eq(s, "message") {
            Some(Kind::Message)
        } else if str_eq(s, "ask") {
            Some(Kind::Ask)
        } else if str_eq(s, "reply") {
            Some(Kind::Reply)
        } else if str_eq(s, "event") {
            Some(Kind::Event)
        } else {
            None
        }
    }
}

/// The message that refuses `s` as a kind name.
pub open spec fn unknown_kind_message(s: Seq<char>) -> Seq<char> {
    "unknown kind `"@ + s + "`"@
}

/// What parsing `s` as a kind gives: the kind, or the refusal message.
pub open spec fn kind_parse_outcome(s: Seq<char>) -> Result<Kind, Seq<char>> {
    match kind_named(s) {
        Some(k) => Ok(k),
        None => Err(unknown_kind_message(s)),
    }
}

impl Kind {
    /// Parses a wire name; anything but the four names is refused with
    /// ``unknown kind `<s>` ``.
    pub fn from_text(s: &str) -> (r: Result<Kind, String>)
        ensures
            r matches Ok(k) ==> kind_parse_outcome(s@) == Ok::<Kind, Seq<char>>(k),
            r matches Err(m) ==> kind_parse_outcome(s@) == Err::<Kind, Seq<char>>(m@),
    {
        match Kind::parse(s) {
            Some(k) => Ok(k),
            None => Err(join3("unknown kind `", s, "`")),
        }
    }
}

impl std::str::FromStr for Kind {
    type Err = String;

    fn from_str(s: &str) -> (r: Result<Kind, String>)
        ensures
            r matches Ok(k) ==> kind_parse_outcome(s@) == Ok::<Kind, Seq<char>>(k),
            r matches Err(m) ==> kind_parse_outcome(s@) == Err::<Kind, Seq<char>>(m@),
    {
        Kind::from_text(s)
    }
}

/// Parsing a kind's wire name gives that kind back.
pub proof fn lemma_kind_name_roundtrip(k: Kind)
    ensures
        kind_named(kind_name(k)) == Some(k),
{
    reveal_strlit("message");
    reveal_strlit("ask");
    reveal_strlit("reply");
    reveal_strlit("event");
    // The four names already differ in their first character.
    assert("message"@[0] == 'm');
    assert("ask"@[0] == 'a');
    assert("reply"@[0] == 'r');
    assert("event"@[0] == 'e');
}

impl Envelope {
    /// A field-by-field copy.
    pub fn duplicate(&self) -> (r: Envelope)
        ensures
            r == *self,
    {
        Envelope {
            id: self.id.clone(),
            kind: self.kind,
            from: self.from.clone(),
            to: copy_opt(&self.to),
            request_id: copy_opt(&self.request_id),
            timeout_ms: self.timeout_ms,
            ts: self.ts,
            payload: self.payload.clone(),
        }
    }

    /// Checks the envelope rules; `Err` names the first rule broken.
    pub fn validate(&self) -> (r: Result<(), ValidationError>)
        ensures
            r == validation_outcome(*self),
    {
        if self.id.as_str().is_empty() {
            return Err(ValidationError::EmptyId);
        }
        if self.from.as_str().is_empty() {
            return Err(ValidationError::EmptyFrom);
        }
        match self.kind {
            Kind::Ask => {
                if self.to.is_none() {
                    return Err(ValidationError::AskMissingTo);
                }
            },
            Kind::Reply => {
                if self.to.is_none() || self.request_id.is_none() {
                    return Err(ValidationError::ReplyMissingFields);
                }
            },
            Kind::Message => {
                if self.to.is_none() {
                    return Err(ValidationError::MessageMissingTo);
                }
            },
            Kind::Event => {
                if self.to.is_some() {
                    return Err(ValidationError::EventHasTo);
                }
            },
        }
        Ok(())
    }
}

} // verus!
