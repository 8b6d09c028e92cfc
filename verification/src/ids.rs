//! Envelope identifiers (`msg_` + ULID) and RFC 3339 instants.

use vstd::prelude::*;
use crate::text::join2;

verus! {

/// A character of the Crockford base-32 alphabet in which ULIDs are written.
pub open spec fn is_crockford_char(c: char) -> bool {
    ('0' <= c <= '9') || ('A' <= c <= 'H') || c == 'J' || c == 'K' || c == 'M' || c == 'N'
        || ('P' <= c <= 'T') || ('V' <= c <= 'Z')
}

/// The shape of every envelope id this library mints: `msg_` and 26
/// Crockford base-32 characters.
pub open spec fn is_envelope_id(s: Seq<char>) -> bool {
    &&& s.len() == 30
    &&& s.subrange(0, 4) == "msg_"@
    &&& forall|i: int| 4 <= i < 30 ==> is_crockford_char(#[trigger] s[i])
}

/// The instant that RFC 3339 text denotes, in nanoseconds since the Unix
/// epoch, or `None` when the text is not RFC 3339.
pub uninterp spec fn rfc3339_instant(text: Seq<char>) -> Option<int>;

#[verifier::external_type_specification]
#[verifier::external_body]
pub struct ExTimeParseError(time::error::Parse);

/// Text that is not an RFC 3339 timestamp.
#[derive(Debug, Clone, Copy, PartialEq, Eq, Structural)]
pub struct TimestampError;

/// `ulid::Ulid::new()` written out by its `to_string`: the crate encodes the
/// 128-bit value as exactly 26 characters of the Crockford alphabet
/// `0123456789ABCDEFGHJKMNPQRSTVWXYZ`. Which characters come out depends on
/// the clock and a random source, so nothing more is claimed.
#[verifier::external_body]
fn fresh_ulid_text() -> (s: String)
    ensures
        s@.len() == 26,
        forall|i: int| 0 <= i < 26 ==> is_crockford_char(#[trigger] s@[i]),
{
    ulid::Ulid::new().to_string()
}

/// `time::OffsetDateTime::now_utc()` as nanoseconds since the Unix epoch
/// (`unix_timestamp_nanos`). The value is the machine's clock: nothing is
/// claimed of it.
#[verifier::external_body]
pub fn now_utc() -> (t: i128) {
    time::OffsetDateTime::now_utc().unix_timestamp_nanos()
}

/// `time::OffsetDateTime::parse` with the `Rfc3339` description, the
/// result taken as `unix_timestamp_nanos`. Claimed: the result is the
/// instant `rfc3339_instant` names for the text, and the call fails exactly
/// when that name is `None`.
#[verifier::external_body]
fn parse_rfc3339_nanos(s: &str) -> (r: Result<i128, time::error::Parse>)
    ensures
        match r {
            Ok(n) => rfc3339_instant(s@) == Some(n as int),
            Err(_) => rfc3339_instant(s@) is None,
        },
{
    match time::OffsetDateTime::parse(s, &time::format_description::well_known::Rfc3339) {
        Ok(t) => Ok(t.unix_timestamp_nanos()),
        Err(e) => Err(e),
    }
}

/// A fresh envelope id: `msg_` followed by a new ULID.
pub fn new_envelope_id() -> (id: String)
    ensures
        is_envelope_id(id@),
{
    let u = fresh_ulid_text();
    let id = join2("msg_", u.as_str());
    proof {
        reveal_strlit("msg_");
        assert(id@.subrange(0, 4) =~= "msg_"@);
        assert forall|i: int| 4 <= i < 30 implies is_crockford_char(#[trigger] id@[i]) by {
            assert(id@[i] == u@[i - 4]);
        }
    }
    id
}

/// Parses RFC 3339 text into nanoseconds since the Unix epoch.
pub fn parse_rfc3339(s: &str) -> (r: Result<i128, TimestampError>)
    ensures
        match r {
            Ok(n) => rfc3339_instant(s@) == Some(n as int),
            Err(_) => rfc3339_instant(s@) is None,
        },
{
    match parse_rfc3339_nanos(s) {
        Ok(n) => Ok(n),
        Err(_) => Err(TimestampError),
    }
}

} // verus!
