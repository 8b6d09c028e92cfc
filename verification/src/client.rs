//! The JSON-RPC client the MCP shim uses to reach the daemon over its Unix
//! socket: the request line it writes, how it reads a response line, and
//! the backoff of its connection attempts.

use vstd::prelude::*;
use crate::text::{decimal, decimal_text, join2, join3, json_string, json_string_text, owned};

verus! {

/// How a call to the daemon failed.
#[derive(Debug)]
pub enum ClientError {
    /// The daemon could not be reached, or the connection broke.
    Unavailable(String),
    /// The daemon answered with an error object; `data` is its JSON text.
    Rpc { code: i64, message: String, data: Option<String> },
    /// A socket operation failed, with the system's message.
    Io(String),
    /// The response line is not JSON, with `serde_json`'s account of why.
    Decode(String),
}

/// The parts of a response's `error` object that the client reads: `code`
/// when an integer, `message` when a string, and the JSON text of `data`.
#[derive(Debug)]
pub struct ErrorParts {
    pub code: Option<i64>,
    pub message: Option<String>,
    pub data: Option<String>,
}

/// The parts of a JSON response the client reads: its `error` member, and
/// the JSON text of its `result` member.
#[derive(Debug)]
pub struct ResponseParts {
    pub error: Option<ErrorParts>,
    pub result: Option<String>,
}

/// What `serde_json` reads of a response line: when the line is not JSON,
/// the text of its error; otherwise the `error` member's code, message and
/// data text, and the `result` member's text.
pub uninterp spec fn response_parts(line: Seq<char>) -> Result<
    (Option<(Option<i64>, Option<Seq<char>>, Option<Seq<char>>)>, Option<Seq<char>>),
    Seq<char>,
>;

/// The characters of an optional string.
pub open spec fn opt_text(o: Option<String>) -> Option<Seq<char>> {
    match o {
        Some(s) => Some(s@),
        None => None,
    }
}

/// The abstract value of parsed response parts.
pub open spec fn parts_view(r: Result<ResponseParts, String>) -> Result<
    (Option<(Option<i64>, Option<Seq<char>>, Option<Seq<char>>)>, Option<Seq<char>>),
    Seq<char>,
> {
    match r {
        Err(m) => Err(m@),
        Ok(p) => Ok(
            (
                match p.error {
                    Some(e) => Some((e.code, opt_text(e.message), opt_text(e.data))),
                    None => None,
                },
                opt_text(p.result),
            ),
        ),
    }
}

/// Parses a response line with `serde_json::from_str` into a JSON value and
/// reads its `error` (`code` as `i64`, `message` as a string, `data`
/// written back as JSON text) and `result` (written back as JSON text); a
/// parse error is written with its `Display`. The contract names what comes
/// out; parsing depends on the line alone.
#[verifier::external_body]
fn parse_response_line(line: &str) -> (r: Result<ResponseParts, String>)
    ensures
        parts_view(r) == response_parts(line@),
{
    let v: serde_json::Value = match serde_json::from_str(line) {
        Ok(v) => v,
        Err(e) => return Err(e.to_string()),
    };
    let error = v.get("error").map(|e| ErrorParts {
        code: e.get("code").and_then(|x| x.as_i64()),
        message: e.get("message").and_then(|x| x.as_str()).map(|m| m.to_string()),
        data: e.get("data").map(|d| d.to_string()),
    });
    Ok(ResponseParts { error, result: v.get("result").map(|x| x.to_string()) })
}

/// What a call answers for the parts of its response: the error object as
/// `Rpc` (code 0 and an empty message when missing), otherwise the result
/// text (`null` when missing); `Decode` with the parse error's text when
/// the line was not JSON.
pub open spec fn response_outcome(
    parts: Result<(Option<(Option<i64>, Option<Seq<char>>, Option<Seq<char>>)>, Option<Seq<char>>), Seq<char>>,
    r: Result<String, ClientError>,
) -> bool {
    match parts {
        Err(why) => r matches Err(ClientError::Decode(m)) && m@ == why,
        Ok((Some((code, message, data)), _)) => r matches Err(ClientError::Rpc { code: c, message: m, data: d })
            && c == (match code {
            Some(x) => x,
            None => 0i64,
        }) && m@ == (match message {
            Some(x) => x,
            None => Seq::<char>::empty(),
        }) && opt_text(d) == data,
        Ok((None, result)) => r matches Ok(t) && t@ == match result {
            Some(x) => x,
            None => "null"@,
        },
    }
}

/// Decides a call's answer from the parts of its response line.
pub fn response_result(parts: Result<ResponseParts, String>) -> (r: Result<String, ClientError>)
    ensures
        response_outcome(parts_view(parts), r),
{
    match parts {
        Err(why) => Err(ClientError::Decode(why)),
        Ok(p) => match p.error {
            Some(e) => {
                let code = match e.code {
                    Some(x) => x,
                    None => 0,
                };
                let message = match e.message {
                    Some(m) => m,
                    None => String::new(),
                };
                Err(ClientError::Rpc { code, message, data: e.data })
            },
            None => match p.result {
                Some(t) => Ok(t),
                None => Ok(owned("null")),
            },
        },
    }
}

/// Reads a response line: the result's JSON text, or why the call failed.
pub fn decode_response(line: &str) -> (r: Result<String, ClientError>)
    ensures
        response_outcome(response_parts(line@), r),
{
    response_result(parse_response_line(line))
}

/// The request line's text around JSON parts: `{"id":..,"method":..,"params":..}`.
pub open spec fn request_text(id: u64, method_json: Seq<char>, params_json: Seq<char>) -> Seq<char> {
    "{\"id\":"@ + decimal_text(id as nat) + ",\"method\":"@ + method_json + ",\"params\":"@ + params_json + "}"@
}

/// The request line for call `id` of `method` with parameters given as JSON
/// text, keys in the order `serde_json` writes them; no trailing newline.
pub fn request_line(id: u64, method: &str, params_json: &str) -> (s: String)
    ensures
        s@ == request_text(id, json_string_text(method@), params_json@),
{
    let m = json_string(method);
    request_line_from(id, m.as_str(), params_json)
}

/// The request line for call `id` from the method already written as a
/// JSON string.
pub fn request_line_from(id: u64, method_json: &str, params_json: &str) -> (s: String)
    ensures
        s@ == request_text(id, method_json@, params_json@),
{
    let d = decimal(id);
    let a = join3("{\"id\":", d.as_str(), ",\"method\":");
    let b = join3(a.as_str(), method_json, ",\"params\":");
    join3(b.as_str(), params_json, "}")
}

/// The wait before the second connection attempt, in milliseconds.
pub const CONNECT_FIRST_DELAY_MS: u64 = 200;

/// The longest wait between connection attempts, in milliseconds.
pub const CONNECT_MAX_DELAY_MS: u64 = 3000;

/// How many connection attempts are made before giving up.
pub const CONNECT_ATTEMPTS: u32 = 5;

/// What the client does after a failed connection attempt.
#[derive(Debug, Clone, Copy, PartialEq, Eq, Structural)]
pub struct ConnectRetry {
    /// How long to sleep now.
    pub sleep_ms: u64,
    /// The delay after the next failure.
    pub next_delay_ms: u64,
    /// Whether another attempt follows the sleep.
    pub again: bool,
}

/// After `failed` attempts have failed, the last one with `delay_ms` as its
/// delay: sleep that delay, double it up to 3 s, and try again while fewer
/// than five attempts were made.
pub fn after_failed_connect(failed: u32, delay_ms: u64) -> (r: ConnectRetry)
    ensures
        r.sleep_ms == delay_ms,
        r.next_delay_ms == if 2 * delay_ms < CONNECT_MAX_DELAY_MS { 2 * delay_ms } else { CONNECT_MAX_DELAY_MS as int },
        r.again == (failed < CONNECT_ATTEMPTS),
{
    let next = if delay_ms < CONNECT_MAX_DELAY_MS / 2 { delay_ms * 2 } else { CONNECT_MAX_DELAY_MS };
    ConnectRetry { sleep_ms: delay_ms, next_delay_ms: next, again: failed < CONNECT_ATTEMPTS }
}

/// The error after every connection attempt to `path` failed.
pub fn could_not_connect(path: &str) -> (e: ClientError)
    ensures
        e matches ClientError::Unavailable(m) && m@ == "could not connect to "@ + path@,
{
    ClientError::Unavailable(join2("could not connect to ", path))
}

impl ClientError {
    /// The error's message.
    pub fn message(&self) -> (s: String)
        ensures
            match *self {
                ClientError::Unavailable(m) => s@ == "daemon unavailable: "@ + m@,
                ClientError::Rpc { code, message, data: _ } => s@ == "rpc error "@ + signed_text(code as int) + ": "@
                    + message@,
                ClientError::Io(m) => s@ == "io: "@ + m@,
                ClientError::Decode(m) => s@ == "decode: "@ + m@,
            },
    {
        match self {
            ClientError::Unavailable(m) => join2("daemon unavailable: ", m.as_str()),
            ClientError::Rpc { code, message, data: _ } => {
                let c = signed_decimal(*code);
                let head = join3("rpc error ", c.as_str(), ": ");
                join2(head.as_str(), message.as_str())
            },
            ClientError::Io(m) => join2("io: ", m.as_str()),
            ClientError::Decode(m) => join2("decode: ", m.as_str()),
        }
    }
}

/// `n` in decimal with a leading `-` when negative.
pub open spec fn signed_text(n: int) -> Seq<char> {
    if n < 0 {
        "-"@ + decimal_text((-n) as nat)
    } else {
        decimal_text(n as nat)
    }
}

/// `n` written in decimal, as `i64`'s `Display` writes it.
pub fn signed_decimal(n: i64) -> (s: String)
    ensures
        s@ == signed_text(n as int),
{
    if n < 0 {
        let m: u64 = if n == i64::MIN { 9223372036854775808u64 } else { (-n) as u64 };
        let d = decimal(m);
        join2("-", d.as_str())
    } else {
        decimal(n as u64)
    }
}

/// The `data` member of an MCP error object.
#[derive(Debug)]
pub enum ErrorData {
    /// No `data` member.
    Absent,
    /// A string.
    Text(String),
    /// The JSON text of a value; `None` writes `null`.
    Json(Option<String>),
}

/// The MCP error object that answers a failed tool call.
#[derive(Debug)]
pub struct McpError {
    pub code: i64,
    pub message: String,
    pub data: ErrorData,
}

/// How the daemon-backed shim reports a failed call: an unreachable daemon
/// as `-32000 daemon_unavailable` with the reason, the daemon's own error
/// as it came, anything else as `-32603` with the error's message.
pub fn call_error(e: ClientError) -> (r: McpError)
    ensures
        match e {
            ClientError::Unavailable(m) => r.code == -32000 && r.message@ == "daemon_unavailable"@
                && (r.data matches ErrorData::Text(d) && d@ == m@),
            ClientError::Rpc { code, message, data } => r.code == code && r.message@ == message@
                && (r.data matches ErrorData::Json(d) && opt_text(d) == opt_text(data)),
            ClientError::Io(m) => r.code == -32603 && r.message@ == "io: "@ + m@ && r.data is Absent,
            ClientError::Decode(m) => r.code == -32603 && r.message@ == "decode: "@ + m@ && r.data is Absent,
        },
{
    match e {
        ClientError::Unavailable(m) => McpError { code: -32000, message: owned("daemon_unavailable"), data: ErrorData::Text(m) },
        ClientError::Rpc { code, message, data } => McpError { code, message, data: ErrorData::Json(data) },
        ClientError::Io(m) => {
            let e2 = ClientError::Io(m);
            McpError { code: -32603, message: e2.message(), data: ErrorData::Absent }
        },
        ClientError::Decode(m) => {
            let e2 = ClientError::Decode(m);
            McpError { code: -32603, message: e2.message(), data: ErrorData::Absent }
        },
    }
}

} // verus!
