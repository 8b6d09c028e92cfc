//! The MCP shim's tool calls: which tools exist, and how a refused call is
//! answered.

use vstd::prelude::*;
use crate::store::error::{error_code, error_text, StoreError};
use crate::text::{join3, owned, str_eq};

verus! {

/// The tools the shim offers.
#[derive(Debug, Clone, Copy, PartialEq, Eq, Structural)]
pub enum Tool {
    Register,
    Unregister,
    ListInstances,
    AwaitMessage,
    CheckInbox,
    Send,
    Ask,
    Reply,
    PublishEvent,
}

/// The tool called `s`, if any.
pub open spec fn tool_named(s: Seq<char>) -> Option<Tool> {
    if s == "register"@ {
        Some(Tool::Register)
    } else if s == "unregister"@ {
        Some(Tool::Unregister)
    } else if s == "list_instances"@ {
        Some(Tool::ListInstances)
    } else if s == "await_message"@ {
        Some(Tool::AwaitMessage)
    } else if s == "check_inbox"@ {
        Some(Tool::CheckInbox)
    } else if s == "send"@ {
        Some(Tool::Send)
    } else if s == "ask"@ {
        Some(Tool::Ask)
    } else if s == "reply"@ {
        Some(Tool::Reply)
    } else if s == "publish_event"@ {
        Some(Tool::PublishEvent)
    } else {
        None
    }
}

/// Looks up a tool by name.
pub fn parse_tool(s: &str) -> (t: Option<Tool>)
    ensures
        t == tool_named(s@),
{
    if str_eq(s, "register") {
        Some(Tool::Register)
    } else if str_eq(s, "unregister") {
        Some(Tool::Unregister)
    } else if str_eq(s, "list_instances") {
        Some(Tool::ListInstances)
    } else if str_eq(s, "await_message") {
        Some(Tool::AwaitMessage)
    } else if str_eq(s, "check_inbox") {
        Some(Tool::CheckInbox)
    } else if str_eq(s, "send") {
        Some(Tool::Send)
    } else if str_eq(s, "ask") {
        Some(Tool::Ask)
    } else if str_eq(s, "reply") {
        Some(Tool::Reply)
    } else if str_eq(s, "publish_event") {
        Some(Tool::PublishEvent)
    } else {
        None
    }
}

/// The error object of a refused tool call: `{"code", "message", "data"?}`.
#[derive(Debug)]
pub struct ToolError {
    pub code: i64,
    pub message: String,
    pub data: Option<String>,
}

/// A required string argument `key` is absent.
pub fn missing_arg(key: &str) -> (e: ToolError)
    ensures
        e.code == -32602,
        e.message@ == "missing `"@ + key@ + "`"@,
        e.data is None,
{
    ToolError { code: -32602, message: join3("missing `", key, "`"), data: None }
}

/// No tool is called `name`.
pub fn unknown_tool(name: &str) -> (e: ToolError)
    ensures
        e.code == -32601,
        e.message@ == "unknown tool `"@ + name@ + "`"@,
        e.data is None,
{
    ToolError { code: -32601, message: join3("unknown tool `", name, "`"), data: None }
}

/// A store failure: its wire code as the message, its text as the data.
pub fn store_tool_error(e: &StoreError) -> (t: ToolError)
    ensures
        t.code == -32000,
        t.message@ == error_code(*e),
        (t.data matches Some(d) && d@ == error_text(*e)),
{
    ToolError { code: -32000, message: owned(e.code()), data: Some(e.message()) }
}

/// The wait of `await_message` and `ask`: `timeout_ms`, 30 s by default.
pub fn tool_timeout_ms(timeout_ms: Option<u64>) -> (t: u64)
    ensures
        t == match timeout_ms {
            Some(x) => x,
            None => 30_000u64,
        },
{
    match timeout_ms {
        Some(x) => x,
        None => 30_000,
    }
}

/// The JSON text `serde_json` writes back for the value that `s` parses
/// to, or `None` when `s` is not JSON.
pub uninterp spec fn json_value_text(s: Seq<char>) -> Option<Seq<char>>;

/// Parses `s` with `serde_json::from_str` into a JSON value and writes it
/// back with `to_string`; `None` when it does not parse. The contract names
/// the text; it depends on `s` alone.
#[verifier::external_body]
fn parse_json_value(s: &str) -> (r: Option<String>)
    ensures
        match r {
            Some(t) => json_value_text(s@) == Some(t@),
            None => json_value_text(s@) is None,
        },
{
    serde_json::from_str::<serde_json::Value>(s).ok().map(|v| v.to_string())
}

/// A tool argument whose value is a string holding JSON is taken as the
/// value that JSON denotes. Given the argument's string (`None` when it is
/// absent or not a string), returns the JSON text of the value to put in
/// its place, or `None` to leave it as it is.
pub fn normalize_json_string_field(field: Option<&str>) -> (r: Option<String>)
    ensures
        match field {
            None => r is None,
            Some(s) => match json_value_text(s@) {
                Some(t) => r matches Some(x) && x@ == t,
                None => r is None,
            },
        },
{
    match field {
        None => None,
        Some(s) => parse_json_value(s),
    }
}

/// The tools in the order the shims list them.
pub open spec fn tool_at(i: int) -> Tool {
    if i == 0 {
        Tool::Register
    } else if i == 1 {
        Tool::Unregister
    } else if i == 2 {
        Tool::ListInstances
    } else if i == 3 {
        Tool::AwaitMessage
    } else if i == 4 {
        Tool::CheckInbox
    } else if i == 5 {
        Tool::Send
    } else if i == 6 {
        Tool::Ask
    } else if i == 7 {
        Tool::Reply
    } else {
        Tool::PublishEvent
    }
}

/// The wire name of a tool.
pub open spec fn tool_name(t: Tool) -> Seq<char> {
    match t {
        Tool::Register => "register"@,
        Tool::Unregister => "unregister"@,
        Tool::ListInstances => "list_instances"@,
        Tool::AwaitMessage => "await_message"@,
        Tool::CheckInbox => "check_inbox"@,
        Tool::Send => "send"@,
        Tool::Ask => "ask"@,
        Tool::Reply => "reply"@,
        Tool::PublishEvent => "publish_event"@,
    }
}

/// One entry of a tool table: the tool's name, its description, and its
/// input schema as JSON text.
#[derive(Debug)]
pub struct ToolSpecText {
    pub name: String,
    pub description: String,
    pub input_schema: String,
}

/// The description of each tool in the store shim's table.
pub open spec fn store_tool_description(t: Tool) -> Seq<char> {
    match t {
        Tool::Register => "Register this session under an instance_id."@,
        Tool::Unregister => "Release a previously registered instance_id."@,
        Tool::ListInstances => "List registered instances."@,
        Tool::AwaitMessage => "Block until messages arrive for instance_id, or time out (empty list)."@,
        Tool::CheckInbox => "Drain pending messages for instance_id without blocking."@,
        Tool::Send => "Send a one-way message to another instance."@,
        Tool::Ask => "Send a request to another instance and block until it replies or times out."@,
        Tool::Reply => "Reply to an inbound ask; the asker reads it via the asks row."@,
        Tool::PublishEvent => "Append a broadcast event to the ordered event log."@,
    }
}

/// The input schema of each tool in the store shim's table, as JSON text.
pub open spec fn store_tool_schema(t: Tool) -> Seq<char> {
    match t {
        Tool::Register => r#"{"properties":{"instance_id":{"type":"string"},"on_delivery":{"type":"string"},"persistent":{"type":"boolean"}},"required":["instance_id"],"type":"object"}"#@,
        Tool::Unregister => r#"{"properties":{"instance_id":{"type":"string"}},"required":["instance_id"],"type":"object"}"#@,
        Tool::ListInstances => r#"{"type":"object"}"#@,
        Tool::AwaitMessage => r#"{"properties":{"instance_id":{"type":"string"},"timeout_ms":{"minimum":1,"type":"integer"}},"required":["instance_id"],"type":"object"}"#@,
        Tool::CheckInbox => r#"{"properties":{"instance_id":{"type":"string"}},"required":["instance_id"],"type":"object"}"#@,
        Tool::Send => r#"{"properties":{"from":{"type":"string"},"payload":{},"to":{"type":"string"}},"required":["from","to","payload"],"type":"object"}"#@,
        Tool::Ask => r#"{"properties":{"from":{"type":"string"},"payload":{},"timeout_ms":{"type":"integer"},"to":{"type":"string"}},"required":["from","to","payload"],"type":"object"}"#@,
        Tool::Reply => r#"{"properties":{"from":{"type":"string"},"payload":{},"request_id":{"type":"string"}},"required":["from","request_id","payload"],"type":"object"}"#@,
        Tool::PublishEvent => r#"{"properties":{"from":{"type":"string"},"payload":{}},"required":["from","payload"],"type":"object"}"#@,
    }
}

fn store_tool_entry(t: Tool) -> (e: ToolSpecText)
    ensures
        e.name@ == tool_name(t),
        e.description@ == store_tool_description(t),
        e.input_schema@ == store_tool_schema(t),
{
    match t {
        Tool::Register => ToolSpecText { name: owned("register"), description: owned("Register this session under an instance_id."), input_schema: owned(r#"{"properties":{"instance_id":{"type":"string"},"on_delivery":{"type":"string"},"persistent":{"type":"boolean"}},"required":["instance_id"],"type":"object"}"#) },
        Tool::Unregister => ToolSpecText { name: owned("unregister"), description: owned("Release a previously registered instance_id."), input_schema: owned(r#"{"properties":{"instance_id":{"type":"string"}},"required":["instance_id"],"type":"object"}"#) },
        Tool::ListInstances => ToolSpecText { name: owned("list_instances"), description: owned("List registered instances."), input_schema: owned(r#"{"type":"object"}"#) },
        Tool::AwaitMessage => ToolSpecText { name: owned("await_message"), description: owned("Block until messages arrive for instance_id, or time out (empty list)."), input_schema: owned(r#"{"properties":{"instance_id":{"type":"string"},"timeout_ms":{"minimum":1,"type":"integer"}},"required":["instance_id"],"type":"object"}"#) },
        Tool::CheckInbox => ToolSpecText { name: owned("check_inbox"), description: owned("Drain pending messages for instance_id without blocking."), input_schema: owned(r#"{"properties":{"instance_id":{"type":"string"}},"required":["instance_id"],"type":"object"}"#) },
        Tool::Send => ToolSpecText { name: owned("send"), description: owned("Send a one-way message to another instance."), input_schema: owned(r#"{"properties":{"from":{"type":"string"},"payload":{},"to":{"type":"string"}},"required":["from","to","payload"],"type":"object"}"#) },
        Tool::Ask => ToolSpecText { name: owned("ask"), description: owned("Send a request to another instance and block until it replies or times out."), input_schema: owned(r#"{"properties":{"from":{"type":"string"},"payload":{},"timeout_ms":{"type":"integer"},"to":{"type":"string"}},"required":["from","to","payload"],"type":"object"}"#) },
        Tool::Reply => ToolSpecText { name: owned("reply"), description: owned("Reply to an inbound ask; the asker reads it via the asks row."), input_schema: owned(r#"{"properties":{"from":{"type":"string"},"payload":{},"request_id":{"type":"string"}},"required":["from","request_id","payload"],"type":"object"}"#) },
        Tool::PublishEvent => ToolSpecText { name: owned("publish_event"), description: owned("Append a broadcast event to the ordered event log."), input_schema: owned(r#"{"properties":{"from":{"type":"string"},"payload":{}},"required":["from","payload"],"type":"object"}"#) },
    }
}

/// The description of each tool in the daemon shim's table.
pub open spec fn daemon_tool_description(t: Tool) -> Seq<char> {
    match t {
        Tool::Register => "Register this session under an instance_id."@,
        Tool::Unregister => "Release a previously registered instance_id."@,
        Tool::ListInstances => "List active instances."@,
        Tool::AwaitMessage => "Block until a message arrives for instance_id, or time out."@,
        Tool::CheckInbox => "Drain pending messages for instance_id without blocking."@,
        Tool::Send => "Send a one-way message to another instance."@,
        Tool::Ask => "Send a request to another instance and block until it replies or times out."@,
        Tool::Reply => "Reply to an inbound ask."@,
        Tool::PublishEvent => "Broadcast an event to all SSE subscribers."@,
    }
}

/// The input schema of each tool in the daemon shim's table, as JSON text.
pub open spec fn daemon_tool_schema(t: Tool) -> Seq<char> {
    match t {
        Tool::Register => r#"{"properties":{"instance_id":{"type":"string"},"mailbox_size":{"minimum":1,"type":"integer"}},"required":["instance_id"],"type":"object"}"#@,
        Tool::Unregister => r#"{"properties":{"instance_id":{"type":"string"}},"required":["instance_id"],"type":"object"}"#@,
        Tool::ListInstances => r#"{"type":"object"}"#@,
        Tool::AwaitMessage => r#"{"properties":{"instance_id":{"type":"string"},"timeout_ms":{"minimum":1,"type":"integer"}},"required":["instance_id"],"type":"object"}"#@,
        Tool::CheckInbox => r#"{"properties":{"instance_id":{"type":"string"}},"required":["instance_id"],"type":"object"}"#@,
        Tool::Send => r#"{"properties":{"from":{"type":"string"},"payload":{},"to":{"type":"string"}},"required":["from","to","payload"],"type":"object"}"#@,
        Tool::Ask => r#"{"properties":{"from":{"type":"string"},"payload":{},"timeout_ms":{"type":"integer"},"to":{"type":"string"}},"required":["from","to","payload"],"type":"object"}"#@,
        Tool::Reply => r#"{"properties":{"from":{"type":"string"},"payload":{},"request_id":{"type":"string"}},"required":["from","request_id","payload"],"type":"object"}"#@,
        Tool::PublishEvent => r#"{"properties":{"from":{"type":"string"},"kind":{"type":"string"},"payload":{}},"required":["from","payload"],"type":"object"}"#@,
    }
}

fn daemon_tool_entry(t: Tool) -> (e: ToolSpecText)
    ensures
        e.name@ == tool_name(t),
        e.description@ == daemon_tool_description(t),
        e.input_schema@ == daemon_tool_schema(t),
{
    match t {
        Tool::Register => ToolSpecText { name: owned("register"), description: owned("Register this session under an instance_id."), input_schema: owned(r#"{"properties":{"instance_id":{"type":"string"},"mailbox_size":{"minimum":1,"type":"integer"}},"required":["instance_id"],"type":"object"}"#) },
        Tool::Unregister => ToolSpecText { name: owned("unregister"), description: owned("Release a previously registered instance_id."), input_schema: owned(r#"{"properties":{"instance_id":{"type":"string"}},"required":["instance_id"],"type":"object"}"#) },
        Tool::ListInstances => ToolSpecText { name: owned("list_instances"), description: owned("List active instances."), input_schema: owned(r#"{"type":"object"}"#) },
        Tool::AwaitMessage => ToolSpecText { name: owned("await_message"), description: owned("Block until a message arrives for instance_id, or time out."), input_schema: owned(r#"{"properties":{"instance_id":{"type":"string"},"timeout_ms":{"minimum":1,"type":"integer"}},"required":["instance_id"],"type":"object"}"#) },
        Tool::CheckInbox => ToolSpecText { name: owned("check_inbox"), description: owned("Drain pending messages for instance_id without blocking."), input_schema: owned(r#"{"properties":{"instance_id":{"type":"string"}},"required":["instance_id"],"type":"object"}"#) },
        Tool::Send => ToolSpecText { name: owned("send"), description: owned("Send a one-way message to another instance."), input_schema: owned(r#"{"properties":{"from":{"type":"string"},"payload":{},"to":{"type":"string"}},"required":["from","to","payload"],"type":"object"}"#) },
        Tool::Ask => ToolSpecText { name: owned("ask"), description: owned("Send a request to another instance and block until it replies or times out."), input_schema: owned(r#"{"properties":{"from":{"type":"string"},"payload":{},"timeout_ms":{"type":"integer"},"to":{"type":"string"}},"required":["from","to","payload"],"type":"object"}"#) },
        Tool::Reply => ToolSpecText { name: owned("reply"), description: owned("Reply to an inbound ask."), input_schema: owned(r#"{"properties":{"from":{"type":"string"},"payload":{},"request_id":{"type":"string"}},"required":["from","request_id","payload"],"type":"object"}"#) },
        Tool::PublishEvent => ToolSpecText { name: owned("publish_event"), description: owned("Broadcast an event to all SSE subscribers."), input_schema: owned(r#"{"properties":{"from":{"type":"string"},"kind":{"type":"string"},"payload":{}},"required":["from","payload"],"type":"object"}"#) },
    }
}

/// The nine tools of the store-backed MCP shim, in listing order.
pub fn tool_specs() -> (v: Vec<ToolSpecText>)
    ensures
        v@.len() == 9,
        forall|i: int|
            0 <= i < 9 ==> {
                &&& (#[trigger] v@[i]).name@ == tool_name(tool_at(i))
                &&& v@[i].description@ == store_tool_description(tool_at(i))
                &&& v@[i].input_schema@ == store_tool_schema(tool_at(i))
            },
{
    let mut v: Vec<ToolSpecText> = Vec::new();
    v.push(store_tool_entry(Tool::Register));
    v.push(store_tool_entry(Tool::Unregister));
    v.push(store_tool_entry(Tool::ListInstances));
    v.push(store_tool_entry(Tool::AwaitMessage));
    v.push(store_tool_entry(Tool::CheckInbox));
    v.push(store_tool_entry(Tool::Send));
    v.push(store_tool_entry(Tool::Ask));
    v.push(store_tool_entry(Tool::Reply));
    v.push(store_tool_entry(Tool::PublishEvent));
    v
}

/// The nine tools of the daemon-backed MCP shim, in listing order.
pub fn daemon_tool_specs() -> (v: Vec<ToolSpecText>)
    ensures
        v@.len() == 9,
        forall|i: int|
            0 <= i < 9 ==> {
                &&& (#[trigger] v@[i]).name@ == tool_name(tool_at(i))
                &&& v@[i].description@ == daemon_tool_description(tool_at(i))
                &&& v@[i].input_schema@ == daemon_tool_schema(tool_at(i))
            },
{
    let mut v: Vec<ToolSpecText> = Vec::new();
    v.push(daemon_tool_entry(Tool::Register));
    v.push(daemon_tool_entry(Tool::Unregister));
    v.push(daemon_tool_entry(Tool::ListInstances));
    v.push(daemon_tool_entry(Tool::AwaitMessage));
    v.push(daemon_tool_entry(Tool::CheckInbox));
    v.push(daemon_tool_entry(Tool::Send));
    v.push(daemon_tool_entry(Tool::Ask));
    v.push(daemon_tool_entry(Tool::Reply));
    v.push(daemon_tool_entry(Tool::PublishEvent));
    v
}

/// Each tool's wire name is the name it is found under.
pub proof fn lemma_tool_name_roundtrip(t: Tool)
    ensures
        tool_named(tool_name(t)) == Some(t),
{
    reveal_strlit("register");
    reveal_strlit("unregister");
    reveal_strlit("list_instances");
    reveal_strlit("await_message");
    reveal_strlit("check_inbox");
    reveal_strlit("send");
    reveal_strlit("ask");
    reveal_strlit("reply");
    reveal_strlit("publish_event");
    assert("register"@.len() == 8 && "register"@[0] == 'r' && "register"@[1] == 'e');
    assert("unregister"@.len() == 10 && "unregister"@[0] == 'u' && "unregister"@[1] == 'n');
    assert("list_instances"@.len() == 14 && "list_instances"@[0] == 'l' && "list_instances"@[1] == 'i');
    assert("await_message"@.len() == 13 && "await_message"@[0] == 'a' && "await_message"@[1] == 'w');
    assert("check_inbox"@.len() == 11 && "check_inbox"@[0] == 'c' && "check_inbox"@[1] == 'h');
    assert("send"@.len() == 4 && "send"@[0] == 's' && "send"@[1] == 'e');
    assert("ask"@.len() == 3 && "ask"@[0] == 'a' && "ask"@[1] == 's');
    assert("reply"@.len() == 5 && "reply"@[0] == 'r' && "reply"@[1] == 'e');
    assert("publish_event"@.len() == 13 && "publish_event"@[0] == 'p' && "publish_event"@[1] == 'u');
}

} // verus!
