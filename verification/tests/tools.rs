use agentbus::store::error::StoreError;
use agentbus::tools::{missing_arg, parse_tool, store_tool_error, tool_timeout_ms, unknown_tool, Tool};

#[test]
fn tools_are_found_by_name() {
    assert_eq!(parse_tool("register"), Some(Tool::Register));
    assert_eq!(parse_tool("publish_event"), Some(Tool::PublishEvent));
    assert_eq!(parse_tool("ask"), Some(Tool::Ask));
    assert_eq!(parse_tool("Ask"), None);
    assert_eq!(parse_tool(""), None);
}

#[test]
fn refused_tool_calls() {
    let m = missing_arg("instance_id");
    assert_eq!((m.code, m.message.as_str()), (-32602, "missing `instance_id`"));
    let u = unknown_tool("frobnicate");
    assert_eq!((u.code, u.message.as_str()), (-32601, "unknown tool `frobnicate`"));
    let s = store_tool_error(&StoreError::StoreLocked);
    assert_eq!((s.code, s.message.as_str()), (-32000, "store_locked"));
    assert_eq!(
        s.data.as_deref(),
        Some("store locked: busy_timeout exhausted (transient write contention; retry after a short wait)")
    );
    assert_eq!(tool_timeout_ms(None), 30_000);
    assert_eq!(tool_timeout_ms(Some(5)), 5);
}

#[test]
fn tool_tables_list_the_nine_tools_in_order() {
    let names = [
        "register", "unregister", "list_instances", "await_message", "check_inbox", "send", "ask", "reply",
        "publish_event",
    ];
    for table in [agentbus::tools::tool_specs(), agentbus::tools::daemon_tool_specs()] {
        assert_eq!(table.len(), 9);
        for (spec, name) in table.iter().zip(names) {
            assert_eq!(spec.name, name);
            assert!(parse_tool(&spec.name).is_some());
            let schema: serde_json::Value = serde_json::from_str(&spec.input_schema).unwrap();
            assert_eq!(schema["type"], "object");
        }
    }
    let store = agentbus::tools::tool_specs();
    assert_eq!(store[3].description, "Block until messages arrive for instance_id, or time out (empty list).");
    let register: serde_json::Value = serde_json::from_str(&store[0].input_schema).unwrap();
    assert_eq!(register["properties"]["persistent"]["type"], "boolean");
    assert_eq!(register["required"][0], "instance_id");
    let daemon = agentbus::tools::daemon_tool_specs();
    let register: serde_json::Value = serde_json::from_str(&daemon[0].input_schema).unwrap();
    assert_eq!(register["properties"]["mailbox_size"]["minimum"], 1);
    assert_eq!(daemon[8].description, "Broadcast an event to all SSE subscribers.");
}
