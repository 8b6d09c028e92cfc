use agentbus::client::{
    after_failed_connect, call_error, could_not_connect, decode_response, request_line, request_line_from,
    signed_decimal, ClientError, ConnectRetry, ErrorData,
};
use agentbus::tools::normalize_json_string_field;

#[test]
fn response_results_and_errors() {
    assert_eq!(decode_response("{\"id\":1,\"result\":{\"ok\":true}}").unwrap(), "{\"ok\":true}");
    assert_eq!(decode_response("{\"id\":1}").unwrap(), "null");
    match decode_response("{\"id\":1,\"error\":{\"code\":1003,\"message\":\"unknown_instance\",\"data\":{\"id\":\"x\"}}}") {
        Err(ClientError::Rpc { code, message, data }) => {
            assert_eq!(code, 1003);
            assert_eq!(message, "unknown_instance");
            assert_eq!(data.as_deref(), Some("{\"id\":\"x\"}"));
        },
        other => panic!("{other:?}"),
    }
    match decode_response("{\"error\":{},\"result\":5}") {
        Err(ClientError::Rpc { code, message, data }) => {
            assert_eq!((code, message.as_str(), data), (0, "", None));
        },
        other => panic!("{other:?}"),
    }
    let why = serde_json::from_str::<serde_json::Value>("not json").unwrap_err().to_string();
    match decode_response("not json") {
        Err(ClientError::Decode(m)) => assert_eq!(m, why),
        other => panic!("{other:?}"),
    }
    assert_eq!(ClientError::Decode(why.clone()).message(), format!("decode: {why}"));
}

#[test]
fn request_lines_quote_the_method() {
    assert_eq!(request_line(7, "send", "{\"to\":\"bob\"}"), "{\"id\":7,\"method\":\"send\",\"params\":{\"to\":\"bob\"}}");
    assert_eq!(request_line(0, "a\"b\\c\n\u{1}\u{7f}", "{}"), "{\"id\":0,\"method\":\"a\\\"b\\\\c\\n\\u0001\u{7f}\",\"params\":{}}");
    assert_eq!(request_line_from(12, "\"x\"", "null"), "{\"id\":12,\"method\":\"x\",\"params\":null}");
}

#[test]
fn connect_backoff_doubles_to_three_seconds_and_stops_after_five() {
    assert_eq!(after_failed_connect(1, 200), ConnectRetry { sleep_ms: 200, next_delay_ms: 400, again: true });
    assert_eq!(after_failed_connect(4, 1600), ConnectRetry { sleep_ms: 1600, next_delay_ms: 3000, again: true });
    assert_eq!(after_failed_connect(5, 3000), ConnectRetry { sleep_ms: 3000, next_delay_ms: 3000, again: false });
}

#[test]
fn client_errors_and_their_mcp_form() {
    let e = could_not_connect("/run/mcp-bus.sock");
    assert_eq!(e.message(), "daemon unavailable: could not connect to /run/mcp-bus.sock");
    let m = call_error(e);
    assert_eq!((m.code, m.message.as_str()), (-32000, "daemon_unavailable"));
    assert!(matches!(m.data, ErrorData::Text(ref t) if t == "could not connect to /run/mcp-bus.sock"));
    let r = ClientError::Rpc { code: -32602, message: "missing from".to_string(), data: None };
    assert_eq!(r.message(), "rpc error -32602: missing from");
    let m = call_error(r);
    assert_eq!((m.code, m.message.as_str()), (-32602, "missing from"));
    assert!(matches!(m.data, ErrorData::Json(None)));
    let d = call_error(ClientError::Decode("EOF while parsing a value at line 1 column 0".to_string()));
    assert_eq!((d.code, d.message.as_str()), (-32603, "decode: EOF while parsing a value at line 1 column 0"));
    assert_eq!(call_error(ClientError::Io("broken pipe".to_string())).message, "io: broken pipe");
    assert_eq!(signed_decimal(i64::MIN), "-9223372036854775808");
    assert_eq!(signed_decimal(42), "42");
}

#[test]
fn normalize_replaces_json_string_with_parsed_value() {
    assert_eq!(normalize_json_string_field(Some("{\"text\":\"hi\"}")), Some("{\"text\":\"hi\"}".to_string()));
}

#[test]
fn normalize_keeps_non_json_string_as_is() {
    assert_eq!(normalize_json_string_field(Some("plain text")), None);
}

#[test]
fn normalize_keeps_native_object_unchanged() {
    assert_eq!(normalize_json_string_field(None), None);
}

#[test]
fn normalize_no_field_is_noop() {
    assert_eq!(normalize_json_string_field(None), None);
}
