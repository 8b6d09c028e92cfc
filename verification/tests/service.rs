use agentbus::envelope::{Envelope, Kind, ValidationError};
use agentbus::registry::RegisterError;
use agentbus::router::RouteError;
use agentbus::service::{
    ask_error_status, clamp_ask_timeout, default_mailbox_size, err, event_matches, register_rpc_error,
    reply_error_status, route_rpc_error, send_error_status, validate_bind, BindAddr, ConfigError, ConnCtx,
    HookInbox, HookInboxError, RpcData, Session, live_event_admitted,
};

fn streamed(kind: Kind, from: &str, to: Option<&str>) -> Envelope {
    Envelope {
        id: "msg_1".to_string(),
        kind,
        from: from.to_string(),
        to: to.map(|t| t.to_string()),
        request_id: None,
        timeout_ms: None,
        ts: 0,
        payload: "null".to_string(),
    }
}

#[test]
fn loopback_v4_accepted() {
    validate_bind(BindAddr::V4([127, 0, 0, 1])).unwrap();
}

#[test]
fn non_loopback_rejected() {
    let err = validate_bind(BindAddr::V4([0, 0, 0, 0])).unwrap_err();
    assert!(matches!(err, ConfigError::NonLoopbackBind(_)));
}

#[test]
fn every_loopback_address_is_accepted_and_others_rejected() {
    assert!(validate_bind(BindAddr::V6([0, 0, 0, 0, 0, 0, 0, 1])).is_ok());
    assert!(validate_bind(BindAddr::V6([0, 0, 0, 0, 0, 0, 0, 0])).is_err());
    assert!(validate_bind(BindAddr::V4([127, 0, 0, 2])).is_ok());
    assert!(validate_bind(BindAddr::V4([127, 255, 1, 9])).is_ok());
    assert!(validate_bind(BindAddr::V4([128, 0, 0, 1])).is_err());
    assert!(validate_bind(BindAddr::V4([10, 0, 0, 1])).is_err());
}

#[test]
fn ask_timeouts_are_clamped() {
    assert_eq!(clamp_ask_timeout(None, 30_000, 300_000), 30_000);
    assert_eq!(clamp_ask_timeout(Some(10), 30_000, 300_000), 1_000);
    assert_eq!(clamp_ask_timeout(Some(999_999), 30_000, 300_000), 300_000);
    assert_eq!(clamp_ask_timeout(Some(5_000), 30_000, 300_000), 5_000);
    assert_eq!(clamp_ask_timeout(Some(5_000), 30_000, 500), 1_000);
    assert_eq!(default_mailbox_size(), 256);
}

#[test]
fn rpc_error_codes() {
    let e = err(-32602, "missing instance_id");
    assert_eq!((e.code, e.message.as_str()), (-32602, "missing instance_id"));
    assert!(e.data.is_none());
    let c = register_rpc_error(&RegisterError::Collision("x".to_string()));
    assert_eq!((c.code, c.message.as_str()), (1001, "instance_id_taken"));
    let i = register_rpc_error(&RegisterError::Invalid);
    assert_eq!((i.code, i.message.as_str()), (1002, "invalid_instance_id"));
    let u = route_rpc_error(RouteError::UnknownInstance("ghost".to_string()));
    assert_eq!((u.code, u.message.as_str()), (1003, "unknown_instance"));
    assert!(matches!(u.data, Some(RpcData::Id(ref s)) if s == "ghost"));
    let t = route_rpc_error(RouteError::AskTimeout { ms: 250 });
    assert_eq!((t.code, t.message.as_str()), (1005, "timeout"));
    assert!(matches!(t.data, Some(RpcData::TimeoutMs(250))));
    let d = route_rpc_error(RouteError::InstanceDisconnected("b".to_string()));
    assert_eq!((d.code, d.message.as_str()), (1006, "instance_disconnected"));
    let r = route_rpc_error(RouteError::UnknownRequestId("r".to_string()));
    assert_eq!((r.code, r.message.as_str()), (1007, "unknown_request_id"));
    assert!(matches!(r.data, Some(RpcData::RequestId(ref s)) if s == "r"));
    let v = route_rpc_error(RouteError::Validation(ValidationError::EmptyFrom));
    assert_eq!((v.code, v.message.as_str()), (-32602, "`from` is empty"));
    assert!(v.data.is_none());
}

#[test]
fn http_statuses_of_routing_errors() {
    assert_eq!(ask_error_status(&RouteError::AskTimeout { ms: 1 }), 504);
    assert_eq!(ask_error_status(&RouteError::UnknownInstance("x".to_string())), 404);
    assert_eq!(ask_error_status(&RouteError::InstanceDisconnected("x".to_string())), 410);
    assert_eq!(ask_error_status(&RouteError::Validation(ValidationError::EmptyFrom)), 400);
    assert_eq!(send_error_status(&RouteError::UnknownInstance("x".to_string())), 404);
    assert_eq!(send_error_status(&RouteError::Validation(ValidationError::EmptyFrom)), 400);
    assert_eq!(reply_error_status(&RouteError::UnknownRequestId("r".to_string())), 404);
    assert_eq!(reply_error_status(&RouteError::UnknownInstance("x".to_string())), 400);
}

#[test]
fn event_stream_filters() {
    let e = streamed(Kind::Message, "alice", Some("bob"));
    assert!(event_matches(&e, None, None));
    assert!(event_matches(&e, Some("alice"), None));
    assert!(event_matches(&e, Some("bob"), None));
    assert!(!event_matches(&e, Some("carol"), None));
    assert!(event_matches(&e, None, Some("message")));
    assert!(!event_matches(&e, None, Some("event")));
    assert!(event_matches(&e, None, Some("whatever")));
}

#[test]
fn connection_claims_are_kept_once_and_released() {
    let mut c = ConnCtx::new(9);
    c.claim("a");
    c.claim("b");
    c.claim("a");
    assert_eq!(c.claimed_ids, vec!["a", "b"]);
    c.release("a");
    assert_eq!(c.claimed_ids, vec!["b"]);
    c.release("zzz");
    assert_eq!(c.claimed_ids, vec!["b"]);
    assert_eq!(c.owner, 9);
}

#[test]
fn hook_inbox_refuses_escaping_ids() {
    let h = HookInbox::at("/run/agentbus/inbox".to_string());
    assert_eq!(h.path_for("bob").unwrap(), "/run/agentbus/inbox/bob.jsonl");
    assert_eq!(h.path_for("a/b"), Err(HookInboxError::BadId));
    assert_eq!(h.path_for(".."), Err(HookInboxError::BadId));
    assert_eq!(h.path_for("x..y"), Err(HookInboxError::BadId));
    assert_eq!(h.path_for("a.b").unwrap(), "/run/agentbus/inbox/a.b.jsonl");
}

#[test]
fn session_releases_only_transient_registrations() {
    let mut s = Session::new();
    s.registered("a", false);
    s.registered("p", true);
    s.registered("b", false);
    s.unregistered("a");
    assert_eq!(s.take_registered(), vec!["b"]);
    assert!(s.take_registered().is_empty());
}

#[test]
fn replayed_events_are_not_sent_again_live() {
    let e = streamed(Kind::Event, "alice", None);
    let replayed = vec!["msg_0".to_string(), "msg_1".to_string()];
    assert!(!live_event_admitted(&e, &replayed, None, None));
    let fresh = vec!["msg_0".to_string()];
    assert!(live_event_admitted(&e, &fresh, None, None));
    assert!(!live_event_admitted(&e, &fresh, Some("bob"), None));
    assert!(live_event_admitted(&e, &fresh, Some("alice"), Some("event")));
}

#[test]
fn persistent_reregistration_outlives_the_session() {
    let mut s = Session::new();
    s.registered("bob", false);
    s.registered("amy", false);
    s.registered("bob", true);
    assert_eq!(s.take_registered(), vec!["amy"]);
}
