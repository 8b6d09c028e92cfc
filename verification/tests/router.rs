use agentbus::envelope::{Envelope, Kind};
use agentbus::registry::Registry;
use agentbus::router::{RouteError, Router};

fn mk(kind: Kind, from: &str, to: Option<&str>) -> Envelope {
    Envelope {
        id: String::new(),
        kind,
        from: from.to_string(),
        to: to.map(|t| t.to_string()),
        request_id: None,
        timeout_ms: None,
        ts: 1_779_350_400_000_000_000,
        payload: "{}".to_string(),
    }
}

fn bus_with_bob() -> (Registry, Router) {
    let mut reg = Registry::new();
    let owner = reg.issue_owner_token();
    reg.register("bob", owner, 4).unwrap();
    (reg, Router::new())
}

fn bob_receives(reg: &mut Registry) -> Envelope {
    match reg.pop_from("bob") {
        Some(Some(Ok(e))) => e,
        other => panic!("bob got {other:?}"),
    }
}

#[test]
fn send_to_unknown_fails() {
    let mut reg = Registry::new();
    let router = Router::new();
    let err = router.send(&mut reg, mk(Kind::Message, "a", Some("ghost"))).unwrap_err();
    assert!(matches!(err, RouteError::UnknownInstance(_)));
}

#[test]
fn ask_reply_roundtrip() {
    let (mut reg, mut router) = bus_with_bob();
    let mut ask = mk(Kind::Ask, "alice", Some("bob"));
    ask.payload = "{\"q\":\"ping\"}".to_string();
    let rid = router.ask(&mut reg, ask).unwrap();
    let req = bob_receives(&mut reg);
    assert_eq!(req.id, rid);
    assert_eq!(req.kind, Kind::Ask);
    let mut reply = mk(Kind::Reply, "bob", Some(&req.from));
    reply.request_id = Some(req.id.clone());
    reply.payload = "{\"ok\":true}".to_string();
    router.reply(reply).unwrap();
    let got = router.take_outcome(&rid).unwrap().unwrap();
    assert_eq!(got.payload, "{\"ok\":true}");
}

#[test]
fn router_ask_times_out() {
    let (mut reg, mut router) = bus_with_bob();
    let rid = router.ask(&mut reg, mk(Kind::Ask, "alice", Some("bob"))).unwrap();
    assert!(router.take_outcome(&rid).is_none());
    let err = router.expire(&rid, 30).unwrap_err();
    assert!(matches!(err, RouteError::AskTimeout { ms: 30 }));
}

#[test]
fn cancel_pending_returns_disconnected() {
    let (mut reg, mut router) = bus_with_bob();
    let rid = router.ask(&mut reg, mk(Kind::Ask, "alice", Some("bob"))).unwrap();
    router.cancel_pending_for("bob");
    let err = router.take_outcome(&rid).unwrap().unwrap_err();
    assert!(matches!(err, RouteError::InstanceDisconnected(ref id) if id == "bob"));
}

#[test]
fn unknown_request_id_rejected() {
    let mut router = Router::new();
    let mut reply = mk(Kind::Reply, "bob", Some("alice"));
    reply.request_id = Some("nope".to_string());
    let err = router.reply(reply).unwrap_err();
    assert!(matches!(err, RouteError::UnknownRequestId(_)));
}

#[test]
fn reply_auto_fills_to_from_pending_asker() {
    let (mut reg, mut router) = bus_with_bob();
    let rid = router.ask(&mut reg, mk(Kind::Ask, "alice", Some("bob"))).unwrap();
    let req = bob_receives(&mut reg);
    let mut reply = mk(Kind::Reply, "bob", None);
    reply.request_id = Some(req.id.clone());
    reply.payload = "{\"ok\":true}".to_string();
    router.reply(reply).unwrap();
    let got = router.take_outcome(&rid).unwrap().unwrap();
    assert_eq!(got.to.as_deref(), Some("alice"));
    assert_eq!(got.payload, "{\"ok\":true}");
}

#[test]
fn send_stamps_a_fresh_id_and_delivers() {
    let (mut reg, router) = bus_with_bob();
    let id = router.send(&mut reg, mk(Kind::Message, "alice", Some("bob"))).unwrap();
    assert!(id.starts_with("msg_"));
    let got = bob_receives(&mut reg);
    assert_eq!(got.id, id);
    assert_eq!(got.from, "alice");
}

#[test]
fn send_stamped_uses_the_given_id_and_time() {
    let (mut reg, router) = bus_with_bob();
    let id = router
        .send_stamped(&mut reg, mk(Kind::Message, "alice", Some("bob")), "msg_fixed".to_string(), 42)
        .unwrap();
    assert_eq!(id, "msg_fixed");
    let got = bob_receives(&mut reg);
    assert_eq!(got.id, "msg_fixed");
    assert_eq!(got.ts, 42);
}

#[test]
fn invalid_envelopes_are_refused_before_routing() {
    let (mut reg, mut router) = bus_with_bob();
    let err = router.send(&mut reg, mk(Kind::Message, "", Some("bob"))).unwrap_err();
    assert!(matches!(err, RouteError::Validation(agentbus::envelope::ValidationError::EmptyFrom)));
    let err = router.ask(&mut reg, mk(Kind::Ask, "alice", None)).unwrap_err();
    assert!(matches!(err, RouteError::Validation(agentbus::envelope::ValidationError::AskMissingTo)));
    let mut reply = mk(Kind::Reply, "bob", None);
    reply.request_id = None;
    assert!(matches!(router.reply(reply), Err(RouteError::UnknownRequestId(ref s)) if s.is_empty()));
    assert!(matches!(reg.pop_from("bob"), Some(None)));
}

#[test]
fn a_reply_resolves_its_ask_once() {
    let (mut reg, mut router) = bus_with_bob();
    let rid = router.ask(&mut reg, mk(Kind::Ask, "alice", Some("bob"))).unwrap();
    let mut reply = mk(Kind::Reply, "bob", None);
    reply.request_id = Some(rid.clone());
    router.reply(reply).unwrap();
    let mut again = mk(Kind::Reply, "bob", None);
    again.request_id = Some(rid.clone());
    assert!(matches!(router.reply(again), Err(RouteError::UnknownRequestId(_))));
    assert!(router.take_outcome(&rid).unwrap().is_ok());
    assert!(router.take_outcome(&rid).is_none());
}

#[test]
fn reply_after_expiry_is_unknown() {
    let (mut reg, mut router) = bus_with_bob();
    let rid = router.ask(&mut reg, mk(Kind::Ask, "alice", Some("bob"))).unwrap();
    let _ = router.expire(&rid, 10);
    let mut reply = mk(Kind::Reply, "bob", None);
    reply.request_id = Some(rid);
    assert!(matches!(router.reply(reply), Err(RouteError::UnknownRequestId(_))));
}

#[test]
fn route_error_messages() {
    assert_eq!(RouteError::UnknownInstance("x".to_string()).message(), "unknown instance `x`");
    assert_eq!(RouteError::AskTimeout { ms: 1500 }.message(), "ask timed out after 1500 ms");
    assert_eq!(
        RouteError::InstanceDisconnected("b".to_string()).message(),
        "instance `b` disconnected before replying"
    );
    assert_eq!(RouteError::UnknownRequestId("r".to_string()).message(), "unknown request_id `r`");
    assert_eq!(
        RouteError::Validation(agentbus::envelope::ValidationError::EventHasTo).message(),
        "envelope validation: event envelopes must not have `to`"
    );
}
