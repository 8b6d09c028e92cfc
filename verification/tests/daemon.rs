use agentbus::daemon::{finish_ask, parse_method, timed_out, Answer, Bus, HttpRegistered, Method, RpcParams, RpcValue};
use agentbus::router::RouteError;
use agentbus::service::{ConnCtx, RpcData};

fn no_params() -> RpcParams {
    RpcParams {
        instance_id: None,
        mailbox_size: None,
        timeout_ms: None,
        from: None,
        to: None,
        request_id: None,
        kind: None,
        payload: None,
    }
}

fn for_instance(id: &str) -> RpcParams {
    RpcParams { instance_id: Some(id.to_string()), ..no_params() }
}

fn message(from: &str, to: &str, payload: &str) -> RpcParams {
    RpcParams {
        from: Some(from.to_string()),
        to: Some(to.to_string()),
        payload: Some(payload.to_string()),
        ..no_params()
    }
}

fn connect(bus: &mut Bus) -> ConnCtx {
    ConnCtx::new(bus.registry.issue_owner_token())
}

fn error_of(a: &Answer) -> (i64, String) {
    match &a.result {
        Err(e) => (e.code, e.message.clone()),
        Ok(v) => panic!("expected an error, got {v:?}"),
    }
}

#[test]
fn ipc_register_then_send() {
    let mut bus = Bus::new(30_000, 300_000);
    let mut bob = connect(&mut bus);
    let a = bus.dispatch(&mut bob, "register", for_instance("bob"));
    assert!(matches!(a.result, Ok(RpcValue::Ack(true))));

    let mut sender = connect(&mut bus);
    let a = bus.dispatch(&mut sender, "send", message("alice", "bob", "{\"hi\":1}"));
    let id = match a.result {
        Ok(RpcValue::Id(id)) => id,
        other => panic!("{other:?}"),
    };
    assert!(id.starts_with("msg_"));

    let a = bus.dispatch(&mut bob, "await_message", RpcParams { timeout_ms: Some(1000), ..for_instance("bob") });
    match a.result {
        Ok(RpcValue::Envelope(e)) => {
            assert_eq!(e.payload, "{\"hi\":1}");
            assert_eq!(e.id, id);
        },
        other => panic!("{other:?}"),
    }
}

#[test]
fn ipc_conn_drop_unregisters() {
    let mut bus = Bus::new(30_000, 300_000);
    let mut ghost = connect(&mut bus);
    bus.dispatch(&mut ghost, "register", for_instance("ghost"));
    let closed = bus.disconnect(ghost.owner);
    assert_eq!(closed, vec!["ghost"]);
    assert!(bus.registry.lookup("ghost").is_none());
}

#[test]
fn register_twice_and_collide() {
    let mut bus = Bus::new(30_000, 300_000);
    let mut a = connect(&mut bus);
    let mut b = connect(&mut bus);
    bus.dispatch(&mut a, "register", for_instance("x"));
    let again = bus.dispatch(&mut a, "register", for_instance("x"));
    assert!(matches!(again.result, Ok(RpcValue::Ack(true))));
    assert_eq!(a.claimed_ids, vec!["x"]);
    let clash = bus.dispatch(&mut b, "register", for_instance("x"));
    assert_eq!(error_of(&clash), (1001, "instance_id_taken".to_string()));
    let bad = bus.dispatch(&mut b, "register", for_instance("no spaces"));
    assert_eq!(error_of(&bad), (1002, "invalid_instance_id".to_string()));
    let missing = bus.dispatch(&mut b, "register", no_params());
    assert_eq!(error_of(&missing), (-32602, "missing instance_id".to_string()));
    assert!(b.claimed_ids.is_empty());
}

#[test]
fn unregister_cancels_asks_and_releases_the_claim() {
    let mut bus = Bus::new(30_000, 300_000);
    let mut bob = connect(&mut bus);
    let mut alice = connect(&mut bus);
    bus.dispatch(&mut bob, "register", for_instance("bob"));
    let a = bus.dispatch(&mut alice, "ask", message("alice", "bob", "{\"q\":1}"));
    let rid = match a.result {
        Ok(RpcValue::Asking { request_id, timeout_ms }) => {
            assert_eq!(timeout_ms, 30_000);
            request_id
        },
        other => panic!("{other:?}"),
    };
    assert_eq!(a.logged.len(), 1);
    let wrong = bus.dispatch(&mut alice, "unregister", for_instance("bob"));
    assert!(matches!(wrong.result, Ok(RpcValue::Ack(false))));
    let gone = bus.dispatch(&mut bob, "unregister", for_instance("bob"));
    assert!(matches!(gone.result, Ok(RpcValue::Ack(true))));
    assert!(bob.claimed_ids.is_empty());
    let outcome = bus.router.take_outcome(&rid).unwrap();
    let done = finish_ask(outcome);
    assert_eq!(error_of(&done), (1006, "instance_disconnected".to_string()));
}

#[test]
fn ask_reply_round_trip_over_dispatch() {
    let mut bus = Bus::new(30_000, 300_000);
    let mut bob = connect(&mut bus);
    let mut alice = connect(&mut bus);
    bus.dispatch(&mut bob, "register", for_instance("bob"));
    let ask = RpcParams { timeout_ms: Some(10), ..message("alice", "bob", "{\"q\":\"ping\"}") };
    let rid = match bus.dispatch(&mut alice, "ask", ask).result {
        Ok(RpcValue::Asking { request_id, timeout_ms }) => {
            assert_eq!(timeout_ms, 1_000);
            request_id
        },
        other => panic!("{other:?}"),
    };
    let inbox = bus.dispatch(&mut bob, "check_inbox", for_instance("bob"));
    match inbox.result {
        Ok(RpcValue::Envelopes(v)) => {
            assert_eq!(v.len(), 1);
            assert_eq!(v[0].id, rid);
        },
        other => panic!("{other:?}"),
    }
    let reply = RpcParams {
        from: Some("bob".to_string()),
        request_id: Some(rid.clone()),
        payload: Some("{\"ok\":true}".to_string()),
        ..no_params()
    };
    let r = bus.dispatch(&mut bob, "reply", reply);
    assert!(matches!(r.result, Ok(RpcValue::Ack(true))));
    assert_eq!(r.logged.len(), 1);
    let done = finish_ask(bus.router.take_outcome(&rid).unwrap());
    match done.result {
        Ok(RpcValue::Reply(e)) => {
            assert_eq!(e.to.as_deref(), Some("alice"));
            assert_eq!(e.payload, "{\"ok\":true}");
        },
        other => panic!("{other:?}"),
    }
    assert_eq!(done.logged.len(), 1);
}

#[test]
fn ask_to_unknown_is_logged_then_refused() {
    let mut bus = Bus::new(30_000, 300_000);
    let mut alice = connect(&mut bus);
    let a = bus.dispatch(&mut alice, "ask", message("alice", "ghost", "{}"));
    assert_eq!(error_of(&a), (1003, "unknown_instance".to_string()));
    assert_eq!(a.logged.len(), 1);
    let s = bus.dispatch(&mut alice, "send", message("alice", "ghost", "{}"));
    assert_eq!(error_of(&s), (1003, "unknown_instance".to_string()));
    assert!(matches!(s.result, Err(ref e) if matches!(e.data, Some(RpcData::Id(ref i)) if i == "ghost")));
    assert!(s.logged.is_empty());
}

#[test]
fn await_waits_then_times_out() {
    let mut bus = Bus::new(30_000, 300_000);
    let mut bob = connect(&mut bus);
    bus.dispatch(&mut bob, "register", for_instance("bob"));
    let a = bus.dispatch(&mut bob, "await_message", for_instance("bob"));
    match a.result {
        Ok(RpcValue::Waiting { instance_id, timeout_ms }) => {
            assert_eq!(instance_id, "bob");
            assert_eq!(timeout_ms, 30_000);
        },
        other => panic!("{other:?}"),
    }
    assert!(bus.await_step("bob").is_none());
    assert!(matches!(timed_out().result, Ok(RpcValue::TimedOut)));
    let unknown = bus.dispatch(&mut bob, "await_message", for_instance("nobody"));
    assert_eq!(error_of(&unknown), (1003, "unknown_instance".to_string()));
    bus.disconnect(bob.owner);
    let closed = bus.await_step("bob").unwrap();
    assert_eq!(error_of(&closed), (1004, "mailbox_closed".to_string()));
}

#[test]
fn publish_event_builds_its_payload() {
    let mut bus = Bus::new(30_000, 300_000);
    let mut c = connect(&mut bus);
    let p = RpcParams { kind: Some("note".to_string()), payload: Some("[1,2]".to_string()), ..no_params() };
    let a = bus.dispatch(&mut c, "publish_event", p);
    let e = &a.logged[0];
    assert_eq!(e.from, "unknown");
    assert!(e.to.is_none());
    assert_eq!(e.payload, "{\"data\":[1,2],\"type\":\"note\"}");
    assert!(matches!(a.result, Ok(RpcValue::Id(ref id)) if *id == e.id));
    let d = bus.dispatch(&mut c, "publish_event", RpcParams { from: Some("a\"b".to_string()), ..no_params() });
    assert_eq!(d.logged[0].payload, "{\"data\":null,\"type\":\"event\"}");
    assert_eq!(d.logged[0].from, "a\"b");
}

#[test]
fn methods_and_missing_parameters() {
    let mut bus = Bus::new(30_000, 300_000);
    let mut c = connect(&mut bus);
    assert_eq!(parse_method("list_instances"), Some(Method::ListInstances));
    assert_eq!(parse_method("nope"), None);
    let a = bus.dispatch(&mut c, "nope", no_params());
    assert_eq!(error_of(&a), (-32601, "method not found".to_string()));
    let s = bus.dispatch(&mut c, "send", no_params());
    assert_eq!(error_of(&s), (-32602, "missing from".to_string()));
    let r = bus.dispatch(&mut c, "reply", RpcParams { from: Some("b".to_string()), ..no_params() });
    assert_eq!(error_of(&r), (1007, "unknown_request_id".to_string()));
    bus.dispatch(&mut c, "register", for_instance("zed"));
    bus.dispatch(&mut c, "register", for_instance("amy"));
    match bus.dispatch(&mut c, "list_instances", no_params()).result {
        Ok(RpcValue::Instances(ids)) => assert_eq!(ids, vec!["amy", "zed"]),
        other => panic!("{other:?}"),
    }
    let timeout = finish_ask(Err(RouteError::AskTimeout { ms: 1000 }));
    assert_eq!(error_of(&timeout), (1005, "timeout".to_string()));
}

#[test]
fn http_registration_statuses() {
    let mut bus = Bus::new(30_000, 300_000);
    let (status, got) = bus.http_register("bob", 256);
    assert_eq!(status, 201);
    let owner = match got {
        HttpRegistered::Created { owner } => owner,
        other => panic!("{other:?}"),
    };
    let (status, got) = bus.http_register("bob", 256);
    assert_eq!(status, 409);
    assert!(matches!(got, HttpRegistered::Taken(ref id) if id == "bob"));
    assert_eq!(bus.http_register("bad id", 256).0, 400);
    assert_eq!(bus.http_unregister("bob", None), 400);
    assert_eq!(bus.http_unregister("bob", Some(owner + 1)), 403);
    assert_eq!(bus.http_unregister("bob", Some(owner)), 204);
    assert_eq!(bus.http_unregister("bob", Some(owner)), 403);
}

#[test]
fn event_payload_from_json_parts() {
    assert_eq!(agentbus::daemon::event_payload_json("{\"a\":1}", "\"note\""), "{\"data\":{\"a\":1},\"type\":\"note\"}");
}
