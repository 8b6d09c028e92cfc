use agentbus::envelope::{Envelope, Kind};
use agentbus::mailbox::RecvError;
use agentbus::registry::{is_valid_id, RegisterError, Registry};

fn note(id: &str, to: &str) -> Envelope {
    Envelope {
        id: id.to_string(),
        kind: Kind::Message,
        from: "a".to_string(),
        to: Some(to.to_string()),
        request_id: None,
        timeout_ms: None,
        ts: 0,
        payload: "{}".to_string(),
    }
}

#[test]
fn register_then_lookup() {
    let mut r = Registry::new();
    let owner = r.issue_owner_token();
    r.register("alice", owner, 16).unwrap();
    assert!(r.lookup("alice").is_some());
}

#[test]
fn collision_rejected_for_different_owner() {
    let mut r = Registry::new();
    let a = r.issue_owner_token();
    let b = r.issue_owner_token();
    r.register("x", a, 16).unwrap();
    let err = r.register("x", b, 16).unwrap_err();
    assert!(matches!(err, RegisterError::Collision(_)));
}

#[test]
fn same_owner_reregister_is_idempotent() {
    let mut r = Registry::new();
    let a = r.issue_owner_token();
    r.register("x", a, 16).unwrap();
    r.register("x", a, 16).unwrap();
}

#[test]
fn unregister_owner_removes_all_and_closes_mailboxes() {
    let mut r = Registry::new();
    let owner = r.issue_owner_token();
    r.register("x", owner, 2).unwrap();
    r.register("y", owner, 2).unwrap();
    let ids = r.unregister_owner(owner);
    assert_eq!(ids.len(), 2);
    assert!(r.lookup("x").is_none());
}

#[test]
fn invalid_id_rejected() {
    let mut r = Registry::new();
    let owner = r.issue_owner_token();
    let err = r.register("space here", owner, 16).unwrap_err();
    assert!(matches!(err, RegisterError::Invalid));
}

#[test]
fn owner_tokens_are_distinct() {
    let mut r = Registry::new();
    let a = r.issue_owner_token();
    let b = r.issue_owner_token();
    assert_ne!(a, b);
}

#[test]
fn unregister_needs_the_owning_token() {
    let mut r = Registry::new();
    let a = r.issue_owner_token();
    let b = r.issue_owner_token();
    r.register("x", a, 4).unwrap();
    assert!(!r.unregister("x", b));
    assert!(r.lookup("x").is_some());
    assert!(r.unregister("x", a));
    assert!(r.lookup("x").is_none());
    assert!(!r.unregister("x", a));
}

#[test]
fn list_ids_is_sorted_and_complete() {
    let mut r = Registry::new();
    let a = r.issue_owner_token();
    for id in ["zed", "alice", "mid", "Bob"] {
        r.register(id, a, 1).unwrap();
    }
    assert_eq!(r.list_ids(), vec!["Bob", "alice", "mid", "zed"]);
}

#[test]
fn unregister_owner_leaves_other_owners() {
    let mut r = Registry::new();
    let a = r.issue_owner_token();
    let b = r.issue_owner_token();
    r.register("x", a, 2).unwrap();
    r.register("y", b, 2).unwrap();
    let ids = r.unregister_owner(a);
    assert_eq!(ids, vec!["x"]);
    assert!(r.lookup("y").is_some());
}

#[test]
fn valid_ids_follow_the_charset_and_length() {
    assert!(is_valid_id("a"));
    assert!(is_valid_id("agent-1.host:2_x"));
    assert!(is_valid_id(&"x".repeat(128)));
    assert!(!is_valid_id(""));
    assert!(!is_valid_id(&"x".repeat(129)));
    assert!(!is_valid_id("a/b"));
    assert!(!is_valid_id("a b"));
    assert!(!is_valid_id("é"));
}

#[test]
fn mailbox_operations_by_id() {
    let mut r = Registry::new();
    let a = r.issue_owner_token();
    r.register("bob", a, 2).unwrap();
    assert!(r.push_to("ghost", note("1", "ghost")).is_none());
    assert!(r.push_to("bob", note("1", "bob")).unwrap().dropped.is_none());
    assert!(r.push_to("bob", note("2", "bob")).unwrap().dropped.is_none());
    assert_eq!(r.push_to("bob", note("3", "bob")).unwrap().dropped.as_deref(), Some("1"));
    match r.pop_from("bob") {
        Some(Some(Ok(e))) => assert_eq!(e.id, "2"),
        other => panic!("unexpected {other:?}"),
    }
    let rest: Vec<String> = r.drain_from("bob").unwrap().into_iter().map(|e| e.id).collect();
    assert_eq!(rest, vec!["3"]);
    assert!(matches!(r.pop_from("bob"), Some(None)));
    assert!(r.pop_from("ghost").is_none());
    assert!(r.drain_from("ghost").is_none());
    let _ = RecvError::Closed;
}
