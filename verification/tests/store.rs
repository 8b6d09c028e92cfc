use agentbus::envelope::{Envelope, Kind, ValidationError};
use agentbus::store::error::{SqliteFault, StoreError};
use agentbus::store::events::{matches_filter, EventFilter, EventsPage};
use agentbus::store::hook::{hook_failure_payload, HookOutcome, delivery_hook_env, hook_wait_step, spawn_failed, sweep_hook_env, ChildStatus, HookStep};
use agentbus::store::instances::{
    check_instance_id, registration_pid, registration_verdict, row_alive, valid_instance_id, ExistingRow,
    RegisterOpts,
};
use agentbus::store::liveness::{pid_alive, KillProbe};
use agentbus::store::paths::{db_path, inbox_dir, inbox_path, join_path, snapshot_path};
use agentbus::store::spool::{await_step, check_spool_id, AwaitStep};
use agentbus::store::sweep::{ask_expired, inbox_stale, orphan_inbox, select_dead, PidRow, SweepOpts, SweepReport};
use agentbus::store::{new_envelope, prepare_envelope};

fn published(from: &str, n: i64) -> Envelope {
    Envelope {
        id: format!("msg_{n}"),
        kind: Kind::Event,
        from: from.to_string(),
        to: None,
        request_id: None,
        timeout_ms: None,
        ts: 0,
        payload: format!("{{\"x\":{n}}}"),
    }
}

#[test]
fn codes_are_stable() {
    assert_eq!(StoreError::UnknownInstance("x".to_string()).code(), "unknown_instance");
    assert_eq!(StoreError::InstanceIdTaken("x".to_string()).code(), "instance_id_taken");
    assert_eq!(StoreError::InvalidInstanceId.code(), "invalid_instance_id");
    assert_eq!(StoreError::Timeout("x".to_string()).code(), "timeout");
    assert_eq!(StoreError::UnknownRequestId("x".to_string()).code(), "unknown_request_id");
    assert_eq!(StoreError::StoreLocked.code(), "store_locked");
    assert_eq!(StoreError::InvalidEnvelope(ValidationError::EmptyId).code(), "invalid_envelope");
    assert_eq!(StoreError::Io("x".to_string()).code(), "io");
    assert_eq!(StoreError::Sqlite("invalid query".to_string()).code(), "sqlite");
}

#[test]
fn messages_carry_recovery_hints() {
    let unknown = StoreError::UnknownInstance("x".to_string()).message();
    assert!(unknown.contains("register"), "got: {unknown}");
    let taken = StoreError::InstanceIdTaken("x".to_string()).message();
    assert!(taken.contains("different id"), "got: {taken}");
    let no_ask = StoreError::UnknownRequestId("x".to_string()).message();
    assert!(no_ask.contains("ask envelope"), "got: {no_ask}");
    let locked = StoreError::StoreLocked.message();
    assert!(locked.contains("retry"), "got: {locked}");
    let timeout = StoreError::Timeout("x".to_string()).message();
    assert!(timeout.contains("ask-result"), "got: {timeout}");
}

#[test]
fn store_error_texts_are_exact() {
    assert_eq!(
        StoreError::UnknownInstance("bob".to_string()).message(),
        "unknown instance `bob` (recipients must register first; check list_instances / `agentbus ls`)"
    );
    assert_eq!(
        StoreError::InvalidEnvelope(ValidationError::MessageMissingTo).message(),
        "invalid envelope: message envelopes require `to`"
    );
    assert_eq!(StoreError::Io("denied".to_string()).message(), "io: denied");
    assert_eq!(StoreError::Sqlite("boom".to_string()).message(), "sqlite: boom");
    assert_eq!(ValidationError::EmptyFrom.message(), "`from` is empty");
    let e: StoreError = ValidationError::EventHasTo.into();
    assert!(matches!(e, StoreError::InvalidEnvelope(ValidationError::EventHasTo)));
}

#[test]
fn busy_and_locked_databases_are_store_locked() {
    assert!(matches!(StoreError::from_sqlite(SqliteFault::Busy, "b".to_string()), StoreError::StoreLocked));
    assert!(matches!(StoreError::from_sqlite(SqliteFault::Locked, "l".to_string()), StoreError::StoreLocked));
    assert!(matches!(
        StoreError::from_sqlite(SqliteFault::Other, "disk I/O error".to_string()),
        StoreError::Sqlite(ref m) if m == "disk I/O error"
    ));
}

#[test]
fn invalid_ids_are_rejected() {
    let long = "x".repeat(129);
    for bad in ["", "a/b", "a b", long.as_str()] {
        assert!(matches!(check_instance_id(bad), Err(StoreError::InvalidInstanceId)));
        assert!(!valid_instance_id(bad));
        assert!(matches!(check_spool_id(bad), Err(StoreError::InvalidInstanceId)));
    }
    assert!(check_instance_id("alice").is_ok());
}

#[test]
fn nonpositive_pids_are_dead() {
    assert!(!pid_alive(0, KillProbe::Delivered));
    assert!(!pid_alive(-1, KillProbe::Delivered));
}

#[test]
fn kill_probe_decides_liveness() {
    assert!(pid_alive(42, KillProbe::Delivered));
    assert!(pid_alive(42, KillProbe::PermissionDenied));
    assert!(!pid_alive(42, KillProbe::Failed));
}

#[test]
fn reregister_same_pid_is_idempotent() {
    let mine = Some(ExistingRow { pid: Some(100), persistent: false });
    assert!(registration_verdict("alice", mine, true, Some(100)).is_ok());
}

#[test]
fn live_foreign_pid_collides_but_dead_or_persistent_rows_yield() {
    let foreign = Some(ExistingRow { pid: Some(200), persistent: false });
    assert!(matches!(
        registration_verdict("alice", foreign, true, Some(100)),
        Err(StoreError::InstanceIdTaken(ref id)) if id == "alice"
    ));
    assert!(registration_verdict("alice", foreign, false, Some(100)).is_ok());
    let persistent = Some(ExistingRow { pid: None, persistent: true });
    assert!(registration_verdict("alice", persistent, true, Some(100)).is_ok());
    assert!(registration_verdict("alice", None, true, Some(100)).is_ok());
}

#[test]
fn persistent_row_has_no_pid() {
    let p = RegisterOpts { persistent: true, on_delivery: Some("true".to_string()), pid: Some(7) };
    assert_eq!(registration_pid(&p, 100), None);
    let d = RegisterOpts::default();
    assert_eq!(registration_pid(&d, 100), Some(100));
    let given = RegisterOpts { persistent: false, on_delivery: None, pid: Some(7) };
    assert_eq!(registration_pid(&given, 100), Some(7));
    assert!(row_alive(true, None));
    assert!(!row_alive(false, None));
    assert!(row_alive(false, Some(true)));
    assert!(!row_alive(false, Some(false)));
}

#[test]
fn store_layout_paths() {
    assert_eq!(inbox_dir("/home/u/.agentbus"), "/home/u/.agentbus/inbox");
    assert_eq!(db_path("/home/u/.agentbus/"), "/home/u/.agentbus/bus.db");
    assert_eq!(inbox_path("/b", "alice"), "/b/inbox/alice.jsonl");
    assert_eq!(snapshot_path("/b", "alice", 4321), "/b/inbox/alice.processing.4321");
    assert_eq!(join_path("/b", "/abs"), "/abs");
    assert_eq!(join_path("", "x"), "x");
}

#[test]
fn publish_assigns_monotonic_seq() {
    let rows = vec![(1, Some(published("alice", 1))), (2, Some(published("alice", 2)))];
    let page = EventsPage::from_rows(0, rows, &EventFilter::default());
    assert_eq!(page.events.len(), 2);
    assert!(page.events[0].seq < page.events[1].seq);
    assert_eq!(page.cursor, page.events[1].seq);
}

#[test]
fn cursor_resumes_without_gap_or_duplicate() {
    let rows: Vec<(i64, Option<Envelope>)> = (1..=5).map(|i| (i, Some(published("alice", i)))).collect();
    let mut first_rows = Vec::new();
    let mut rest_rows = Vec::new();
    for (i, r) in rows.into_iter().enumerate() {
        if i < 2 { first_rows.push(r) } else { rest_rows.push(r) }
    }
    let first = EventsPage::from_rows(0, first_rows, &EventFilter::default());
    let rest = EventsPage::from_rows(first.cursor, rest_rows, &EventFilter::default());
    assert_eq!(first.events.len() + rest.events.len(), 5);
    let seqs: Vec<i64> = first.events.iter().chain(rest.events.iter()).map(|e| e.seq).collect();
    let mut deduped = seqs.clone();
    deduped.dedup();
    assert_eq!(seqs, deduped);
}

#[test]
fn filters_match_kind_and_instance() {
    let rows = || vec![(1, Some(published("alice", 1))), (2, Some(published("bob", 2)))];
    let alice_only = EventFilter { instance: Some("alice".to_string()), kind: None, to: None };
    let page = EventsPage::from_rows(0, rows(), &alice_only);
    assert_eq!(page.events.len(), 1);
    assert_eq!(page.events[0].envelope.from, "alice");
    assert_eq!(page.cursor, 2);
    let events_only = EventFilter { instance: None, kind: Some(Kind::Event), to: None };
    assert_eq!(EventsPage::from_rows(0, rows(), &events_only).events.len(), 2);
}

#[test]
fn to_filter_selects_addressed_envelopes() {
    let to_bob = EventFilter { instance: None, kind: None, to: Some("bob".to_string()) };
    let page = EventsPage::from_rows(0, vec![(1, Some(published("alice", 1)))], &to_bob);
    assert!(page.events.is_empty());
    let mut addressed = published("alice", 2);
    addressed.kind = Kind::Message;
    addressed.to = Some("bob".to_string());
    assert!(matches_filter(&to_bob, &addressed));
}

#[test]
fn unreadable_rows_advance_the_cursor_only() {
    let page = EventsPage::from_rows(3, vec![(4, None), (5, Some(published("a", 5))), (6, None)], &EventFilter::any());
    assert_eq!(page.events.len(), 1);
    assert_eq!(page.events[0].seq, 5);
    assert_eq!(page.cursor, 6);
    let none = EventsPage::from_rows(3, Vec::new(), &EventFilter::any());
    assert_eq!(none.cursor, 3);
}

#[test]
fn await_backs_off_and_gives_up_at_the_deadline() {
    assert_eq!(await_step(10, 0, 50), AwaitStep::Consume);
    assert_eq!(await_step(0, 0, 50), AwaitStep::GiveUp);
    assert_eq!(
        await_step(0, 1_000_000_000, 50_000_000),
        AwaitStep::Sleep { sleep_ns: 50_000_000, next_delay_ns: 100_000_000 }
    );
    assert_eq!(
        await_step(0, 1_000_000_000, 200_000_000),
        AwaitStep::Sleep { sleep_ns: 200_000_000, next_delay_ns: 250_000_000 }
    );
    assert_eq!(
        await_step(0, 10, 250_000_000),
        AwaitStep::Sleep { sleep_ns: 10, next_delay_ns: 250_000_000 }
    );
}

#[test]
fn sweep_defaults_and_decisions() {
    let o = SweepOpts::default();
    assert_eq!(o.grace_ms, 60_000);
    assert!(!o.purge_orphans);
    let r = SweepReport::empty();
    assert!(r.dead_instances.is_empty() && r.rehooked.is_empty());
    assert!(r.expired_asks.is_empty() && r.purged_inboxes.is_empty());
    let rows = vec![
        PidRow { id: "live".to_string(), pid: Some(10), probe: Some(KillProbe::Delivered) },
        PidRow { id: "gone".to_string(), pid: Some(11), probe: Some(KillProbe::Failed) },
        PidRow { id: "nopid".to_string(), pid: None, probe: None },
        PidRow { id: "zero".to_string(), pid: Some(0), probe: Some(KillProbe::Delivered) },
    ];
    let dead: Vec<String> = select_dead(rows).into_iter().map(|r| r.id).collect();
    assert_eq!(dead, vec!["gone", "nopid", "zero"]);
    assert!(ask_expired("2026-01-01T00:00:00Z", 1_767_225_600_000_000_000));
    assert!(!ask_expired("2026-01-01T00:00:00Z", 1_767_225_599_999_999_999));
    assert!(!ask_expired("garbage", i128::MAX));
    assert!(inbox_stale(3, Some(60_000), 60_000));
    assert!(!inbox_stale(3, Some(59_999), 60_000));
    assert!(!inbox_stale(0, Some(1_000_000), 60_000));
    assert!(!inbox_stale(3, None, 0));
}

#[test]
fn orphan_inboxes_are_files_of_unknown_ids() {
    let known = vec!["alice".to_string()];
    assert_eq!(orphan_inbox("bob.jsonl", &known), Some("bob".to_string()));
    assert_eq!(orphan_inbox("alice.jsonl", &known), None);
    assert_eq!(orphan_inbox("bob.processing.12", &known), None);
    assert_eq!(orphan_inbox("notes.txt", &known), None);
}

#[test]
fn hook_environment_and_wait_steps() {
    let mut e = published("alice", 1);
    e.kind = Kind::Message;
    let vars = delivery_hook_env("bob", &e);
    assert_eq!(vars[0], ("AGENTBUS_INSTANCE".to_string(), "bob".to_string()));
    assert_eq!(vars[1], ("AGENTBUS_ENVELOPE_ID".to_string(), "msg_1".to_string()));
    assert_eq!(vars[2], ("AGENTBUS_KIND".to_string(), "message".to_string()));
    assert_eq!(vars[3], ("AGENTBUS_FROM".to_string(), "alice".to_string()));
    assert_eq!(sweep_hook_env("bob"), vec![("AGENTBUS_INSTANCE".to_string(), "bob".to_string())]);
    let f = spawn_failed("not found");
    assert!(!f.ok);
    assert_eq!(f.detail, "spawn: not found");
    match hook_wait_step(ChildStatus::Exited { success: true, status: "exit status: 0".to_string() }, false) {
        HookStep::Finish(o) => assert!(o.ok && o.detail == "ok"),
        other => panic!("{other:?}"),
    }
    match hook_wait_step(ChildStatus::Exited { success: false, status: "exit status: 3".to_string() }, true) {
        HookStep::Finish(o) => assert!(!o.ok && o.detail == "exit: exit status: 3"),
        other => panic!("{other:?}"),
    }
    match hook_wait_step(ChildStatus::Running, true) {
        HookStep::KillThenFinish(o) => assert!(!o.ok && o.detail == "timeout"),
        other => panic!("{other:?}"),
    }
    assert!(matches!(hook_wait_step(ChildStatus::Running, false), HookStep::Sleep));
    match hook_wait_step(ChildStatus::WaitFailed("EINTR".to_string()), false) {
        HookStep::KillThenFinish(o) => assert!(!o.ok && o.detail == "wait: EINTR"),
        other => panic!("{other:?}"),
    }
}

#[test]
fn new_envelopes_are_stamped_and_validated() {
    let e = new_envelope(Kind::Message, "alice", Some("bob"), "{}".to_string());
    assert!(e.id.starts_with("msg_"));
    assert_eq!(e.to.as_deref(), Some("bob"));
    assert!(prepare_envelope(Kind::Event, "alice", None, "{}".to_string()).is_ok());
    assert!(matches!(
        prepare_envelope(Kind::Message, "alice", None, "{}".to_string()),
        Err(StoreError::InvalidEnvelope(ValidationError::MessageMissingTo))
    ));
    assert!(matches!(
        prepare_envelope(Kind::Event, "", None, "{}".to_string()),
        Err(StoreError::InvalidEnvelope(ValidationError::EmptyFrom))
    ));
}

#[test]
fn failed_hooks_are_recorded_as_events() {
    let ok = HookOutcome { ok: true, detail: "ok".to_string() };
    assert!(hook_failure_payload("bob", Some("msg_1"), &ok).is_none());
    let bad = HookOutcome { ok: false, detail: "exit: \"2\"".to_string() };
    assert_eq!(
        hook_failure_payload("bob", Some("msg_1"), &bad).unwrap(),
        "{\"detail\":\"exit: \\\"2\\\"\",\"envelope_id\":\"msg_1\",\"event\":\"bus.delivery_hook_failed\",\"instance\":\"bob\"}"
    );
    assert_eq!(
        hook_failure_payload("bob", None, &bad).unwrap(),
        "{\"detail\":\"exit: \\\"2\\\"\",\"envelope_id\":null,\"event\":\"bus.delivery_hook_failed\",\"instance\":\"bob\"}"
    );
}

#[test]
fn expired_asks_are_reported_by_request_id() {
    assert_eq!(
        agentbus::store::sweep::ask_expired_payload("msg_01"),
        "{\"event\":\"bus.ask_expired\",\"request_id\":\"msg_01\"}"
    );
}

#[test]
fn event_payloads_from_json_parts() {
    assert_eq!(
        agentbus::store::sweep::ask_expired_json("\"r1\""),
        "{\"event\":\"bus.ask_expired\",\"request_id\":\"r1\"}"
    );
    assert_eq!(
        agentbus::store::hook::hook_failure_json("\"timeout\"", "null", "\"bob\""),
        "{\"detail\":\"timeout\",\"envelope_id\":null,\"event\":\"bus.delivery_hook_failed\",\"instance\":\"bob\"}"
    );
    assert!(agentbus::store::sweep::expiry_reached(Some(5), 5));
    assert!(!agentbus::store::sweep::expiry_reached(Some(6), 5));
    assert!(!agentbus::store::sweep::expiry_reached(None, i128::MAX));
}
