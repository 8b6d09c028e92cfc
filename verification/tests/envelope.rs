use agentbus::cli::{parse_kind, stream_step, sweep_opts};
use agentbus::envelope::{Envelope, Kind, ValidationError};
use agentbus::store::events::EventsPage;

fn sample(kind: Kind) -> Envelope {
    Envelope {
        id: "msg_01".to_string(),
        kind,
        from: "alice".to_string(),
        to: Some("bob".to_string()),
        request_id: None,
        timeout_ms: None,
        ts: 1_779_350_400_000_000_000,
        payload: "{\"hello\":\"world\"}".to_string(),
    }
}

#[test]
fn validation_message_requires_to() {
    let mut env = sample(Kind::Message);
    env.to = None;
    assert!(matches!(env.validate(), Err(ValidationError::MessageMissingTo)));
}

#[test]
fn validation_event_rejects_to() {
    let env = sample(Kind::Event);
    assert!(matches!(env.validate(), Err(ValidationError::EventHasTo)));
}

#[test]
fn validation_reply_requires_request_id() {
    let mut env = sample(Kind::Reply);
    env.request_id = None;
    assert!(matches!(env.validate(), Err(ValidationError::ReplyMissingFields)));
}

#[test]
fn kind_as_str_roundtrips_with_fromstr() {
    for kind in [Kind::Message, Kind::Ask, Kind::Reply, Kind::Event] {
        assert_eq!(kind.as_str().parse::<Kind>().unwrap(), kind);
    }
}

#[test]
fn kind_fromstr_rejects_unknown() {
    assert!("bogus".parse::<Kind>().is_err());
}

#[test]
fn kind_names_are_the_wire_names() {
    assert_eq!(Kind::Message.as_str(), "message");
    assert_eq!(Kind::Ask.as_str(), "ask");
    assert_eq!(Kind::Reply.as_str(), "reply");
    assert_eq!(Kind::Event.as_str(), "event");
}

#[test]
fn unknown_kind_message_quotes_the_text() {
    assert_eq!(Kind::from_text("bogus").unwrap_err(), "unknown kind `bogus`");
    assert_eq!(Kind::from_text("Message").unwrap_err(), "unknown kind `Message`");
    assert_eq!(Kind::parse("ask"), Some(Kind::Ask));
    assert_eq!(Kind::parse(""), None);
}

#[test]
fn valid_envelopes_of_each_kind_pass() {
    assert!(sample(Kind::Message).validate().is_ok());
    assert!(sample(Kind::Ask).validate().is_ok());
    let mut reply = sample(Kind::Reply);
    reply.request_id = Some("msg_00".to_string());
    assert!(reply.validate().is_ok());
    let mut event = sample(Kind::Event);
    event.to = None;
    assert!(event.validate().is_ok());
}

#[test]
fn validation_checks_id_then_from_first() {
    let mut env = sample(Kind::Event);
    env.id = String::new();
    env.from = String::new();
    assert!(matches!(env.validate(), Err(ValidationError::EmptyId)));
    env.id = "x".to_string();
    assert!(matches!(env.validate(), Err(ValidationError::EmptyFrom)));
    let mut ask = sample(Kind::Ask);
    ask.to = None;
    assert!(matches!(ask.validate(), Err(ValidationError::AskMissingTo)));
}

#[test]
fn duplicate_copies_every_field() {
    let mut env = sample(Kind::Reply);
    env.request_id = Some("r".to_string());
    env.timeout_ms = Some(5);
    let d = env.duplicate();
    assert_eq!(d.id, env.id);
    assert_eq!(d.kind, env.kind);
    assert_eq!(d.from, env.from);
    assert_eq!(d.to, env.to);
    assert_eq!(d.request_id, env.request_id);
    assert_eq!(d.timeout_ms, env.timeout_ms);
    assert_eq!(d.ts, env.ts);
    assert_eq!(d.payload, env.payload);
}

#[test]
fn parse_kind_argument() {
    assert_eq!(parse_kind(None), Ok(None));
    assert_eq!(parse_kind(Some("event")), Ok(Some(Kind::Event)));
    assert_eq!(parse_kind(Some("reply")), Ok(Some(Kind::Reply)));
    assert_eq!(parse_kind(Some("nope")), Err("unknown kind `nope`".to_string()));
}

#[test]
fn stream_step_reports_drained_only_when_nothing_moved() {
    let empty = EventsPage { events: Vec::new(), cursor: 7 };
    assert_eq!(stream_step(7, &empty), (7, true));
    let skipped = EventsPage { events: Vec::new(), cursor: 9 };
    assert_eq!(stream_step(7, &skipped), (9, false));
}

#[test]
fn sweep_grace_is_taken_in_milliseconds() {
    let o = sweep_opts(true, 60);
    assert_eq!(o.grace_ms, 60_000);
    assert!(o.purge_orphans);
    assert_eq!(sweep_opts(false, u64::MAX).grace_ms, u64::MAX);
}
