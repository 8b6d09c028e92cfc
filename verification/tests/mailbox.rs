use agentbus::envelope::{Envelope, Kind};
use agentbus::mailbox::{Mailbox, RecvError};

fn letter(id: &str) -> Envelope {
    Envelope {
        id: id.to_string(),
        kind: Kind::Message,
        from: "a".to_string(),
        to: Some("b".to_string()),
        request_id: None,
        timeout_ms: None,
        ts: 1_779_350_400_000_000_000,
        payload: "{}".to_string(),
    }
}

fn popped_id(m: &mut Mailbox) -> String {
    m.pop().unwrap().unwrap().id
}

#[test]
fn push_pop_fifo() {
    let mut m = Mailbox::new(4);
    m.push(letter("1"));
    m.push(letter("2"));
    assert_eq!(popped_id(&mut m), "1");
    assert_eq!(popped_id(&mut m), "2");
}

#[test]
fn overflow_drops_oldest() {
    let mut m = Mailbox::new(2);
    assert!(m.push(letter("1")).dropped.is_none());
    assert!(m.push(letter("2")).dropped.is_none());
    let p = m.push(letter("3"));
    assert_eq!(p.dropped.as_deref(), Some("1"));
    assert_eq!(popped_id(&mut m), "2");
    assert_eq!(popped_id(&mut m), "3");
}

#[test]
fn close_unblocks_pop_with_error() {
    let mut m = Mailbox::new(2);
    m.close();
    assert!(matches!(m.pop(), Some(Err(RecvError::Closed))));
}

#[test]
fn empty_open_mailbox_makes_the_receiver_wait() {
    let mut m = Mailbox::new(2);
    assert!(m.pop().is_none());
    assert_eq!(m.len(), 0);
}

#[test]
fn closed_mailbox_still_hands_out_what_it_holds() {
    let mut m = Mailbox::new(3);
    m.push(letter("a"));
    m.close();
    assert!(m.is_closed());
    assert_eq!(popped_id(&mut m), "a");
    assert!(matches!(m.pop(), Some(Err(RecvError::Closed))));
}

#[test]
fn drain_takes_everything_oldest_first() {
    let mut m = Mailbox::new(3);
    for id in ["x", "y", "z", "w"] {
        m.push(letter(id));
    }
    let ids: Vec<String> = m.drain().into_iter().map(|e| e.id).collect();
    assert_eq!(ids, vec!["y", "z", "w"]);
    assert_eq!(m.len(), 0);
    assert_eq!(m.capacity(), 3);
}

#[test]
fn many_pushes_keep_the_newest_capacity_envelopes() {
    let mut m = Mailbox::new(5);
    let mut dropped = 0;
    for i in 0..100 {
        if m.push(letter(&format!("m{i}"))).dropped.is_some() {
            dropped += 1;
        }
    }
    assert_eq!(dropped, 95);
    let ids: Vec<String> = m.drain().into_iter().map(|e| e.id).collect();
    assert_eq!(ids, vec!["m95", "m96", "m97", "m98", "m99"]);
}
