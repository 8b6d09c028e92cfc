use agentbus::envelope::{Envelope, Kind};
use agentbus::eventlog::{check_line_size, replay_lines, replay_since, LogError};
use agentbus::lines::{split_lines, LineMode};

fn logged_at(ts: i128) -> Envelope {
    Envelope {
        id: format!("msg_{ts}"),
        kind: Kind::Event,
        from: "x".to_string(),
        to: None,
        request_id: None,
        timeout_ms: None,
        ts,
        payload: "{\"k\":\"v\"}".to_string(),
    }
}

#[test]
fn replay_reads_every_line_up_to_the_snapshot() {
    let content = b"{\"id\":\"a\"}\n{\"id\":\"b\"}\n";
    let off = content.len() as u64;
    let lines = replay_lines(content, off);
    assert_eq!(lines.len(), 2);
}

#[test]
fn replay_since_filters_old() {
    let e1 = logged_at(1_767_225_600_000_000_000); // 2026-01-01
    let e2 = logged_at(1_780_272_000_000_000_000); // 2026-06-01
    let since = Some(1_772_323_200_000_000_000); // 2026-03-01
    let replay = replay_since(vec![e1, e2], since);
    assert_eq!(replay.len(), 1);
    assert_eq!(replay[0].ts, 1_780_272_000_000_000_000);
}

#[test]
fn replay_hands_corrupt_lines_to_the_reader() {
    // Line splitting keeps the corrupt line for the reader to reject; the
    // snapshot offset bounds what is read.
    let content = b"not-json\n{\"id\":\"a\"}\n{\"id\":\"late\"}\n";
    let off = b"not-json\n{\"id\":\"a\"}\n".len() as u64;
    let lines = replay_lines(content, off);
    assert_eq!(lines, vec![b"not-json".to_vec(), b"{\"id\":\"a\"}".to_vec()]);
}

#[test]
fn replay_stops_at_the_snapshot_offset_mid_line() {
    let content = b"abc\ndef\nghi";
    assert_eq!(replay_lines(content, 6), vec![b"abc".to_vec(), b"de".to_vec()]);
    assert_eq!(replay_lines(content, 100), vec![b"abc".to_vec(), b"def".to_vec(), b"ghi".to_vec()]);
    assert!(replay_lines(content, 0).is_empty());
}

#[test]
fn replay_trims_carriage_returns_and_skips_blank_lines() {
    let content = b"a\r\r\n\n\r\nb\n";
    assert_eq!(replay_lines(content, 100), vec![b"a".to_vec(), b"b".to_vec()]);
}

#[test]
fn inbox_lines_trim_one_carriage_return() {
    let content = b"a\r\r\nb\r";
    assert_eq!(split_lines(LineMode::Inbox, content), vec![b"a\r".to_vec(), b"b\r".to_vec()]);
}

#[test]
fn replay_since_none_keeps_everything() {
    let out = replay_since(vec![logged_at(5), logged_at(1)], None);
    let ts: Vec<i128> = out.iter().map(|e| e.ts).collect();
    assert_eq!(ts, vec![5, 1]);
    let at = replay_since(vec![logged_at(5), logged_at(1), logged_at(9)], Some(5));
    let ts: Vec<i128> = at.iter().map(|e| e.ts).collect();
    assert_eq!(ts, vec![5, 9]);
}

#[test]
fn oversized_lines_are_refused() {
    assert!(check_line_size(100, 4196).is_ok());
    match check_line_size(100, 4197) {
        Err(LogError::PayloadTooLarge { max }) => assert_eq!(max, 100),
        other => panic!("unexpected {other:?}"),
    }
    assert_eq!(LogError::PayloadTooLarge { max: 65536 }.message(), "payload exceeds max size 65536 bytes");
    assert_eq!(LogError::Io("disk full".to_string()).message(), "io: disk full");
}
