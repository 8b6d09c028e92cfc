use agentbus::ids::{new_envelope_id, now_utc, parse_rfc3339};

#[test]
fn id_has_prefix_and_is_unique() {
    let a = new_envelope_id();
    let b = new_envelope_id();
    assert!(a.starts_with("msg_"));
    assert_ne!(a, b);
}

#[test]
fn id_is_prefix_and_crockford_ulid() {
    let a = new_envelope_id();
    assert_eq!(a.len(), 30);
    let alphabet = "0123456789ABCDEFGHJKMNPQRSTVWXYZ";
    assert!(a[4..].chars().all(|c| alphabet.contains(c)));
}

#[test]
fn parse_known_timestamp() {
    let t = parse_rfc3339("2026-05-21T08:00:00Z").unwrap();
    assert_eq!(t, 1_779_350_400_000_000_000);
}

#[test]
fn parse_rejects_non_rfc3339_text() {
    assert!(parse_rfc3339("yesterday").is_err());
    assert!(parse_rfc3339("2026-05-21").is_err());
}

#[test]
fn parse_keeps_offsets_and_fractions() {
    let t = parse_rfc3339("2026-05-21T10:00:00.5+02:00").unwrap();
    assert_eq!(t, 1_779_350_400_500_000_000);
}

#[test]
fn now_is_after_a_known_instant() {
    let then = parse_rfc3339("2024-01-01T00:00:00Z").unwrap();
    assert!(now_utc() > then);
}

#[test]
fn now_is_utc() {
    let system = std::time::SystemTime::now()
        .duration_since(std::time::UNIX_EPOCH)
        .unwrap()
        .as_nanos() as i128;
    let t = now_utc();
    assert!((t - system).abs() < 60_000_000_000);
}
