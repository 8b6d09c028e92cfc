use agentbus::instructions::{text, Level, FULL, MINIMAL};

#[test]
fn parse_accepts_the_three_levels_and_rejects_junk() {
    assert_eq!(Level::parse("none"), Some(Level::Off));
    assert_eq!(Level::parse("minimal"), Some(Level::Minimal));
    assert_eq!(Level::parse("full"), Some(Level::Full));
    assert_eq!(Level::parse("FULL"), None);
    assert_eq!(Level::parse(""), None);
}

#[test]
fn none_yields_no_text_and_others_teach_the_reply_rule() {
    assert!(text(Level::Off).is_none());
    for level in [Level::Minimal, Level::Full] {
        let t = text(level).unwrap();
        assert!(t.contains("ask envelope's id"), "{level:?}: {t}");
    }
}

#[test]
fn levels_give_their_own_text() {
    assert_eq!(text(Level::Minimal), Some(MINIMAL));
    assert_eq!(text(Level::Full), Some(FULL));
}
