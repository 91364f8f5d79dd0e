use relaybot::edit::{quoted, SedCommand};

#[test]
fn sed_with_two_pieces_replaces_first() {
    let c = SedCommand::parse("s/cat/dog").unwrap();
    assert_eq!(c.pattern(), "cat");
    assert_eq!(c.replacement(), "dog");
    assert!(!c.is_global());
    assert_eq!(c.apply("cat cat"), "<blockquote>dog cat</blockquote>");
}

#[test]
fn sed_with_g_flag_replaces_all() {
    let c = SedCommand::parse("s/a/b/g").unwrap();
    assert!(c.is_global());
    assert_eq!(c.apply("banana"), "<blockquote>bbnbnb</blockquote>");
    let d = SedCommand::parse("s/a/b/i").unwrap();
    assert!(!d.is_global());
    assert_eq!(d.apply("banana"), "<blockquote>bbnana</blockquote>");
}

#[test]
fn sed_with_wrong_piece_count_is_refused() {
    assert!(SedCommand::parse("s/a").is_none());
    assert!(SedCommand::parse("s/a/b/g/x").is_none());
    assert!(SedCommand::parse("plain").is_none());
    let empty = SedCommand::parse("s//").unwrap();
    assert_eq!(empty.pattern(), "");
    assert_eq!(empty.replacement(), "");
}

#[test]
fn quoting() {
    assert_eq!(quoted("x < y"), "<blockquote>x < y</blockquote>");
}
