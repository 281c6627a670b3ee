use gemview::history::History;

#[test]
fn starts_at_about_blank() {
    let history = History::default();
    assert_eq!(history.uri, "about:blank");
    assert!(!history.has_previous());
    assert!(!history.has_next());
}

#[test]
fn back_and_forward() {
    // starting at about:blank, append "a" then "b"; previous() yields "a"
    // and moves "b" to the forward stack; next() returns "b"
    let mut history = History::default();
    history.append("a".to_string());
    history.append("b".to_string());
    assert_eq!(history.uri, "b");
    assert!(history.has_previous());
    assert_eq!(history.previous(), Some("a".to_string()));
    assert_eq!(history.uri, "a");
    assert!(history.has_next());
    assert_eq!(history.forward, vec!["b".to_string()]);
    assert_eq!(history.next(), Some("b".to_string()));
    assert_eq!(history.uri, "b");
    assert!(!history.has_next());
}

#[test]
fn append_same_uri_is_noop() {
    let mut history = History::default();
    history.append("a".to_string());
    let back_before = history.back.clone();
    history.append("a".to_string());
    assert_eq!(history.back, back_before);
    assert_eq!(history.uri, "a");
}

#[test]
fn append_clears_forward() {
    let mut history = History::default();
    history.append("a".to_string());
    history.append("b".to_string());
    history.previous();
    assert!(history.has_next());
    history.append("c".to_string());
    assert!(!history.has_next());
    assert_eq!(history.uri, "c");
}

#[test]
fn previous_on_empty_history() {
    let mut history = History::default();
    assert_eq!(history.previous(), None);
    assert_eq!(history.next(), None);
    assert_eq!(history.uri, "about:blank");
}
