use feed_reader::read_state::ReadState;

#[test]
fn mark_read_twice_returns_true_then_false() {
    let mut state = ReadState::new();
    assert!(!state.is_read("http://example.org/1"));
    assert!(state.mark_read("http://example.org/1"));
    assert!(state.is_read("http://example.org/1"));
    assert!(!state.mark_read("http://example.org/1"));
    assert!(state.is_read("http://example.org/1"));
    assert_eq!(state.len(), 1);
}

#[test]
fn mark_read_leaves_other_links_alone() {
    let mut state = ReadState::new();
    assert!(state.mark_read("a"));
    assert!(state.mark_read("b"));
    assert!(state.is_read("a"));
    assert!(state.is_read("b"));
    assert!(!state.is_read("c"));
    assert!(!state.is_read(""));
    assert_eq!(state.len(), 2);
}

#[test]
fn new_state_is_empty() {
    let state = ReadState::new();
    assert_eq!(state.len(), 0);
    assert!(!state.is_read("anything"));
}

#[test]
fn from_links_drops_repetitions() {
    let list = vec!["b".to_string(), "a".to_string(), "b".to_string(), "c".to_string()];
    let state = ReadState::from_links(&list);
    assert_eq!(state.len(), 3);
    assert!(state.is_read("a") && state.is_read("b") && state.is_read("c"));
    let again = ReadState::from_text(&state.to_text());
    assert_eq!(again.to_text(), state.to_text());
}

#[test]
fn text_form_round_trips() {
    let mut state = ReadState::new();
    state.mark_read("http://example.org/2");
    state.mark_read("http://example.org/1");
    state.mark_read("with \"quotes\" and \\ and \u{3042}");
    let text = state.to_text();
    let back = ReadState::from_text(&text);
    assert_eq!(back.len(), 3);
    assert!(back.is_read("http://example.org/1"));
    assert!(back.is_read("http://example.org/2"));
    assert!(back.is_read("with \"quotes\" and \\ and \u{3042}"));
    assert!(!back.is_read("http://example.org/3"));
    assert_eq!(back.to_text(), text);
}

#[test]
fn text_form_of_the_empty_state() {
    let text = ReadState::new().to_text();
    assert_eq!(text, "[]");
    assert_eq!(ReadState::from_text(&text).len(), 0);
}

#[test]
fn text_form_lists_links_in_marking_order() {
    let mut state = ReadState::new();
    state.mark_read("z");
    state.mark_read("a");
    state.mark_read("z");
    assert_eq!(state.to_text(), "[\n  \"z\",\n  \"a\"\n]");
}

#[test]
fn from_text_reads_a_list_of_strings() {
    let state = ReadState::from_text("[\"x\", \"y\", \"x\"]");
    assert_eq!(state.len(), 2);
    assert!(state.is_read("x"));
    assert!(state.is_read("y"));
}

#[test]
fn from_text_degrades_to_empty_on_corrupt_text() {
    assert_eq!(ReadState::from_text("").len(), 0);
    assert_eq!(ReadState::from_text("not json").len(), 0);
    assert_eq!(ReadState::from_text("[\"unterminated").len(), 0);
    assert_eq!(ReadState::from_text("{\"a\": 1}").len(), 0);
    assert_eq!(ReadState::from_text("[1, 2, 3]").len(), 0);
    assert_eq!(ReadState::from_text("[\"a\"] trailing").len(), 0);
}
