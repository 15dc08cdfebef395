use webterm::history::History;

#[test]
fn push_then_nav_back_returns_pushed() {
    let mut h = History::new();
    h.push("ls".to_string());
    assert_eq!(h.nav_back(), Some("ls".to_string()));
}

#[test]
fn nav_back_past_oldest_returns_nothing() {
    let mut h = History::new();
    h.push("ls".to_string());
    assert_eq!(h.nav_back(), Some("ls".to_string()));
    assert_eq!(h.nav_back(), None);
}

#[test]
fn nav_front_from_the_bottom_returns_nothing() {
    let mut h = History::new();
    h.push("ls".to_string());
    assert_eq!(h.nav_front(), None);
}

#[test]
fn nav_front_walks_forward_and_runs_out() {
    let mut h = History::new();
    h.push("one".to_string());
    h.push("two".to_string());
    assert_eq!(h.nav_back(), Some("two".to_string()));
    assert_eq!(h.nav_back(), Some("one".to_string()));
    assert_eq!(h.nav_front(), Some("two".to_string()));
    // stepping forward again lands on "nothing recalled"
    assert_eq!(h.nav_front(), None);
}

#[test]
fn push_resets_cursor_to_end() {
    let mut h = History::new();
    h.push("one".to_string());
    assert_eq!(h.nav_back(), Some("one".to_string()));
    h.push("two".to_string());
    // the cursor is back at the end: one step back yields the newest entry
    assert_eq!(h.nav_back(), Some("two".to_string()));
}

#[test]
fn push_keeps_duplicates() {
    let mut h = History::new();
    h.push("ls".to_string());
    h.push("ls".to_string());
    assert_eq!(h.entries().len(), 2);
}

#[test]
fn clear_empties_entries_and_resets_recall() {
    let mut h = History::new();
    h.push("ls".to_string());
    h.push("pwd".to_string());
    h.clear();
    assert!(h.entries().is_empty());
    assert_eq!(h.nav_back(), None);
    assert_eq!(h.nav_front(), None);
}

#[test]
fn with_entries_seeds_log_and_cursor() {
    let mut h = History::with_entries(vec!["a".to_string(), "b".to_string()]);
    assert_eq!(h.entries(), &vec!["a".to_string(), "b".to_string()]);
    assert_eq!(h.nav_back(), Some("b".to_string()));
}
