use linenoise::{History, DEFAULT_HISTORY_MAX_LEN};

fn entries(h: &History) -> Vec<String> {
    h.entries.iter().cloned().collect()
}

#[test]
fn new_history_is_empty() {
    let h = History::new();
    assert_eq!(h.len(), 0);
    assert_eq!(h.max_len, DEFAULT_HISTORY_MAX_LEN);
    assert_eq!(h.get(1), None);
}

#[test]
fn same_line_twice_is_kept_once() {
    let mut h = History::new();
    assert!(h.add("ls"));
    assert!(!h.add("ls"));
    assert_eq!(h.len(), 1);
    assert!(h.add("pwd"));
    assert!(h.add("ls"));
    assert_eq!(entries(&h), vec!["ls", "pwd", "ls"]);
}

#[test]
fn empty_line_is_not_added() {
    let mut h = History::new();
    assert!(!h.add(""));
    assert_eq!(h.len(), 0);
}

#[test]
fn adding_past_the_bound_evicts_the_oldest() {
    let mut h = History::new();
    assert!(h.set_max_len(3));
    for l in ["a", "b", "c", "d"] {
        assert!(h.add(l));
    }
    assert_eq!(entries(&h), vec!["b", "c", "d"]);
    assert!(h.add("e"));
    assert_eq!(entries(&h), vec!["c", "d", "e"]);
}

#[test]
fn smaller_bound_keeps_newest() {
    let mut h = History::new();
    for l in ["1", "2", "3", "4", "5"] {
        h.add(l);
    }
    assert!(h.set_max_len(2));
    assert_eq!(entries(&h), vec!["4", "5"]);
    assert_eq!(h.max_len, 2);
    assert!(h.set_max_len(10));
    assert_eq!(entries(&h), vec!["4", "5"]);
}

#[test]
fn zero_bound_is_refused() {
    let mut h = History::new();
    h.add("x");
    assert!(!h.set_max_len(0));
    assert_eq!(h.max_len, DEFAULT_HISTORY_MAX_LEN);
    assert_eq!(entries(&h), vec!["x"]);
}

#[test]
fn get_counts_back_from_newest() {
    let mut h = History::new();
    h.add("old");
    h.add("mid");
    h.add("new");
    assert_eq!(h.get(0), None);
    assert_eq!(h.get(1), Some("new"));
    assert_eq!(h.get(3), Some("old"));
    assert_eq!(h.get(4), None);
    assert_eq!(h.get(usize::MAX), None);
}
