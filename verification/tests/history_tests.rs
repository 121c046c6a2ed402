use clipboard_watcher::config::{Config, HistoryCapacity, HistoryWidth};
use clipboard_watcher::history::{Entry, History, Row, FIRST_ID};
use clipboard_watcher::paragraph::{Paragraph, ParagraphPlacement};
use std::sync::Arc;

fn config_with(capacity: usize, width: usize, markers: &[&str]) -> Config {
    let mut config = Config::default();
    config.history_capacity = HistoryCapacity::new(capacity).unwrap();
    config.history_width = HistoryWidth::new(width).unwrap();
    config.invalid_patterns = markers.iter().map(|m| Arc::new(m.to_string())).collect();
    config
}

fn snippet(content: &str, placement: ParagraphPlacement) -> Paragraph {
    Paragraph { content: Arc::new(content.to_string()), placement, flush: false, display: None }
}

fn show(history: &History) -> Vec<String> {
    history
        .values()
        .iter()
        .map(|entry| match entry {
            Entry::Paragraph(p) => format!("P:{}", p.content),
            Entry::Raw(id, text) => format!("{}:{}", id, text),
            Entry::InvalidPattern(pattern) => format!("!{}", pattern),
        })
        .collect()
}

fn ids(history: &History) -> Vec<u32> {
    history
        .values()
        .iter()
        .filter_map(|entry| match entry {
            Entry::Raw(id, _) => Some(*id),
            _ => None,
        })
        .collect()
}

#[test]
fn entry_raw_holds_identifier_and_text() {
    assert!(matches!(Entry::raw(4, "text"), Entry::Raw(4, text) if text == "text"));
}

#[test]
fn new_history_is_empty() {
    let history = History::new(&config_with(3, 10, &[]));
    assert_eq!(history.values().len(), 0);
    assert_eq!(FIRST_ID, 1);
}

#[test]
fn raw_numbers_from_one_and_cuts_for_display() {
    let mut history = History::new(&config_with(5, 4, &[]));
    history.raw("  hello world ");
    history.raw("ab");
    assert_eq!(show(&history), vec!["1:hell", "2:ab"]);
}

#[test]
fn raw_flags_each_marker_that_the_text_holds() {
    let mut history = History::new(&config_with(10, 3, &["draft", "zzz", "void"]));
    history.raw("see void and draft");
    history.raw("clean");
    assert_eq!(show(&history), vec!["1:see", "!draft", "!void", "2:cle"]);
}

#[test]
fn history_eviction() {
    for capacity in 1..6usize {
        for k in 0..5usize {
            let mut history = History::new(&config_with(capacity, 80, &[]));
            for n in 0..capacity + k {
                history.raw(&format!("t{}", n + 1));
                assert!(history.values().len() <= capacity);
            }
            assert_eq!(history.values().len(), capacity);
            let expected: Vec<String> =
                (k + 1..=capacity + k).map(|n| format!("{}:t{}", n, n)).collect();
            assert_eq!(show(&history), expected);
            let kept = ids(&history);
            assert!(kept.windows(2).all(|w| w[0] < w[1]));
        }
    }
}

#[test]
fn eviction_makes_room_for_flags_too() {
    let mut history = History::new(&config_with(2, 80, &["a", "b"]));
    history.raw("x");
    history.raw("ab");
    assert_eq!(show(&history), vec!["!a", "!b"]);
    let mut single = History::new(&config_with(1, 80, &["a"]));
    single.raw("a");
    assert_eq!(show(&single), vec!["!a"]);
}

#[test]
fn identifier_rollback() {
    let mut history = History::new(&config_with(5, 80, &[]));
    history.raw("first");
    history.raw("second");
    assert_eq!(ids(&history), vec![1, 2]);
    let popped = history.pop();
    assert!(matches!(popped, Some(Entry::Raw(2, _))));
    history.raw("third");
    assert_eq!(show(&history), vec!["1:first", "2:third"]);
}

#[test]
fn pop_of_other_entries_keeps_the_counter() {
    let mut history = History::new(&config_with(5, 80, &["bad"]));
    history.raw("bad text");
    assert!(matches!(history.pop(), Some(Entry::InvalidPattern(_))));
    history.paragraph(&snippet("S", ParagraphPlacement::After));
    assert!(matches!(history.pop(), Some(Entry::Paragraph(_))));
    history.raw("next");
    assert_eq!(show(&history), vec!["1:bad text", "2:next"]);
}

#[test]
fn pop_of_empty_history() {
    let mut history = History::new(&config_with(5, 80, &[]));
    assert!(history.pop().is_none());
    history.raw("a");
    assert_eq!(ids(&history), vec![1]);
    history.pop();
    assert!(history.pop().is_none());
    history.raw("b");
    assert_eq!(ids(&history), vec![1]);
}

#[test]
fn history_placement_after() {
    let mut history = History::new(&config_with(5, 80, &[]));
    history.raw("a");
    history.paragraph(&snippet("S", ParagraphPlacement::After));
    assert_eq!(show(&history), vec!["1:a", "P:S"]);
}

#[test]
fn history_placement_replace_gives_the_identifier_back() {
    let mut history = History::new(&config_with(5, 80, &[]));
    history.raw("a");
    history.raw("b");
    history.paragraph(&snippet("S", ParagraphPlacement::Replace));
    assert_eq!(show(&history), vec!["1:a", "P:S"]);
    history.raw("c");
    assert_eq!(show(&history), vec!["1:a", "P:S", "2:c"]);
}

#[test]
fn history_placement_before_renumbers_a_capture() {
    let mut history = History::new(&config_with(5, 80, &[]));
    history.raw("a");
    history.raw("b");
    history.paragraph(&snippet("S", ParagraphPlacement::Before));
    assert_eq!(show(&history), vec!["1:a", "P:S", "3:b"]);
    history.raw("c");
    assert_eq!(show(&history), vec!["1:a", "P:S", "3:b", "4:c"]);
    let kept = ids(&history);
    assert!(kept.windows(2).all(|w| w[0] < w[1]));
}

#[test]
fn history_placement_before_puts_other_entries_back() {
    let mut history = History::new(&config_with(5, 80, &[]));
    history.paragraph(&snippet("A", ParagraphPlacement::After));
    history.paragraph(&snippet("B", ParagraphPlacement::Before));
    assert_eq!(show(&history), vec!["P:B", "P:A"]);
    let mut empty = History::new(&config_with(5, 80, &[]));
    empty.paragraph(&snippet("B", ParagraphPlacement::Before));
    assert_eq!(show(&empty), vec!["P:B"]);
}

#[test]
fn history_placement_before_captures_the_stored_text_again() {
    let mut history = History::new(&config_with(5, 3, &["abcd", "ab"]));
    history.raw("abcd ");
    assert_eq!(show(&history), vec!["1:abc", "!abcd", "!ab"]);
    history.pop();
    history.pop();
    history.paragraph(&snippet("S", ParagraphPlacement::Before));
    assert_eq!(show(&history), vec!["P:S", "2:abc", "!ab"]);
}

#[test]
fn history_placement_evicts_first() {
    let mut history = History::new(&config_with(2, 80, &[]));
    history.raw("a");
    history.raw("b");
    history.paragraph(&snippet("S", ParagraphPlacement::After));
    assert_eq!(show(&history), vec!["2:b", "P:S"]);
    history.paragraph(&snippet("T", ParagraphPlacement::Before));
    assert_eq!(show(&history), vec!["P:T", "P:S"]);
    history.paragraph(&snippet("U", ParagraphPlacement::Replace));
    assert_eq!(show(&history), vec!["P:U"]);
}

#[test]
fn clear_keeps_the_identifier_counter() {
    let mut history = History::new(&config_with(5, 80, &[]));
    history.raw("a");
    history.raw("b");
    history.clear();
    assert_eq!(history.values().len(), 0);
    assert!(history.pop().is_none());
    history.raw("c");
    assert_eq!(show(&history), vec!["3:c"]);
    history.clear();
    history.clear();
    history.raw("d");
    assert_eq!(show(&history), vec!["4:d"]);
}

#[test]
fn check_capacity_leaves_room_for_one() {
    let mut history = History::new(&config_with(2, 80, &[]));
    history.raw("a");
    history.check_capacity();
    assert_eq!(show(&history), vec!["1:a"]);
    history.raw("b");
    history.check_capacity();
    assert_eq!(show(&history), vec!["2:b"]);
}

#[test]
fn row_cuts_display_text_on_reading() {
    let history = History::new(&config_with(5, 4, &[]));
    let mut s = snippet("content", ParagraphPlacement::After);
    assert!(matches!(history.row(&Entry::Paragraph(s.clone())), Row::Rule(4)));
    s.display = Some(Arc::new("  heading line ".to_string()));
    match history.row(&Entry::Paragraph(s)) {
        Row::Snippet(text) => assert_eq!(text, "head"),
        _ => panic!("expected a snippet row"),
    }
    match history.row(&Entry::Raw(2, "text".to_string())) {
        Row::Capture { id, even, text } => {
            assert_eq!(id, 2);
            assert!(even);
            assert_eq!(text, "text");
        }
        _ => panic!("expected a capture row"),
    }
    assert!(matches!(history.row(&Entry::Raw(3, String::new())), Row::Capture { even: false, .. }));
    match history.row(&Entry::InvalidPattern(Arc::new("bad".to_string()))) {
        Row::Invalid(pattern) => assert_eq!(*pattern, "bad"),
        _ => panic!("expected a flag row"),
    }
}

#[test]
fn history_invariants_under_mixed_operations() {
    for capacity in 1..6usize {
        let mut history = History::new(&config_with(capacity, 6, &["e", "rr"]));
        let mut seed: u32 = 7;
        for step in 0..400u32 {
            seed = seed.wrapping_mul(1103515245).wrapping_add(12345);
            match (seed >> 16) % 6 {
                0 | 1 => history.raw(&format!("text {} err", step)),
                2 => history.paragraph(&snippet("A", ParagraphPlacement::After)),
                3 => history.paragraph(&snippet("B", ParagraphPlacement::Before)),
                4 => history.paragraph(&snippet("C", ParagraphPlacement::Replace)),
                _ => {
                    history.pop();
                }
            }
            assert!(history.values().len() <= capacity);
            let kept = ids(&history);
            assert!(kept.iter().all(|id| *id >= 1));
            assert!(kept.windows(2).all(|w| w[0] < w[1]), "{:?}", show(&history));
        }
    }
}
