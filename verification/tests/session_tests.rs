use clipboard_watcher::binding::{Binding, BindingTable};
use clipboard_watcher::cache::Cache;
use clipboard_watcher::config::{
    CacheCapacity, Config, EventPollInterval, HistoryCapacity, HistoryWidth, MaxLoc, OutputPath,
    WatcherInterval,
};
use clipboard_watcher::history::{Entry, History};
use clipboard_watcher::paragraph::{Paragraph, ParagraphPlacement};
use std::sync::Arc;
use clipboard_watcher::session::{collect, command, insert, Capture, Command, Insertion, Key};
use clipboard_watcher::watcher::Watcher;

fn snippet(content: &str, placement: ParagraphPlacement, flush: bool) -> Paragraph {
    Paragraph { content: Arc::new(content.to_string()), placement, flush, display: None }
}

#[test]
fn config_defaults() {
    let config = Config::default();
    assert_eq!(config.path(), "clipboard.md");
    assert_eq!(config.max_loc(), 1500);
    assert_eq!(config.poll_interval(), 25);
    assert_eq!(config.cache_capacity(), 100);
    assert_eq!(config.history_capacity(), 45);
    assert_eq!(config.history_width(), 80);
    assert_eq!(config.watcher_interval(), 10);
    assert!(config.bindings.get(0).is_none());
    assert!(config.filter.is_empty());
    assert!(config.replace.is_empty());
    assert!(config.regex.is_empty());
    assert!(config.invalid_patterns.is_empty());
    assert_eq!(OutputPath::default().0, "clipboard.md");
}

#[test]
fn parameters_are_never_zero() {
    assert!(MaxLoc::new(0).is_none());
    assert!(EventPollInterval::new(0).is_none());
    assert!(CacheCapacity::new(0).is_none());
    assert!(HistoryCapacity::new(0).is_none());
    assert!(HistoryWidth::new(0).is_none());
    assert!(WatcherInterval::new(0).is_none());
    assert_eq!(MaxLoc::new(3).unwrap().get(), 3);
    assert_eq!(EventPollInterval::new(4).unwrap().get(), 4);
    assert_eq!(CacheCapacity::new(5).unwrap().get(), 5);
    assert_eq!(HistoryCapacity::new(6).unwrap().get(), 6);
    assert_eq!(HistoryWidth::new(7).unwrap().get(), 7);
    assert_eq!(WatcherInterval::new(8).unwrap().get(), 8);
    assert_eq!(MaxLoc::default().get(), 1500);
    assert_eq!(EventPollInterval::default().get(), 25);
    assert_eq!(CacheCapacity::default().get(), 100);
    assert_eq!(HistoryCapacity::default().get(), 45);
    assert_eq!(HistoryWidth::default().get(), 80);
    assert_eq!(WatcherInterval::default().get(), 10);
}

#[test]
fn is_filtered_looks_for_any_filter_string() {
    let mut config = Config::default();
    assert!(!config.is_filtered("anything"));
    config.filter = vec!["secret".to_string(), "token".to_string()];
    assert!(config.is_filtered("my token here"));
    assert!(config.is_filtered("secret"));
    assert!(!config.is_filtered("tok en secre t"));
    assert!(!config.is_filtered(""));
}

#[test]
fn binding_table_keeps_the_later_of_two_bindings() {
    let table = BindingTable::from_bindings(&vec![
        Binding { key: 1, paragraph: snippet("one", ParagraphPlacement::After, false) },
        Binding { key: 2, paragraph: snippet("two", ParagraphPlacement::Before, true) },
        Binding { key: 1, paragraph: snippet("uno", ParagraphPlacement::Replace, false) },
    ]);
    let one = table.get(1).unwrap();
    assert_eq!(*one.content, "uno");
    assert_eq!(one.placement, ParagraphPlacement::Replace);
    let two = table.get(2).unwrap();
    assert_eq!(*two.content, "two");
    assert!(two.flush);
    assert!(table.get(3).is_none());
    assert!(BindingTable::default().get(1).is_none());
}

#[test]
fn paragraph_defaults_and_clone() {
    let p = Paragraph::new("text");
    assert_eq!(*p.content, "text");
    assert_eq!(p.placement, ParagraphPlacement::After);
    assert_eq!(ParagraphPlacement::default(), ParagraphPlacement::After);
    assert!(!p.flush);
    assert!(p.display.is_none());
    let mut q = snippet("s", ParagraphPlacement::Before, true);
    q.display = Some(Arc::new("shown".to_string()));
    let c = q.clone();
    assert_eq!(*c.content, "s");
    assert!(Arc::ptr_eq(&c.content, &q.content));
    assert_eq!(c.placement, ParagraphPlacement::Before);
    assert!(c.flush);
    assert_eq!(*c.display.unwrap(), "shown");
}

#[test]
fn filter_suppression() {
    let mut config = Config::default();
    config.filter = vec!["password".to_string()];
    let mut cache = Cache::new(&config, 0);
    let mut history = History::new(&config);
    assert_eq!(collect(&config, &mut cache, &mut history, "kept").unwrap(), Capture::Stored);
    let before = cache.write();
    assert_eq!(
        collect(&config, &mut cache, &mut history, "my password is x").unwrap(),
        Capture::Dropped
    );
    assert_eq!(cache.len(), 1);
    assert_eq!(cache.write(), before);
    assert_eq!(history.values().len(), 1);
    assert_eq!(collect(&config, &mut cache, &mut history, "next").unwrap(), Capture::Stored);
    assert!(matches!(history.values()[1], Entry::Raw(2, _)));
}

#[test]
fn collect_stores_in_cache_and_history() {
    let mut config = Config::default();
    config.cache_capacity = CacheCapacity::new(3).unwrap();
    let mut cache = Cache::new(&config, 0);
    let mut history = History::new(&config);
    assert!(collect(&config, &mut cache, &mut history, " x ").is_ok());
    assert!(collect(&config, &mut cache, &mut history, "y").is_ok());
    assert!(collect(&config, &mut cache, &mut history, "z").is_err());
    assert_eq!(cache.write().unwrap(), "\n\nx\n\ny");
    assert_eq!(history.values().len(), 2);
    cache.flushed(4);
    assert!(collect(&config, &mut cache, &mut history, "z").is_ok());
    assert_eq!(cache.write().unwrap(), "\n\nz");
    assert!(matches!(history.values()[2], Entry::Raw(3, _)));
}

#[test]
fn insert_places_the_bound_snippet_in_both() {
    let mut config = Config::default();
    config.cache_capacity = CacheCapacity::new(3).unwrap();
    config.bindings = BindingTable::from_bindings(&vec![
        Binding { key: 1, paragraph: snippet("S", ParagraphPlacement::Before, true) },
    ]);
    let mut cache = Cache::new(&config, 0);
    let mut history = History::new(&config);
    collect(&config, &mut cache, &mut history, "x").unwrap();
    assert_eq!(insert(&config, &mut cache, &mut history, 2).unwrap(), Insertion::Unbound);
    assert_eq!(cache.len(), 1);
    assert_eq!(
        insert(&config, &mut cache, &mut history, 1).unwrap(),
        Insertion::Placed { flush: true }
    );
    assert_eq!(cache.write().unwrap(), "S\n\nx");
    assert!(matches!(history.values()[0], Entry::Paragraph(_)));
    assert!(matches!(history.values()[1], Entry::Raw(2, _)));
    assert!(insert(&config, &mut cache, &mut history, 1).is_err());
    assert_eq!(cache.len(), 2);
    assert_eq!(history.values().len(), 2);
}

#[test]
fn command_of_each_key() {
    assert_eq!(command(Key::Char('f')), Command::Flush { clear_history: true });
    assert_eq!(command(Key::Char('w')), Command::Flush { clear_history: false });
    assert_eq!(command(Key::Char('q')), Command::FlushAndExit);
    assert_eq!(command(Key::Char('l')), Command::UpdateLoc);
    assert_eq!(command(Key::Char('p')), Command::WriteDefault);
    assert_eq!(command(Key::Char('x')), Command::Exit);
    assert_eq!(command(Key::Char('0')), Command::Insert(0));
    assert_eq!(command(Key::Char('7')), Command::Insert(7));
    assert_eq!(command(Key::Char('9')), Command::Insert(9));
    assert_eq!(command(Key::Char('a')), Command::Ignore);
    assert_eq!(command(Key::Char('/')), Command::Ignore);
    assert_eq!(command(Key::Char(':')), Command::Ignore);
    assert_eq!(command(Key::Backspace), Command::Pop);
    assert_eq!(command(Key::Delete), Command::Clear);
    assert_eq!(command(Key::Other), Command::Ignore);
}

#[test]
fn watcher_forwards_changed_readings_while_enabled() {
    let config = Config::default();
    let mut watcher = Watcher::new(Some("old".to_string()));
    assert_eq!(watcher.observe(&config, true, Some("old".to_string())), None);
    assert_eq!(watcher.observe(&config, true, None), None);
    assert_eq!(
        watcher.observe(&config, true, Some("new\n\ntext\0".to_string())),
        Some("new text".to_string())
    );
    assert_eq!(watcher.observe(&config, true, Some("new\n\ntext\0".to_string())), None);
}

#[test]
fn watcher_remembers_readings_while_disabled() {
    let config = Config::default();
    let mut watcher = Watcher::new(None);
    assert_eq!(watcher.observe(&config, true, Some(String::new())), None);
    assert_eq!(watcher.observe(&config, false, Some("stale".to_string())), None);
    assert_eq!(watcher.observe(&config, true, Some("stale".to_string())), None);
    assert_eq!(watcher.observe(&config, true, None), None);
    assert_eq!(watcher.observe(&config, true, Some("fresh".to_string())), Some("fresh".to_string()));
}
