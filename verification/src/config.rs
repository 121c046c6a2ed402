//! The configuration: tunable parameters, transform rules and bindings.

use crate::binding::BindingTable;
use crate::regex::Regex;
use crate::text::{chars_of, contains, contains_seq};
use std::sync::Arc;
use vstd::prelude::*;

verus! {

/// Line count of the output file from which the line counter is shown as full. Never zero.
#[derive(Clone, Copy, Debug)]
pub struct MaxLoc(usize);

impl MaxLoc {
    #[verifier::type_invariant]
    spec fn positive(self) -> bool {
        self.0 > 0
    }

    /// The number held.
    pub closed spec fn value(self) -> usize {
        self.0
    }

    /// Holds `value`, unless it is zero.
    pub fn new(value: usize) -> (r: Option<Self>)
        ensures
            value == 0 ==> r is None,
            value > 0 ==> r is Some && r->0.value() == value,
    {
        if value == 0 {
            None
        } else {
            Some(MaxLoc(value))
        }
    }

    /// The number held.
    pub fn get(&self) -> (r: usize)
        ensures
            r == self.value(),
            r > 0,
    {
        proof {
            use_type_invariant(self);
        }
        self.0
    }
}

impl Default for MaxLoc {
    fn default() -> (r: Self)
        ensures
            r.value() == 1500,
    {
        MaxLoc(1500)
    }
}

/// Milliseconds that the input loop waits for a key. Never zero.
#[derive(Clone, Copy, Debug)]
pub struct EventPollInterval(u64);

impl EventPollInterval {
    #[verifier::type_invariant]
    spec fn positive(self) -> bool {
        self.0 > 0
    }

    /// The number held.
    pub closed spec fn value(self) -> u64 {
        self.0
    }

    /// Holds `value`, unless it is zero.
    pub fn new(value: u64) -> (r: Option<Self>)
        ensures
            value == 0 ==> r is None,
            value > 0 ==> r is Some && r->0.value() == value,
    {
        if value == 0 {
            None
        } else {
            Some(EventPollInterval(value))
        }
    }

    /// The number held.
    pub fn get(&self) -> (r: u64)
        ensures
            r == self.value(),
            r > 0,
    {
        proof {
            use_type_invariant(self);
        }
        self.0
    }
}

impl Default for EventPollInterval {
    fn default() -> (r: Self)
        ensures
            r.value() == 25,
    {
        EventPollInterval(25)
    }
}

/// Bound of the cache: a flush is forced before an insertion that finds one entry less than this. Never zero.
#[derive(Clone, Copy, Debug)]
pub struct CacheCapacity(usize);

impl CacheCapacity {
    #[verifier::type_invariant]
    spec fn positive(self) -> bool {
        self.0 > 0
    }

    /// The number held.
    pub closed spec fn value(self) -> usize {
        self.0
    }

    /// Holds `value`, unless it is zero.
    pub fn new(value: usize) -> (r: Option<Self>)
        ensures
            value == 0 ==> r is None,
            value > 0 ==> r is Some && r->0.value() == value,
    {
        if value == 0 {
            None
        } else {
            Some(CacheCapacity(value))
        }
    }

    /// The number held.
    pub fn get(&self) -> (r: usize)
        ensures
            r == self.value(),
            r > 0,
    {
        proof {
            use_type_invariant(self);
        }
        self.0
    }
}

impl Default for CacheCapacity {
    fn default() -> (r: Self)
        ensures
            r.value() == 100,
    {
        CacheCapacity(100)
    }
}

/// Greatest number of entries that the history holds. Never zero.
#[derive(Clone, Copy, Debug)]
pub struct HistoryCapacity(usize);

impl HistoryCapacity {
    #[verifier::type_invariant]
    spec fn positive(self) -> bool {
        self.0 > 0
    }

    /// The number held.
    pub closed spec fn value(self) -> usize {
        self.0
    }

    /// Holds `value`, unless it is zero.
    pub fn new(value: usize) -> (r: Option<Self>)
        ensures
            value == 0 ==> r is None,
            value > 0 ==> r is Some && r->0.value() == value,
    {
        if value == 0 {
            None
        } else {
            Some(HistoryCapacity(value))
        }
    }

    /// The number held.
    pub fn get(&self) -> (r: usize)
        ensures
            r == self.value(),
            r > 0,
    {
        proof {
            use_type_invariant(self);
        }
        self.0
    }
}

impl Default for HistoryCapacity {
    fn default() -> (r: Self)
        ensures
            r.value() == 45,
    {
        HistoryCapacity(45)
    }
}

/// Greatest number of characters of a history entry that is shown. Never zero.
#[derive(Clone, Copy, Debug)]
pub struct HistoryWidth(usize);

impl HistoryWidth {
    #[verifier::type_invariant]
    spec fn positive(self) -> bool {
        self.0 > 0
    }

    /// The number held.
    pub closed spec fn value(self) -> usize {
        self.0
    }

    /// Holds `value`, unless it is zero.
    pub fn new(value: usize) -> (r: Option<Self>)
        ensures
            value == 0 ==> r is None,
            value > 0 ==> r is Some && r->0.value() == value,
    {
        if value == 0 {
            None
        } else {
            Some(HistoryWidth(value))
        }
    }

    /// The number held.
    pub fn get(&self) -> (r: usize)
        ensures
            r == self.value(),
            r > 0,
    {
        proof {
            use_type_invariant(self);
        }
        self.0
    }
}

impl Default for HistoryWidth {
    fn default() -> (r: Self)
        ensures
            r.value() == 80,
    {
        HistoryWidth(80)
    }
}

/// Milliseconds between two readings of the clipboard. Never zero.
#[derive(Clone, Copy, Debug)]
pub struct WatcherInterval(u64);

impl WatcherInterval {
    #[verifier::type_invariant]
    spec fn positive(self) -> bool {
        self.0 > 0
    }

    /// The number held.
    pub closed spec fn value(self) -> u64 {
        self.0
    }

    /// Holds `value`, unless it is zero.
    pub fn new(value: u64) -> (r: Option<Self>)
        ensures
            value == 0 ==> r is None,
            value > 0 ==> r is Some && r->0.value() == value,
    {
        if value == 0 {
            None
        } else {
            Some(WatcherInterval(value))
        }
    }

    /// The number held.
    pub fn get(&self) -> (r: u64)
        ensures
            r == self.value(),
            r > 0,
    {
        proof {
            use_type_invariant(self);
        }
        self.0
    }
}

impl Default for WatcherInterval {
    fn default() -> (r: Self)
        ensures
            r.value() == 10,
    {
        WatcherInterval(10)
    }
}

/// Path of the output file.
#[derive(Debug)]
pub struct OutputPath(pub String);

impl Default for OutputPath {
    fn default() -> (r: Self)
        ensures
            r.0@ == "clipboard.md"@,
    {
        OutputPath("clipboard.md".to_owned())
    }
}

/// A literal substitution: every occurrence of `pattern` becomes
/// `replacement`.
#[derive(Debug)]
pub struct Replacement {
    pub pattern: String,
    pub replacement: String,
}

/// The configuration, built once and handed to each component.
pub struct Config {
    pub path: OutputPath,
    pub max_loc: MaxLoc,
    pub poll_interval: EventPollInterval,
    pub cache_capacity: CacheCapacity,
    pub history_capacity: HistoryCapacity,
    pub history_width: HistoryWidth,
    pub watcher_interval: WatcherInterval,
    pub bindings: BindingTable,
    /// A capture that holds one of these is dropped.
    pub filter: Vec<String>,
    /// Literal substitutions, applied in this order.
    pub replace: Vec<Replacement>,
    /// Regular-expression rules, applied in this order.
    pub regex: Vec<Regex>,
    /// A capture that holds one of these is flagged in the history.
    pub invalid_patterns: Vec<Arc<String>>,
}

impl Default for Config {
    fn default() -> (r: Self)
        ensures
            r.path.0@ == "clipboard.md"@,
            r.max_loc.value() == 1500,
            r.poll_interval.value() == 25,
            r.cache_capacity.value() == 100,
            r.history_capacity.value() == 45,
            r.history_width.value() == 80,
            r.watcher_interval.value() == 10,
            r.bindings@ == Map::<u8, crate::paragraph::ParagraphView>::empty(),
            r.filter@.len() == 0,
            r.replace@.len() == 0,
            r.regex@.len() == 0,
            r.invalid_patterns@.len() == 0,
    {
        Config {
            path: OutputPath::default(),
            max_loc: MaxLoc::default(),
            poll_interval: EventPollInterval::default(),
            cache_capacity: CacheCapacity::default(),
            history_capacity: HistoryCapacity::default(),
            history_width: HistoryWidth::default(),
            watcher_interval: WatcherInterval::default(),
            bindings: BindingTable::default(),
            filter: Vec::new(),
            replace: Vec::new(),
            regex: Vec::new(),
            invalid_patterns: Vec::new(),
        }
    }
}

/// The texts of `v`.
pub open spec fn texts(v: Seq<String>) -> Seq<Seq<char>> {
    v.map_values(|s: String| s@)
}

/// The texts that the handles of `v` point at.
pub open spec fn shared_texts(v: Seq<Arc<String>>) -> Seq<Seq<char>> {
    v.map_values(|s: Arc<String>| s@)
}

/// Whether `text` holds one of `needles`.
pub open spec fn holds_any(text: Seq<char>, needles: Seq<Seq<char>>) -> bool {
    exists|i: int| 0 <= i < needles.len() && contains_seq(text, #[trigger] needles[i])
}

impl Config {
    /// Path of the output file.
    pub fn path(&self) -> (r: &str)
        ensures
            r@ == self.path.0@,
    {
        self.path.0.as_str()
    }

    /// Line count from which the line counter is shown as full.
    pub fn max_loc(&self) -> (r: usize)
        ensures
            r == self.max_loc.value(),
            r > 0,
    {
        self.max_loc.get()
    }

    /// Milliseconds that the input loop waits for a key.
    pub fn poll_interval(&self) -> (r: u64)
        ensures
            r == self.poll_interval.value(),
            r > 0,
    {
        self.poll_interval.get()
    }

    /// Bound of the cache.
    pub fn cache_capacity(&self) -> (r: usize)
        ensures
            r == self.cache_capacity.value(),
            r > 0,
    {
        self.cache_capacity.get()
    }

    /// Bound of the history.
    pub fn history_capacity(&self) -> (r: usize)
        ensures
            r == self.history_capacity.value(),
            r > 0,
    {
        self.history_capacity.get()
    }

    /// Display width of a history entry, in characters.
    pub fn history_width(&self) -> (r: usize)
        ensures
            r == self.history_width.value(),
            r > 0,
    {
        self.history_width.get()
    }

    /// Milliseconds between two readings of the clipboard.
    pub fn watcher_interval(&self) -> (r: u64)
        ensures
            r == self.watcher_interval.value(),
            r > 0,
    {
        self.watcher_interval.get()
    }

    /// Whether a capture is dropped: whether `text` holds one of the
    /// configured filter strings.
    pub fn is_filtered(&self, text: &str) -> (r: bool)
        ensures
            r == holds_any(text@, texts(self.filter@)),
    {
        let hay = chars_of(text);
        let mut i: usize = 0;
        while i < self.filter.len()
            invariant
                i <= self.filter.len(),
                hay@ == text@,
                forall|j: int| 0 <= j < i ==> !contains_seq(text@, #[trigger] texts(self.filter@)[j]),
            decreases self.filter.len() - i,
        {
            let needle = chars_of(self.filter[i].as_str());
            if contains(&hay, &needle) {
                assert(contains_seq(text@, texts(self.filter@)[i as int]));
                return true;
            }
            i += 1;
        }
        false
    }
}

} // verus!
