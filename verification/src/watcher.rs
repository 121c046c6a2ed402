//! The watcher's decision: which readings of the clipboard are forwarded.

use crate::config::Config;
use crate::transform::{normalize, normalized};
use vstd::prelude::*;

verus! {

/// What the watcher remembers between two readings: the text that it read
/// last.
pub struct Watcher {
    last: String,
}

impl View for Watcher {
    type V = Seq<char>;

    closed spec fn view(&self) -> Seq<char> {
        self.last@
    }
}

impl Watcher {
    /// A watcher that starts from the first reading, or from the empty text
    /// where that reading failed.
    pub fn new(first: Option<String>) -> (r: Self)
        ensures
            first matches Some(text) ==> r@ == text@,
            first is None ==> r@ == Seq::<char>::empty(),
    {
        match first {
            Some(text) => Watcher { last: text },
            None => Watcher { last: String::new() },
        }
    }

    /// Takes one reading. A failed reading changes nothing and forwards
    /// nothing. A reading that succeeded is remembered, whether the watcher
    /// is enabled or not; it is forwarded, normalised, exactly where the
    /// watcher is enabled and the text differs from the one remembered.
    pub fn observe(&mut self, config: &Config, enabled: bool, reading: Option<String>) -> (r:
        Option<String>)
        ensures
            reading is None ==> r is None && final(self)@ == old(self)@,
            reading matches Some(text) ==> {
                &&& final(self)@ == text@
                &&& r is Some <==> enabled && text@ != old(self)@
                &&& r matches Some(out) ==> out@ == normalized(config, text@)
            },
    {
        match reading {
            None => None,
            Some(text) => {
                let changed = text != self.last;
                let out = if enabled && changed {
                    Some(normalize(config, text.as_str()))
                } else {
                    None
                };
                self.last = text;
                out
            },
        }
    }
}

} // verus!
