//! Snippets: configured blocks of text with a placement rule.

use std::sync::Arc;
use vstd::prelude::*;

verus! {

/// Another handle on a shared text.
///
/// Stands for `Arc::clone`: the handle that comes back points at the text
/// that `text` points at. No character is copied.
#[verifier::external_body]
pub(crate) fn share(text: &Arc<String>) -> (r: Arc<String>)
    ensures
        r@ == text@,
{
    Arc::clone(text)
}

/// Where a snippet lands relative to the entry that was inserted last.
#[derive(Clone, Copy, Debug, PartialEq, Eq, Structural)]
pub enum ParagraphPlacement {
    /// After the last entry.
    After,
    /// Immediately before the last entry.
    Before,
    /// In place of the last entry.
    Replace,
}

impl Default for ParagraphPlacement {
    fn default() -> (r: Self)
        ensures
            r == ParagraphPlacement::After,
    {
        ParagraphPlacement::After
    }
}

/// A snippet: text that a key inserts, how it is placed, whether the cache is
/// flushed after it, and the text shown for it in the history. The texts are
/// shared: a clone points at the same characters.
#[derive(Debug)]
pub struct Paragraph {
    pub content: Arc<String>,
    pub placement: ParagraphPlacement,
    pub flush: bool,
    pub display: Option<Arc<String>>,
}

/// What a snippet holds, as plain values.
pub struct ParagraphView {
    pub content: Seq<char>,
    pub placement: ParagraphPlacement,
    pub flush: bool,
    pub display: Option<Seq<char>>,
}

impl View for Paragraph {
    type V = ParagraphView;

    open spec fn view(&self) -> ParagraphView {
        ParagraphView {
            content: self.content@,
            placement: self.placement,
            flush: self.flush,
            display: match self.display {
                Some(d) => Some(d@),
                None => None,
            },
        }
    }
}

impl Clone for Paragraph {
    fn clone(&self) -> (r: Self)
        ensures
            r@ == self@,
    {
        let display = match &self.display {
            Some(d) => Some(share(d)),
            None => None,
        };
        Paragraph {
            content: share(&self.content),
            placement: self.placement,
            flush: self.flush,
            display,
        }
    }
}

impl Paragraph {
    /// A snippet with the given text, placed after the last entry, without
    /// flush and without display text.
    pub fn new(content: &str) -> (r: Self)
        ensures
            r@ == (ParagraphView {
                content: content@,
                placement: ParagraphPlacement::After,
                flush: false,
                display: None,
            }),
    {
        Paragraph {
            content: Arc::new(content.to_owned()),
            placement: ParagraphPlacement::After,
            flush: false,
            display: None,
        }
    }
}

} // verus!
