//! The write-behind cache: entries wait here, in order, until they are
//! appended to the output file.

use crate::config::Config;
use crate::paragraph::{Paragraph, ParagraphPlacement, ParagraphView};
use crate::text::{append, chars_of, string_of, trim, trimmed};
use vstd::prelude::*;
use vstd::string::StringExecFns;

verus! {

/// An entry of the cache.
pub enum Entry {
    /// A snippet that a key inserted.
    Paragraph(Paragraph),
    /// Captured text, as it will be written.
    Raw(String),
}

/// An entry of the cache, as plain values.
pub enum EntryView {
    Paragraph(ParagraphView),
    Raw(Seq<char>),
}

impl View for Entry {
    type V = EntryView;

    open spec fn view(&self) -> EntryView {
        match self {
            Entry::Paragraph(p) => EntryView::Paragraph(p@),
            Entry::Raw(s) => EntryView::Raw(s@),
        }
    }
}

impl EntryView {
    /// What the entry adds to the output file.
    pub open spec fn output(self) -> Seq<char> {
        match self {
            EntryView::Paragraph(p) => p.content,
            EntryView::Raw(s) => s,
        }
    }
}

/// The insertion was not made: the cache holds all it may, and its entries
/// must be written out first.
#[derive(Debug)]
pub struct FlushDue;

/// What a flush of `entries` appends to the output file: the text of each, in
/// order, with nothing between them.
pub open spec fn batch(entries: Seq<EntryView>) -> Seq<char>
    decreases entries.len(),
{
    if entries.len() == 0 {
        Seq::empty()
    } else {
        batch(entries.drop_last()) + entries.last().output()
    }
}

/// Whether the entries must be written out before another is inserted: there
/// are entries, and no more than `capacity - 1` are allowed to wait.
pub open spec fn flush_due(entries: Seq<EntryView>, capacity: usize) -> bool {
    entries.len() > 0 && entries.len() + 1 >= capacity
}

/// A capture as the cache stores it: trimmed, behind a blank line.
pub open spec fn wrapped(text: Seq<char>) -> Seq<char> {
    seq!['\n', '\n'] + trimmed(text)
}

/// The entries after a snippet is placed among them.
pub open spec fn placed(entries: Seq<EntryView>, snippet: ParagraphView) -> Seq<EntryView> {
    let entry = EntryView::Paragraph(snippet);
    if entries.len() == 0 {
        seq![entry]
    } else {
        match snippet.placement {
            ParagraphPlacement::After => entries.push(entry),
            ParagraphPlacement::Before => entries.drop_last().push(entry).push(entries.last()),
            ParagraphPlacement::Replace => entries.drop_last().push(entry),
        }
    }
}

/// The sum of `a` and `b`, or the greatest `usize` where that is less.
pub open spec fn capped_sum(a: int, b: int) -> int {
    if a + b > usize::MAX {
        usize::MAX as int
    } else {
        a + b
    }
}

/// The estimated line count of the output: `loc` lines on disk and two for
/// each waiting entry, brought to the next odd number.
pub open spec fn estimate(loc: usize, waiting: nat) -> int {
    let lines = capped_sum(loc as int, capped_sum(waiting as int, waiting as int));
    if lines % 2 == 0 {
        capped_sum(lines, 1)
    } else {
        lines
    }
}

/// The estimate does not fall when the number of waiting entries grows.
pub proof fn lemma_estimate_monotonic(loc: usize, fewer: nat, more: nat)
    requires
        fewer <= more,
    ensures
        estimate(loc, fewer) <= estimate(loc, more),
{
}

/// The state of a cache, as plain values.
pub struct CacheView {
    /// The waiting entries, oldest first.
    pub entries: Seq<EntryView>,
    /// The line count of the output file as last told.
    pub loc: usize,
    /// The bound of the cache.
    pub capacity: usize,
}

impl CacheView {
    /// The same cache with other entries.
    pub open spec fn with_entries(self, entries: Seq<EntryView>) -> CacheView {
        CacheView { entries, ..self }
    }

    /// The same cache with another line count.
    pub open spec fn with_loc(self, loc: usize) -> CacheView {
        CacheView { loc, ..self }
    }

    /// The cache is within its bound: it holds fewer entries than its
    /// capacity, or one entry where the capacity is one.
    pub open spec fn wf(self) -> bool {
        &&& self.capacity > 0
        &&& self.entries.len() < self.capacity || self.entries.len() <= 1
    }

    /// Whether the entries must be written out before the next insertion.
    pub open spec fn flush_due(self) -> bool {
        flush_due(self.entries, self.capacity)
    }
}

/// The write-behind cache.
pub struct Cache {
    entries: Vec<Entry>,
    loc: usize,
    capacity: usize,
}

impl View for Cache {
    type V = CacheView;

    closed spec fn view(&self) -> CacheView {
        CacheView {
            entries: self.entries@.map_values(|e: Entry| e@),
            loc: self.loc,
            capacity: self.capacity,
        }
    }
}

impl Cache {
    /// An empty cache with the configured capacity, for an output file of
    /// `loc` lines.
    pub fn new(config: &Config, loc: usize) -> (r: Self)
        ensures
            r@.wf(),
            r@ == (CacheView {
                entries: Seq::empty(),
                loc,
                capacity: config.cache_capacity.value(),
            }),
    {
        let r = Cache { entries: Vec::new(), loc, capacity: config.cache_capacity() };
        assert(r@.entries =~= Seq::<EntryView>::empty());
        r
    }

    /// Number of waiting entries.
    pub fn len(&self) -> (r: usize)
        ensures
            r == self@.entries.len(),
    {
        self.entries.len()
    }

    /// Whether the waiting entries must be written out before the next
    /// insertion.
    pub fn check_capacity(&self) -> (r: bool)
        ensures
            r == self@.flush_due(),
    {
        self.entries.len() > 0 && self.entries.len() >= self.capacity.saturating_sub(1)
    }

    /// What a flush has to append to the output file: nothing where no entry
    /// waits, else the text of all entries. The cache itself is left as it
    /// is; `flushed` empties it once the text is on disk.
    pub fn write(&self) -> (r: Option<String>)
        ensures
            r is None <==> self@.entries.len() == 0,
            r matches Some(text) ==> text@ == batch(self@.entries),
    {
        if self.entries.len() == 0 {
            return None;
        }
        let ghost waiting = self@.entries;
        let mut buf = String::new();
        let mut i: usize = 0;
        assert(waiting.take(0) =~= Seq::<EntryView>::empty());
        while i < self.entries.len()
            invariant
                i <= self.entries.len(),
                waiting == self@.entries,
                buf@ == batch(waiting.take(i as int)),
            decreases self.entries.len() - i,
        {
            proof {
                assert(waiting.take(i + 1).drop_last() =~= waiting.take(i as int));
                assert(waiting.take(i + 1).last() == self.entries@[i as int]@);
            }
            match &self.entries[i] {
                Entry::Paragraph(p) => buf.append(p.content.as_str()),
                Entry::Raw(s) => buf.append(s.as_str()),
            }
            i += 1;
        }
        assert(waiting.take(self.entries.len() as int) =~= waiting);
        Some(buf)
    }

    /// Records that the waiting entries are on disk, in a file of `loc` lines.
    pub fn flushed(&mut self, loc: usize)
        ensures
            final(self)@ == old(self)@.with_entries(Seq::empty()).with_loc(loc),
            old(self)@.wf() ==> final(self)@.wf(),
    {
        self.entries.clear();
        self.loc = loc;
        assert(self@.entries =~= Seq::<EntryView>::empty());
    }

    /// Appends a capture: trimmed, behind a blank line, always at the end.
    /// Refused, with the cache unchanged, exactly where a flush is due.
    pub fn raw(&mut self, text: &str) -> (r: Result<(), FlushDue>)
        ensures
            r is Err <==> old(self)@.flush_due(),
            r is Err ==> final(self)@ == old(self)@,
            r is Ok ==> final(self)@ == old(self)@.with_entries(
                old(self)@.entries.push(EntryView::Raw(wrapped(text@))),
            ),
            old(self)@.wf() ==> final(self)@.wf(),
            old(self)@.wf() && old(self)@.capacity > 1
                ==> final(self)@.entries.len() < old(self)@.capacity,
    {
        if self.check_capacity() {
            return Err(FlushDue);
        }
        let body = trim(&chars_of(text));
        let mut line: Vec<char> = Vec::new();
        line.push('\n');
        line.push('\n');
        append(&mut line, &body);
        assert(line@ =~= wrapped(text@));
        let entry = Entry::Raw(string_of(&line));
        self.entries.push(entry);
        assert(self@.entries =~= old(self)@.entries.push(EntryView::Raw(wrapped(text@))));
        Ok(())
    }

    /// Places a snippet: after the last entry, before it, or in its place.
    /// Refused, with the cache unchanged, exactly where a flush is due.
    pub fn paragraph(&mut self, paragraph: &Paragraph) -> (r: Result<(), FlushDue>)
        ensures
            r is Err <==> old(self)@.flush_due(),
            r is Err ==> final(self)@ == old(self)@,
            r is Ok ==> final(self)@ == old(self)@.with_entries(
                placed(old(self)@.entries, paragraph@),
            ),
            old(self)@.wf() ==> final(self)@.wf(),
            old(self)@.wf() && old(self)@.capacity > 1
                ==> final(self)@.entries.len() < old(self)@.capacity,
    {
        if self.check_capacity() {
            return Err(FlushDue);
        }
        let entry = Entry::Paragraph(paragraph.clone());
        match paragraph.placement {
            ParagraphPlacement::After => {
                self.entries.push(entry);
            },
            ParagraphPlacement::Before => {
                let last = self.entries.pop();
                self.entries.push(entry);
                if let Some(last) = last {
                    self.entries.push(last);
                }
            },
            ParagraphPlacement::Replace => {
                self.entries.pop();
                self.entries.push(entry);
            },
        }
        assert(self@.entries =~= placed(old(self)@.entries, paragraph@));
        Ok(())
    }

    /// The estimated line count of the output.
    pub fn estimated_loc(&self) -> (r: usize)
        ensures
            r == estimate(self@.loc, self@.entries.len()),
    {
        let in_cache: usize = self.entries.len().saturating_add(self.entries.len());
        let mut loc: usize = self.loc.saturating_add(in_cache);
        if loc % 2 == 0 {
            loc = loc.saturating_add(1);
        }
        loc
    }

    /// Takes `loc` as the line count of the output file.
    pub fn update_loc(&mut self, loc: usize)
        ensures
            final(self)@ == old(self)@.with_loc(loc),
            old(self)@.wf() ==> final(self)@.wf(),
    {
        self.loc = loc;
    }

    /// Drops every waiting entry. Nothing is written.
    pub fn clear(&mut self)
        ensures
            final(self)@ == old(self)@.with_entries(Seq::empty()),
            old(self)@.wf() ==> final(self)@.wf(),
    {
        self.entries.clear();
        assert(self@.entries =~= Seq::<EntryView>::empty());
    }

    /// Drops the last entry, if there is one.
    pub fn pop(&mut self)
        ensures
            old(self)@.entries.len() == 0 ==> final(self)@ == old(self)@,
            old(self)@.entries.len() > 0 ==> final(self)@ == old(self)@.with_entries(
                old(self)@.entries.drop_last(),
            ),
            old(self)@.wf() ==> final(self)@.wf(),
    {
        self.entries.pop();
        assert(old(self)@.entries.len() > 0 ==> self@.entries =~= old(self)@.entries.drop_last());
        assert(old(self)@.entries.len() == 0 ==> self@.entries =~= old(self)@.entries);
    }
}

} // verus!
