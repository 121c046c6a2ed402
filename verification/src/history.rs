//! The display history: a bounded buffer of what was captured and inserted,
//! oldest first, with a number for each capture.

use crate::config::{holds_any, shared_texts, Config};
use crate::paragraph::{share, Paragraph, ParagraphPlacement, ParagraphView};
use crate::text::{chars_of, clipped, contains, contains_seq, string_of, truncate};
use std::collections::VecDeque;
use std::sync::Arc;
use vstd::prelude::*;

verus! {

/// An entry of the history.
#[derive(Debug)]
pub enum Entry {
    /// A snippet that a key inserted.
    Paragraph(Paragraph),
    /// A capture: its number and its text, cut for display.
    Raw(u32, String),
    /// A flag: the capture before it holds this configured marker.
    InvalidPattern(Arc<String>),
}

/// An entry of the history, as plain values.
pub enum EntryView {
    Paragraph(ParagraphView),
    Raw(u32, Seq<char>),
    InvalidPattern(Seq<char>),
}

impl View for Entry {
    type V = EntryView;

    open spec fn view(&self) -> EntryView {
        match self {
            Entry::Paragraph(p) => EntryView::Paragraph(p@),
            Entry::Raw(id, text) => EntryView::Raw(*id, text@),
            Entry::InvalidPattern(pattern) => EntryView::InvalidPattern(pattern@),
        }
    }
}

impl Entry {
    /// A capture with its identifier and its text.
    pub fn raw(id: u32, content: &str) -> (r: Entry)
        ensures
            r@ == EntryView::Raw(id, content@),
    {
        Entry::Raw(id, content.to_owned())
    }
}

/// The first identifier that a history hands out.
pub const FIRST_ID: u32 = 1;

/// `entries` after the oldest are dropped until fewer than `capacity` are
/// left, or none.
pub open spec fn evicted(entries: Seq<EntryView>, capacity: usize) -> Seq<EntryView> {
    if entries.len() < capacity {
        entries
    } else if capacity == 0 {
        Seq::empty()
    } else {
        entries.skip(entries.len() - capacity + 1)
    }
}

/// Whether the identifiers of the captures among `entries` ascend strictly
/// from oldest to newest and all lie below `bound`.
pub open spec fn ascending_below(entries: Seq<EntryView>, bound: int) -> bool {
    &&& forall|i: int, j: int|
        0 <= i < j < entries.len() && entries[i] is Raw && entries[j] is Raw ==> entries[i]->Raw_0
            < entries[j]->Raw_0
    &&& forall|i: int|
        0 <= i < entries.len() && entries[i] is Raw ==> entries[i]->Raw_0 < bound
}

/// The identifier after `id`; the greatest stays.
pub open spec fn succ(id: u32) -> u32 {
    if id < u32::MAX {
        (id + 1) as u32
    } else {
        id
    }
}

/// The state of a history, as plain values.
pub struct HistoryView {
    /// The entries, oldest first.
    pub entries: Seq<EntryView>,
    /// The identifier that the next capture gets.
    pub current: u32,
    /// Greatest number of entries.
    pub capacity: usize,
    /// Greatest number of characters kept of a capture.
    pub width: usize,
    /// The configured markers.
    pub patterns: Seq<Seq<char>>,
}

impl HistoryView {
    /// The same history with other entries.
    pub open spec fn with_entries(self, entries: Seq<EntryView>) -> HistoryView {
        HistoryView { entries, ..self }
    }

    /// The same history with another next identifier.
    pub open spec fn with_current(self, current: u32) -> HistoryView {
        HistoryView { current, ..self }
    }

    /// The bound holds, and identifiers start at the first.
    pub open spec fn wf(self) -> bool {
        &&& self.capacity > 0
        &&& self.entries.len() <= self.capacity
        &&& self.current >= FIRST_ID
    }

    /// The identifiers of the captures ascend strictly from oldest to
    /// newest, and all lie below the next identifier.
    pub open spec fn ascending(self) -> bool {
        ascending_below(self.entries, self.current as int)
    }

    /// After one insertion: the oldest entries leave first where the history
    /// is full, then `entry` is the newest.
    pub open spec fn push(self, entry: EntryView) -> HistoryView {
        self.with_entries(evicted(self.entries, self.capacity).push(entry))
    }

    /// After a flag is inserted for each of the first `n` markers that `text`
    /// holds, in their order.
    pub open spec fn flagged(self, text: Seq<char>, n: nat) -> HistoryView
        decreases n,
    {
        if n == 0 || n > self.patterns.len() {
            self
        } else {
            let before = self.flagged(text, (n - 1) as nat);
            let pattern = self.patterns[n - 1];
            if contains_seq(text, pattern) {
                before.push(EntryView::InvalidPattern(pattern))
            } else {
                before
            }
        }
    }

    /// After a capture: it gets the next identifier and is stored cut for
    /// display, a flag follows for each marker that the text holds, and the
    /// next identifier moves on by one.
    pub open spec fn raw(self, text: Seq<char>) -> HistoryView {
        let stored = self.push(EntryView::Raw(self.current, clipped(text, self.width as nat)));
        stored.flagged(text, self.patterns.len()).with_current(succ(self.current))
    }

    /// After the newest entry is taken off. Where that was a capture, its
    /// identifier is given back: the next identifier falls by one, though
    /// never below the first.
    pub open spec fn pop(self) -> HistoryView {
        if self.entries.len() == 0 {
            self
        } else if self.entries.last() is Raw && self.current > FIRST_ID {
            self.with_entries(self.entries.drop_last()).with_current((self.current - 1) as u32)
        } else {
            self.with_entries(self.entries.drop_last())
        }
    }

    /// After the history is emptied. The next identifier stays: identifiers
    /// fall on `pop` alone.
    pub open spec fn clear(self) -> HistoryView {
        self.with_entries(Seq::empty())
    }

    /// After a snippet is placed. Room is made first. `After` inserts it as
    /// the newest entry. `Replace` takes the newest entry off as `pop` does
    /// and inserts the snippet. `Before` takes the newest entry off without
    /// giving an identifier back, inserts the snippet, and puts the entry
    /// back behind it; a capture is not put back as it was but captured
    /// again from its stored text, under a new identifier.
    pub open spec fn paragraph(self, snippet: ParagraphView) -> HistoryView {
        let entry = EntryView::Paragraph(snippet);
        let room = self.with_entries(evicted(self.entries, self.capacity));
        match snippet.placement {
            ParagraphPlacement::After => room.push(entry),
            ParagraphPlacement::Replace => room.pop().push(entry),
            ParagraphPlacement::Before => if room.entries.len() == 0 {
                room.push(entry)
            } else {
                let base = room.with_entries(room.entries.drop_last()).push(entry);
                match room.entries.last() {
                    EntryView::Raw(_, text) => base.raw(text),
                    other => base.push(other),
                }
            },
        }
    }
}

/// What the display shows for one entry.
#[derive(Debug)]
pub enum Row {
    /// A rule of this many characters: a snippet without display text.
    Rule(usize),
    /// The display text of a snippet.
    Snippet(String),
    /// A capture: its number, whether that is even, and its text.
    Capture { id: u32, even: bool, text: String },
    /// A flag with its marker.
    Invalid(Arc<String>),
}

/// What the display shows for one entry, as plain values.
pub enum RowView {
    Rule(usize),
    Snippet(Seq<char>),
    Capture { id: u32, even: bool, text: Seq<char> },
    Invalid(Seq<char>),
}

impl View for Row {
    type V = RowView;

    open spec fn view(&self) -> RowView {
        match self {
            Row::Rule(width) => RowView::Rule(*width),
            Row::Snippet(text) => RowView::Snippet(text@),
            Row::Capture { id, even, text } => RowView::Capture {
                id: *id,
                even: *even,
                text: text@,
            },
            Row::Invalid(pattern) => RowView::Invalid(pattern@),
        }
    }
}

/// What the display shows for `entry` at the display width `width`: a
/// snippet's display text is cut on reading, a capture's text was cut when it
/// was stored.
pub open spec fn row_of(entry: EntryView, width: usize) -> RowView {
    match entry {
        EntryView::Paragraph(p) => match p.display {
            Some(d) => RowView::Snippet(clipped(d, width as nat)),
            None => RowView::Rule(width),
        },
        EntryView::Raw(id, text) => RowView::Capture { id, even: id % 2 == 0, text },
        EntryView::InvalidPattern(pattern) => RowView::Invalid(pattern),
    }
}

/// The display history.
pub struct History {
    queue: VecDeque<Entry>,
    current: u32,
    capacity: usize,
    width: usize,
    invalid_patterns: Vec<Arc<String>>,
}

impl View for History {
    type V = HistoryView;

    closed spec fn view(&self) -> HistoryView {
        HistoryView {
            entries: self.queue@.map_values(|e: Entry| e@),
            current: self.current,
            capacity: self.capacity,
            width: self.width,
            patterns: shared_texts(self.invalid_patterns@),
        }
    }
}

impl History {
    /// An empty history with the configured capacity, width and markers.
    pub fn new(config: &Config) -> (r: Self)
        ensures
            r@.wf(),
            r@.ascending(),
            r@.entries == Seq::<EntryView>::empty(),
            r@.current == FIRST_ID,
            r@.capacity == config.history_capacity.value(),
            r@.width == config.history_width.value(),
            r@.patterns == shared_texts(config.invalid_patterns@),
    {
        let mut invalid_patterns: Vec<Arc<String>> = Vec::new();
        let mut i: usize = 0;
        while i < config.invalid_patterns.len()
            invariant
                i <= config.invalid_patterns.len(),
                invalid_patterns@.len() == i,
                forall|j: int| 0 <= j < i ==> invalid_patterns@[j]@ == config.invalid_patterns@[j]@,
            decreases config.invalid_patterns.len() - i,
        {
            invalid_patterns.push(share(&config.invalid_patterns[i]));
            i += 1;
        }
        assert(shared_texts(invalid_patterns@) =~= shared_texts(config.invalid_patterns@));
        let r = History {
            queue: VecDeque::new(),
            current: FIRST_ID,
            capacity: config.history_capacity(),
            width: config.history_width(),
            invalid_patterns,
        };
        assert(r@.entries =~= Seq::<EntryView>::empty());
        r
    }

    /// Drops the oldest entries until fewer than the capacity are left.
    pub fn check_capacity(&mut self)
        ensures
            old(self)@.wf() ==> final(self)@.wf(),
            final(self)@ == old(self)@.with_entries(
                evicted(old(self)@.entries, old(self)@.capacity),
            ),
    {
        let ghost start = self@;
        let ghost queue = self.queue@;
        let ghost mut dropped: int = 0;
        assert(queue.skip(0) =~= queue);
        while self.queue.len() >= self.capacity && self.queue.len() > 0
            invariant
                0 <= dropped <= queue.len(),
                self.queue@ == queue.skip(dropped),
                self@.with_entries(start.entries) == start,
                dropped > 0 ==> queue.len() - dropped + 1 >= self.capacity,
            decreases self.queue.len(),
        {
            self.queue.pop_front();
            proof {
                assert(self.queue@ =~= queue.skip(dropped + 1));
                dropped = dropped + 1;
            }
        }
        assert(self@.entries =~= evicted(start.entries, start.capacity));
    }

    /// Inserts `entry` as the newest, after room is made for it.
    fn push(&mut self, entry: Entry)
        ensures
            final(self)@ == old(self)@.push(entry@),
    {
        self.check_capacity();
        let ghost room = self@.entries;
        self.queue.push_back(entry);
        assert(self@.entries =~= room.push(entry@));
    }

    /// Takes a capture in: see [`HistoryView::raw`].
    pub fn raw(&mut self, text: &str)
        ensures
            final(self)@ == old(self)@.raw(text@),
            old(self)@.wf() ==> final(self)@.wf(),
            old(self)@.ascending() && old(self)@.current < u32::MAX ==> final(self)@.ascending(),
    {
        let hay = chars_of(text);
        let shown = string_of(&truncate(&hay, self.width));
        let id = self.current;
        self.push(Entry::raw(id, shown.as_str()));
        let ghost stored = self@;
        let mut i: usize = 0;
        while i < self.invalid_patterns.len()
            invariant
                i <= self.invalid_patterns.len(),
                hay@ == text@,
                stored.patterns == self@.patterns,
                self@.patterns.len() == self.invalid_patterns.len(),
                self@ == stored.flagged(text@, i as nat),
            decreases self.invalid_patterns.len() - i,
        {
            let pattern = share(&self.invalid_patterns[i]);
            assert(pattern@ == stored.patterns[i as int]);
            if contains(&hay, &chars_of(pattern.as_str())) {
                self.push(Entry::InvalidPattern(pattern));
            }
            i += 1;
        }
        self.current = if id < u32::MAX {
            id + 1
        } else {
            id
        };
        proof {
            if old(self)@.wf() {
                lemma_raw_wf(old(self)@, text@);
            }
            if old(self)@.ascending() && old(self)@.current < u32::MAX {
                lemma_raw_ascending(old(self)@, text@);
            }
        }
    }

    /// Takes the newest entry off and returns it: see [`HistoryView::pop`].
    pub fn pop(&mut self) -> (r: Option<Entry>)
        ensures
            final(self)@ == old(self)@.pop(),
            old(self)@.wf() ==> final(self)@.wf(),
            old(self)@.ascending() ==> final(self)@.ascending(),
            r is None <==> old(self)@.entries.len() == 0,
            r matches Some(entry) ==> entry@ == old(self)@.entries.last(),
    {
        let last = self.queue.pop_back();
        match &last {
            Some(Entry::Raw(_, _)) => {
                if self.current > FIRST_ID {
                    self.current = self.current - 1;
                }
            },
            _ => {},
        }
        assert(old(self)@.entries.len() > 0 ==> self@.entries =~= old(self)@.entries.drop_last());
        assert(old(self)@.entries.len() == 0 ==> self@.entries =~= old(self)@.entries);
        last
    }

    /// Places a snippet: see [`HistoryView::paragraph`].
    pub fn paragraph(&mut self, paragraph: &Paragraph)
        ensures
            final(self)@ == old(self)@.paragraph(paragraph@),
            old(self)@.wf() ==> final(self)@.wf(),
            old(self)@.ascending() && old(self)@.current < u32::MAX ==> final(self)@.ascending(),
    {
        self.check_capacity();
        let ghost room = self@;
        let entry = Entry::Paragraph(paragraph.clone());
        match paragraph.placement {
            ParagraphPlacement::After => {
                self.push(entry);
            },
            ParagraphPlacement::Replace => {
                self.pop();
                self.push(entry);
            },
            ParagraphPlacement::Before => {
                let last = self.queue.pop_back();
                assert(room.entries.len() > 0 ==> self@ == room.with_entries(
                    room.entries.drop_last(),
                )) by {
                    if room.entries.len() > 0 {
                        assert(self@.entries =~= room.entries.drop_last());
                    }
                }
                assert(room.entries.len() == 0 ==> self@ == room) by {
                    if room.entries.len() == 0 {
                        assert(self@.entries =~= room.entries);
                    }
                }
                self.push(entry);
                match last {
                    Some(Entry::Raw(_, text)) => {
                        self.raw(text.as_str());
                    },
                    Some(other) => {
                        self.push(other);
                    },
                    None => {},
                }
            },
        }
        proof {
            if old(self)@.wf() {
                lemma_paragraph_wf(old(self)@, paragraph@);
            }
            if old(self)@.ascending() && old(self)@.current < u32::MAX {
                lemma_paragraph_ascending(old(self)@, paragraph@);
            }
        }
    }

    /// Empties the history: see [`HistoryView::clear`]. No identifier is
    /// given back, so the next capture is numbered above every capture
    /// before it.
    pub fn clear(&mut self)
        ensures
            final(self)@ == old(self)@.clear(),
            old(self)@.wf() ==> final(self)@.wf(),
            old(self)@.ascending() ==> final(self)@.ascending(),
    {
        self.queue.clear();
        assert(self@.entries =~= Seq::<EntryView>::empty());
    }

    /// What is shown for `entry`, cut to the display width.
    pub fn row(&self, entry: &Entry) -> (r: Row)
        ensures
            r@ == row_of(entry@, self@.width),
    {
        match entry {
            Entry::Paragraph(p) => match &p.display {
                Some(d) => Row::Snippet(string_of(&truncate(&chars_of(d.as_str()), self.width))),
                None => Row::Rule(self.width),
            },
            Entry::Raw(id, text) => Row::Capture { id: *id, even: *id % 2 == 0, text: text.clone() },
            Entry::InvalidPattern(pattern) => Row::Invalid(share(pattern)),
        }
    }

    /// The entries, oldest first.
    pub fn values(&self) -> (r: &VecDeque<Entry>)
        ensures
            r@.map_values(|e: Entry| e@) == self@.entries,
    {
        &self.queue
    }
}

/// Dropping the oldest entries leaves fewer than the capacity.
pub proof fn lemma_evicted_len(entries: Seq<EntryView>, capacity: usize)
    requires
        capacity > 0,
    ensures
        evicted(entries, capacity).len() < capacity,
        evicted(entries, capacity).len() <= entries.len(),
{
}

/// An insertion keeps the history within its bound.
pub proof fn lemma_push_wf(h: HistoryView, entry: EntryView)
    requires
        h.capacity > 0,
        h.current >= FIRST_ID,
    ensures
        h.push(entry).wf(),
        h.push(entry).current == h.current,
{
    lemma_evicted_len(h.entries, h.capacity);
}

/// Flags keep the history within its bound and leave the next identifier.
pub proof fn lemma_flagged_wf(h: HistoryView, text: Seq<char>, n: nat)
    requires
        h.wf(),
    ensures
        h.flagged(text, n).wf(),
        h.flagged(text, n).current == h.current,
        h.flagged(text, n).capacity == h.capacity,
        h.flagged(text, n).width == h.width,
        h.flagged(text, n).patterns == h.patterns,
    decreases n,
{
    if n == 0 || n > h.patterns.len() {
    } else {
        lemma_flagged_wf(h, text, (n - 1) as nat);
        lemma_push_wf(h.flagged(text, (n - 1) as nat), EntryView::InvalidPattern(h.patterns[n - 1]));
    }
}

/// A capture keeps the history within its bound.
pub proof fn lemma_raw_wf(h: HistoryView, text: Seq<char>)
    requires
        h.capacity > 0,
        h.current >= FIRST_ID,
    ensures
        h.raw(text).wf(),
{
    let entry = EntryView::Raw(h.current, clipped(text, h.width as nat));
    lemma_push_wf(h, entry);
    lemma_flagged_wf(h.push(entry), text, h.patterns.len());
}

/// Placing a snippet keeps the history within its bound.
pub proof fn lemma_paragraph_wf(h: HistoryView, snippet: ParagraphView)
    requires
        h.wf(),
    ensures
        h.paragraph(snippet).wf(),
{
    let entry = EntryView::Paragraph(snippet);
    let room = h.with_entries(evicted(h.entries, h.capacity));
    lemma_evicted_len(h.entries, h.capacity);
    match snippet.placement {
        ParagraphPlacement::After => {
            lemma_push_wf(room, entry);
        },
        ParagraphPlacement::Replace => {
            lemma_push_wf(room.pop(), entry);
        },
        ParagraphPlacement::Before => {
            if room.entries.len() == 0 {
                lemma_push_wf(room, entry);
            } else {
                let base = room.with_entries(room.entries.drop_last()).push(entry);
                lemma_push_wf(room.with_entries(room.entries.drop_last()), entry);
                match room.entries.last() {
                    EntryView::Raw(_, text) => {
                        lemma_raw_wf(base, text);
                    },
                    other => {
                        lemma_push_wf(base, other);
                    },
                }
            }
        },
    }
}

/// Dropping the oldest entries keeps the identifiers ascending.
pub proof fn lemma_evicted_ascending(entries: Seq<EntryView>, capacity: usize, bound: int)
    requires
        ascending_below(entries, bound),
    ensures
        ascending_below(evicted(entries, capacity), bound),
{
}

/// An insertion keeps the identifiers ascending where the new entry is no
/// capture, or a capture whose identifier is not below the old bound.
pub proof fn lemma_push_ascending(h: HistoryView, entry: EntryView, bound: int, above: int)
    requires
        ascending_below(h.entries, bound),
        bound <= above,
        entry matches EntryView::Raw(id, _) ==> bound <= id < above,
    ensures
        ascending_below(h.push(entry).entries, above),
{
    lemma_evicted_ascending(h.entries, h.capacity, bound);
}

/// Flags keep the identifiers ascending.
pub proof fn lemma_flagged_ascending(h: HistoryView, text: Seq<char>, n: nat, bound: int)
    requires
        ascending_below(h.entries, bound),
    ensures
        ascending_below(h.flagged(text, n).entries, bound),
    decreases n,
{
    if n == 0 || n > h.patterns.len() {
    } else {
        lemma_flagged_ascending(h, text, (n - 1) as nat, bound);
        lemma_push_ascending(
            h.flagged(text, (n - 1) as nat),
            EntryView::InvalidPattern(h.patterns[n - 1]),
            bound,
            bound,
        );
    }
}

/// A capture keeps the identifiers ascending, as long as identifiers are
/// left.
pub proof fn lemma_raw_ascending(h: HistoryView, text: Seq<char>)
    requires
        h.ascending(),
        h.current < u32::MAX,
    ensures
        h.raw(text).ascending(),
{
    let entry = EntryView::Raw(h.current, clipped(text, h.width as nat));
    lemma_push_ascending(h, entry, h.current as int, h.current + 1);
    lemma_flagged_ascending(h.push(entry), text, h.patterns.len(), h.current + 1);
}

/// Taking the newest entry off keeps the identifiers ascending.
pub proof fn lemma_pop_ascending(h: HistoryView)
    requires
        h.ascending(),
    ensures
        h.pop().ascending(),
{
}

/// Placing a snippet keeps the identifiers ascending, as long as identifiers
/// are left.
pub proof fn lemma_paragraph_ascending(h: HistoryView, snippet: ParagraphView)
    requires
        h.ascending(),
        h.current < u32::MAX,
    ensures
        h.paragraph(snippet).ascending(),
{
    let entry = EntryView::Paragraph(snippet);
    let room = h.with_entries(evicted(h.entries, h.capacity));
    let bound = h.current as int;
    lemma_evicted_ascending(h.entries, h.capacity, bound);
    match snippet.placement {
        ParagraphPlacement::After => {
            lemma_push_ascending(room, entry, bound, bound);
        },
        ParagraphPlacement::Replace => {
            lemma_pop_ascending(room);
            lemma_push_ascending(room.pop(), entry, room.pop().current as int, room.pop().current as int);
        },
        ParagraphPlacement::Before => {
            if room.entries.len() == 0 {
                lemma_push_ascending(room, entry, bound, bound);
            } else {
                let rest = room.with_entries(room.entries.drop_last());
                lemma_push_ascending(rest, entry, bound, bound);
                match room.entries.last() {
                    EntryView::Raw(_, text) => {
                        lemma_raw_ascending(rest.push(entry), text);
                    },
                    other => {
                        lemma_push_ascending(rest.push(entry), other, bound, bound);
                    },
                }
            }
        },
    }
}

/// Emptying the history gives no identifier back: the identifier that the
/// next capture gets lies above that of every capture that stood in the
/// history.
pub proof fn lemma_clear_keeps_identifiers(h: HistoryView)
    requires
        h.ascending(),
    ensures
        h.clear().current == h.current,
        h.clear().ascending(),
        forall|i: int|
            0 <= i < h.entries.len() && h.entries[i] is Raw ==> h.entries[i]->Raw_0
                < h.clear().current,
{
}

/// A text that holds no marker leaves no flag.
pub proof fn lemma_flagged_none(h: HistoryView, text: Seq<char>, n: nat)
    requires
        !holds_any(text, h.patterns),
    ensures
        h.flagged(text, n) == h,
    decreases n,
{
    if n == 0 || n > h.patterns.len() {
    } else {
        lemma_flagged_none(h, text, (n - 1) as nat);
        assert(!contains_seq(text, h.patterns[n - 1]));
    }
}

/// The history after the captures `texts`, taken in one after the other.
pub open spec fn captured(h: HistoryView, texts: Seq<Seq<char>>) -> HistoryView
    decreases texts.len(),
{
    if texts.len() == 0 {
        h
    } else {
        captured(h, texts.drop_last()).raw(texts.last())
    }
}

/// Captures beyond the capacity push the oldest out. After `n` captures that
/// hold no marker, taken into a new history, the newest `min(n, capacity)`
/// of them are its entries, oldest first: the capture taken as the `k`-th
/// has the identifier `k`, so the identifiers kept ascend strictly, and the
/// `n - capacity` oldest are gone.
pub proof fn lemma_captures_evict_oldest(h: HistoryView, texts: Seq<Seq<char>>)
    requires
        h.capacity > 0,
        h.entries.len() == 0,
        h.current == FIRST_ID,
        texts.len() < u32::MAX,
        forall|i: int| 0 <= i < texts.len() ==> !holds_any(#[trigger] texts[i], h.patterns),
    ensures
        ({
            let after = captured(h, texts);
            let n = texts.len() as int;
            let kept = if n < h.capacity {
                n
            } else {
                h.capacity as int
            };
            &&& after == h.with_entries(after.entries).with_current((n + 1) as u32)
            &&& after.entries.len() == kept
            &&& forall|i: int|
                0 <= i < kept ==> #[trigger] after.entries[i] == EntryView::Raw(
                    (n - kept + i + 1) as u32,
                    clipped(texts[n - kept + i], h.width as nat),
                )
        }),
    decreases texts.len(),
{
    if texts.len() > 0 {
        let head = texts.drop_last();
        assert forall|i: int| 0 <= i < head.len() implies !holds_any(
            #[trigger] head[i],
            h.patterns,
        ) by {
            assert(head[i] == texts[i]);
        }
        lemma_captures_evict_oldest(h, head);
        let before = captured(h, head);
        let stored = before.push(
            EntryView::Raw(before.current, clipped(texts.last(), before.width as nat)),
        );
        lemma_flagged_none(stored, texts.last(), stored.patterns.len());
    }
}

/// Taking a capture off gives its identifier back. A capture that holds no
/// marker is the newest entry, under the identifier that was next; once it
/// is taken off, that identifier is next again.
pub proof fn lemma_pop_gives_identifier_back(h: HistoryView, text: Seq<char>)
    requires
        h.wf(),
        h.current < u32::MAX,
        !holds_any(text, h.patterns),
    ensures
        h.raw(text).entries.last() == EntryView::Raw(h.current, clipped(text, h.width as nat)),
        h.raw(text).current == h.current + 1,
        h.raw(text).pop().current == h.current,
        h.raw(text).pop().entries == evicted(h.entries, h.capacity),
{
    let stored = h.push(EntryView::Raw(h.current, clipped(text, h.width as nat)));
    lemma_flagged_none(stored, text, stored.patterns.len());
    assert(stored.entries.drop_last() =~= evicted(h.entries, h.capacity));
}

} // verus!
