//! What one capture and one key do to the cache and the history together.

use crate::cache::{placed, wrapped, Cache, EntryView, FlushDue};
use crate::config::{holds_any, texts, Config};
use crate::history::History;
use vstd::prelude::*;

verus! {

/// A key, as far as the commands tell keys apart.
#[derive(Clone, Copy, Debug, PartialEq, Eq, Structural)]
pub enum Key {
    Char(char),
    Backspace,
    Delete,
    Other,
}

/// What a key asks for.
#[derive(Clone, Copy, Debug, PartialEq, Eq, Structural)]
pub enum Command {
    /// Write the cache out; then empty the history too, if so marked.
    Flush { clear_history: bool },
    /// Write the cache out, empty the history and leave.
    FlushAndExit,
    /// Count the lines of the output file again.
    UpdateLoc,
    /// Write the default configuration file.
    WriteDefault,
    /// Leave without writing.
    Exit,
    /// Insert the snippet bound to the digit.
    Insert(u8),
    /// Take the newest entry off the cache and the history.
    Pop,
    /// Empty the cache and the history.
    Clear,
    /// Nothing.
    Ignore,
}

/// The command of a key.
pub open spec fn command_of(key: Key) -> Command {
    match key {
        Key::Char(c) => if c == 'f' {
            Command::Flush { clear_history: true }
        } else if c == 'l' {
            Command::UpdateLoc
        } else if c == 'p' {
            Command::WriteDefault
        } else if c == 'q' {
            Command::FlushAndExit
        } else if c == 'w' {
            Command::Flush { clear_history: false }
        } else if c == 'x' {
            Command::Exit
        } else if '0' <= c <= '9' {
            Command::Insert((c as u32 - '0' as u32) as u8)
        } else {
            Command::Ignore
        },
        Key::Backspace => Command::Pop,
        Key::Delete => Command::Clear,
        Key::Other => Command::Ignore,
    }
}

/// Finds the command of a key.
pub fn command(key: Key) -> (r: Command)
    ensures
        r == command_of(key),
{
    match key {
        Key::Char(c) => {
            if c == 'f' {
                Command::Flush { clear_history: true }
            } else if c == 'l' {
                Command::UpdateLoc
            } else if c == 'p' {
                Command::WriteDefault
            } else if c == 'q' {
                Command::FlushAndExit
            } else if c == 'w' {
                Command::Flush { clear_history: false }
            } else if c == 'x' {
                Command::Exit
            } else if '0' <= c && c <= '9' {
                let digit: u32 = c as u32 - '0' as u32;
                Command::Insert(digit as u8)
            } else {
                Command::Ignore
            }
        },
        Key::Backspace => Command::Pop,
        Key::Delete => Command::Clear,
        Key::Other => Command::Ignore,
    }
}

/// What became of a capture.
#[derive(Clone, Copy, Debug, PartialEq, Eq, Structural)]
pub enum Capture {
    /// It holds a filter string: nothing was touched.
    Dropped,
    /// It stands in the cache and in the history.
    Stored,
}

/// What became of a digit key.
#[derive(Clone, Copy, Debug, PartialEq, Eq, Structural)]
pub enum Insertion {
    /// No snippet is bound to the digit: nothing was touched.
    Unbound,
    /// The snippet was placed; `flush` says whether it asks for a flush.
    Placed { flush: bool },
}

/// Takes one normalised capture in. One that holds a filter string touches
/// neither the cache nor the history. Any other goes to both, unless the
/// cache must be flushed first: then nothing is touched either.
pub fn collect(config: &Config, cache: &mut Cache, history: &mut History, text: &str) -> (r: Result<
    Capture,
    FlushDue,
>)
    ensures
        old(cache)@.wf() ==> final(cache)@.wf(),
        old(history)@.wf() ==> final(history)@.wf(),
        old(history)@.ascending() && old(history)@.current < u32::MAX
            ==> final(history)@.ascending(),
        holds_any(text@, texts(config.filter@)) ==> {
            &&& r == Ok::<Capture, FlushDue>(Capture::Dropped)
            &&& final(cache)@ == old(cache)@
            &&& final(history)@ == old(history)@
        },
        !holds_any(text@, texts(config.filter@)) && old(cache)@.flush_due() ==> {
            &&& r is Err
            &&& final(cache)@ == old(cache)@
            &&& final(history)@ == old(history)@
        },
        !holds_any(text@, texts(config.filter@)) && !old(cache)@.flush_due() ==> {
            &&& r == Ok::<Capture, FlushDue>(Capture::Stored)
            &&& final(cache)@ == old(cache)@.with_entries(
                old(cache)@.entries.push(EntryView::Raw(wrapped(text@))),
            )
            &&& final(history)@ == old(history)@.raw(text@)
        },
{
    if config.is_filtered(text) {
        return Ok(Capture::Dropped);
    }
    match cache.raw(text) {
        Err(e) => Err(e),
        Ok(_) => {
            history.raw(text);
            Ok(Capture::Stored)
        },
    }
}

/// Inserts the snippet bound to `digit` into the cache and the history.
/// Nothing is touched where no snippet is bound to it, or where the cache
/// must be flushed first.
pub fn insert(config: &Config, cache: &mut Cache, history: &mut History, digit: u8) -> (r: Result<
    Insertion,
    FlushDue,
>)
    ensures
        old(cache)@.wf() ==> final(cache)@.wf(),
        old(history)@.wf() ==> final(history)@.wf(),
        old(history)@.ascending() && old(history)@.current < u32::MAX
            ==> final(history)@.ascending(),
        !config.bindings@.dom().contains(digit) ==> {
            &&& r == Ok::<Insertion, FlushDue>(Insertion::Unbound)
            &&& final(cache)@ == old(cache)@
            &&& final(history)@ == old(history)@
        },
        config.bindings@.dom().contains(digit) && old(cache)@.flush_due() ==> {
            &&& r is Err
            &&& final(cache)@ == old(cache)@
            &&& final(history)@ == old(history)@
        },
        config.bindings@.dom().contains(digit) && !old(cache)@.flush_due() ==> {
            &&& r == Ok::<Insertion, FlushDue>(
                Insertion::Placed { flush: config.bindings@[digit].flush },
            )
            &&& final(cache)@ == old(cache)@.with_entries(
                placed(old(cache)@.entries, config.bindings@[digit]),
            )
            &&& final(history)@ == old(history)@.paragraph(config.bindings@[digit])
        },
{
    match config.bindings.get(digit) {
        None => Ok(Insertion::Unbound),
        Some(snippet) => {
            match cache.paragraph(snippet) {
                Err(e) => Err(e),
                Ok(_) => {
                    history.paragraph(snippet);
                    Ok(Insertion::Placed { flush: snippet.flush })
                },
            }
        },
    }
}

} // verus!
