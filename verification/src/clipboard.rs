//! Clipboard monitoring: noticing a changed pasteboard and keeping a
//! bounded history of copied texts, newest first.
use std::collections::VecDeque;
use vstd::prelude::*;

verus! {

/// How many texts the history keeps by default.
pub const DEFAULT_HISTORY_SIZE: usize = 50;

/// Message fired when the clipboard content changes.
#[derive(Clone, Debug)]
pub struct ClipboardChanged {
    pub content: String,
}

/// The pasteboard's last seen change count and the history of copied texts.
#[derive(Debug)]
pub struct ClipboardState {
    last_change_count: isize,
    history: VecDeque<String>,
    max_history: usize,
}

/// The texts of a history, newest first.
pub open spec fn history_view(h: Seq<String>) -> Seq<Seq<char>> {
    h.map_values(|s: String| s@)
}

/// The history after copying `text`: the oldest text is dropped when the
/// history is full, and `text` goes first.
pub open spec fn spec_recorded(h: Seq<Seq<char>>, max: nat, text: Seq<char>) -> Seq<Seq<char>> {
    seq![text] + (if h.len() >= max && h.len() > 0 {
        h.drop_last()
    } else {
        h
    })
}

impl ClipboardState {
    /// The change count last seen.
    pub closed spec fn spec_last_change_count(&self) -> isize {
        self.last_change_count
    }

    /// The copied texts, newest first.
    pub closed spec fn spec_history(&self) -> Seq<Seq<char>> {
        history_view(self.history@)
    }

    /// How many texts the history keeps.
    pub closed spec fn spec_max_history(&self) -> nat {
        self.max_history as nat
    }

    /// A state that has seen `change_count` and holds no text yet.
    pub fn new(change_count: isize) -> (s: ClipboardState)
        ensures
            s.spec_last_change_count() == change_count,
            s.spec_history().len() == 0,
            s.spec_max_history() == DEFAULT_HISTORY_SIZE,
    {
        ClipboardState { last_change_count: change_count, history: VecDeque::new(), max_history: DEFAULT_HISTORY_SIZE }
    }

    /// Records the pasteboard's change count; `true` when it differs from
    /// the last one seen (the content must then be read).
    pub fn note_change_count(&mut self, change_count: isize) -> (changed: bool)
        ensures
            changed == (change_count != old(self).spec_last_change_count()),
            final(self).spec_last_change_count() == change_count,
            final(self).spec_history() == old(self).spec_history(),
            final(self).spec_max_history() == old(self).spec_max_history(),
    {
        if change_count == self.last_change_count {
            return false;
        }
        self.last_change_count = change_count;
        true
    }

    /// Adds a copied text to the history and gives the change message.
    pub fn record(&mut self, text: String) -> (m: ClipboardChanged)
        ensures
            m.content@ == text@,
            final(self).spec_history() == spec_recorded(
                old(self).spec_history(),
                old(self).spec_max_history(),
                text@,
            ),
            final(self).spec_last_change_count() == old(self).spec_last_change_count(),
            final(self).spec_max_history() == old(self).spec_max_history(),
    {
        let ghost before = self.history@;
        if self.history.len() >= self.max_history {
            self.history.pop_back();
        }
        let ghost kept = self.history@;
        assert(history_view(kept) == (if history_view(before).len() >= self.max_history && history_view(before).len() > 0 {
            history_view(before).drop_last()
        } else {
            history_view(before)
        })) by {
            if before.len() > 0 && before.len() >= self.max_history {
                assert(kept =~= before.drop_last());
                assert(history_view(before.drop_last()) =~= history_view(before).drop_last());
            }
        }
        self.history.push_front(text.clone());
        assert(history_view(self.history@) =~= seq![text@] + history_view(kept));
        ClipboardChanged { content: text }
    }

    /// The copied texts, newest first.
    pub fn history(&self) -> (h: &VecDeque<String>)
        ensures
            history_view(h@) == self.spec_history(),
    {
        &self.history
    }
}

/// Law: the history never grows past its size once full, and its newest
/// text is the one copied last.
pub proof fn lemma_history_bounded(h: Seq<Seq<char>>, max: nat, text: Seq<char>)
    requires
        max >= 1,
        h.len() <= max,
    ensures
        spec_recorded(h, max, text).len() <= max,
        spec_recorded(h, max, text)[0] == text,
{
}

} // verus!
