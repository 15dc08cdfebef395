//! Append-only log of submitted command lines with a navigation cursor
//! for "recall previous / recall next" semantics.

use vstd::prelude::*;

verus! {

/// The command history: an ordered, append-only sequence of previously
/// submitted lines plus a cursor into it.
///
/// The cursor ranges over `[0, commands.len()]`; a cursor equal to
/// `commands.len()` means "nothing recalled" (the prompt shows whatever the
/// user typed, not a history entry).  Every push resets the cursor to the
/// end of the log.
#[derive(Debug, Clone)]
pub struct History {
    pub commands: Vec<String>,
    pub nav_pointer: usize,
}

impl History {
    /// The log as a sequence of character sequences.
    pub open spec fn entries_view(self) -> Seq<Seq<char>> {
        self.commands@.map_values(|s: String| s@)
    }

    /// The cursor never runs past the end of the log.
    pub open spec fn wf(self) -> bool {
        self.nav_pointer <= self.commands.len()
    }

    /// What one step back yields from a given log and cursor: the entry
    /// just before the cursor, or nothing when the cursor is already at
    /// the oldest entry.
    pub open spec fn spec_nav_back_result(entries: Seq<Seq<char>>, cursor: nat) -> Option<
        Seq<char>,
    > {
        if cursor == 0 {
            Option::None
        } else {
            Option::Some(entries[cursor - 1])
        }
    }

    /// Where the cursor stands after one step back.
    pub open spec fn spec_nav_back_cursor(cursor: nat) -> nat {
        if cursor == 0 {
            0
        } else {
            (cursor - 1) as nat
        }
    }

    /// What one step forward yields: the entry just after the cursor, or
    /// nothing when the step lands on (or the cursor already is at) the
    /// "nothing recalled" position at the end of the log.
    pub open spec fn spec_nav_front_result(entries: Seq<Seq<char>>, cursor: nat) -> Option<
        Seq<char>,
    > {
        if cursor >= entries.len() {
            Option::None
        } else if cursor + 1 == entries.len() {
            Option::None
        } else {
            Option::Some(entries[cursor as int + 1])
        }
    }

    /// Where the cursor stands after one step forward.
    pub open spec fn spec_nav_front_cursor(entries: Seq<Seq<char>>, cursor: nat) -> nat {
        if cursor >= entries.len() {
            cursor
        } else {
            (cursor + 1) as nat
        }
    }

    /// An empty history: no entries, nothing to recall.
    pub fn new() -> (h: History)
        ensures
            h.commands@ =~= Seq::<String>::empty(),
            h.nav_pointer == 0,
            h.wf(),
    {
        History { commands: Vec::new(), nav_pointer: 0 }
    }

    /// A history seeded from a raw sequence of lines (for example, lines
    /// restored by a persistence collaborator); the cursor starts at the
    /// end, so nothing is recalled yet.
    pub fn with_entries(entries: Vec<String>) -> (h: History)
        ensures
            h.commands == entries,
            h.nav_pointer == entries.len(),
            h.wf(),
    {
        let len = entries.len();
        History { commands: entries, nav_pointer: len }
    }

    /// Recall the previous entry: move the cursor one step towards the
    /// oldest entry and return the entry it now points to, or return
    /// nothing (and stay put) when there is no older entry.
    pub fn nav_back(&mut self) -> (r: Option<String>)
        requires
            old(self).wf(),
        ensures
            final(self).commands == old(self).commands,
            final(self).nav_pointer as nat == Self::spec_nav_back_cursor(
                old(self).nav_pointer as nat,
            ),
            final(self).wf(),
            opt_string_view(r) == Self::spec_nav_back_result(
                old(self).entries_view(),
                old(self).nav_pointer as nat,
            ),
    {
        if self.nav_pointer == 0 {
            Option::None
        } else {
            self.nav_pointer = self.nav_pointer - 1;
            let entry = self.commands[self.nav_pointer].clone();
            Option::Some(entry)
        }
    }

    /// Recall the next entry: move the cursor one step towards the newest
    /// entry and return the entry it now points to; return nothing when
    /// the cursor was already at the end, or when the step lands on the
    /// "nothing recalled" position just past the newest entry.
    pub fn nav_front(&mut self) -> (r: Option<String>)
        requires
            old(self).wf(),
        ensures
            final(self).commands == old(self).commands,
            final(self).nav_pointer as nat == Self::spec_nav_front_cursor(
                old(self).entries_view(),
                old(self).nav_pointer as nat,
            ),
            final(self).wf(),
            opt_string_view(r) == Self::spec_nav_front_result(
                old(self).entries_view(),
                old(self).nav_pointer as nat,
            ),
    {
        if self.nav_pointer == self.commands.len() {
            Option::None
        } else {
            self.nav_pointer = self.nav_pointer + 1;
            if self.nav_pointer == self.commands.len() {
                Option::None
            } else {
                let entry = self.commands[self.nav_pointer].clone();
                Option::Some(entry)
            }
        }
    }

    /// Append a line unconditionally (duplicates and failed lines
    /// included) and reset the cursor to the end of the log.
    pub fn push(&mut self, cmd: String)
        ensures
            final(self).commands@ == old(self).commands@.push(cmd),
            final(self).nav_pointer == final(self).commands.len(),
            final(self).wf(),
    {
        self.commands.push(cmd);
        self.nav_pointer = self.commands.len();
    }

    /// The full log, oldest first, for persistence collaborators.
    pub fn entries(&self) -> (r: &Vec<String>)
        ensures
            r == &self.commands,
    {
        &self.commands
    }

    /// Empty the log and reset the cursor.
    pub fn clear(&mut self)
        ensures
            final(self).commands@ =~= Seq::<String>::empty(),
            final(self).nav_pointer == 0,
            final(self).wf(),
    {
        self.commands.clear();
        self.nav_pointer = 0;
    }
}

/// The view of an optionally returned line.
pub open spec fn opt_string_view(o: Option<String>) -> Option<Seq<char>> {
    match o {
        Option::Some(s) => Option::Some(s@),
        Option::None => Option::None,
    }
}

/// Pushing a line and then recalling one step back yields exactly that
/// line, whatever the log held before.
pub proof fn lemma_push_then_nav_back(entries: Seq<Seq<char>>, cmd: Seq<char>)
    ensures
        History::spec_nav_back_result(entries.push(cmd), entries.len() + 1) == Option::Some(cmd),
        History::spec_nav_back_cursor(entries.len() + 1) == entries.len(),
{
}

/// With the cursor at the oldest entry nothing further back can be
/// recalled, and with it at the end of the log nothing further front.
pub proof fn lemma_recall_exhausted(entries: Seq<Seq<char>>, cursor: nat)
    ensures
        History::spec_nav_back_result(entries, 0) is None,
        History::spec_nav_front_result(entries, entries.len()) is None,
        cursor >= entries.len() ==> History::spec_nav_front_result(entries, cursor) is None,
{
}

/// After a clear the log is empty and the cursor is at zero, so recall in
/// either direction yields nothing.
pub proof fn lemma_clear_then_nav()
    ensures
        History::spec_nav_back_result(Seq::<Seq<char>>::empty(), 0) is None,
        History::spec_nav_front_result(Seq::<Seq<char>>::empty(), 0) is None,
{
}

} // verus!
