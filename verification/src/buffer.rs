//! The scrollback buffer: one entry per processed command, each holding
//! the echoed command text, its rendered output and whether it failed.

use vstd::prelude::*;
use vstd::string::*;

use crate::commands::CommandResult;

verus! {

/// What a buffer entry displays: rendered text, or nothing.
#[derive(Debug, Clone, PartialEq, Eq)]
pub enum EntryContent {
    Text(String),
    Empty,
}

impl EntryContent {
    /// The characters the renderer shows for this content.
    pub open spec fn spec_render(self) -> Seq<char> {
        match self {
            EntryContent::Text(t) => t@,
            EntryContent::Empty => Seq::empty(),
        }
    }

    /// The content as displayable text; empty content renders as the
    /// empty string.
    pub fn render(&self) -> (r: String)
        ensures
            r@ == self.spec_render(),
    {
        match self {
            EntryContent::Empty => String::new(),
            EntryContent::Text(text) => text.clone(),
        }
    }
}

/// One processed command: the echoed command text, its output, and
/// whether it failed (the prompt colors accordingly).
#[derive(Debug, Clone, PartialEq, Eq)]
pub struct CommandEntry {
    pub cmd: String,
    pub output: EntryContent,
    pub failed: bool,
}

impl CommandEntry {
    /// An entry built from its parts.
    pub fn new(cmd: String, output: EntryContent, failed: bool) -> (e: CommandEntry)
        ensures
            e.cmd == cmd,
            e.output == output,
            e.failed == failed,
    {
        CommandEntry { cmd, output, failed }
    }

    /// A successful entry with output.
    pub fn ok(cmd: &str, output: EntryContent) -> (e: CommandEntry)
        ensures
            e.cmd@ == cmd@,
            e.output == output,
            !e.failed,
    {
        Self::new(cmd.to_owned(), output, false)
    }

    /// A failed entry with output.
    pub fn err(cmd: &str, output: EntryContent) -> (e: CommandEntry)
        ensures
            e.cmd@ == cmd@,
            e.output == output,
            e.failed,
    {
        Self::new(cmd.to_owned(), output, true)
    }

    /// The entry for an empty input line: no command, no output.
    pub fn empty() -> (e: CommandEntry)
        ensures
            e.cmd@ == Seq::<char>::empty(),
            e.output is Empty,
            !e.failed,
    {
        Self::new(String::new(), EntryContent::Empty, false)
    }

    /// A successful entry without output.
    pub fn no_output(cmd: &str) -> (e: CommandEntry)
        ensures
            e.cmd@ == cmd@,
            e.output is Empty,
            !e.failed,
    {
        Self::new(cmd.to_owned(), EntryContent::Empty, false)
    }
}

/// One entry was appended, with the given command text, output text (or
/// none) and failure flag; everything already in the buffer is untouched.
pub open spec fn spec_appended(
    old_entries: Seq<CommandEntry>,
    new_entries: Seq<CommandEntry>,
    cmd: Seq<char>,
    out: Option<Seq<char>>,
    failed: bool,
) -> bool {
    &&& new_entries.len() == old_entries.len() + 1
    &&& forall|k: int| 0 <= k < old_entries.len() ==> new_entries[k] == old_entries[k]
    &&& new_entries[old_entries.len() as int].cmd@ == cmd
    &&& match out {
        Option::Some(t) => match new_entries[old_entries.len() as int].output {
            EntryContent::Text(x) => x@ == t,
            EntryContent::Empty => false,
        },
        Option::None => new_entries[old_entries.len() as int].output is Empty,
    }
    &&& new_entries[old_entries.len() as int].failed == failed
}

/// The scrollback buffer of processed commands, oldest first.
#[derive(Debug, Clone)]
pub struct TerminalBuffer {
    pub commands: Vec<CommandEntry>,
}

impl TerminalBuffer {
    /// The processed entries, oldest first.
    pub fn commands(&self) -> (r: &Vec<CommandEntry>)
        ensures
            r == &self.commands,
    {
        &self.commands
    }

    /// An empty buffer.
    pub fn new() -> (b: TerminalBuffer)
        ensures
            b.commands@.len() == 0,
    {
        TerminalBuffer { commands: Vec::new() }
    }

    /// Record one command result: every result appends exactly one entry,
    /// except the clear marker, which empties the whole buffer.
    pub fn process(&mut self, res: CommandResult)
        ensures
            match res {
                CommandResult::Empty => spec_appended(
                    old(self).commands@,
                    final(self).commands@,
                    Seq::<char>::empty(),
                    Option::None,
                    false,
                ),
                CommandResult::Help(h) => spec_appended(
                    old(self).commands@,
                    final(self).commands@,
                    "help"@,
                    Option::Some(h@),
                    false,
                ),
                CommandResult::Clear => final(self).commands@.len() == 0,
                CommandResult::Pwd(p) => spec_appended(
                    old(self).commands@,
                    final(self).commands@,
                    "pwd"@,
                    Option::Some(p@),
                    false,
                ),
                CommandResult::Cd(c) => spec_appended(
                    old(self).commands@,
                    final(self).commands@,
                    c@,
                    Option::None,
                    false,
                ),
                CommandResult::Ls(l) => spec_appended(
                    old(self).commands@,
                    final(self).commands@,
                    "ls"@,
                    Option::Some(l@),
                    false,
                ),
                CommandResult::Theme(c) => spec_appended(
                    old(self).commands@,
                    final(self).commands@,
                    c@,
                    Option::None,
                    false,
                ),
                CommandResult::History(c, h) => spec_appended(
                    old(self).commands@,
                    final(self).commands@,
                    c@,
                    Option::Some(h@),
                    false,
                ),
                CommandResult::Failed(c, o) => spec_appended(
                    old(self).commands@,
                    final(self).commands@,
                    c@,
                    Option::Some(o@),
                    true,
                ),
                CommandResult::Unknown(c) => spec_appended(
                    old(self).commands@,
                    final(self).commands@,
                    c@,
                    Option::Some("command not found: "@ + c@),
                    true,
                ),
            },
    {
        match res {
            CommandResult::Empty => self.commands.push(CommandEntry::empty()),
            CommandResult::Help(help) => self.commands.push(
                CommandEntry::ok("help", EntryContent::Text(help)),
            ),
            CommandResult::Clear => {
                self.commands.push(CommandEntry::no_output("clear"));
                self.clear();
            },
            CommandResult::Pwd(p) => self.commands.push(
                CommandEntry::ok("pwd", EntryContent::Text(p)),
            ),
            CommandResult::Cd(cmd) => self.commands.push(CommandEntry::no_output(cmd.as_str())),
            CommandResult::Ls(l) => self.commands.push(
                CommandEntry::ok("ls", EntryContent::Text(l)),
            ),
            CommandResult::Theme(cmd) => self.commands.push(CommandEntry::no_output(cmd.as_str())),
            CommandResult::History(cmd, h) => self.commands.push(
                CommandEntry::ok(cmd.as_str(), EntryContent::Text(h)),
            ),
            CommandResult::Failed(cmd, output) => self.commands.push(
                CommandEntry::err(cmd.as_str(), EntryContent::Text(output)),
            ),
            CommandResult::Unknown(cmd) => {
                let mut message = String::from_str("command not found: ");
                message.append(cmd.as_str());
                self.commands.push(CommandEntry::err(cmd.as_str(), EntryContent::Text(message)));
            },
        }
    }

    /// Drop every entry.
    pub fn clear(&mut self)
        ensures
            final(self).commands@.len() == 0,
    {
        self.commands.clear()
    }

    /// Whether the buffer holds no entry.
    pub fn is_empty(&self) -> (b: bool)
        ensures
            b == (self.commands@.len() == 0),
    {
        self.commands.is_empty()
    }
}

} // verus!
