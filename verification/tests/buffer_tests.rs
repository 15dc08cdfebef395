use webterm::buffer::{CommandEntry, EntryContent, TerminalBuffer};
use webterm::commands::CommandResult;

#[test]
fn render_shows_text_or_nothing() {
    assert_eq!(EntryContent::Text("hi".to_string()).render(), "hi".to_string());
    assert_eq!(EntryContent::Empty.render(), "".to_string());
}

#[test]
fn entry_constructors_set_their_fields() {
    let e = CommandEntry::new("x".to_string(), EntryContent::Empty, true);
    assert_eq!(e.cmd, "x".to_string());
    assert!(e.failed);
    let ok = CommandEntry::ok("a", EntryContent::Text("out".to_string()));
    assert!(!ok.failed);
    assert_eq!(ok.output, EntryContent::Text("out".to_string()));
    let err = CommandEntry::err("b", EntryContent::Text("no".to_string()));
    assert!(err.failed);
    let empty = CommandEntry::empty();
    assert_eq!(empty.cmd, "".to_string());
    assert_eq!(empty.output, EntryContent::Empty);
    let quiet = CommandEntry::no_output("cd x");
    assert_eq!(quiet.cmd, "cd x".to_string());
    assert_eq!(quiet.output, EntryContent::Empty);
}

#[test]
fn process_appends_one_entry_per_result() {
    let mut b = TerminalBuffer::new();
    assert!(b.is_empty());
    b.process(CommandResult::Pwd("/home/user".to_string()));
    b.process(CommandResult::Cd("cd projects".to_string()));
    b.process(CommandResult::Failed("cd".to_string(), "no such directory: x".to_string()));
    let entries = b.commands();
    assert_eq!(entries.len(), 3);
    assert_eq!(entries[0].cmd, "pwd".to_string());
    assert_eq!(entries[0].output, EntryContent::Text("/home/user".to_string()));
    assert!(!entries[0].failed);
    assert_eq!(entries[1].cmd, "cd projects".to_string());
    assert_eq!(entries[1].output, EntryContent::Empty);
    assert_eq!(entries[2].cmd, "cd".to_string());
    assert!(entries[2].failed);
}

#[test]
fn process_unknown_reports_command_not_found() {
    let mut b = TerminalBuffer::new();
    b.process(CommandResult::Unknown("zzz".to_string()));
    let entries = b.commands();
    assert_eq!(entries[0].cmd, "zzz".to_string());
    assert_eq!(
        entries[0].output,
        EntryContent::Text("command not found: zzz".to_string())
    );
    assert!(entries[0].failed);
}

#[test]
fn process_clear_empties_the_buffer() {
    let mut b = TerminalBuffer::new();
    b.process(CommandResult::Pwd("/".to_string()));
    b.process(CommandResult::Clear);
    assert!(b.is_empty());
}

#[test]
fn process_empty_input_appends_a_blank_entry() {
    let mut b = TerminalBuffer::new();
    b.process(CommandResult::Empty);
    let entries = b.commands();
    assert_eq!(entries.len(), 1);
    assert_eq!(entries[0].cmd, "".to_string());
    assert_eq!(entries[0].output, EntryContent::Empty);
    assert!(!entries[0].failed);
}

#[test]
fn clear_and_is_empty_agree() {
    let mut b = TerminalBuffer::new();
    b.process(CommandResult::History("history".to_string(), "ls<br />".to_string()));
    assert!(!b.is_empty());
    b.clear();
    assert!(b.is_empty());
}
