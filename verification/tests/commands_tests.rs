use webterm::commands::{exec, help, ls, pwd, CommandResult, ParseError};
use webterm::filesystem::Filesystem;
use webterm::history::History;
use webterm::themes::{latte, mocha};

fn session() -> (Filesystem, History, webterm::themes::TerminalTheme) {
    (Filesystem::new(), History::new(), mocha())
}

#[test]
fn scenario_cd_then_failed_cd_then_ls() {
    let (mut fs, mut h, mut t) = session();
    assert_eq!(fs.cwd(), "/home/user".to_string());
    let r1 = exec("cd projects".to_string(), &mut fs, &mut h, &mut t);
    assert_eq!(r1, CommandResult::Cd("cd projects".to_string()));
    assert_eq!(fs.cwd(), "/home/user/projects".to_string());
    let r2 = exec("cd nope".to_string(), &mut fs, &mut h, &mut t);
    assert_eq!(
        r2,
        CommandResult::Failed("cd".to_string(), "no such directory: nope".to_string())
    );
    assert_eq!(fs.cwd(), "/home/user/projects".to_string());
    // the seeded projects directory is empty, so the listing is too
    let r3 = exec("ls".to_string(), &mut fs, &mut h, &mut t);
    assert_eq!(r3, CommandResult::Ls("".to_string()));
}

#[test]
fn unknown_verb_mutates_nothing() {
    let (mut fs, mut h, mut t) = session();
    h.push("earlier".to_string());
    let cwd_before = fs.cwd();
    let entries_before = h.entries().clone();
    let r = exec("zzz".to_string(), &mut fs, &mut h, &mut t);
    assert_eq!(r, CommandResult::Unknown("zzz".to_string()));
    assert_eq!(fs.cwd(), cwd_before);
    assert_eq!(h.entries(), &entries_before);
    assert_eq!(t.name, "mocha".to_string());
}

#[test]
fn empty_and_blank_input_yield_the_empty_marker() {
    let (mut fs, mut h, mut t) = session();
    assert_eq!(exec("".to_string(), &mut fs, &mut h, &mut t), CommandResult::Empty);
    assert_eq!(exec("   ".to_string(), &mut fs, &mut h, &mut t), CommandResult::Empty);
}

#[test]
fn cd_without_argument_reports_escaped_usage() {
    let (mut fs, mut h, mut t) = session();
    let r = exec("cd".to_string(), &mut fs, &mut h, &mut t);
    assert_eq!(
        r,
        CommandResult::Failed("cd".to_string(), "usage: cd &lt;path&gt;".to_string())
    );
    assert_eq!(fs.cwd(), "/home/user".to_string());
}

#[test]
fn cd_broken_link_reports_broken_link() {
    let (mut fs, mut h, mut t) = session();
    fs.add_link(2, "dangle".to_string(), 999, true);
    let r = exec("cd dangle".to_string(), &mut fs, &mut h, &mut t);
    assert_eq!(
        r,
        CommandResult::Failed("cd".to_string(), "broken link".to_string())
    );
}

#[test]
fn pwd_returns_current_path() {
    let (mut fs, mut h, mut t) = session();
    let r = exec("pwd".to_string(), &mut fs, &mut h, &mut t);
    assert_eq!(r, CommandResult::Pwd("/home/user".to_string()));
    assert_eq!(pwd(&fs), "/home/user".to_string());
}

#[test]
fn verbs_with_extra_arguments_report_usage() {
    let (mut fs, mut h, mut t) = session();
    let r = exec("ls now".to_string(), &mut fs, &mut h, &mut t);
    assert_eq!(
        r,
        CommandResult::Failed("ls".to_string(), "usage: ls".to_string())
    );
    let r2 = exec("pwd here".to_string(), &mut fs, &mut h, &mut t);
    assert_eq!(
        r2,
        CommandResult::Failed("pwd".to_string(), "usage: pwd".to_string())
    );
}

#[test]
fn clear_verb_yields_the_clear_marker() {
    let (mut fs, mut h, mut t) = session();
    assert_eq!(exec("clear".to_string(), &mut fs, &mut h, &mut t), CommandResult::Clear);
}

#[test]
fn help_text_lists_the_commands() {
    let (mut fs, mut h, mut t) = session();
    let expected = format!(
        "\n        <b style='{}'>Available commands:</b>\n        <br />\n        - help <br />\n        - pwd <br />\n        - cd <br />\n        - ls <br />\n        - theme <br />\n        - history <br />\n        <br />\n        Run [command] --help to get help for a specific command",
        t.peach.style_text()
    );
    assert_eq!(help(&t), expected);
    let r = exec("help".to_string(), &mut fs, &mut h, &mut t);
    assert_eq!(r, CommandResult::Help(expected));
}

#[test]
fn theme_verb_switches_palette() {
    let (mut fs, mut h, mut t) = session();
    let r = exec("theme -t latte".to_string(), &mut fs, &mut h, &mut t);
    assert_eq!(r, CommandResult::Theme("theme -t latte".to_string()));
    assert_eq!(t.name, "latte".to_string());
    assert_eq!(t.crust, latte().crust);
    let r2 = exec("theme --theme mocha".to_string(), &mut fs, &mut h, &mut t);
    assert_eq!(r2, CommandResult::Theme("theme --theme mocha".to_string()));
    assert_eq!(t.name, "mocha".to_string());
}

#[test]
fn unimplemented_theme_fails_structurally() {
    let (mut fs, mut h, mut t) = session();
    let r = exec("theme -t frappe".to_string(), &mut fs, &mut h, &mut t);
    assert_eq!(
        r,
        CommandResult::Failed(
            "theme".to_string(),
            "theme not implemented: frappe".to_string()
        )
    );
    assert_eq!(t.name, "mocha".to_string());
}

#[test]
fn malformed_theme_arguments_report_usage() {
    let (mut fs, mut h, mut t) = session();
    let r = exec("theme -t neon".to_string(), &mut fs, &mut h, &mut t);
    assert_eq!(
        r,
        CommandResult::Failed(
            "theme".to_string(),
            "usage: theme -t|--theme &lt;latte|frappe|macchiato|mocha&gt;".to_string()
        )
    );
    let r2 = exec("theme latte".to_string(), &mut fs, &mut h, &mut t);
    assert!(matches!(r2, CommandResult::Failed(_, _)));
}

#[test]
fn history_verb_joins_entries() {
    let (mut fs, mut t) = (Filesystem::new(), mocha());
    let mut h = History::with_entries(vec!["ls".to_string(), "pwd".to_string()]);
    let mut t2 = t.clone();
    let r = exec("history".to_string(), &mut fs, &mut h, &mut t2);
    assert_eq!(
        r,
        CommandResult::History("history".to_string(), "ls<br />pwd<br />".to_string())
    );
    assert_eq!(h.entries().len(), 2);
    let _ = t;
}

#[test]
fn history_clear_flag_empties_the_log() {
    let (mut fs, _h, mut t) = session();
    let mut h = History::with_entries(vec!["ls".to_string()]);
    let r = exec("history --clear".to_string(), &mut fs, &mut h, &mut t);
    assert_eq!(
        r,
        CommandResult::History("history --clear".to_string(), "".to_string())
    );
    assert!(h.entries().is_empty());
    assert_eq!(h.nav_back(), None);
}

#[test]
fn input_is_trimmed_before_dispatch() {
    let (mut fs, mut h, mut t) = session();
    let r = exec("  cd projects  ".to_string(), &mut fs, &mut h, &mut t);
    assert_eq!(r, CommandResult::Cd("cd projects".to_string()));
    assert_eq!(fs.cwd(), "/home/user/projects".to_string());
}

#[test]
fn from_err_escapes_markup() {
    let e = ParseError {
        usage: "use <flag>\nor not".to_string(),
    };
    let r = CommandResult::from_err(&e, "cmd");
    assert_eq!(
        r,
        CommandResult::Failed(
            "cmd".to_string(),
            "use &lt;flag&gt;<br />or not".to_string()
        )
    );
}

#[test]
fn ls_formats_rows_with_aligned_sizes() {
    let mut fs = Filesystem::new();
    let t = mocha();
    fs.add_file(2, "notes.txt".to_string(), b"hello world".to_vec(), true);
    let text = ls(&fs, &t);
    let expected = format!(
        "drwx  - <span style='{peach}'>projects/</span><br />.rwx 11 <span style='{text}'>notes.txt</span><br />",
        peach = t.peach.style_text(),
        text = t.text.style_text()
    );
    assert_eq!(text, expected);
}
