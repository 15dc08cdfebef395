//! The command interpreter: one raw input line in, exactly one structured
//! result out.  The first space-delimited token selects the verb; each
//! verb validates its own arguments and reports a usage message (escaped
//! for the markup consumer) when they are malformed.

use vstd::prelude::*;
use vstd::string::*;

use crate::filesystem::{
    Filesystem, FsError, LsResult, LsResultType, spec_ls_type, spec_perms, spec_segments,
    spec_size,
};
use crate::history::History;
use crate::text::{
    escape_markup, spec_dec, spec_escape, spec_spaces, spec_tokens, spec_trim, spaces,
    strings_view, tokenize, trim_spaces, u64_to_string,
};
use crate::themes::{TerminalTheme, is_latte, is_mocha, latte, mocha, spec_style_text};

verus! {

/// The one outcome of interpreting one input line; the sole channel
/// between the interpreter and any consumer.
#[derive(Debug, Clone, PartialEq, Eq)]
pub enum CommandResult {
    /// The verb is not in the dispatch table; carries the offending token.
    Unknown(String),
    /// A recognized verb failed; carries the verb tag and the (escaped)
    /// message.
    Failed(String, String),
    /// The help text.
    Help(String),
    /// The current working path.
    Pwd(String),
    /// A successful change of directory; carries the trimmed input line.
    Cd(String),
    /// The formatted listing of the current directory.
    Ls(String),
    /// A successful theme change; carries the trimmed input line.
    Theme(String),
    /// The (possibly just cleared) history; carries the trimmed input
    /// line and the joined history text.
    History(String, String),
    /// The clear-buffer marker.
    Clear,
    /// The empty-input marker: the line held no token at all.
    Empty,
}

/// A malformed argument list for a recognized verb, carrying the verb's
/// usage text.
#[derive(Debug, Clone)]
pub struct ParseError {
    pub usage: String,
}

/// What a parse-failure result must hold: the verb tag and the usage
/// text, escaped for the markup consumer.
pub open spec fn spec_parse_failed(r: CommandResult, tag: Seq<char>, usage: Seq<char>) -> bool {
    match r {
        CommandResult::Failed(c, m) => c@ == tag && m@ == spec_escape(usage),
        _ => false,
    }
}

impl CommandResult {
    /// A failure result for a parse error: the usage text is escaped so
    /// the renderer can embed it verbatim.
    pub fn from_err(value: &ParseError, cmd: &str) -> (r: CommandResult)
        ensures
            spec_parse_failed(r, cmd@, value.usage@),
    {
        CommandResult::Failed(cmd.to_owned(), escape_markup(value.usage.as_str()))
    }
}

/// The text a path-resolution failure is reported with: the reason, and
/// (except for a broken link) the literal failing path.
pub open spec fn spec_fs_error_message(e: FsError, path: Seq<char>) -> Seq<char> {
    match e {
        FsError::NoSuchDirectory => "no such directory: "@ + path,
        FsError::NotADirectory => "not a directory: "@ + path,
        FsError::ForbiddenAccess => "forbidden access: "@ + path,
        FsError::BrokenLink => "broken link"@,
    }
}

fn fs_error_message(e: FsError, path: &str) -> (r: String)
    ensures
        r@ == spec_fs_error_message(e, path@),
{
    match e {
        FsError::NoSuchDirectory => {
            let mut m = String::from_str("no such directory: ");
            m.append(path);
            m
        },
        FsError::NotADirectory => {
            let mut m = String::from_str("not a directory: ");
            m.append(path);
            m
        },
        FsError::ForbiddenAccess => {
            let mut m = String::from_str("forbidden access: ");
            m.append(path);
            m
        },
        FsError::BrokenLink => String::from_str("broken link"),
    }
}

/// The static help text, colored with the theme's accent.
pub open spec fn spec_help(t: TerminalTheme) -> Seq<char> {
    "\n        <b style='"@ + spec_style_text(t.peach)
        + "'>Available commands:</b>\n        <br />\n        - help <br />\n        - pwd <br />\n        - cd <br />\n        - ls <br />\n        - theme <br />\n        - history <br />\n        <br />\n        Run [command] --help to get help for a specific command"@
}

/// The help text for the current theme.
pub fn help(theme: &TerminalTheme) -> (r: String)
    ensures
        r@ == spec_help(*theme),
{
    let mut r = String::from_str("\n        <b style='");
    let style = theme.peach.style_text();
    r.append(style.as_str());
    r.append(
        "'>Available commands:</b>\n        <br />\n        - help <br />\n        - pwd <br />\n        - cd <br />\n        - ls <br />\n        - theme <br />\n        - history <br />\n        <br />\n        Run [command] --help to get help for a specific command",
    );
    r
}

/// The current working path of the filesystem.
pub fn pwd(filesystem: &Filesystem) -> (r: String)
    requires
        filesystem.wf(),
    ensures
        r@ == filesystem.spec_cwd_path(),
{
    filesystem.cwd()
}

/// The size column text of one listing row: the decimal size of a file,
/// a dash for directories and links.
pub open spec fn spec_size_str(o: Option<u64>) -> Seq<char> {
    match o {
        Option::Some(n) => spec_dec(n as nat),
        Option::None => seq!['-'],
    }
}

fn size_str(num: Option<u64>) -> (r: String)
    ensures
        r@ == spec_size_str(num),
{
    match num {
        Option::Some(n) => u64_to_string(n),
        Option::None => {
            let r = String::from_str("-");
            proof {
                reveal_strlit("-");
                assert("-"@ =~= seq!['-']);
            }
            r
        },
    }
}

/// The width of the size column: the longest rendered size, and at least
/// one character.
pub open spec fn spec_longest(rows: Seq<LsResult>) -> nat
    decreases rows.len(),
{
    if rows.len() == 0 {
        1
    } else {
        let rest = spec_longest(rows.take(rows.len() - 1));
        let last = spec_size_str(rows[rows.len() - 1].size).len();
        if last > rest {
            last
        } else {
            rest
        }
    }
}

/// Every row's rendered size fits in the column `spec_longest` gives.
pub proof fn lemma_longest_bound(rows: Seq<LsResult>, k: int)
    requires
        0 <= k < rows.len(),
    ensures
        spec_size_str(rows[k].size).len() <= spec_longest(rows),
    decreases rows.len(),
{
    if k == rows.len() - 1 {
    } else {
        lemma_longest_bound(rows.take(rows.len() - 1), k);
        assert(rows.take(rows.len() - 1)[k] == rows[k]);
    }
}

/// The width of the size column over a listing.
pub fn longest_size(entries: &Vec<LsResult>) -> (m: usize)
    ensures
        m as nat == spec_longest(entries@),
        m >= 1,
    {
    let mut m: usize = 1;
    let mut k: usize = 0;
    proof {
        assert(entries@.take(0) =~= Seq::<LsResult>::empty());
    }
    while k < entries.len()
        invariant
            0 <= k <= entries@.len(),
            m as nat == spec_longest(entries@.take(k as int)),
            m >= 1,
        decreases entries@.len() - k,
    {
        let s = size_str(entries[k].size);
        let l = s.as_str().unicode_len();
        proof {
            assert(entries@.take(k as int + 1).take(k as int) =~= entries@.take(k as int));
            assert(entries@.take(k as int + 1)[k as int] == entries@[k as int]);
        }
        if l > m {
            m = l;
        }
        k = k + 1;
    }
    proof {
        assert(entries@.take(entries@.len() as int) =~= entries@);
    }
    m
}

/// The size column entry for one row: the rendered size, right-aligned
/// in a column of width `max`.
pub open spec fn spec_pad(num: Option<u64>, max: nat) -> Seq<char> {
    spec_spaces((max - spec_size_str(num).len()) as nat) + spec_size_str(num)
}

/// Right-align a rendered size in a column of the given width.
pub fn pad(num: Option<u64>, max: usize) -> (r: String)
    requires
        spec_size_str(num).len() <= max,
    ensures
        r@ == spec_pad(num, max as nat),
{
    let s = size_str(num);
    let l = s.as_str().unicode_len();
    if l == max {
        proof {
            assert(spec_spaces(0) =~= Seq::<char>::empty());
            assert(spec_spaces(0) + s@ =~= s@);
        }
        return s;
    }
    let mut r = spaces(max - l);
    r.append(s.as_str());
    r
}

/// The colored display name of one listing row: directories carry a
/// trailing slash and the theme's accent, files the text color, links
/// the sapphire color.
pub open spec fn spec_format_name(name: Seq<char>, ty: LsResultType, t: TerminalTheme) -> Seq<
    char,
> {
    let color = match ty {
        LsResultType::Directory => t.peach,
        LsResultType::File => t.text,
        LsResultType::Link => t.sapphire,
    };
    let shown = if ty is Directory {
        name.push('/')
    } else {
        name
    };
    "<span style='"@ + spec_style_text(color) + "'>"@ + shown + "</span>"@
}

/// Wrap a listing name in a colored span for the renderer.
pub fn format_name(name: &str, ty: &LsResultType, theme: &TerminalTheme) -> (r: String)
    ensures
        r@ == spec_format_name(name@, *ty, *theme),
{
    let color = match ty {
        LsResultType::Directory => &theme.peach,
        LsResultType::File => &theme.text,
        LsResultType::Link => &theme.sapphire,
    };
    let mut r = String::from_str("<span style='");
    let style = color.style_text();
    r.append(style.as_str());
    r.append("'>");
    r.append(name);
    if matches!(ty, LsResultType::Directory) {
        r.append("/");
        proof {
            reveal_strlit("/");
            assert("/"@ =~= seq!['/']);
            assert(name@ + seq!['/'] =~= name@.push('/'));
        }
    }
    r.append("</span>");
    r
}

/// One line of the formatted listing, derived from the node it lists.
pub open spec fn spec_ls_line(e: crate::filesystem::FsEntry, m: nat, t: TerminalTheme) -> Seq<
    char,
> {
    spec_perms(e) + seq![' '] + spec_pad(spec_size(e.ty), m) + seq![' '] + spec_format_name(
        e.name@,
        spec_ls_type(e.ty),
        t,
    ) + "<br />"@
}

/// The formatted listing of the given children, one line per child in
/// declaration order.
pub open spec fn spec_ls_text(fs: Filesystem, kids: Seq<u64>, m: nat, t: TerminalTheme) -> Seq<
    char,
>
    decreases kids.len(),
{
    if kids.len() == 0 {
        Seq::empty()
    } else {
        spec_ls_text(fs, kids.take(kids.len() - 1), m, t) + spec_ls_line(
            fs.entry(kids[kids.len() - 1] as int),
            m,
            t,
        )
    }
}

/// The width of the size column over the children of a directory.
pub open spec fn spec_longest_entries(fs: Filesystem, kids: Seq<u64>) -> nat
    decreases kids.len(),
{
    if kids.len() == 0 {
        1
    } else {
        let rest = spec_longest_entries(fs, kids.take(kids.len() - 1));
        let last = spec_size_str(spec_size(fs.entry(kids[kids.len() - 1] as int).ty)).len();
        if last > rest {
            last
        } else {
            rest
        }
    }
}

/// What the `ls` verb prints: every child of the current working node,
/// with the size column sized to its longest entry.
pub open spec fn spec_ls_output(fs: Filesystem, t: TerminalTheme) -> Seq<char> {
    let kids = fs.entry(fs.cwd as int).children();
    spec_ls_text(fs, kids, spec_longest_entries(fs, kids), t)
}

/// Listing rows that describe the given children render the same column
/// width as the children themselves.
proof fn lemma_longest_bridge(fs: Filesystem, kids: Seq<u64>, rows: Seq<LsResult>)
    requires
        rows.len() == kids.len(),
        forall|k: int|
            0 <= k < kids.len() ==> fs.spec_ls_row_ok(fs.entry(kids[k] as int), #[trigger] rows[k]),
    ensures
        spec_longest(rows) == spec_longest_entries(fs, kids),
    decreases kids.len(),
{
    if kids.len() > 0 {
        let n = kids.len() as int;
        assert forall|k: int| 0 <= k < n - 1 implies fs.spec_ls_row_ok(
            fs.entry(kids.take(n - 1)[k] as int),
            #[trigger] rows.take(n - 1)[k],
        ) by {
            assert(kids.take(n - 1)[k] == kids[k]);
            assert(rows.take(n - 1)[k] == rows[k]);
        }
        lemma_longest_bridge(fs, kids.take(n - 1), rows.take(n - 1));
        assert(fs.spec_ls_row_ok(fs.entry(kids[n - 1] as int), rows[n - 1]));
    }
}

/// The formatted listing of the current working directory.
pub fn ls(filesystem: &Filesystem, theme: &TerminalTheme) -> (r: String)
    requires
        filesystem.wf(),
    ensures
        r@ == spec_ls_output(*filesystem, *theme),
{
    let rows = match filesystem.ls() {
        Result::Ok(rows) => rows,
        Result::Err(_) => {
            proof {
                assert(false);
            }
            Vec::new()
        },
    };
    let ghost kids = filesystem.entry(filesystem.cwd as int).children();
    let m = longest_size(&rows);
    proof {
        lemma_longest_bridge(*filesystem, kids, rows@);
    }
    let mut acc = String::new();
    let mut k: usize = 0;
    proof {
        assert(kids.take(0) =~= Seq::<u64>::empty());
        reveal_strlit(" ");
        assert(" "@ =~= seq![' ']);
    }
    while k < rows.len()
        invariant
            filesystem.wf(),
            0 <= k <= rows@.len(),
            kids == filesystem.entry(filesystem.cwd as int).children(),
            rows@.len() == kids.len(),
            forall|j: int|
                0 <= j < kids.len() ==> filesystem.spec_ls_row_ok(
                    filesystem.entry(kids[j] as int),
                    #[trigger] rows@[j],
                ),
            m as nat == spec_longest(rows@),
            m as nat == spec_longest_entries(*filesystem, kids),
            " "@ == seq![' '],
            acc@ == spec_ls_text(*filesystem, kids.take(k as int), m as nat, *theme),
        decreases rows@.len() - k,
    {
        let ghost e = filesystem.entry(kids[k as int] as int);
        proof {
            lemma_longest_bound(rows@, k as int);
            assert(kids.take(k as int + 1).take(k as int) =~= kids.take(k as int));
            assert(kids.take(k as int + 1)[k as int] == kids[k as int]);
        }
        acc.append(rows[k].permissions.as_str());
        acc.append(" ");
        let padded = pad(rows[k].size, m);
        acc.append(padded.as_str());
        acc.append(" ");
        let colored = format_name(rows[k].name.as_str(), &rows[k].ty, theme);
        acc.append(colored.as_str());
        acc.append("<br />");
        k = k + 1;
    }
    proof {
        assert(kids.take(kids.len() as int) =~= kids);
    }
    acc
}

/// The joined history text: each entry followed by a line-break token.
pub open spec fn spec_join_br(entries: Seq<Seq<char>>) -> Seq<char>
    decreases entries.len(),
{
    if entries.len() == 0 {
        Seq::empty()
    } else {
        spec_join_br(entries.take(entries.len() - 1)) + entries[entries.len() - 1] + "<br />"@
    }
}

fn join_history(entries: &Vec<String>) -> (r: String)
    ensures
        r@ == spec_join_br(strings_view(entries@)),
{
    let mut r = String::new();
    let mut k: usize = 0;
    proof {
        assert(strings_view(entries@).take(0) =~= Seq::<Seq<char>>::empty());
        assert(strings_view(entries@.take(0)) =~= Seq::<Seq<char>>::empty());
    }
    while k < entries.len()
        invariant
            0 <= k <= entries@.len(),
            r@ == spec_join_br(strings_view(entries@.take(k as int))),
        decreases entries@.len() - k,
    {
        r.append(entries[k].as_str());
        r.append("<br />");
        proof {
            let v = strings_view(entries@.take(k as int + 1));
            assert(v.take(v.len() - 1) =~= strings_view(entries@.take(k as int)));
            assert(v[v.len() - 1] == entries@[k as int]@);
        }
        k = k + 1;
    }
    proof {
        assert(entries@.take(entries@.len() as int) =~= entries@);
    }
    r
}

/// The closed set of theme names the `theme` verb accepts.
#[derive(Clone, Copy, PartialEq, Eq, Structural, Debug)]
pub enum ThemeName {
    Latte,
    Frappe,
    Macchiato,
    Mocha,
}

/// Which theme a token names, if any.
pub open spec fn spec_theme_name(s: Seq<char>) -> Option<ThemeName> {
    if s == "latte"@ {
        Option::Some(ThemeName::Latte)
    } else if s == "frappe"@ {
        Option::Some(ThemeName::Frappe)
    } else if s == "macchiato"@ {
        Option::Some(ThemeName::Macchiato)
    } else if s == "mocha"@ {
        Option::Some(ThemeName::Mocha)
    } else {
        Option::None
    }
}

/// Whether a token spells the given word.
fn string_is(tok: &String, word: &str) -> (b: bool)
    ensures
        b == (tok@ == word@),
{
    let w = word.to_owned();
    tok.eq(&w)
}

fn parse_theme_name(tok: &String) -> (r: Option<ThemeName>)
    ensures
        r == spec_theme_name(tok@),
{
    if string_is(tok, "latte") {
        Option::Some(ThemeName::Latte)
    } else if string_is(tok, "frappe") {
        Option::Some(ThemeName::Frappe)
    } else if string_is(tok, "macchiato") {
        Option::Some(ThemeName::Macchiato)
    } else if string_is(tok, "mocha") {
        Option::Some(ThemeName::Mocha)
    } else {
        Option::None
    }
}

/// Everything `exec` promises, spelled over the trimmed line's tokens:
/// which result each verb yields for well-formed and malformed argument
/// lists, and that nothing but the verb's own collaborator is ever
/// mutated.
pub open spec fn spec_exec_post(
    cmd: Seq<char>,
    fs0: Filesystem,
    fs1: Filesystem,
    h0: History,
    h1: History,
    t0: TerminalTheme,
    t1: TerminalTheme,
    r: CommandResult,
) -> bool {
    let line = spec_trim(cmd);
    let toks = spec_tokens(line, ' ');
    if toks.len() == 0 {
        fs1 == fs0 && h1 == h0 && t1 == t0 && r is Empty
    } else {
        let verb = toks[0];
        if verb == "help"@ {
            fs1 == fs0 && h1 == h0 && t1 == t0 && (if toks.len() == 1 {
                match r {
                    CommandResult::Help(m) => m@ == spec_help(t0),
                    _ => false,
                }
            } else {
                spec_parse_failed(r, "help"@, "usage: help"@)
            })
        } else if verb == "clear"@ {
            fs1 == fs0 && h1 == h0 && t1 == t0 && (if toks.len() == 1 {
                r is Clear
            } else {
                spec_parse_failed(r, "clear"@, "usage: clear"@)
            })
        } else if verb == "pwd"@ {
            fs1 == fs0 && h1 == h0 && t1 == t0 && (if toks.len() == 1 {
                match r {
                    CommandResult::Pwd(p) => p@ == fs0.spec_cwd_path(),
                    _ => false,
                }
            } else {
                spec_parse_failed(r, "pwd"@, "usage: pwd"@)
            })
        } else if verb == "cd"@ {
            h1 == h0 && t1 == t0 && (if toks.len() == 2 {
                match fs0.spec_cd(toks[1]) {
                    Result::Ok(n) => fs1.nodes == fs0.nodes && fs1.cwd as int == n && (match r {
                        CommandResult::Cd(c) => c@ == line,
                        _ => false,
                    }),
                    Result::Err(e) => fs1 == fs0 && (match r {
                        CommandResult::Failed(c, m) => c@ == "cd"@ && m@ == spec_fs_error_message(
                            e,
                            toks[1],
                        ),
                        _ => false,
                    }),
                }
            } else {
                fs1 == fs0 && spec_parse_failed(r, "cd"@, "usage: cd <path>"@)
            })
        } else if verb == "ls"@ {
            fs1 == fs0 && h1 == h0 && t1 == t0 && (if toks.len() == 1 {
                match r {
                    CommandResult::Ls(m) => m@ == spec_ls_output(fs0, t0),
                    _ => false,
                }
            } else {
                spec_parse_failed(r, "ls"@, "usage: ls"@)
            })
        } else if verb == "theme"@ {
            fs1 == fs0 && h1 == h0 && (if toks.len() == 3 && (toks[1] == "-t"@ || toks[1]
                == "--theme"@) {
                match spec_theme_name(toks[2]) {
                    Option::Some(ThemeName::Latte) => is_latte(t1) && (match r {
                        CommandResult::Theme(c) => c@ == line,
                        _ => false,
                    }),
                    Option::Some(ThemeName::Mocha) => is_mocha(t1) && (match r {
                        CommandResult::Theme(c) => c@ == line,
                        _ => false,
                    }),
                    Option::Some(ThemeName::Frappe) => t1 == t0 && (match r {
                        CommandResult::Failed(c, m) => c@ == "theme"@ && m@
                            == "theme not implemented: frappe"@,
                        _ => false,
                    }),
                    Option::Some(ThemeName::Macchiato) => t1 == t0 && (match r {
                        CommandResult::Failed(c, m) => c@ == "theme"@ && m@
                            == "theme not implemented: macchiato"@,
                        _ => false,
                    }),
                    Option::None => t1 == t0 && spec_parse_failed(
                        r,
                        "theme"@,
                        "usage: theme -t|--theme <latte|frappe|macchiato|mocha>"@,
                    ),
                }
            } else {
                t1 == t0 && spec_parse_failed(
                    r,
                    "theme"@,
                    "usage: theme -t|--theme <latte|frappe|macchiato|mocha>"@,
                )
            })
        } else if verb == "history"@ {
            fs1 == fs0 && t1 == t0 && (if toks.len() == 1 {
                h1 == h0 && (match r {
                    CommandResult::History(c, m) => c@ == line && m@ == spec_join_br(
                        h0.entries_view(),
                    ),
                    _ => false,
                })
            } else if toks.len() == 2 && toks[1] == "--clear"@ {
                h1.commands@.len() == 0 && h1.nav_pointer == 0 && (match r {
                    CommandResult::History(c, m) => c@ == line && m@.len() == 0,
                    _ => false,
                })
            } else {
                h1 == h0 && spec_parse_failed(r, "history"@, "usage: history [--clear]"@)
            })
        } else {
            fs1 == fs0 && h1 == h0 && t1 == t0 && (match r {
                CommandResult::Unknown(c) => c@ == verb,
                _ => false,
            })
        }
    }
}

/// Interpret one raw input line against the session's filesystem, history
/// and theme, and produce exactly one result.
///
/// The line is trimmed of surrounding spaces; its first space-delimited
/// token selects the verb.  A line with no token at all yields the
/// empty-input marker.  Only the selected verb's own collaborator is ever
/// mutated: a failed or unknown command leaves everything untouched.
pub fn exec(cmd: String, fs: &mut Filesystem, history: &mut History, theme: &mut TerminalTheme) -> (
    r: CommandResult)
    requires
        old(fs).wf(),
        old(history).wf(),
    ensures
        final(fs).wf(),
        final(history).wf(),
        spec_exec_post(
            cmd@,
            *old(fs),
            *final(fs),
            *old(history),
            *final(history),
            *old(theme),
            *final(theme),
            r,
        ),
{
    let line = trim_spaces(cmd.as_str());
    let toks = tokenize(line.as_str(), ' ');
    let ghost toks_v = spec_tokens(spec_trim(cmd@), ' ');
    proof {
        assert(strings_view(toks@) == toks_v);
    }
    if toks.len() == 0 {
        return CommandResult::Empty;
    }
    proof {
        assert(toks_v[0] == toks@[0]@);
    }
    let verb = &toks[0];
    if string_is(verb, "help") {
        if toks.len() == 1 {
            return CommandResult::Help(help(theme));
        }
        return CommandResult::from_err(
            &ParseError { usage: String::from_str("usage: help") },
            "help",
        );
    }
    if string_is(verb, "clear") {
        if toks.len() == 1 {
            return CommandResult::Clear;
        }
        return CommandResult::from_err(
            &ParseError { usage: String::from_str("usage: clear") },
            "clear",
        );
    }
    if string_is(verb, "pwd") {
        if toks.len() == 1 {
            return CommandResult::Pwd(pwd(fs));
        }
        return CommandResult::from_err(
            &ParseError { usage: String::from_str("usage: pwd") },
            "pwd",
        );
    }
    if string_is(verb, "cd") {
        if toks.len() == 2 {
            proof {
                assert(toks_v[1] == toks@[1]@);
            }
            let path = toks[1].clone();
            match fs.cd(path) {
                Result::Ok(_) => {
                    return CommandResult::Cd(line);
                },
                Result::Err(e) => {
                    return CommandResult::Failed(
                        String::from_str("cd"),
                        fs_error_message(e, toks[1].as_str()),
                    );
                },
            }
        }
        return CommandResult::from_err(
            &ParseError { usage: String::from_str("usage: cd <path>") },
            "cd",
        );
    }
    if string_is(verb, "ls") {
        if toks.len() == 1 {
            return CommandResult::Ls(ls(fs, theme));
        }
        return CommandResult::from_err(&ParseError { usage: String::from_str("usage: ls") }, "ls");
    }
    if string_is(verb, "theme") {
        if toks.len() == 3 {
            proof {
                assert(toks_v[1] == toks@[1]@);
                assert(toks_v[2] == toks@[2]@);
            }
            if string_is(&toks[1], "-t") || string_is(&toks[1], "--theme") {
                match parse_theme_name(&toks[2]) {
                    Option::Some(ThemeName::Latte) => {
                        *theme = latte();
                        return CommandResult::Theme(line);
                    },
                    Option::Some(ThemeName::Mocha) => {
                        *theme = mocha();
                        return CommandResult::Theme(line);
                    },
                    Option::Some(ThemeName::Frappe) => {
                        return CommandResult::Failed(
                            String::from_str("theme"),
                            String::from_str("theme not implemented: frappe"),
                        );
                    },
                    Option::Some(ThemeName::Macchiato) => {
                        return CommandResult::Failed(
                            String::from_str("theme"),
                            String::from_str("theme not implemented: macchiato"),
                        );
                    },
                    Option::None => {},
                }
            }
        }
        return CommandResult::from_err(
            &ParseError {
                usage: String::from_str("usage: theme -t|--theme <latte|frappe|macchiato|mocha>"),
            },
            "theme",
        );
    }
    if string_is(verb, "history") {
        if toks.len() == 1 {
            let joined = join_history(history.entries());
            return CommandResult::History(line, joined);
        }
        if toks.len() == 2 {
            proof {
                assert(toks_v[1] == toks@[1]@);
            }
            if string_is(&toks[1], "--clear") {
                history.clear();
                let joined = join_history(history.entries());
                proof {
                    assert(strings_view(history.commands@) =~= Seq::<Seq<char>>::empty());
                }
                return CommandResult::History(line, joined);
            }
        }
        return CommandResult::from_err(
            &ParseError { usage: String::from_str("usage: history [--clear]") },
            "history",
        );
    }
    CommandResult::Unknown(verb.clone())
}

} // verus!
