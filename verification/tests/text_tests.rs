use webterm::commands::{longest_size, pad};
use webterm::filesystem::Filesystem;
use webterm::text::{escape_markup, spaces, tokenize, trim_spaces, u64_to_string};
use webterm::themes::{mocha, Color};

#[test]
fn trim_removes_surrounding_spaces_only() {
    assert_eq!(trim_spaces("  cd projects  "), "cd projects".to_string());
    assert_eq!(trim_spaces("x"), "x".to_string());
    assert_eq!(trim_spaces("   "), "".to_string());
    assert_eq!(trim_spaces(""), "".to_string());
}

#[test]
fn tokenize_drops_empty_tokens() {
    assert_eq!(
        tokenize("cd  projects", ' '),
        vec!["cd".to_string(), "projects".to_string()]
    );
    assert_eq!(
        tokenize("/home//user/", '/'),
        vec!["home".to_string(), "user".to_string()]
    );
    assert_eq!(tokenize("", ' '), Vec::<String>::new());
    assert_eq!(tokenize("///", '/'), Vec::<String>::new());
}

#[test]
fn escape_replaces_markup_characters() {
    assert_eq!(escape_markup("a<b>c"), "a&lt;b&gt;c".to_string());
    assert_eq!(escape_markup("one\ntwo"), "one<br />two".to_string());
    assert_eq!(escape_markup("plain"), "plain".to_string());
}

#[test]
fn decimal_rendering_is_exact() {
    assert_eq!(u64_to_string(0), "0".to_string());
    assert_eq!(u64_to_string(7), "7".to_string());
    assert_eq!(u64_to_string(1234), "1234".to_string());
    assert_eq!(u64_to_string(u64::MAX), "18446744073709551615".to_string());
}

#[test]
fn spaces_builds_a_run() {
    assert_eq!(spaces(0), "".to_string());
    assert_eq!(spaces(3), "   ".to_string());
}

#[test]
fn pad_right_aligns_sizes() {
    assert_eq!(pad(Some(7), 3), "  7".to_string());
    assert_eq!(pad(None, 1), "-".to_string());
    assert_eq!(pad(Some(123), 3), "123".to_string());
}

#[test]
fn longest_size_measures_the_widest_entry() {
    let mut fs = Filesystem::new();
    fs.add_file(2, "big.txt".to_string(), vec![0u8; 12345], true);
    let rows = fs.ls().unwrap();
    // "projects" renders "-" (width 1), the file renders "12345" (width 5)
    assert_eq!(longest_size(&rows), 5);
    let none: Vec<webterm::filesystem::LsResult> = Vec::new();
    assert_eq!(longest_size(&none), 1);
}

#[test]
fn color_hex_renders_lowercase_pairs() {
    let peach = Color { r: 250, g: 179, b: 135 };
    assert_eq!(peach.hex(), "#fab387".to_string());
    assert_eq!(peach.style_text(), "color: #fab387".to_string());
    let black = Color { r: 0, g: 0, b: 0 };
    assert_eq!(black.hex(), "#000000".to_string());
}

#[test]
fn palettes_carry_their_names() {
    assert_eq!(mocha().name, "mocha".to_string());
    assert_eq!(mocha().crust.hex(), "#11111b".to_string());
    assert_eq!(webterm::themes::latte().name, "latte".to_string());
}
