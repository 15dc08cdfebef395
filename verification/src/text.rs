//! Small verified text utilities: trimming, tokenizing, markup escaping
//! and decimal rendering.  Every consumer of the interpreter receives
//! strings built by these functions, so each has an exact contract.

use vstd::prelude::*;
use vstd::string::*;

verus! {

/// The view of a vector of strings: a sequence of character sequences.
pub open spec fn strings_view(v: Seq<String>) -> Seq<Seq<char>> {
    v.map_values(|s: String| s@)
}

/// A string with its leading spaces removed.  Input lines come from a
/// single-line prompt, so the space is the only blank character handled.
pub open spec fn spec_trim_front(s: Seq<char>) -> Seq<char>
    decreases s.len(),
{
    if s.len() > 0 && s[0] == ' ' {
        spec_trim_front(s.skip(1))
    } else {
        s
    }
}

/// A string with its trailing spaces removed.
pub open spec fn spec_trim_back(s: Seq<char>) -> Seq<char>
    decreases s.len(),
{
    if s.len() > 0 && s[s.len() - 1] == ' ' {
        spec_trim_back(s.take(s.len() - 1))
    } else {
        s
    }
}

/// A string with leading and trailing spaces removed.
pub open spec fn spec_trim(s: Seq<char>) -> Seq<char> {
    spec_trim_back(spec_trim_front(s))
}

proof fn lemma_trim_front_skip(s: Seq<char>, i: int)
    requires
        0 <= i <= s.len(),
        forall|k: int| 0 <= k < i ==> s[k] == ' ',
        i == s.len() || s[i] != ' ',
    ensures
        spec_trim_front(s) == s.skip(i),
    decreases i,
{
    if i == 0 {
        assert(s.skip(0) =~= s);
    } else {
        lemma_trim_front_skip(s.skip(1), i - 1);
        assert(s.skip(1).skip(i - 1) =~= s.skip(i));
    }
}

proof fn lemma_trim_back_take(s: Seq<char>, j: int)
    requires
        0 <= j <= s.len(),
        forall|k: int| j <= k < s.len() ==> s[k] == ' ',
        j == 0 || s[j - 1] != ' ',
    ensures
        spec_trim_back(s) == s.take(j),
    decreases s.len() - j,
{
    if j == s.len() {
        assert(s.take(j) =~= s);
    } else {
        lemma_trim_back_take(s.take(s.len() - 1), j);
        assert(s.take(s.len() - 1).take(j) =~= s.take(j));
    }
}

/// Remove leading and trailing spaces.
pub fn trim_spaces(s: &str) -> (r: String)
    ensures
        r@ == spec_trim(s@),
{
    let len = s.unicode_len();
    let mut i: usize = 0;
    while i < len && s.get_char(i) == ' '
        invariant
            0 <= i <= len,
            len == s@.len(),
            forall|k: int| 0 <= k < i ==> s@[k] == ' ',
        decreases len - i,
    {
        i = i + 1;
    }
    let mut j: usize = len;
    while j > i && s.get_char(j - 1) == ' '
        invariant
            i <= j <= len,
            len == s@.len(),
            forall|k: int| 0 <= k < i ==> s@[k] == ' ',
            forall|k: int| j <= k < len ==> s@[k] == ' ',
        decreases j,
    {
        j = j - 1;
    }
    proof {
        lemma_trim_front_skip(s@, i as int);
        if j == i {
            lemma_trim_back_take(s@.skip(i as int), 0);
        } else {
            lemma_trim_back_take(s@.skip(i as int), j - i);
        }
        assert(s@.skip(i as int).take(j - i) =~= s@.subrange(i as int, j as int));
    }
    s.substring_char(i, j).to_owned()
}

/// The tokens of `s` when split on the separator, empty tokens dropped;
/// `cur` is the partial token already read.  Consecutive, leading and
/// trailing separators therefore never produce an empty token.
pub open spec fn spec_tokens_acc(s: Seq<char>, sep: char, cur: Seq<char>) -> Seq<Seq<char>>
    decreases s.len(),
{
    if s.len() == 0 {
        if cur.len() == 0 {
            Seq::empty()
        } else {
            seq![cur]
        }
    } else if s[0] == sep {
        (if cur.len() == 0 {
            Seq::<Seq<char>>::empty()
        } else {
            seq![cur]
        }) + spec_tokens_acc(s.skip(1), sep, Seq::empty())
    } else {
        spec_tokens_acc(s.skip(1), sep, cur.push(s[0]))
    }
}

/// The separator-delimited tokens of a line, in order, empty ones dropped.
pub open spec fn spec_tokens(s: Seq<char>, sep: char) -> Seq<Seq<char>> {
    spec_tokens_acc(s, sep, Seq::empty())
}

/// No token produced by splitting is ever empty: empty pieces between
/// consecutive separators are dropped, not emitted.
pub proof fn lemma_tokens_nonempty(s: Seq<char>, sep: char, cur: Seq<char>)
    ensures
        forall|k: int|
            0 <= k < spec_tokens_acc(s, sep, cur).len() ==> (#[trigger] spec_tokens_acc(
                s,
                sep,
                cur,
            )[k]).len() > 0,
    decreases s.len(),
{
    if s.len() == 0 {
    } else if s[0] == sep {
        lemma_tokens_nonempty(s.skip(1), sep, Seq::empty());
        let first = if cur.len() == 0 {
            Seq::<Seq<char>>::empty()
        } else {
            seq![cur]
        };
        let rest = spec_tokens_acc(s.skip(1), sep, Seq::empty());
        assert(spec_tokens_acc(s, sep, cur) == first + rest);
        assert forall|k: int| 0 <= k < spec_tokens_acc(s, sep, cur).len() implies (
        #[trigger] spec_tokens_acc(s, sep, cur)[k]).len() > 0 by {
            if k < first.len() {
                assert(spec_tokens_acc(s, sep, cur)[k] == cur);
            } else {
                assert(spec_tokens_acc(s, sep, cur)[k] == rest[k - first.len()]);
            }
        }
    } else {
        lemma_tokens_nonempty(s.skip(1), sep, cur.push(s[0]));
        assert(spec_tokens_acc(s, sep, cur) == spec_tokens_acc(s.skip(1), sep, cur.push(s[0])));
    }
}

/// Split a line into its separator-delimited tokens, dropping empty ones.
pub fn tokenize(s: &str, sep: char) -> (toks: Vec<String>)
    ensures
        strings_view(toks@) == spec_tokens(s@, sep),
{
    let len = s.unicode_len();
    let mut toks: Vec<String> = Vec::new();
    let mut cur: String = String::new();
    let mut i: usize = 0;
    proof {
        assert(s@.skip(0) =~= s@);
        assert(strings_view(toks@) =~= Seq::<Seq<char>>::empty());
        assert(Seq::<Seq<char>>::empty() + spec_tokens_acc(s@, sep, Seq::<char>::empty())
            =~= spec_tokens_acc(s@, sep, Seq::<char>::empty()));
    }
    while i < len
        invariant
            0 <= i <= len,
            len == s@.len(),
            strings_view(toks@) + spec_tokens_acc(s@.skip(i as int), sep, cur@) == spec_tokens(
                s@,
                sep,
            ),
        decreases len - i,
    {
        let ghost i0 = i as int;
        let ghost prev_toks = toks@;
        let ghost prev_cur = cur@;
        let ghost rest = spec_tokens_acc(s@.skip(i0 + 1), sep, Seq::<char>::empty());
        let c = s.get_char(i);
        proof {
            assert(s@.skip(i0)[0] == c);
            assert(s@.skip(i0).skip(1) =~= s@.skip(i0 + 1));
        }
        if c == sep {
            if cur.as_str().unicode_len() > 0 {
                toks.push(cur);
                cur = String::new();
                proof {
                    assert(cur@ =~= Seq::<char>::empty());
                    assert(spec_tokens_acc(s@.skip(i0), sep, prev_cur) == seq![prev_cur] + rest);
                    assert(strings_view(toks@) =~= strings_view(prev_toks).push(prev_cur));
                    assert(strings_view(prev_toks).push(prev_cur) + rest =~= strings_view(
                        prev_toks,
                    ) + (seq![prev_cur] + rest));
                }
            } else {
                proof {
                    assert(prev_cur =~= Seq::<char>::empty());
                    assert(spec_tokens_acc(s@.skip(i0), sep, prev_cur)
                        == Seq::<Seq<char>>::empty() + rest);
                    assert(Seq::<Seq<char>>::empty() + rest =~= rest);
                }
            }
        } else {
            cur.append(s.substring_char(i, i + 1));
            proof {
                assert(s@.subrange(i0, i0 + 1) =~= seq![c]);
                assert(cur@ =~= prev_cur.push(c));
                assert(spec_tokens_acc(s@.skip(i0), sep, prev_cur) == spec_tokens_acc(
                    s@.skip(i0 + 1),
                    sep,
                    prev_cur.push(c),
                ));
            }
        }
        i = i + 1;
    }
    proof {
        assert(s@.skip(len as int) =~= Seq::<char>::empty());
    }
    if cur.as_str().unicode_len() > 0 {
        let ghost prev_toks = toks@;
        let ghost prev_cur = cur@;
        proof {
            assert(spec_tokens_acc(Seq::<char>::empty(), sep, prev_cur) == seq![prev_cur]);
        }
        toks.push(cur);
        proof {
            assert(strings_view(toks@) =~= strings_view(prev_toks).push(prev_cur));
            assert(strings_view(prev_toks).push(prev_cur) =~= strings_view(prev_toks)
                + seq![prev_cur]);
        }
    } else {
        proof {
            assert(spec_tokens_acc(Seq::<char>::empty(), sep, cur@)
                == Seq::<Seq<char>>::empty());
            assert(strings_view(toks@) + Seq::<Seq<char>>::empty() =~= strings_view(toks@));
        }
    }
    toks
}

/// How one character is escaped for a markup consumer: angle brackets
/// become entities and a newline becomes a line-break tag; every other
/// character stands for itself.
pub open spec fn esc_char(c: char) -> Seq<char> {
    if c == '<' {
        seq!['&', 'l', 't', ';']
    } else if c == '>' {
        seq!['&', 'g', 't', ';']
    } else if c == '\n' {
        seq!['<', 'b', 'r', ' ', '/', '>']
    } else {
        seq![c]
    }
}

/// A string escaped character by character.
pub open spec fn spec_escape(s: Seq<char>) -> Seq<char>
    decreases s.len(),
{
    if s.len() == 0 {
        Seq::empty()
    } else {
        spec_escape(s.take(s.len() - 1)) + esc_char(s[s.len() - 1])
    }
}

/// Escape markup-sensitive characters and normalize newlines to the
/// consumer's line-break token.
pub fn escape_markup(s: &str) -> (r: String)
    ensures
        r@ == spec_escape(s@),
{
    let len = s.unicode_len();
    let mut out: String = String::new();
    let mut i: usize = 0;
    while i < len
        invariant
            0 <= i <= len,
            len == s@.len(),
            out@ =~= spec_escape(s@.take(i as int)),
        decreases len - i,
    {
        let ghost prev = out@;
        let c = s.get_char(i);
        if c == '<' {
            out.append("&lt;");
            proof {
                reveal_strlit("&lt;");
                assert("&lt;"@ =~= seq!['&', 'l', 't', ';']);
            }
        } else if c == '>' {
            out.append("&gt;");
            proof {
                reveal_strlit("&gt;");
                assert("&gt;"@ =~= seq!['&', 'g', 't', ';']);
            }
        } else if c == '\n' {
            out.append("<br />");
            proof {
                reveal_strlit("<br />");
                assert("<br />"@ =~= seq!['<', 'b', 'r', ' ', '/', '>']);
            }
        } else {
            out.append(s.substring_char(i, i + 1));
            proof {
                assert(s@.subrange(i as int, i as int + 1) =~= seq![c]);
            }
        }
        proof {
            assert(s@.take(i as int + 1).take(i as int) =~= s@.take(i as int));
            assert(s@.take(i as int + 1)[i as int] == c);
            assert(out@ =~= prev + esc_char(c));
        }
        i = i + 1;
    }
    proof {
        assert(s@.take(len as int) =~= s@);
    }
    out
}

/// The decimal digit character for a value below ten.
pub open spec fn spec_digit(d: nat) -> char {
    if d == 0 {
        '0'
    } else if d == 1 {
        '1'
    } else if d == 2 {
        '2'
    } else if d == 3 {
        '3'
    } else if d == 4 {
        '4'
    } else if d == 5 {
        '5'
    } else if d == 6 {
        '6'
    } else if d == 7 {
        '7'
    } else if d == 8 {
        '8'
    } else {
        '9'
    }
}

/// The usual decimal rendering of a natural number, most significant
/// digit first, no leading zeros (except for zero itself).
pub open spec fn spec_dec(n: nat) -> Seq<char>
    decreases n,
{
    if n < 10 {
        seq![spec_digit(n)]
    } else {
        spec_dec(n / 10) + seq![spec_digit(n % 10)]
    }
}

pub fn digit_str(d: u64) -> (r: String)
    requires
        d < 10,
    ensures
        r@ =~= seq![spec_digit(d as nat)],
{
    if d == 0 {
        let r = String::from_str("0");
        proof {
            reveal_strlit("0");
            assert("0"@ =~= seq!['0']);
        }
        r
    } else if d == 1 {
        let r = String::from_str("1");
        proof {
            reveal_strlit("1");
            assert("1"@ =~= seq!['1']);
        }
        r
    } else if d == 2 {
        let r = String::from_str("2");
        proof {
            reveal_strlit("2");
            assert("2"@ =~= seq!['2']);
        }
        r
    } else if d == 3 {
        let r = String::from_str("3");
        proof {
            reveal_strlit("3");
            assert("3"@ =~= seq!['3']);
        }
        r
    } else if d == 4 {
        let r = String::from_str("4");
        proof {
            reveal_strlit("4");
            assert("4"@ =~= seq!['4']);
        }
        r
    } else if d == 5 {
        let r = String::from_str("5");
        proof {
            reveal_strlit("5");
            assert("5"@ =~= seq!['5']);
        }
        r
    } else if d == 6 {
        let r = String::from_str("6");
        proof {
            reveal_strlit("6");
            assert("6"@ =~= seq!['6']);
        }
        r
    } else if d == 7 {
        let r = String::from_str("7");
        proof {
            reveal_strlit("7");
            assert("7"@ =~= seq!['7']);
        }
        r
    } else if d == 8 {
        let r = String::from_str("8");
        proof {
            reveal_strlit("8");
            assert("8"@ =~= seq!['8']);
        }
        r
    } else {
        let r = String::from_str("9");
        proof {
            reveal_strlit("9");
            assert("9"@ =~= seq!['9']);
        }
        r
    }
}

/// Render a number in decimal.
pub fn u64_to_string(n: u64) -> (r: String)
    ensures
        r@ == spec_dec(n as nat),
    decreases n,
{
    if n < 10 {
        digit_str(n)
    } else {
        let mut s = u64_to_string(n / 10);
        let d = digit_str(n % 10);
        s.append(d.as_str());
        s
    }
}

/// A run of spaces of the given length.
pub open spec fn spec_spaces(k: nat) -> Seq<char> {
    Seq::new(k, |i: int| ' ')
}

/// The maximal suffix of a path that holds no slash: the name of the
/// entry the path leads to.  A path ending in a slash yields the empty
/// name, and a path with no slash names itself.
pub open spec fn after_last_slash(s: Seq<char>) -> Seq<char>
    decreases s.len(),
{
    if s.len() == 0 {
        Seq::empty()
    } else if s[s.len() - 1] == '/' {
        Seq::empty()
    } else {
        after_last_slash(s.take(s.len() - 1)).push(s[s.len() - 1])
    }
}

/// The name after the last slash is the suffix starting right after it.
pub proof fn lemma_after_last_slash_cut(s: Seq<char>, j: int)
    requires
        0 <= j <= s.len(),
        forall|k: int| j <= k < s.len() ==> s[k] != '/',
        j == 0 || s[j - 1] == '/',
    ensures
        after_last_slash(s) == s.skip(j),
    decreases s.len(),
{
    if j == s.len() {
        assert(s.skip(j) =~= Seq::<char>::empty());
    } else {
        lemma_after_last_slash_cut(s.take(s.len() - 1), j);
        assert(s.take(s.len() - 1).skip(j).push(s[s.len() - 1]) =~= s.skip(j));
    }
}

/// Build a run of spaces.
pub fn spaces(k: usize) -> (r: String)
    ensures
        r@ == spec_spaces(k as nat),
{
    let mut out: String = String::new();
    let mut i: usize = 0;
    while i < k
        invariant
            0 <= i <= k,
            out@ =~= spec_spaces(i as nat),
        decreases k - i,
    {
        out.append(" ");
        proof {
            reveal_strlit(" ");
            assert(" "@ =~= seq![' ']);
            assert(spec_spaces(i as nat) + seq![' '] =~= spec_spaces(i as nat + 1));
        }
        i = i + 1;
    }
    out
}

} // verus!
