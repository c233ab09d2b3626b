//! Validation and sanitisation of the strings embedded in generated KDL.

use vstd::prelude::*;
use vstd::string::*;
use crate::text::{
    ascii_alnum, chars_of, control, hexdigit, is_ascii_alnum, is_ctrl, is_hex, is_ws, string_of,
    trim, trim_chars,
};

verus! {

/// The characters of `s` for which `keep` holds, in order.
pub open spec fn keep_chars(s: Seq<char>, keep: spec_fn(char) -> bool) -> Seq<char>
    decreases s.len(),
{
    if s.len() == 0 {
        Seq::empty()
    } else if keep(s.last()) {
        keep_chars(s.drop_last(), keep).push(s.last())
    } else {
        keep_chars(s.drop_last(), keep)
    }
}

pub open spec fn path_char(c: char) -> bool {
    c != '"' && c != '\\' && !is_ctrl(c)
}

pub open spec fn regex_char(c: char) -> bool {
    c != '"' && !is_ctrl(c)
}

pub open spec fn key_char(c: char) -> bool {
    is_ascii_alnum(c) || c == '+' || c == '-' || c == '_'
}

/// A `#rgb`, `#rgba`, `#rrggbb` or `#rrggbbaa` hex colour.
pub open spec fn color_chars(t: Seq<char>) -> bool {
    &&& (t.len() == 4 || t.len() == 5 || t.len() == 7 || t.len() == 9)
    &&& t[0] == '#'
    &&& forall|i: int| 1 <= i < t.len() ==> is_hex(#[trigger] t[i])
}

/// Whether the trimmed `s` is a hex colour literal.
pub open spec fn spec_is_valid_color(s: Seq<char>) -> bool {
    color_chars(trim(s))
}

/// The trimmed `s` when it is a hex colour, white otherwise.
pub open spec fn spec_sanitise_color(s: Seq<char>) -> Seq<char> {
    if spec_is_valid_color(s) {
        trim(s)
    } else {
        "#ffffff"@
    }
}

fn color_text(t: &Vec<char>) -> (r: bool)
    ensures
        r == color_chars(t@),
{
    let n = t.len();
    if !(n == 4 || n == 5 || n == 7 || n == 9) || t[0] != '#' {
        return false;
    }
    let mut i: usize = 1;
    while i < n
        invariant
            1 <= i <= n == t.len(),
            forall|j: int| 1 <= j < i ==> is_hex(#[trigger] t@[j]),
        decreases n - i,
    {
        if !hexdigit(t[i]) {
            return false;
        }
        i = i + 1;
    }
    true
}

/// Returns `true` when `s`, trimmed, is a valid `#rgb` / `#rgba` / `#rrggbb` /
/// `#rrggbbaa` hex colour string.
pub fn is_valid_color(s: &str) -> (r: bool)
    ensures
        r == spec_is_valid_color(s@),
{
    let v = chars_of(s);
    let t = trim_chars(&v);
    color_text(&t)
}

/// Returns the trimmed colour when it is a valid hex literal, or a safe white
/// fallback otherwise.
pub fn sanitise_color(s: &str) -> (r: String)
    ensures
        r@ == spec_sanitise_color(s@),
{
    let v = chars_of(s);
    let t = trim_chars(&v);
    if color_text(&t) {
        string_of(&t)
    } else {
        String::from_str("#ffffff")
    }
}

/// Keeps the characters of `s` that satisfy the (executable) class `which`:
/// 0 = path-safe, 1 = regex-safe, 2 = key-combo characters.
fn filter_class(s: &str, which: u8) -> (r: String)
    requires
        which < 3,
    ensures
        which == 0 ==> r@ == keep_chars(s@, |c: char| path_char(c)),
        which == 1 ==> r@ == keep_chars(s@, |c: char| regex_char(c)),
        which == 2 ==> r@ == keep_chars(s@, |c: char| key_char(c)),
{
    let ghost keep: spec_fn(char) -> bool = if which == 0 {
        |c: char| path_char(c)
    } else if which == 1 {
        |c: char| regex_char(c)
    } else {
        |c: char| key_char(c)
    };
    let v = chars_of(s);
    let mut out: Vec<char> = Vec::new();
    let mut i: usize = 0;
    assert(v@.subrange(0, 0) =~= Seq::<char>::empty());
    while i < v.len()
        invariant
            i <= v.len(),
            which < 3,
            keep == (if which == 0 {
                |c: char| path_char(c)
            } else if which == 1 {
                |c: char| regex_char(c)
            } else {
                |c: char| key_char(c)
            }),
            out@ == keep_chars(v@.subrange(0, i as int), keep),
        decreases v.len() - i,
    {
        let c = v[i];
        let ok = if which == 0 {
            c != '"' && c != '\\' && !control(c)
        } else if which == 1 {
            c != '"' && !control(c)
        } else {
            ascii_alnum(c) || c == '+' || c == '-' || c == '_'
        };
        assert(ok == keep(c));
        if ok {
            out.push(c);
        }
        let ghost pre = v@.subrange(0, i as int);
        i = i + 1;
        assert(v@.subrange(0, i as int).drop_last() =~= pre);
    }
    assert(v@.subrange(0, i as int) =~= v@);
    string_of(&out)
}

/// Strips characters that could break a KDL string literal (double-quote,
/// backslash, and control characters).
pub fn sanitise_path(s: &str) -> (r: String)
    ensures
        r@ == keep_chars(s@, |c: char| path_char(c)),
{
    filter_class(s, 0)
}

/// Strips the double quotes and control characters of a regex, so that it can
/// stand inside a KDL string literal.
pub fn sanitise_regex(s: &str) -> (r: String)
    ensures
        r@ == keep_chars(s@, |c: char| regex_char(c)),
{
    filter_class(s, 1)
}

/// Keeps only the characters valid in a key combination: ASCII alphanumerics,
/// `+`, `-` and `_`.
pub fn sanitise_keybind_key(s: &str) -> (r: String)
    ensures
        r@ == keep_chars(s@, |c: char| key_char(c)),
{
    filter_class(s, 2)
}

// ── Regex bracket balance ─────────────────────────────────────────────────────

/// Scans `s` from `i` with `round` open parentheses and `square` open brackets;
/// a backslash skips the character after it.
pub open spec fn balanced_from(s: Seq<char>, i: int, round: int, square: int) -> bool
    decreases s.len() + 1 - i,
{
    if i >= s.len() {
        round == 0 && square == 0
    } else {
        let c = s[i];
        let next = if c == '\\' { i + 2 } else { i + 1 };
        let r2 = if c == '(' { round + 1 } else if c == ')' { round - 1 } else { round };
        let q2 = if c == '[' { square + 1 } else if c == ']' { square - 1 } else { square };
        if r2 < 0 || q2 < 0 {
            false
        } else {
            balanced_from(s, next, r2, q2)
        }
    }
}

/// Cheap structural check on a regex: brackets and parentheses are balanced,
/// escaped ones aside, and never close more than was opened.
pub fn looks_like_balanced_regex(pattern: &str) -> (r: bool)
    ensures
        r == balanced_from(pattern@, 0, 0, 0),
{
    let v = chars_of(pattern);
    let n = v.len();
    let mut i: usize = 0;
    let mut round: usize = 0;
    let mut square: usize = 0;
    while i < n
        invariant
            n == v.len(),
            v@ == pattern@,
            i <= n,
            round <= i,
            square <= i,
            balanced_from(v@, 0, 0, 0) == balanced_from(v@, i as int, round as int, square as int),
        decreases n - i,
    {
        let c = v[i];
        if c == '\\' {
            if n - i >= 2 {
                i = i + 2;
            } else {
                assert(balanced_from(v@, i + 2, round as int, square as int) == balanced_from(
                    v@,
                    n as int,
                    round as int,
                    square as int,
                ));
                i = n;
            }
        } else {
            if c == '(' {
                round = round + 1;
            } else if c == ')' {
                if round == 0 {
                    return false;
                }
                round = round - 1;
            } else if c == '[' {
                square = square + 1;
            } else if c == ']' {
                if square == 0 {
                    return false;
                }
                square = square - 1;
            }
            i = i + 1;
        }
    }
    round == 0 && square == 0
}

// ── Laws ─────────────────────────────────────────────────────────────────────

/// What `sanitise_path` keeps of a text.
pub open spec fn sanitised_path(s: Seq<char>) -> Seq<char> {
    keep_chars(s, |c: char| path_char(c))
}

/// What `sanitise_regex` keeps of a text.
pub open spec fn sanitised_regex(s: Seq<char>) -> Seq<char> {
    keep_chars(s, |c: char| regex_char(c))
}

/// What `sanitise_keybind_key` keeps of a text.
pub open spec fn sanitised_key(s: Seq<char>) -> Seq<char> {
    keep_chars(s, |c: char| key_char(c))
}

/// Every character kept by `keep_chars` satisfies the predicate.
pub proof fn lemma_keep_chars_all(s: Seq<char>, keep: spec_fn(char) -> bool)
    ensures
        forall|i: int| 0 <= i < keep_chars(s, keep).len() ==> keep(#[trigger] keep_chars(s, keep)[i]),
        keep_chars(s, keep).len() <= s.len(),
    decreases s.len(),
{
    if s.len() > 0 {
        lemma_keep_chars_all(s.drop_last(), keep);
        let p = keep_chars(s.drop_last(), keep);
        if keep(s.last()) {
            assert forall|i: int| 0 <= i < p.push(s.last()).len() implies keep(
                #[trigger] p.push(s.last())[i],
            ) by {
                if i < p.len() {
                    assert(p.push(s.last())[i] == p[i]);
                }
            }
        }
    }
}

/// Filtering twice keeps what filtering once kept.
pub proof fn lemma_keep_chars_idempotent(s: Seq<char>, keep: spec_fn(char) -> bool)
    ensures
        keep_chars(keep_chars(s, keep), keep) == keep_chars(s, keep),
    decreases s.len(),
{
    if s.len() > 0 {
        lemma_keep_chars_idempotent(s.drop_last(), keep);
        let p = keep_chars(s.drop_last(), keep);
        if keep(s.last()) {
            assert(p.push(s.last()).drop_last() =~= p);
        }
    }
}

/// A sanitised path (or any text `sanitise_path` returns) holds no double
/// quote, backslash or control character, so it can stand inside a KDL
/// string literal; sanitising it again changes nothing.
pub proof fn law_sanitised_path_is_safe(s: Seq<char>)
    ensures
        forall|i: int|
            0 <= i < sanitised_path(s).len() ==> {
                let c = #[trigger] sanitised_path(s)[i];
                c != '"' && c != '\\' && !is_ctrl(c)
            },
        sanitised_path(sanitised_path(s)) == sanitised_path(s),
{
    lemma_keep_chars_all(s, |c: char| path_char(c));
    lemma_keep_chars_idempotent(s, |c: char| path_char(c));
}

/// A sanitised regex holds no double quote or control character.
pub proof fn law_sanitised_regex_is_safe(s: Seq<char>)
    ensures
        forall|i: int|
            0 <= i < sanitised_regex(s).len() ==> {
                let c = #[trigger] sanitised_regex(s)[i];
                c != '"' && !is_ctrl(c)
            },
{
    lemma_keep_chars_all(s, |c: char| regex_char(c));
}

/// A sanitised key combination holds only ASCII alphanumerics, `+`, `-`
/// and `_`, and sanitising it again changes nothing.
pub proof fn law_sanitised_key_is_safe(s: Seq<char>)
    ensures
        forall|i: int|
            0 <= i < sanitised_key(s).len() ==> key_char(
                #[trigger] sanitised_key(s)[i],
            ),
        sanitised_key(sanitised_key(s)) == sanitised_key(s),
{
    lemma_keep_chars_all(s, |c: char| key_char(c));
    lemma_keep_chars_idempotent(s, |c: char| key_char(c));
}

/// `sanitise_color` always yields a valid hex colour, and it leaves a
/// valid colour (without surrounding whitespace) unchanged.
pub proof fn law_sanitised_color_is_valid(s: Seq<char>)
    ensures
        color_chars(spec_sanitise_color(s)),
        color_chars(s) ==> spec_sanitise_color(s) == s,
{
    reveal_strlit("#ffffff");
    if color_chars(s) {
        lemma_trim_of_color(s);
    }
}

proof fn lemma_trim_of_color(s: Seq<char>)
    requires
        color_chars(s),
    ensures
        trim(s) == s,
{
    assert(!is_ws(s[0]));
    assert(is_hex(s[s.len() - 1]));
    assert(!is_ws(s[s.len() - 1]));
    assert(crate::text::trim_start(s) == s);
    assert(crate::text::trim_end(s) == s);
}

} // verus!
