//! Key bindings: the bind-line reader, key-combination normalisation,
//! conflict detection and the action catalogue.

use vstd::prelude::*;
use vstd::string::*;
use crate::text::{
    chars_of, is_ws, lower_seq, parse_u32, parse_u32_spec, push_all, push_str, slice,
    starts_with, str_is, string_of, to_lower, trim, trim_chars, whitespace,
};
use crate::types::Keybind;

verus! {

// ── Words ────────────────────────────────────────────────────────────────────

/// The first whitespace position at or after `i`, or the length.
pub open spec fn word_end(s: Seq<char>, i: int) -> int
    decreases s.len() - i,
{
    if i < 0 || i >= s.len() {
        s.len() as int
    } else if is_ws(s[i]) {
        i
    } else {
        word_end(s, i + 1)
    }
}

pub proof fn lemma_word_end(s: Seq<char>, i: int)
    requires
        0 <= i <= s.len(),
    ensures
        i <= word_end(s, i) <= s.len(),
        i < s.len() && !is_ws(s[i]) ==> word_end(s, i) > i,
        forall|j: int| i <= j < word_end(s, i) ==> !is_ws(#[trigger] s[j]),
        word_end(s, i) < s.len() ==> is_ws(s[word_end(s, i)]),
    decreases s.len() - i,
{
    if i < s.len() && !is_ws(s[i]) {
        lemma_word_end(s, i + 1);
    }
}

/// The whitespace-separated words of `s` from position `i` on
/// (`str::split_whitespace`).
pub open spec fn words_from(s: Seq<char>, i: int) -> Seq<Seq<char>>
    decreases s.len() - i,
{
    if i < 0 || i >= s.len() {
        Seq::empty()
    } else if is_ws(s[i]) {
        words_from(s, i + 1)
    } else {
        let e = word_end(s, i);
        proof {
            lemma_word_end(s, i);
        }
        seq![s.subrange(i, e)] + words_from(s, e)
    }
}

/// The views of a vector of character vectors.
pub open spec fn views(v: Seq<Vec<char>>) -> Seq<Seq<char>> {
    v.map_values(|w: Vec<char>| w@)
}

/// The end of the word starting at `i`.
fn scan_word(s: &Vec<char>, i: usize) -> (e: usize)
    requires
        i <= s.len(),
    ensures
        e == word_end(s@, i as int),
{
    let mut e = i;
    proof {
        lemma_word_end(s@, i as int);
    }
    while e < s.len() && !whitespace(s[e])
        invariant
            i <= e <= s.len(),
            word_end(s@, i as int) == word_end(s@, e as int),
        decreases s.len() - e,
    {
        e = e + 1;
    }
    e
}

/// The whitespace-separated words of `s`.
pub fn split_words(s: &Vec<char>) -> (r: Vec<Vec<char>>)
    ensures
        views(r@) == words_from(s@, 0),
{
    let mut r: Vec<Vec<char>> = Vec::new();
    let mut i: usize = 0;
    while i < s.len()
        invariant
            i <= s.len(),
            words_from(s@, 0) == views(r@) + words_from(s@, i as int),
        decreases s.len() - i,
    {
        if whitespace(s[i]) {
            i = i + 1;
        } else {
            let e = scan_word(s, i);
            proof {
                lemma_word_end(s@, i as int);
            }
            let w = slice(s, i, e);
            let ghost before = views(r@);
            r.push(w);
            assert(views(r@) =~= before.push(w@));
            assert(words_from(s@, i as int) == seq![w@] + words_from(s@, e as int));
            assert(before + (seq![w@] + words_from(s@, e as int)) =~= before.push(w@)
                + words_from(s@, e as int));
            i = e;
        }
    }
    assert(views(r@) + words_from(s@, i as int) =~= views(r@));
    r
}

/// The words joined with single spaces (`[String]::join(" ")`).
pub open spec fn join_space(ws: Seq<Seq<char>>) -> Seq<char>
    decreases ws.len(),
{
    if ws.len() == 0 {
        Seq::empty()
    } else if ws.len() == 1 {
        ws[0]
    } else {
        join_space(ws.drop_last()) + seq![' '] + ws.last()
    }
}

/// Joins words with single spaces.
pub fn join_words(ws: &Vec<Vec<char>>) -> (r: Vec<char>)
    ensures
        r@ == join_space(views(ws@)),
{
    let mut r: Vec<char> = Vec::new();
    let mut i: usize = 0;
    while i < ws.len()
        invariant
            i <= ws.len(),
            r@ == join_space(views(ws@).subrange(0, i as int)),
        decreases ws.len() - i,
    {
        let ghost pre = views(ws@).subrange(0, i as int);
        if i > 0 {
            r.push(' ');
        }
        push_all(&mut r, &ws[i]);
        proof {
            let next = views(ws@).subrange(0, i + 1);
            assert(next.drop_last() =~= pre);
            assert(next.last() == ws@[i as int]@);
            if i == 0 {
                assert(next =~= seq![ws@[0]@]);
            }
        }
        i = i + 1;
    }
    assert(views(ws@).subrange(0, i as int) =~= views(ws@));
    r
}

// ── Action arguments ─────────────────────────────────────────────────────────

/// The first `"` at or after `i`, or the length.
pub open spec fn quote_end(s: Seq<char>, i: int) -> int
    decreases s.len() - i,
{
    if i < 0 || i >= s.len() {
        s.len() as int
    } else if s[i] == '"' {
        i
    } else {
        quote_end(s, i + 1)
    }
}

pub proof fn lemma_quote_end(s: Seq<char>, i: int)
    requires
        0 <= i <= s.len(),
    ensures
        i <= quote_end(s, i) <= s.len(),
        forall|j: int| i <= j < quote_end(s, i) ==> #[trigger] s[j] != '"',
        quote_end(s, i) < s.len() ==> s[quote_end(s, i)] == '"',
    decreases s.len() - i,
{
    if i < s.len() && s[i] != '"' {
        lemma_quote_end(s, i + 1);
    }
}

/// The argument tokens of an action from position `i` on: a `"`-quoted run
/// (the closing quote is optional; empty runs are dropped) or a bare run of
/// non-whitespace characters.
pub open spec fn arg_tokens(s: Seq<char>, i: int) -> Seq<Seq<char>>
    decreases s.len() - i,
{
    if i < 0 || i >= s.len() {
        Seq::empty()
    } else if is_ws(s[i]) {
        arg_tokens(s, i + 1)
    } else if s[i] == '"' {
        let e = quote_end(s, i + 1);
        proof {
            lemma_quote_end(s, i + 1);
        }
        let tok = s.subrange(i + 1, e);
        let next = if e < s.len() {
            e + 1
        } else {
            s.len() as int
        };
        if tok.len() > 0 {
            seq![tok] + arg_tokens(s, next)
        } else {
            arg_tokens(s, next)
        }
    } else {
        let e = word_end(s, i);
        proof {
            lemma_word_end(s, i);
        }
        seq![s.subrange(i, e)] + arg_tokens(s, e)
    }
}

/// The action name of `action [args…]`: everything before the first
/// whitespace.
pub open spec fn action_name(s: Seq<char>) -> Seq<char> {
    let t = trim(s);
    t.subrange(0, word_end(t, 0))
}

/// The arguments of `action [args…]`, joined with single spaces.
pub open spec fn action_args(s: Seq<char>) -> Seq<char> {
    let t = trim(s);
    let rest = trim(t.subrange(word_end(t, 0), t.len() as int));
    join_space(arg_tokens(rest, 0))
}

fn scan_quote(s: &Vec<char>, i: usize) -> (e: usize)
    requires
        i <= s.len(),
    ensures
        e == quote_end(s@, i as int),
{
    let mut e = i;
    while e < s.len() && s[e] != '"'
        invariant
            i <= e <= s.len(),
            quote_end(s@, i as int) == quote_end(s@, e as int),
        decreases s.len() - e,
    {
        e = e + 1;
    }
    e
}

/// The argument tokens of `s`.
fn split_args(s: &Vec<char>) -> (r: Vec<Vec<char>>)
    ensures
        views(r@) == arg_tokens(s@, 0),
{
    let mut r: Vec<Vec<char>> = Vec::new();
    let mut i: usize = 0;
    while i < s.len()
        invariant
            i <= s.len(),
            arg_tokens(s@, 0) == views(r@) + arg_tokens(s@, i as int),
        decreases s.len() - i,
    {
        let ghost before = views(r@);
        if whitespace(s[i]) {
            i = i + 1;
        } else if s[i] == '"' {
            let e = scan_quote(s, i + 1);
            proof {
                lemma_quote_end(s@, i + 1);
            }
            let next: usize = if e < s.len() {
                e + 1
            } else {
                s.len()
            };
            if e > i + 1 {
                let w = slice(s, i + 1, e);
                r.push(w);
                assert(views(r@) =~= before.push(w@));
                assert(before + (seq![w@] + arg_tokens(s@, next as int)) =~= before.push(w@)
                    + arg_tokens(s@, next as int));
            }
            i = next;
        } else {
            let e = scan_word(s, i);
            proof {
                lemma_word_end(s@, i as int);
            }
            let w = slice(s, i, e);
            r.push(w);
            assert(views(r@) =~= before.push(w@));
            assert(before + (seq![w@] + arg_tokens(s@, e as int)) =~= before.push(w@)
                + arg_tokens(s@, e as int));
            i = e;
        }
    }
    assert(views(r@) + arg_tokens(s@, i as int) =~= views(r@));
    r
}

/// Splits `action [arg1 arg2 …]` into the action name and its arguments
/// joined with single spaces; a `"`-quoted argument keeps its spaces.
pub fn parse_action_and_args(s: &Vec<char>) -> (r: (Vec<char>, Vec<char>))
    ensures
        r.0@ == action_name(s@),
        r.1@ == action_args(s@),
{
    let t = trim_chars(s);
    let split = scan_word(&t, 0);
    proof {
        lemma_word_end(t@, 0);
    }
    let action = slice(&t, 0, split);
    let tail = slice(&t, split, t.len());
    let rest = trim_chars(&tail);
    let args = split_args(&rest);
    (action, join_words(&args))
}

// ── Bind lines ───────────────────────────────────────────────────────────────

/// The first position of `c` at or after `i`, or the length.
pub open spec fn char_pos(s: Seq<char>, c: char, i: int) -> int
    decreases s.len() - i,
{
    if i < 0 || i >= s.len() {
        s.len() as int
    } else if s[i] == c {
        i
    } else {
        char_pos(s, c, i + 1)
    }
}

/// The last position of `c` before `k`, or -1.
pub open spec fn char_rpos(s: Seq<char>, c: char, k: int) -> int
    decreases k,
{
    if k <= 0 || k > s.len() {
        -1
    } else if s[k - 1] == c {
        k - 1
    } else {
        char_rpos(s, c, k - 1)
    }
}

/// `s` with every trailing `c` removed (`str::trim_end_matches`).
pub open spec fn strip_end(s: Seq<char>, c: char) -> Seq<char>
    decreases s.len(),
{
    if s.len() > 0 && s.last() == c {
        strip_end(s.drop_last(), c)
    } else {
        s
    }
}

/// The flags of a bind's property words, read in order: `repeat=false`,
/// `cooldown-ms=N` (the last one counts; one that is not a `u32` spoils the
/// line) and `allow-when-locked=true`; other words are ignored. The result
/// is `(repeat, cooldown_ms, allow_when_locked)`.
pub open spec fn bind_props(ws: Seq<Seq<char>>) -> Option<(bool, u32, bool)>
    decreases ws.len(),
{
    if ws.len() == 0 {
        Some((true, 0u32, false))
    } else {
        match bind_props(ws.drop_last()) {
            None => None,
            Some((rep, cd, awl)) => {
                let w = ws.last();
                let pre = "cooldown-ms="@;
                if w == "repeat=false"@ {
                    Some((false, cd, awl))
                } else if pre.len() <= w.len() && w.subrange(0, pre.len() as int) == pre {
                    match parse_u32_spec(w.subrange(pre.len() as int, w.len() as int)) {
                        Some(v) => Some((rep, v, awl)),
                        None => None,
                    }
                } else if w == "allow-when-locked=true"@ {
                    Some((rep, cd, true))
                } else {
                    Some((rep, cd, awl))
                }
            },
        }
    }
}

/// What a bind line `KeyCombo [prop=val …] { action [args]; }` reads as:
/// `(key, action, args, repeat, cooldown_ms, allow_when_locked)`, or `None`
/// for a blank line, a `//` comment or a line that does not have that shape.
pub open spec fn bind_line(line: Seq<char>) -> Option<
    (Seq<char>, Seq<char>, Seq<char>, bool, u32, bool),
> {
    let t = trim(line);
    let open = char_pos(t, '{', 0);
    let close = char_rpos(t, '}', t.len() as int);
    if t.len() == 0 || (t.len() >= 2 && t[0] == '/' && t[1] == '/') {
        None
    } else if open >= t.len() || close < 0 || close <= open {
        None
    } else {
        let before = trim(t.subrange(0, open));
        let inner = trim(strip_end(trim(t.subrange(open + 1, close)), ';'));
        let ws = words_from(before, 0);
        if inner.len() == 0 || before.len() == 0 || ws.len() == 0 || ws[0].contains('"') {
            None
        } else {
            match bind_props(ws.drop_first()) {
                None => None,
                Some((rep, cd, awl)) => Some(
                    (ws[0], action_name(inner), action_args(inner), rep, cd, awl),
                ),
            }
        }
    }
}

/// The fields of a binding that a bind line determines.
pub open spec fn bind_fields(b: Keybind) -> (Seq<char>, Seq<char>, Seq<char>, bool, u32, bool) {
    (b.key@, b.action@, b.action_args@, b.repeat, b.cooldown_ms, b.allow_when_locked)
}

fn find_char(s: &Vec<char>, c: char) -> (r: usize)
    ensures
        r == char_pos(s@, c, 0),
{
    let mut i: usize = 0;
    while i < s.len() && s[i] != c
        invariant
            i <= s.len(),
            char_pos(s@, c, 0) == char_pos(s@, c, i as int),
        decreases s.len() - i,
    {
        i = i + 1;
    }
    i
}

/// The last position of `c`, if any.
pub(crate) fn rfind_char(s: &Vec<char>, c: char) -> (r: Option<usize>)
    ensures
        match r {
            Some(k) => k == char_rpos(s@, c, s@.len() as int) && k < s@.len(),
            None => char_rpos(s@, c, s@.len() as int) == -1,
        },
{
    let mut k: usize = s.len();
    while k > 0 && s[k - 1] != c
        invariant
            k <= s.len(),
            char_rpos(s@, c, s@.len() as int) == char_rpos(s@, c, k as int),
        decreases k,
    {
        k = k - 1;
    }
    if k == 0 {
        None
    } else {
        Some(k - 1)
    }
}

fn strip_end_char(s: &Vec<char>, c: char) -> (r: Vec<char>)
    ensures
        r@ == strip_end(s@, c),
{
    let mut k: usize = s.len();
    assert(s@.subrange(0, k as int) =~= s@);
    while k > 0 && s[k - 1] == c
        invariant
            k <= s.len(),
            strip_end(s@, c) == strip_end(s@.subrange(0, k as int), c),
        decreases k,
    {
        assert(s@.subrange(0, k as int).drop_last() =~= s@.subrange(0, k - 1));
        k = k - 1;
    }
    slice(s, 0, k)
}

fn contains_char(s: &Vec<char>, c: char) -> (r: bool)
    ensures
        r == s@.contains(c),
{
    let mut i: usize = 0;
    while i < s.len()
        invariant
            i <= s.len(),
            forall|j: int| 0 <= j < i ==> s@[j] != c,
        decreases s.len() - i,
    {
        if s[i] == c {
            assert(s@[i as int] == c);
            return true;
        }
        i = i + 1;
    }
    false
}

/// Reads the property words of a bind line.
fn read_props(ws: &Vec<Vec<char>>) -> (r: Option<(bool, u32, bool)>)
    requires
        ws.len() >= 1,
    ensures
        r == bind_props(views(ws@).drop_first()),
{
    let mut rep = true;
    let mut cd: u32 = 0;
    let mut awl = false;
    let mut i: usize = 1;
    assert(views(ws@).drop_first().subrange(0, 0) =~= Seq::<Seq<char>>::empty());
    while i < ws.len()
        invariant
            1 <= i <= ws.len(),
            bind_props(views(ws@).drop_first().subrange(0, i - 1)) == Some((rep, cd, awl)),
        decreases ws.len() - i,
    {
        let w = &ws[i];
        let ghost pre = views(ws@).drop_first().subrange(0, i - 1);
        let ghost next = views(ws@).drop_first().subrange(0, i as int);
        assert(next.drop_last() =~= pre);
        assert(next.last() == w@);
        if str_is(w, "repeat=false") {
            rep = false;
        } else if starts_with(w, "cooldown-ms=") {
            let p = chars_of("cooldown-ms=");
            let tail = slice(w, p.len(), w.len());
            match parse_u32(&tail) {
                Some(v) => {
                    cd = v;
                },
                None => {
                    assert(bind_props(next) is None);
                    assert(views(ws@).drop_first() =~= next + views(ws@).drop_first().subrange(
                        i as int,
                        ws.len() - 1,
                    ));
                    proof {
                        lemma_props_none_extends(next, views(ws@).drop_first());
                    }
                    return None;
                },
            }
        } else if str_is(w, "allow-when-locked=true") {
            awl = true;
        }
        i = i + 1;
    }
    assert(views(ws@).drop_first().subrange(0, i - 1) =~= views(ws@).drop_first());
    Some((rep, cd, awl))
}

/// Once the property words spoil a line, more words do not mend it.
proof fn lemma_props_none_extends(pre: Seq<Seq<char>>, all: Seq<Seq<char>>)
    requires
        pre.len() <= all.len(),
        all.subrange(0, pre.len() as int) == pre,
        bind_props(pre) is None,
    ensures
        bind_props(all) is None,
    decreases all.len(),
{
    if all.len() > pre.len() {
        assert(all.drop_last().subrange(0, pre.len() as int) =~= pre);
        lemma_props_none_extends(pre, all.drop_last());
    } else {
        assert(all =~= pre);
    }
}

/// Parses one bind line of niri's `binds { … }` block:
/// `KeyCombo [prop=val …] { action [args]; }`. Comments, blank lines and lines
/// of another shape give `None`. The binding comes back without an id (0);
/// ids are handed out by the row allocator.
pub fn parse_bind_line(line: &str) -> (r: Option<Keybind>)
    ensures
        match r {
            Some(b) => bind_line(line@) == Some(bind_fields(b)) && b.id == 0,
            None => bind_line(line@) is None,
        },
{
    let raw = chars_of(line);
    let t = trim_chars(&raw);
    if t.len() == 0 || (t.len() >= 2 && t[0] == '/' && t[1] == '/') {
        return None;
    }
    let open = find_char(&t, '{');
    let close = match rfind_char(&t, '}') {
        Some(k) => k,
        None => return None,
    };
    if open >= t.len() || close <= open {
        return None;
    }
    let head = slice(&t, 0, open);
    let before = trim_chars(&head);
    let body = slice(&t, open + 1, close);
    let body_t = trim_chars(&body);
    let stripped = strip_end_char(&body_t, ';');
    let inner = trim_chars(&stripped);
    if inner.len() == 0 || before.len() == 0 {
        return None;
    }
    let ws = split_words(&before);
    if ws.len() == 0 {
        return None;
    }
    assert(views(ws@)[0] == ws@[0]@);
    if contains_char(&ws[0], '"') {
        return None;
    }
    let props = read_props(&ws);
    match props {
        None => None,
        Some((rep, cd, awl)) => {
            let (action, args) = parse_action_and_args(&inner);
            Some(
                Keybind {
                    id: 0,
                    key: string_of(&ws[0]),
                    action: string_of(&action),
                    action_args: string_of(&args),
                    repeat: rep,
                    cooldown_ms: cd,
                    allow_when_locked: awl,
                },
            )
        },
    }
}

// ── Key combinations ─────────────────────────────────────────────────────────

/// The pieces of `s` between occurrences of `c` (`str::split`); empty pieces
/// are kept, and there is always at least one.
pub open spec fn split_on(s: Seq<char>, c: char) -> Seq<Seq<char>>
    decreases s.len(),
{
    let p = char_pos(s, c, 0);
    if p >= s.len() {
        seq![s]
    } else {
        proof {
            lemma_char_pos(s, c, 0);
        }
        seq![s.subrange(0, p)] + split_on(s.subrange(p + 1, s.len() as int), c)
    }
}

pub proof fn lemma_char_pos(s: Seq<char>, c: char, i: int)
    requires
        0 <= i <= s.len(),
    ensures
        i <= char_pos(s, c, i) <= s.len(),
        forall|j: int| i <= j < char_pos(s, c, i) ==> #[trigger] s[j] != c,
        char_pos(s, c, i) < s.len() ==> s[char_pos(s, c, i)] == c,
    decreases s.len() - i,
{
    if i < s.len() && s[i] != c {
        lemma_char_pos(s, c, i + 1);
    }
}

/// The rank of a modifier word (already lower-cased) in the canonical order
/// `Mod`, `Super`, `Ctrl`, `Alt`, `Shift`; `None` for a key name.
pub open spec fn modifier_rank(w: Seq<char>) -> Option<int> {
    if w == "mod"@ {
        Some(0)
    } else if w == "super"@ || w == "logo"@ || w == "meta"@ {
        Some(1)
    } else if w == "control"@ || w == "ctrl"@ {
        Some(2)
    } else if w == "alt"@ {
        Some(3)
    } else if w == "shift"@ {
        Some(4)
    } else {
        None
    }
}

/// The canonical name of the modifier of a rank.
pub open spec fn modifier_name(r: int) -> Seq<char> {
    if r == 0 {
        "Mod"@
    } else if r == 1 {
        "Super"@
    } else if r == 2 {
        "Ctrl"@
    } else if r == 3 {
        "Alt"@
    } else {
        "Shift"@
    }
}

/// A piece of a combination, trimmed and lower-cased.
pub open spec fn combo_word(p: Seq<char>) -> Seq<char> {
    lower_seq(trim(p))
}

/// Whether some non-empty piece names the modifier of rank `r`.
pub open spec fn has_modifier(ps: Seq<Seq<char>>, r: int) -> bool {
    exists|i: int|
        0 <= i < ps.len() && trim(ps[i]).len() > 0 && modifier_rank(combo_word(#[trigger] ps[i]))
            == Some(r)
}

/// The non-empty pieces that are not modifiers, lower-cased, in order.
pub open spec fn combo_keys(ps: Seq<Seq<char>>) -> Seq<Seq<char>>
    decreases ps.len(),
{
    if ps.len() == 0 {
        Seq::empty()
    } else {
        let w = combo_word(ps.last());
        if trim(ps.last()).len() == 0 || modifier_rank(w) is Some {
            combo_keys(ps.drop_last())
        } else {
            combo_keys(ps.drop_last()).push(w)
        }
    }
}

/// The modifiers present among the pieces, canonically named and ordered.
pub open spec fn combo_modifiers(ps: Seq<Seq<char>>) -> Seq<Seq<char>> {
    Seq::new(5, |r: int| r).filter(|r: int| has_modifier(ps, r)).map_values(
        |r: int| modifier_name(r),
    )
}

/// The words joined with `+`.
pub open spec fn join_plus(ws: Seq<Seq<char>>) -> Seq<char>
    decreases ws.len(),
{
    if ws.len() == 0 {
        Seq::empty()
    } else if ws.len() == 1 {
        ws[0]
    } else {
        join_plus(ws.drop_last()) + seq!['+'] + ws.last()
    }
}

/// The canonical form of a key combination: modifier aliases folded
/// (`control`/`ctrl` to `Ctrl`, `super`/`logo`/`meta` to `Super`, and so on,
/// case-insensitively), each modifier once, in the order `Mod`, `Super`,
/// `Ctrl`, `Alt`, `Shift`, then the other pieces lower-cased, all joined
/// with `+`; pieces that are empty after trimming are dropped.
pub open spec fn normalized_combo(s: Seq<char>) -> Seq<char> {
    let ps = split_on(s, '+');
    join_plus(combo_modifiers(ps) + combo_keys(ps))
}

/// The pieces of `s` between occurrences of `c`.
pub fn split_char(s: &Vec<char>, c: char) -> (r: Vec<Vec<char>>)
    ensures
        views(r@) == split_on(s@, c),
{
    let mut r: Vec<Vec<char>> = Vec::new();
    let mut start: usize = 0;
    let mut i: usize = 0;
    assert(s@.subrange(0, s@.len() as int) =~= s@);
    assert(views(r@) + split_on(s@, c) =~= split_on(s@, c));
    while i < s.len()
        invariant
            start <= i <= s.len(),
            forall|j: int| start <= j < i ==> s@[j] != c,
            split_on(s@, c) == views(r@) + split_on(s@.subrange(start as int, s@.len() as int), c),
        decreases s.len() - i,
    {
        if s[i] == c {
            let ghost rest = s@.subrange(start as int, s@.len() as int);
            proof {
                lemma_char_pos(rest, c, 0);
                assert(rest[i - start] == c);
                if char_pos(rest, c, 0) < i - start {
                    assert(rest[char_pos(rest, c, 0)] == s@[start + char_pos(rest, c, 0)]);
                }
                assert(char_pos(rest, c, 0) == i - start);
                assert(rest.subrange(0, i - start) =~= s@.subrange(start as int, i as int));
                assert(rest.subrange(i - start + 1, rest.len() as int) =~= s@.subrange(
                    i + 1,
                    s@.len() as int,
                ));
            }
            let piece = slice(s, start, i);
            let ghost before = views(r@);
            r.push(piece);
            assert(views(r@) =~= before.push(piece@));
            assert(before + (seq![piece@] + split_on(s@.subrange(i + 1, s@.len() as int), c))
                =~= before.push(piece@) + split_on(s@.subrange(i + 1, s@.len() as int), c));
            start = i + 1;
        }
        i = i + 1;
    }
    let ghost rest = s@.subrange(start as int, s@.len() as int);
    proof {
        lemma_char_pos(rest, c, 0);
        if char_pos(rest, c, 0) < rest.len() {
            assert(rest[char_pos(rest, c, 0)] == s@[start + char_pos(rest, c, 0)]);
        }
    }
    let last = slice(s, start, s.len());
    let ghost before = views(r@);
    r.push(last);
    assert(views(r@) =~= before.push(last@));
    assert(before + seq![last@] =~= before.push(last@));
    r
}

fn lower_chars(s: &Vec<char>) -> (r: Vec<char>)
    ensures
        r@ == lower_seq(s@),
{
    let mut r: Vec<char> = Vec::new();
    let mut i: usize = 0;
    while i < s.len()
        invariant
            i <= s.len(),
            r@ == lower_seq(s@.subrange(0, i as int)),
        decreases s.len() - i,
    {
        r.push(to_lower(s[i]));
        i = i + 1;
        assert(r@ =~= lower_seq(s@.subrange(0, i as int)));
    }
    assert(s@.subrange(0, i as int) =~= s@);
    r
}

fn rank_of(w: &Vec<char>) -> (r: Option<usize>)
    ensures
        match r {
            Some(k) => modifier_rank(w@) == Some(k as int),
            None => modifier_rank(w@) is None,
        },
{
    if str_is(w, "mod") {
        Some(0)
    } else if str_is(w, "super") || str_is(w, "logo") || str_is(w, "meta") {
        Some(1)
    } else if str_is(w, "control") || str_is(w, "ctrl") {
        Some(2)
    } else if str_is(w, "alt") {
        Some(3)
    } else if str_is(w, "shift") {
        Some(4)
    } else {
        None
    }
}

fn push_modifier_name(out: &mut Vec<Vec<char>>, r: usize)
    requires
        r < 5,
    ensures
        views(final(out)@) == views(old(out)@).push(modifier_name(r as int)),
{
    let name = if r == 0 {
        "Mod"
    } else if r == 1 {
        "Super"
    } else if r == 2 {
        "Ctrl"
    } else if r == 3 {
        "Alt"
    } else {
        "Shift"
    };
    let v = chars_of(name);
    out.push(v);
    assert(views(out@) =~= views(old(out)@).push(modifier_name(r as int)));
}

/// Joins words with `+`.
pub fn join_plus_words(ws: &Vec<Vec<char>>) -> (r: Vec<char>)
    ensures
        r@ == join_plus(views(ws@)),
{
    let mut r: Vec<char> = Vec::new();
    let mut i: usize = 0;
    while i < ws.len()
        invariant
            i <= ws.len(),
            r@ == join_plus(views(ws@).subrange(0, i as int)),
        decreases ws.len() - i,
    {
        let ghost pre = views(ws@).subrange(0, i as int);
        if i > 0 {
            r.push('+');
        }
        push_all(&mut r, &ws[i]);
        proof {
            let next = views(ws@).subrange(0, i + 1);
            assert(next.drop_last() =~= pre);
            assert(next.last() == ws@[i as int]@);
            if i == 0 {
                assert(next =~= seq![ws@[0]@]);
            }
        }
        i = i + 1;
    }
    assert(views(ws@).subrange(0, i as int) =~= views(ws@));
    r
}

/// Canonicalises a user-facing key combination for conflict detection (see
/// [`normalized_combo`]): `Shift+Ctrl+T` becomes `Ctrl+Shift+t`.
pub fn normalize_key_combo(input: &str) -> (r: String)
    ensures
        r@ == normalized_combo(input@),
{
    let s = chars_of(input);
    let ps = split_char(&s, '+');
    let ghost pv = views(ps@);
    let mut present: Vec<bool> = vec![false, false, false, false, false];
    let mut keys: Vec<Vec<char>> = Vec::new();
    let mut i: usize = 0;
    while i < ps.len()
        invariant
            i <= ps.len(),
            pv == views(ps@),
            present@.len() == 5,
            forall|k: int|
                0 <= k < 5 ==> (present@[k] <==> has_modifier(pv.subrange(0, i as int), k)),
            views(keys@) == combo_keys(pv.subrange(0, i as int)),
        decreases ps.len() - i,
    {
        let ghost pre = pv.subrange(0, i as int);
        let ghost next = pv.subrange(0, i + 1);
        assert(next.drop_last() =~= pre);
        assert(next.last() == ps@[i as int]@);
        let t = trim_chars(&ps[i]);
        let w = lower_chars(&t);
        if t.len() > 0 {
            match rank_of(&w) {
                Some(k) => {
                    present.set(k, true);
                },
                None => {
                    let ghost before = views(keys@);
                    keys.push(w);
                    assert(views(keys@) =~= before.push(w@));
                },
            }
        }
        proof {
            assert forall|k: int| 0 <= k < 5 implies (present@[k] <==> has_modifier(next, k)) by {
                if has_modifier(next, k) {
                    let j = choose|j: int|
                        0 <= j < next.len() && trim(next[j]).len() > 0 && modifier_rank(
                            combo_word(#[trigger] next[j]),
                        ) == Some(k);
                    if j < i {
                        assert(pre[j] == next[j]);
                        assert(has_modifier(pre, k));
                    }
                }
                if has_modifier(pre, k) {
                    let j = choose|j: int|
                        0 <= j < pre.len() && trim(pre[j]).len() > 0 && modifier_rank(
                            combo_word(#[trigger] pre[j]),
                        ) == Some(k);
                    assert(next[j] == pre[j]);
                }
                if trim(next[i as int]).len() > 0 && modifier_rank(combo_word(next[i as int]))
                    == Some(k) {
                    assert(has_modifier(next, k));
                }
            }
        }
        i = i + 1;
    }
    assert(pv.subrange(0, i as int) =~= pv);
    let mut all: Vec<Vec<char>> = Vec::new();
    let mut k: usize = 0;
    let ghost ranks = Seq::new(5, |r: int| r);
    while k < 5
        invariant
            k <= 5,
            present@.len() == 5,
            ranks == Seq::new(5, |r: int| r),
            forall|j: int| 0 <= j < 5 ==> (present@[j] <==> has_modifier(pv, j)),
            views(all@) == ranks.subrange(0, k as int).filter(|r: int| has_modifier(pv, r)).map_values(
                |r: int| modifier_name(r),
            ),
        decreases 5 - k,
    {
        let ghost sub = ranks.subrange(0, k as int);
        let ghost sub1 = ranks.subrange(0, k + 1);
        assert(sub1 =~= sub.push(k as int));
        proof {
            sub.lemma_filter_push(k as int, |r: int| has_modifier(pv, r));
            assert(sub1.filter(|r: int| has_modifier(pv, r)) == (if has_modifier(pv, k as int) {
                sub.filter(|r: int| has_modifier(pv, r)).push(k as int)
            } else {
                sub.filter(|r: int| has_modifier(pv, r))
            }));
        }
        if present[k] {
            let ghost before = views(all@);
            push_modifier_name(&mut all, k);
            assert(views(all@) =~= sub1.filter(|r: int| has_modifier(pv, r)).map_values(
                |r: int| modifier_name(r),
            ));
        } else {
            assert(views(all@) =~= sub1.filter(|r: int| has_modifier(pv, r)).map_values(
                |r: int| modifier_name(r),
            ));
        }
        k = k + 1;
    }
    assert(ranks.subrange(0, 5) =~= ranks);
    let ghost mods = views(all@);
    let mut j: usize = 0;
    while j < keys.len()
        invariant
            j <= keys.len(),
            views(all@) == mods + views(keys@).subrange(0, j as int),
        decreases keys.len() - j,
    {
        let w = slice(&keys[j], 0, keys[j].len());
        assert(w@ =~= keys@[j as int]@);
        assert(views(keys@)[j as int] == keys@[j as int]@);
        let ghost before = views(all@);
        all.push(w);
        assert(views(all@) =~= before.push(w@));
        assert(views(keys@).subrange(0, j + 1) =~= views(keys@).subrange(0, j as int).push(w@));
        assert(views(all@) =~= mods + views(keys@).subrange(0, j + 1));
        j = j + 1;
    }
    assert(views(keys@).subrange(0, j as int) =~= views(keys@));
    let joined = join_plus_words(&all);
    string_of(&joined)
}

// ── Normal form ──────────────────────────────────────────────────────────────

proof fn lemma_char_pos_shift(a: Seq<char>, x: Seq<char>, c: char, j: int)
    requires
        0 <= j <= x.len(),
    ensures
        char_pos(a + x, c, a.len() + j) == a.len() + char_pos(x, c, j),
    decreases x.len() - j,
{
    if j < x.len() {
        assert((a + x)[a.len() + j] == x[j]);
        if x[j] != c {
            lemma_char_pos_shift(a, x, c, j + 1);
        }
    }
}

proof fn lemma_char_pos_concat(a: Seq<char>, x: Seq<char>, c: char, i: int)
    requires
        0 <= i <= a.len(),
    ensures
        char_pos(a + x, c, i) == (if char_pos(a, c, i) < a.len() {
            char_pos(a, c, i)
        } else {
            a.len() + char_pos(x, c, 0)
        }),
    decreases a.len() - i,
{
    if i < a.len() {
        assert((a + x)[i] == a[i]);
        if a[i] != c {
            lemma_char_pos_concat(a, x, c, i + 1);
        }
    } else {
        lemma_char_pos_shift(a, x, c, 0);
    }
}

proof fn lemma_char_pos_absent(s: Seq<char>, c: char, i: int)
    requires
        0 <= i <= s.len(),
        !s.contains(c),
    ensures
        char_pos(s, c, i) == s.len(),
    decreases s.len() - i,
{
    if i < s.len() {
        assert(s[i] != c);
        lemma_char_pos_absent(s, c, i + 1);
    }
}

/// Splitting `a + c + b` where `b` has no `c` adds `b` as the last piece.
proof fn lemma_split_append(a: Seq<char>, b: Seq<char>, c: char)
    requires
        !b.contains(c),
    ensures
        split_on(a + seq![c] + b, c) == split_on(a, c) + seq![b],
    decreases a.len(),
{
    let s = a + seq![c] + b;
    assert(s =~= a + (seq![c] + b));
    lemma_char_pos_concat(a, seq![c] + b, c, 0);
    lemma_char_pos(a, c, 0);
    let p = char_pos(a, c, 0);
    if p < a.len() {
        let rest = a.subrange(p + 1, a.len() as int);
        assert(s.subrange(0, p) =~= a.subrange(0, p));
        assert(s.subrange(p + 1, s.len() as int) =~= rest + seq![c] + b);
        lemma_split_append(rest, b, c);
        assert(split_on(a, c) == seq![a.subrange(0, p)] + split_on(rest, c));
    } else {
        assert((seq![c] + b)[0] == c);
        assert(char_pos(seq![c] + b, c, 0) == 0);
        assert(s.subrange(0, a.len() as int) =~= a);
        assert(s.subrange((a.len() + 1) as int, s.len() as int) =~= b);
        lemma_char_pos_absent(b, c, 0);
        assert(split_on(b, c) == seq![b]);
        assert(split_on(a, c) == seq![a]);
    }
}

/// Joining words without `+` and splitting again gives the words back.
proof fn lemma_split_join(ws: Seq<Seq<char>>)
    requires
        ws.len() >= 1,
        forall|i: int| 0 <= i < ws.len() ==> !(#[trigger] ws[i]).contains('+'),
    ensures
        split_on(join_plus(ws), '+') == ws,
    decreases ws.len(),
{
    if ws.len() == 1 {
        lemma_char_pos_absent(ws[0], '+', 0);
        assert(split_on(ws[0], '+') =~= ws);
    } else {
        let init = ws.drop_last();
        assert forall|i: int| 0 <= i < init.len() implies !(#[trigger] init[i]).contains('+') by {
            assert(init[i] == ws[i]);
        }
        lemma_split_join(init);
        assert(!ws.last().contains('+'));
        lemma_split_append(join_plus(init), ws.last(), '+');
        assert(init + seq![ws.last()] =~= ws);
    }
}

proof fn lemma_combo_keys_concat(a: Seq<Seq<char>>, b: Seq<Seq<char>>)
    ensures
        combo_keys(a + b) == combo_keys(a) + combo_keys(b),
    decreases b.len(),
{
    if b.len() == 0 {
        assert(a + b =~= a);
        assert(combo_keys(a) + combo_keys(b) =~= combo_keys(a));
    } else {
        assert((a + b).drop_last() =~= a + b.drop_last());
        assert((a + b).last() == b.last());
        lemma_combo_keys_concat(a, b.drop_last());
        let w = combo_word(b.last());
        if !(trim(b.last()).len() == 0 || modifier_rank(w) is Some) {
            assert(combo_keys(a) + combo_keys(b.drop_last()).push(w) =~= (combo_keys(a)
                + combo_keys(b.drop_last())).push(w));
        }
    }
}

/// A canonical word: a modifier name, or a key as normalisation leaves it.
pub open spec fn canonical_word(w: Seq<char>) -> bool {
    &&& w.len() > 0
    &&& !w.contains('+')
    &&& trim(w) == w
}

proof fn lemma_modifier_name(r: int)
    requires
        0 <= r < 5,
    ensures
        canonical_word(modifier_name(r)),
        modifier_rank(combo_word(modifier_name(r))) == Some(r),
{
    reveal_strlit("Mod");
    reveal_strlit("Super");
    reveal_strlit("Ctrl");
    reveal_strlit("Alt");
    reveal_strlit("Shift");
    reveal_strlit("mod");
    reveal_strlit("super");
    reveal_strlit("logo");
    reveal_strlit("meta");
    reveal_strlit("control");
    reveal_strlit("ctrl");
    reveal_strlit("alt");
    reveal_strlit("shift");
    let n = modifier_name(r);
    crate::text::lemma_trim_fixed(n);
    assert(combo_word(n) == lower_seq(n));
    if r == 0 {
        assert(lower_seq(n) =~= "mod"@);
        assert(modifier_rank(lower_seq(n)) == Some(0int));
    } else if r == 1 {
        assert(lower_seq(n) =~= "super"@);
        assert("super"@ != "mod"@);
        assert(modifier_rank(lower_seq(n)) == Some(1int));
    } else if r == 2 {
        assert(lower_seq(n) =~= "ctrl"@);
        assert("ctrl"@[0] != "meta"@[0] && "ctrl"@[0] != "logo"@[0]);
        assert(modifier_rank(lower_seq(n)) == Some(2int));
    } else if r == 3 {
        assert(lower_seq(n) =~= "alt"@);
        assert("alt"@[0] != "mod"@[0]);
        assert(modifier_rank(lower_seq(n)) == Some(3int));
    } else {
        assert(lower_seq(n) =~= "shift"@);
        assert("shift"@[1] != "super"@[1]);
        assert(modifier_rank(lower_seq(n)) == Some(4int));
    }
}

proof fn lemma_lower_keeps(s: Seq<char>)
    ensures
        lower_seq(s).len() == s.len(),
        forall|i: int|
            0 <= i < s.len() ==> (is_ws(#[trigger] lower_seq(s)[i]) <==> is_ws(s[i])) && (
            lower_seq(s)[i] == '+' <==> s[i] == '+'),
        lower_seq(lower_seq(s)) == lower_seq(s),
{
    assert forall|i: int| 0 <= i < s.len() implies (is_ws(#[trigger] lower_seq(s)[i]) <==> is_ws(
        s[i],
    )) && (lower_seq(s)[i] == '+' <==> s[i] == '+') by {
        let c = s[i];
        if 'A' <= c && c <= 'Z' {
            assert(lower_seq(s)[i] == ((c as u32) + 32) as char);
        }
    }
    assert(lower_seq(lower_seq(s)) =~= lower_seq(s));
}

/// A key left by normalisation is a fixed point of it.
proof fn lemma_key_word(p: Seq<char>)
    requires
        !p.contains('+'),
        trim(p).len() > 0,
        modifier_rank(combo_word(p)) is None,
    ensures
        canonical_word(combo_word(p)),
        combo_word(combo_word(p)) == combo_word(p),
        modifier_rank(combo_word(combo_word(p))) is None,
{
    let t = trim(p);
    crate::text::lemma_trim_shape(p);
    let (lo, hi) = choose|lo: int, hi: int| 0 <= lo <= hi <= p.len() && t == p.subrange(lo, hi);
    let w = lower_seq(t);
    lemma_lower_keeps(t);
    assert(!w.contains('+')) by {
        if w.contains('+') {
            let i = choose|i: int| 0 <= i < w.len() && w[i] == '+';
            assert(t[i] == p[lo + i]);
        }
    }
    assert(!is_ws(w[0]) && !is_ws(w.last()));
    crate::text::lemma_trim_fixed(w);
}

proof fn lemma_pieces_no_plus(s: Seq<char>)
    ensures
        forall|i: int| 0 <= i < split_on(s, '+').len() ==> !(#[trigger] split_on(s, '+')[i]).contains(
            '+',
        ),
    decreases s.len(),
{
    lemma_char_pos(s, '+', 0);
    let p = char_pos(s, '+', 0);
    if p >= s.len() {
        assert(!s.contains('+'));
    } else {
        let rest = s.subrange(p + 1, s.len() as int);
        lemma_pieces_no_plus(rest);
        let ps = split_on(s, '+');
        assert forall|i: int| 0 <= i < ps.len() implies !(#[trigger] ps[i]).contains('+') by {
            if i == 0 {
                if s.subrange(0, p).contains('+') {
                    let j = choose|j: int| 0 <= j < p && s.subrange(0, p)[j] == '+';
                    assert(s[j] == '+');
                }
            } else {
                assert(ps[i] == split_on(rest, '+')[i - 1]);
            }
        }
    }
}

proof fn lemma_keys_canonical(ps: Seq<Seq<char>>)
    requires
        forall|i: int| 0 <= i < ps.len() ==> !(#[trigger] ps[i]).contains('+'),
    ensures
        forall|i: int|
            0 <= i < combo_keys(ps).len() ==> {
                let k = #[trigger] combo_keys(ps)[i];
                &&& canonical_word(k)
                &&& combo_word(k) == k
                &&& modifier_rank(k) is None
            },
    decreases ps.len(),
{
    if ps.len() > 0 {
        let init = ps.drop_last();
        assert forall|i: int| 0 <= i < init.len() implies !(#[trigger] init[i]).contains('+') by {
            assert(init[i] == ps[i]);
        }
        lemma_keys_canonical(init);
        let w = combo_word(ps.last());
        if !(trim(ps.last()).len() == 0 || modifier_rank(w) is Some) {
            lemma_key_word(ps.last());
            let ks = combo_keys(init).push(w);
            assert forall|i: int| 0 <= i < ks.len() implies {
                let k = #[trigger] ks[i];
                &&& canonical_word(k)
                &&& combo_word(k) == k
                &&& modifier_rank(k) is None
            } by {
                if i < combo_keys(init).len() {
                    assert(ks[i] == combo_keys(init)[i]);
                }
            }
        }
    }
}

/// Keys that are their own normal form pass through unchanged.
proof fn lemma_keys_fixed(ks: Seq<Seq<char>>)
    requires
        forall|i: int|
            0 <= i < ks.len() ==> {
                let k = #[trigger] ks[i];
                &&& canonical_word(k)
                &&& combo_word(k) == k
                &&& modifier_rank(k) is None
            },
    ensures
        combo_keys(ks) == ks,
    decreases ks.len(),
{
    if ks.len() > 0 {
        let init = ks.drop_last();
        assert forall|i: int| 0 <= i < init.len() implies {
            let k = #[trigger] init[i];
            &&& canonical_word(k)
            &&& combo_word(k) == k
            &&& modifier_rank(k) is None
        } by {
            assert(init[i] == ks[i]);
        }
        lemma_keys_fixed(init);
        let l = ks.last();
        assert(canonical_word(l) && combo_word(l) == l && modifier_rank(l) is None);
        assert(trim(l).len() > 0);
        assert(init.push(l) =~= ks);
    }
}

/// Modifier names contribute no keys.
proof fn lemma_modifiers_no_keys(ms: Seq<Seq<char>>)
    requires
        forall|i: int|
            0 <= i < ms.len() ==> trim(#[trigger] ms[i]).len() > 0 && modifier_rank(combo_word(ms[i]))
                is Some,
    ensures
        combo_keys(ms) == Seq::<Seq<char>>::empty(),
    decreases ms.len(),
{
    if ms.len() > 0 {
        let init = ms.drop_last();
        assert forall|i: int| 0 <= i < init.len() implies trim(#[trigger] init[i]).len() > 0
            && modifier_rank(combo_word(init[i])) is Some by {
            assert(init[i] == ms[i]);
        }
        lemma_modifiers_no_keys(init);
    }
}

/// The normal form of a key combination is its own normal form:
/// normalising twice gives what normalising once gave.
pub proof fn law_normalize_idempotent(s: Seq<char>)
    ensures
        normalized_combo(normalized_combo(s)) == normalized_combo(s),
{
    let ps = split_on(s, '+');
    let ranks = Seq::new(5, |r: int| r);
    let pred = |r: int| has_modifier(ps, r);
    let f = ranks.filter(pred);
    let m = combo_modifiers(ps);
    let k = combo_keys(ps);
    let t = normalized_combo(s);
    lemma_pieces_no_plus(s);
    lemma_keys_canonical(ps);
    broadcast use vstd::seq_lib::group_filter_ensures;

    assert(m == f.map_values(|r: int| modifier_name(r)));
    assert forall|j: int| 0 <= j < f.len() implies 0 <= #[trigger] f[j] < 5 && has_modifier(ps, f[j]) by {
        assert(pred(f[j]));
        let i = choose|i: int|
            0 <= i < ps.len() && trim(ps[i]).len() > 0 && modifier_rank(combo_word(#[trigger] ps[i]))
                == Some(f[j]);
    }
    assert forall|j: int| 0 <= j < m.len() implies canonical_word(#[trigger] m[j])
        && modifier_rank(combo_word(m[j])) == Some(f[j]) by {
        lemma_modifier_name(f[j]);
    }
    let all = m + k;
    if all.len() == 0 {
        assert(t =~= Seq::<char>::empty());
        lemma_char_pos_absent(t, '+', 0);
        let ps2 = split_on(t, '+');
        assert(ps2 =~= seq![t]);
        assert(trim(t) =~= Seq::<char>::empty());
        assert forall|r: int| !has_modifier(ps2, r) by {}
        assert(combo_keys(ps2) =~= Seq::<Seq<char>>::empty()) by {
            assert(ps2.drop_last() =~= Seq::<Seq<char>>::empty());
            assert(ps2.last() == t);
            assert(trim(ps2.last()).len() == 0);
            assert(combo_keys(ps2.drop_last()) =~= Seq::<Seq<char>>::empty());
        }
        let pred2 = |r: int| has_modifier(ps2, r);
        assert(ranks.filter(pred2).len() == 0) by {
            if ranks.filter(pred2).len() > 0 {
                assert(pred2(ranks.filter(pred2)[0]));
            }
        }
        assert(combo_modifiers(ps2) =~= Seq::<Seq<char>>::empty());
        assert(combo_modifiers(ps2) + combo_keys(ps2) =~= Seq::<Seq<char>>::empty());
    } else {
        assert forall|i: int| 0 <= i < all.len() implies !(#[trigger] all[i]).contains('+') by {
            if i < m.len() {
                assert(all[i] == m[i]);
            } else {
                assert(all[i] == k[i - m.len()]);
            }
        }
        lemma_split_join(all);
        let ps2 = split_on(t, '+');
        assert(ps2 == all);
        assert forall|r: int| has_modifier(ps2, r) == has_modifier(ps, r) by {
            if has_modifier(ps, r) {
                let i = choose|i: int|
                    0 <= i < ps.len() && trim(ps[i]).len() > 0 && modifier_rank(combo_word(#[trigger] ps[i]))
                        == Some(r);
                assert(0 <= r < 5);
                assert(ranks[r] == r);
                assert(pred(ranks[r]));
                assert(f.contains(r));
                let j = choose|j: int| 0 <= j < f.len() && f[j] == r;
                assert(all[j] == m[j]);
                assert(canonical_word(m[j]));
                assert(trim(all[j]).len() > 0 && modifier_rank(combo_word(all[j])) == Some(r));
            }
            if has_modifier(ps2, r) {
                let i = choose|i: int|
                    0 <= i < ps2.len() && trim(ps2[i]).len() > 0 && modifier_rank(
                        combo_word(#[trigger] ps2[i]),
                    ) == Some(r);
                if i < m.len() {
                    assert(all[i] == m[i]);
                    assert(f[i] == r);
                } else {
                    assert(all[i] == k[i - m.len()]);
                }
            }
        }
        let pred2 = |r: int| has_modifier(ps2, r);
        assert(pred2 =~= pred);
        lemma_combo_keys_concat(m, k);
        assert forall|i: int| 0 <= i < m.len() implies trim(#[trigger] m[i]).len() > 0
            && modifier_rank(combo_word(m[i])) is Some by {}
        lemma_modifiers_no_keys(m);
        lemma_keys_fixed(k);
        assert(combo_keys(ps2) =~= k);
        assert(combo_modifiers(ps2) == m);
    }
}

// ── Conflicts ────────────────────────────────────────────────────────────────

/// Strict lexicographic order of character sequences: the order of `String`
/// (UTF-8 byte order agrees with code-point order).
pub open spec fn lex_lt(a: Seq<char>, b: Seq<char>) -> bool
    decreases a.len(),
{
    if a.len() == 0 {
        b.len() > 0
    } else if b.len() == 0 {
        false
    } else if a[0] != b[0] {
        a[0] < b[0]
    } else {
        lex_lt(a.drop_first(), b.drop_first())
    }
}

pub proof fn lemma_lex_irreflexive(a: Seq<char>)
    ensures
        !lex_lt(a, a),
    decreases a.len(),
{
    if a.len() > 0 {
        lemma_lex_irreflexive(a.drop_first());
    }
}

pub proof fn lemma_lex_total(a: Seq<char>, b: Seq<char>)
    ensures
        a != b ==> lex_lt(a, b) || lex_lt(b, a),
        !(lex_lt(a, b) && lex_lt(b, a)),
    decreases a.len(),
{
    if a.len() > 0 && b.len() > 0 && a[0] == b[0] {
        lemma_lex_total(a.drop_first(), b.drop_first());
        if a.drop_first() == b.drop_first() {
            assert(a =~= seq![a[0]] + a.drop_first());
            assert(b =~= seq![b[0]] + b.drop_first());
        }
    }
    if a.len() == 0 && b.len() == 0 {
        assert(a =~= b);
    }
}

pub proof fn lemma_lex_trans(a: Seq<char>, b: Seq<char>, c: Seq<char>)
    requires
        lex_lt(a, b),
        lex_lt(b, c),
    ensures
        lex_lt(a, c),
    decreases a.len(),
{
    if a.len() > 0 && b.len() > 0 && c.len() > 0 && a[0] == b[0] && b[0] == c[0] {
        lemma_lex_trans(a.drop_first(), b.drop_first(), c.drop_first());
    }
}

/// Decides [`lex_lt`].
pub fn lex_less(a: &Vec<char>, b: &Vec<char>) -> (r: bool)
    ensures
        r == lex_lt(a@, b@),
{
    let mut i: usize = 0;
    assert(a@.subrange(0, a@.len() as int) =~= a@);
    assert(b@.subrange(0, b@.len() as int) =~= b@);
    while i < a.len() && i < b.len() && a[i] == b[i]
        invariant
            i <= a.len(),
            i <= b.len(),
            lex_lt(a@, b@) == lex_lt(a@.subrange(i as int, a@.len() as int), b@.subrange(
                i as int,
                b@.len() as int,
            )),
        decreases a.len() - i,
    {
        let ghost sa = a@.subrange(i as int, a@.len() as int);
        let ghost sb = b@.subrange(i as int, b@.len() as int);
        assert(sa.drop_first() =~= a@.subrange(i + 1, a@.len() as int));
        assert(sb.drop_first() =~= b@.subrange(i + 1, b@.len() as int));
        i = i + 1;
    }
    let ghost sa = a@.subrange(i as int, a@.len() as int);
    let ghost sb = b@.subrange(i as int, b@.len() as int);
    if i == a.len() {
        i < b.len()
    } else if i == b.len() {
        false
    } else {
        assert(sa[0] == a@[i as int] && sb[0] == b@[i as int]);
        a[i] < b[i]
    }
}

/// The positions of `k` in `ks`, ascending.
pub open spec fn positions(ks: Seq<Seq<char>>, k: Seq<char>) -> Seq<usize>
    decreases ks.len(),
{
    if ks.len() == 0 {
        Seq::empty()
    } else if ks.last() == k {
        positions(ks.drop_last(), k).push((ks.len() - 1) as usize)
    } else {
        positions(ks.drop_last(), k)
    }
}

/// The normalised combinations of the bindings' keys.
pub open spec fn combo_keys_of(binds: Seq<Keybind>) -> Seq<Seq<char>> {
    binds.map_values(|b: Keybind| normalized_combo(b.key@))
}

/// The normalised key combinations that more than one binding uses, each
/// once, in ascending order, with the positions of the bindings that use it.
/// `r` is exactly that list.
pub open spec fn is_conflict_list(binds: Seq<Keybind>, r: Seq<(String, Vec<usize>)>) -> bool {
    let ks = combo_keys_of(binds);
    &&& forall|a: int|
        0 <= a < r.len() ==> {
            &&& (#[trigger] r[a]).0@.len() > 0
            &&& r[a].1@ == positions(ks, r[a].0@)
            &&& r[a].1@.len() >= 2
        }
    &&& forall|a: int, b: int| 0 <= a < b < r.len() ==> lex_lt(r[a].0@, r[b].0@)
    &&& forall|i: int|
        0 <= i < ks.len() && (#[trigger] ks[i]).len() > 0 && positions(ks, ks[i]).len() >= 2
            ==> exists|a: int| 0 <= a < r.len() && r[a].0@ == ks[i]
}

proof fn lemma_positions_push(ks: Seq<Seq<char>>, x: Seq<char>, k: Seq<char>)
    ensures
        positions(ks.push(x), k) == (if x == k {
            positions(ks, k).push(ks.len() as usize)
        } else {
            positions(ks, k)
        }),
{
    assert(ks.push(x).drop_last() =~= ks);
}

proof fn lemma_positions_has(ks: Seq<Seq<char>>, i: int)
    requires
        0 <= i < ks.len(),
    ensures
        positions(ks, ks[i]).len() >= 1,
    decreases ks.len(),
{
    if i < ks.len() - 1 {
        lemma_positions_has(ks.drop_last(), i);
        assert(ks.drop_last()[i] == ks[i]);
    }
}

/// The position of `k` among `keys`, if present.
fn find_key(keys: &Vec<Vec<char>>, k: &Vec<char>) -> (r: Option<usize>)
    ensures
        match r {
            Some(g) => g < keys.len() && keys@[g as int]@ == k@,
            None => forall|h: int| 0 <= h < keys.len() ==> keys@[h]@ != k@,
        },
{
    let mut g: usize = 0;
    while g < keys.len()
        invariant
            g <= keys.len(),
            forall|h: int| 0 <= h < g ==> keys@[h]@ != k@,
        decreases keys.len() - g,
    {
        if crate::text::chars_eq(&keys[g], k) {
            return Some(g);
        }
        g = g + 1;
    }
    None
}

/// Groups the bindings by normalised key combination: distinct non-empty
/// keys in first-use order, each with the positions that use it.
fn group_keys(ks: &Vec<Vec<char>>) -> (r: (Vec<Vec<char>>, Vec<Vec<usize>>))
    ensures
        r.0.len() == r.1.len(),
        forall|g: int|
            0 <= g < r.0.len() ==> (#[trigger] r.0@[g])@.len() > 0 && r.1@[g]@ == positions(
                views(ks@),
                r.0@[g]@,
            ),
        forall|g: int, h: int|
            0 <= g < r.0.len() && 0 <= h < r.0.len() && g != h ==> r.0@[g]@ != r.0@[h]@,
        forall|j: int|
            0 <= j < ks.len() && (#[trigger] ks@[j])@.len() > 0 ==> exists|g: int|
                0 <= g < r.0.len() && r.0@[g]@ == ks@[j]@,
{
    let mut keys: Vec<Vec<char>> = Vec::new();
    let mut idx: Vec<Vec<usize>> = Vec::new();
    let mut i: usize = 0;
    while i < ks.len()
        invariant
            i <= ks.len(),
            keys.len() == idx.len(),
            forall|g: int|
                0 <= g < keys.len() ==> (#[trigger] keys@[g])@.len() > 0 && idx@[g]@ == positions(
                    views(ks@).subrange(0, i as int),
                    keys@[g]@,
                ),
            forall|g: int, h: int|
                0 <= g < keys.len() && 0 <= h < keys.len() && g != h ==> keys@[g]@ != keys@[h]@,
            forall|j: int|
                0 <= j < i && (#[trigger] ks@[j])@.len() > 0 ==> exists|g: int|
                    0 <= g < keys.len() && keys@[g]@ == ks@[j]@,
        decreases ks.len() - i,
    {
        let ghost pre = views(ks@).subrange(0, i as int);
        let ghost next = views(ks@).subrange(0, i + 1);
        assert(next =~= pre.push(ks@[i as int]@));
        proof {
            assert forall|k: Seq<char>| #[trigger] positions(next, k) == (if ks@[i as int]@ == k {
                positions(pre, k).push(i as usize)
            } else {
                positions(pre, k)
            }) by {
                lemma_positions_push(pre, ks@[i as int]@, k);
            }
        }
        let ghost old_keys = keys@;
        if ks[i].len() > 0 {
            let found = find_key(&keys, &ks[i]);
            if let Some(g) = found {
                idx[g].push(i);
                assert(keys@[g as int]@ == ks@[i as int]@);
                proof {
                    assert forall|h: int| 0 <= h < keys.len() implies (#[trigger] keys@[h])@.len()
                        > 0 && idx@[h]@ == positions(next, keys@[h]@) by {
                        if h != g {
                            assert(keys@[h]@ != keys@[g as int]@);
                        }
                    }
                }
            } else {
                let k = slice(&ks[i], 0, ks[i].len());
                assert(k@ =~= ks@[i as int]@);
                let mut one: Vec<usize> = Vec::new();
                one.push(i);
                proof {
                    lemma_positions_absent(pre, k@);
                    assert(positions(pre, k@).push(i as usize) =~= one@);
                }
                keys.push(k);
                idx.push(one);
            }
        }
        proof {
            assert(keys@.len() >= old_keys.len());
            assert forall|j: int|
                0 <= j < i + 1 && (#[trigger] ks@[j])@.len() > 0 implies exists|g: int|
                    0 <= g < keys.len() && keys@[g]@ == ks@[j]@ by {
                if j < i {
                    let g = choose|g: int| 0 <= g < old_keys.len() && old_keys[g]@ == ks@[j]@;
                    assert(keys@[g] == old_keys[g]);
                } else {
                    if keys@.len() > old_keys.len() {
                        assert(keys@[keys@.len() - 1]@ == ks@[j]@);
                    } else {
                        let g = choose|g: int| 0 <= g < keys.len() && keys@[g]@ == ks@[i as int]@;
                        assert(keys@[g]@ == ks@[j]@);
                    }
                }
            }
        }
        i = i + 1;
    }
    assert(views(ks@).subrange(0, i as int) =~= views(ks@));
    let r = (keys, idx);
    assert forall|j: int|
        0 <= j < ks.len() && (#[trigger] ks@[j])@.len() > 0 implies exists|g: int|
            0 <= g < r.0.len() && r.0@[g]@ == ks@[j]@ by {
        assert(j < i);
        let g = choose|g: int| 0 <= g < r.0.len() && r.0@[g]@ == ks@[j]@;
    }
    r
}

proof fn lemma_positions_absent(ks: Seq<Seq<char>>, k: Seq<char>)
    requires
        forall|j: int| 0 <= j < ks.len() ==> ks[j] != k,
    ensures
        positions(ks, k) == Seq::<usize>::empty(),
    decreases ks.len(),
{
    if ks.len() > 0 {
        lemma_positions_absent(ks.drop_last(), k);
    }
}

fn copy_indices(v: &Vec<usize>) -> (r: Vec<usize>)
    ensures
        r@ == v@,
{
    let mut r: Vec<usize> = Vec::new();
    let mut i: usize = 0;
    while i < v.len()
        invariant
            i <= v.len(),
            r@ == v@.subrange(0, i as int),
        decreases v.len() - i,
    {
        r.push(v[i]);
        i = i + 1;
        assert(r@ =~= v@.subrange(0, i as int));
    }
    assert(v@.subrange(0, i as int) =~= v@);
    r
}

/// The first position in the strictly ascending `sorted` whose key is not
/// below `k`.
fn insert_pos(sorted: &Vec<(Vec<char>, Vec<usize>)>, k: &Vec<char>) -> (p: usize)
    ensures
        p <= sorted.len(),
        forall|a: int| 0 <= a < p ==> lex_lt(sorted@[a].0@, k@),
        p < sorted.len() ==> !lex_lt(sorted@[p as int].0@, k@),
{
    let mut p: usize = 0;
    while p < sorted.len() && lex_less(&sorted[p].0, k)
        invariant
            p <= sorted.len(),
            forall|a: int| 0 <= a < p ==> lex_lt(sorted@[a].0@, k@),
        decreases sorted.len() - p,
    {
        p = p + 1;
    }
    p
}

/// The key combinations that more than one binding uses, in ascending order,
/// each with the positions of the bindings that use it (see
/// [`is_conflict_list`]).
#[verifier::rlimit(60)]
pub fn binding_conflicts(binds: &[Keybind]) -> (r: Vec<(String, Vec<usize>)>)
    ensures
        is_conflict_list(binds@, r@),
{
    let mut ks: Vec<Vec<char>> = Vec::new();
    let mut i: usize = 0;
    while i < binds.len()
        invariant
            i <= binds.len(),
            views(ks@) == combo_keys_of(binds@).subrange(0, i as int),
        decreases binds.len() - i,
    {
        let n = normalize_key_combo(binds[i].key.as_str());
        let c = chars_of(n.as_str());
        let ghost before = views(ks@);
        ks.push(c);
        assert(views(ks@) =~= before.push(c@));
        assert(combo_keys_of(binds@)[i as int] == normalized_combo(binds@[i as int].key@));
        assert(views(ks@) =~= combo_keys_of(binds@).subrange(0, i + 1));
        i = i + 1;
    }
    assert(combo_keys_of(binds@).subrange(0, i as int) =~= combo_keys_of(binds@));
    let ghost kv = views(ks@);
    let (keys, idx) = group_keys(&ks);
    let mut sorted: Vec<(Vec<char>, Vec<usize>)> = Vec::new();
    let mut g: usize = 0;
    while g < keys.len()
        invariant
            g <= keys.len(),
            keys.len() == idx.len(),
            kv == views(ks@),
            kv == combo_keys_of(binds@),
            forall|h: int|
                0 <= h < keys.len() ==> (#[trigger] keys@[h])@.len() > 0 && idx@[h]@ == positions(
                    kv,
                    keys@[h]@,
                ),
            forall|h1: int, h2: int|
                0 <= h1 < keys.len() && 0 <= h2 < keys.len() && h1 != h2 ==> keys@[h1]@
                    != keys@[h2]@,
            forall|a: int|
                0 <= a < sorted.len() ==> exists|h: int|
                    0 <= h < g && #[trigger] sorted@[a].0@ == keys@[h]@,
            forall|a: int|
                0 <= a < sorted.len() ==> (#[trigger] sorted@[a]).0@.len() > 0 && sorted@[a].1@
                    == positions(kv, sorted@[a].0@) && sorted@[a].1@.len() >= 2,
            forall|a: int, b: int| 0 <= a < b < sorted.len() ==> lex_lt(sorted@[a].0@, sorted@[b].0@),
            forall|h: int|
                0 <= h < g && (#[trigger] idx@[h])@.len() >= 2 ==> exists|a: int|
                    0 <= a < sorted.len() && sorted@[a].0@ == keys@[h]@,
        decreases keys.len() - g,
    {
        let ghost old_sorted = sorted@;
        if idx[g].len() >= 2 {
            let p = insert_pos(&sorted, &keys[g]);
            let k = slice(&keys[g], 0, keys[g].len());
            assert(k@ =~= keys@[g as int]@);
            let ix = copy_indices(&idx[g]);
            proof {
                assert forall|a: int| 0 <= a < old_sorted.len() implies old_sorted[a].0@ != k@ by {
                    let h = choose|h: int| 0 <= h < g && #[trigger] old_sorted[a].0@ == keys@[h]@;
                    assert(keys@[h]@ != keys@[g as int]@);
                }
                if p < old_sorted.len() {
                    lemma_lex_total(old_sorted[p as int].0@, k@);
                }
            }
            sorted.insert(p, (k, ix));
            proof {
                old_sorted.insert_ensures(p as int, (k, ix));
                assert forall|a: int, b: int| 0 <= a < b < sorted.len() implies lex_lt(
                    sorted@[a].0@,
                    sorted@[b].0@,
                ) by {
                    if a < p && b == p {
                    } else if a < p && b > p {
                        assert(sorted@[b] == old_sorted[b - 1]);
                    } else if a == p && b > p {
                        assert(sorted@[b] == old_sorted[b - 1]);
                        if b - 1 > p {
                            lemma_lex_trans(k@, old_sorted[p as int].0@, old_sorted[b - 1].0@);
                        }
                    } else if a > p {
                        assert(sorted@[a] == old_sorted[a - 1]);
                        assert(sorted@[b] == old_sorted[b - 1]);
                    }
                }
                assert forall|a: int| 0 <= a < sorted.len() implies exists|h: int|
                    0 <= h < g + 1 && #[trigger] sorted@[a].0@ == keys@[h]@ by {
                    if a < p {
                        let h = choose|h: int| 0 <= h < g && #[trigger] old_sorted[a].0@ == keys@[h]@;
                        assert(sorted@[a].0@ == keys@[h]@);
                    } else if a == p {
                        assert(sorted@[a].0@ == keys@[g as int]@);
                    } else {
                        assert(sorted@[a] == old_sorted[a - 1]);
                        let h = choose|h: int|
                            0 <= h < g && #[trigger] old_sorted[a - 1].0@ == keys@[h]@;
                        assert(sorted@[a].0@ == keys@[h]@);
                    }
                }
                assert forall|a: int| 0 <= a < sorted.len() implies (#[trigger] sorted@[a]).0@.len()
                    > 0 && sorted@[a].1@ == positions(kv, sorted@[a].0@) && sorted@[a].1@.len()
                    >= 2 by {
                    if a > p {
                        assert(sorted@[a] == old_sorted[a - 1]);
                    }
                }
                assert forall|h: int|
                    0 <= h < g + 1 && (#[trigger] idx@[h])@.len() >= 2 implies exists|a: int|
                    0 <= a < sorted.len() && sorted@[a].0@ == keys@[h]@ by {
                    if h < g {
                        let a = choose|a: int| 0 <= a < old_sorted.len() && old_sorted[a].0@ == keys@[h]@;
                        if a < p {
                            assert(sorted@[a] == old_sorted[a]);
                        } else {
                            assert(sorted@[a + 1] == old_sorted[a]);
                        }
                    } else {
                        assert(sorted@[p as int].0@ == keys@[h]@);
                    }
                }
            }
        }
        g = g + 1;
    }
    let mut out: Vec<(String, Vec<usize>)> = Vec::new();
    let mut a: usize = 0;
    while a < sorted.len()
        invariant
            a <= sorted.len(),
            out.len() == a,
            forall|j: int| 0 <= j < a ==> (#[trigger] out@[j]).0@ == sorted@[j].0@ && out@[j].1@
                == sorted@[j].1@,
        decreases sorted.len() - a,
    {
        let key = string_of(&sorted[a].0);
        let ix = copy_indices(&sorted[a].1);
        out.push((key, ix));
        a = a + 1;
    }
    proof {
        assert forall|j: int|
            0 <= j < kv.len() && (#[trigger] kv[j]).len() > 0 && positions(kv, kv[j]).len() >= 2
            implies exists|b: int| 0 <= b < out.len() && out@[b].0@ == kv[j] by {
            assert(ks@[j]@ == kv[j]);
            let h = choose|h: int| 0 <= h < keys.len() && keys@[h]@ == ks@[j]@;
            assert(idx@[h]@.len() >= 2);
            let b = choose|b: int| 0 <= b < sorted.len() && sorted@[b].0@ == keys@[h]@;
            assert(out@[b].0@ == kv[j]);
        }
    }
    out
}

// ── Action catalogue ─────────────────────────────────────────────────────────

/// The hint for what to put in `action_args` for an action.
pub open spec fn args_hint(a: Seq<char>) -> Seq<char> {
    if a == "spawn"@ {
        "program  arg1  arg2 …"@
    } else if a == "spawn-sh"@ {
        "shell command string"@
    } else if a == "focus-workspace"@ || a == "move-window-to-workspace"@ || a
        == "move-column-to-workspace"@ {
        "workspace index  (1, 2, …)"@
    } else if a == "set-column-width"@ || a == "set-window-width"@ {
        "size  e.g. 50%  or  1200"@
    } else if a == "set-window-height"@ {
        "size  e.g. 50%  or  800"@
    } else if a == "set-column-display"@ {
        "normal  or  tabbed"@
    } else if a == "switch-layout"@ {
        "next  /  prev  /  index"@
    } else if a == "do-screen-transition"@ {
        "delay-ms=250  (optional)"@
    } else if a == "quit"@ {
        "skip-confirmation=true  (optional)"@
    } else if a == "move-workspace-to-monitor"@ || a == "move-column-to-monitor"@ {
        "monitor name or index"@
    } else if a == "move-floating-window"@ {
        "dx dy  (pixels, e.g. 0 50)"@
    } else {
        ""@
    }
}

/// The actions that take mandatory or useful arguments.
pub open spec fn needs_args(a: Seq<char>) -> bool {
    a == "spawn"@ || a == "spawn-sh"@ || a == "focus-workspace"@ || a
        == "move-window-to-workspace"@ || a == "move-column-to-workspace"@ || a
        == "move-workspace-to-monitor"@ || a == "move-column-to-monitor"@ || a
        == "set-column-width"@ || a == "set-window-width"@ || a == "set-window-height"@ || a
        == "set-column-display"@ || a == "switch-layout"@ || a == "move-floating-window"@
}

fn is(a: &Vec<char>, lit: &str) -> (r: bool)
    ensures
        r == (a@ == lit@),
{
    str_is(a, lit)
}

/// A short hint describing what to put in `action_args` for an action.
pub fn action_args_hint(action: &str) -> (r: &'static str)
    ensures
        r@ == args_hint(action@),
{
    let a = chars_of(action);
    if is(&a, "spawn") {
        "program  arg1  arg2 …"
    } else if is(&a, "spawn-sh") {
        "shell command string"
    } else if is(&a, "focus-workspace") || is(&a, "move-window-to-workspace") || is(
        &a,
        "move-column-to-workspace",
    ) {
        "workspace index  (1, 2, …)"
    } else if is(&a, "set-column-width") || is(&a, "set-window-width") {
        "size  e.g. 50%  or  1200"
    } else if is(&a, "set-window-height") {
        "size  e.g. 50%  or  800"
    } else if is(&a, "set-column-display") {
        "normal  or  tabbed"
    } else if is(&a, "switch-layout") {
        "next  /  prev  /  index"
    } else if is(&a, "do-screen-transition") {
        "delay-ms=250  (optional)"
    } else if is(&a, "quit") {
        "skip-confirmation=true  (optional)"
    } else if is(&a, "move-workspace-to-monitor") || is(&a, "move-column-to-monitor") {
        "monitor name or index"
    } else if is(&a, "move-floating-window") {
        "dx dy  (pixels, e.g. 0 50)"
    } else {
        ""
    }
}

/// Whether an action takes mandatory or useful arguments.
pub fn action_needs_args(action: &str) -> (r: bool)
    ensures
        r == needs_args(action@),
{
    let a = chars_of(action);
    is(&a, "spawn") || is(&a, "spawn-sh") || is(&a, "focus-workspace") || is(
        &a,
        "move-window-to-workspace",
    ) || is(&a, "move-column-to-workspace") || is(&a, "move-workspace-to-monitor") || is(
        &a,
        "move-column-to-monitor",
    ) || is(&a, "set-column-width") || is(&a, "set-window-width") || is(&a, "set-window-height")
        || is(&a, "set-column-display") || is(&a, "switch-layout") || is(
        &a,
        "move-floating-window",
    )
}

/// The niri action names offered for key bindings, in catalogue order.
pub open spec fn action_catalogue() -> Seq<Seq<char>> {
    seq![
        "spawn"@,
        "spawn-sh"@,
        "close-window"@,
        "fullscreen-window"@,
        "toggle-windowed-fullscreen"@,
        "toggle-window-floating"@,
        "move-window-to-floating"@,
        "move-window-to-tiling"@,
        "focus-floating"@,
        "focus-tiling"@,
        "switch-focus-between-floating-and-tiling"@,
        "toggle-window-rule-opacity"@,
        "toggle-window-urgent"@,
        "set-window-urgent"@,
        "unset-window-urgent"@,
        "maximize-window-to-edges"@,
        "set-window-width"@,
        "set-window-height"@,
        "reset-window-height"@,
        "switch-preset-window-width"@,
        "switch-preset-window-width-back"@,
        "switch-preset-window-height"@,
        "switch-preset-window-height-back"@,
        "move-window-down"@,
        "move-window-up"@,
        "move-window-down-or-to-workspace-down"@,
        "move-window-up-or-to-workspace-up"@,
        "move-window-to-workspace"@,
        "move-window-to-workspace-down"@,
        "move-window-to-workspace-up"@,
        "consume-or-expel-window-left"@,
        "consume-or-expel-window-right"@,
        "consume-window-into-column"@,
        "expel-window-from-column"@,
        "swap-window-left"@,
        "swap-window-right"@,
        "move-floating-window"@,
        "focus-window-previous"@,
        "focus-window-down"@,
        "focus-window-up"@,
        "focus-window-down-or-column-left"@,
        "focus-window-down-or-column-right"@,
        "focus-window-up-or-column-left"@,
        "focus-window-up-or-column-right"@,
        "focus-window-or-monitor-up"@,
        "focus-window-or-monitor-down"@,
        "focus-window-or-workspace-down"@,
        "focus-window-or-workspace-up"@,
        "focus-window-top"@,
        "focus-window-bottom"@,
        "focus-window-down-or-top"@,
        "focus-window-up-or-bottom"@,
        "focus-column-left"@,
        "focus-column-right"@,
        "focus-column-first"@,
        "focus-column-last"@,
        "focus-column-right-or-first"@,
        "focus-column-left-or-last"@,
        "focus-column-or-monitor-left"@,
        "focus-column-or-monitor-right"@,
        "move-column-left"@,
        "move-column-right"@,
        "move-column-to-first"@,
        "move-column-to-last"@,
        "move-column-left-or-to-monitor-left"@,
        "move-column-right-or-to-monitor-right"@,
        "move-column-to-monitor-left"@,
        "move-column-to-monitor-right"@,
        "move-column-to-monitor-down"@,
        "move-column-to-monitor-up"@,
        "move-column-to-monitor-previous"@,
        "move-column-to-monitor-next"@,
        "move-column-to-workspace"@,
        "move-column-to-workspace-down"@,
        "move-column-to-workspace-up"@,
        "toggle-column-tabbed-display"@,
        "set-column-display"@,
        "set-column-width"@,
        "switch-preset-column-width"@,
        "switch-preset-column-width-back"@,
        "maximize-column"@,
        "expand-column-to-available-width"@,
        "focus-workspace"@,
        "focus-workspace-down"@,
        "focus-workspace-up"@,
        "focus-workspace-previous"@,
        "move-workspace-to-monitor-left"@,
        "move-workspace-to-monitor-right"@,
        "move-workspace-to-monitor-down"@,
        "move-workspace-to-monitor-up"@,
        "move-workspace-to-monitor-previous"@,
        "move-workspace-to-monitor-next"@,
        "move-workspace-to-monitor"@,
        "toggle-overview"@,
        "open-overview"@,
        "close-overview"@,
        "show-hotkey-overlay"@,
        "toggle-keyboard-shortcuts-inhibit"@,
        "screenshot"@,
        "screenshot-screen"@,
        "screenshot-window"@,
        "do-screen-transition"@,
        "switch-layout"@,
        "power-off-monitors"@,
        "power-on-monitors"@,
        "set-dynamic-cast-window"@,
        "set-dynamic-cast-monitor"@,
        "clear-dynamic-cast-target"@,
        "load-config-file"@,
        "toggle-debug-tint"@,
        "debug-toggle-opaque-regions"@,
        "debug-toggle-damage"@,
        "quit"@,
    ]
}

/// The niri action names offered for key bindings (see [`action_catalogue`]).
pub fn niri_actions() -> (r: &'static [&'static str])
    ensures
        r@.map_values(|a: &'static str| a@) == action_catalogue(),
{
    &[
        "spawn",
        "spawn-sh",
        "close-window",
        "fullscreen-window",
        "toggle-windowed-fullscreen",
        "toggle-window-floating",
        "move-window-to-floating",
        "move-window-to-tiling",
        "focus-floating",
        "focus-tiling",
        "switch-focus-between-floating-and-tiling",
        "toggle-window-rule-opacity",
        "toggle-window-urgent",
        "set-window-urgent",
        "unset-window-urgent",
        "maximize-window-to-edges",
        "set-window-width",
        "set-window-height",
        "reset-window-height",
        "switch-preset-window-width",
        "switch-preset-window-width-back",
        "switch-preset-window-height",
        "switch-preset-window-height-back",
        "move-window-down",
        "move-window-up",
        "move-window-down-or-to-workspace-down",
        "move-window-up-or-to-workspace-up",
        "move-window-to-workspace",
        "move-window-to-workspace-down",
        "move-window-to-workspace-up",
        "consume-or-expel-window-left",
        "consume-or-expel-window-right",
        "consume-window-into-column",
        "expel-window-from-column",
        "swap-window-left",
        "swap-window-right",
        "move-floating-window",
        "focus-window-previous",
        "focus-window-down",
        "focus-window-up",
        "focus-window-down-or-column-left",
        "focus-window-down-or-column-right",
        "focus-window-up-or-column-left",
        "focus-window-up-or-column-right",
        "focus-window-or-monitor-up",
        "focus-window-or-monitor-down",
        "focus-window-or-workspace-down",
        "focus-window-or-workspace-up",
        "focus-window-top",
        "focus-window-bottom",
        "focus-window-down-or-top",
        "focus-window-up-or-bottom",
        "focus-column-left",
        "focus-column-right",
        "focus-column-first",
        "focus-column-last",
        "focus-column-right-or-first",
        "focus-column-left-or-last",
        "focus-column-or-monitor-left",
        "focus-column-or-monitor-right",
        "move-column-left",
        "move-column-right",
        "move-column-to-first",
        "move-column-to-last",
        "move-column-left-or-to-monitor-left",
        "move-column-right-or-to-monitor-right",
        "move-column-to-monitor-left",
        "move-column-to-monitor-right",
        "move-column-to-monitor-down",
        "move-column-to-monitor-up",
        "move-column-to-monitor-previous",
        "move-column-to-monitor-next",
        "move-column-to-workspace",
        "move-column-to-workspace-down",
        "move-column-to-workspace-up",
        "toggle-column-tabbed-display",
        "set-column-display",
        "set-column-width",
        "switch-preset-column-width",
        "switch-preset-column-width-back",
        "maximize-column",
        "expand-column-to-available-width",
        "focus-workspace",
        "focus-workspace-down",
        "focus-workspace-up",
        "focus-workspace-previous",
        "move-workspace-to-monitor-left",
        "move-workspace-to-monitor-right",
        "move-workspace-to-monitor-down",
        "move-workspace-to-monitor-up",
        "move-workspace-to-monitor-previous",
        "move-workspace-to-monitor-next",
        "move-workspace-to-monitor",
        "toggle-overview",
        "open-overview",
        "close-overview",
        "show-hotkey-overlay",
        "toggle-keyboard-shortcuts-inhibit",
        "screenshot",
        "screenshot-screen",
        "screenshot-window",
        "do-screen-transition",
        "switch-layout",
        "power-off-monitors",
        "power-on-monitors",
        "set-dynamic-cast-window",
        "set-dynamic-cast-monitor",
        "clear-dynamic-cast-target",
        "load-config-file",
        "toggle-debug-tint",
        "debug-toggle-opaque-regions",
        "debug-toggle-damage",
        "quit",
    ]
}

} // verus!
