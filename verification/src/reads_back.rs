//! Text that the editor writes reads back as what was written: bind lines
//! through the bind line reader, argument vectors through the word
//! splitter; with the lemmas about trimming, word splitting and argument
//! tokens that this rests on.

use vstd::prelude::*;
use vstd::string::*;
use crate::keybinds::{
    action_args, action_name, arg_tokens, bind_fields, bind_line, bind_props, char_pos,
    char_rpos, join_space, lemma_quote_end, lemma_word_end, quote_end, strip_end, word_end,
    words_from,
};
use crate::generate::{action_kdl, bind_props_text, bind_text, num_line, opt, quote, quoted_path, quoted_words};
use crate::sanitise::{keep_chars, key_char, path_char};
use crate::text::{all_digits, dec, digits_val, is_digit, is_ws, parse_u32_spec, trim, trim_end, trim_start};
use crate::types::Keybind;

verus! {

// ── Trimming ─────────────────────────────────────────────────────────────────

pub open spec fn all_ws(s: Seq<char>) -> bool {
    forall|i: int| 0 <= i < s.len() ==> is_ws(#[trigger] s[i])
}

proof fn lemma_trim_start_pad(p: Seq<char>, r: Seq<char>)
    requires
        all_ws(p),
        r.len() == 0 || !is_ws(r[0]),
    ensures
        trim_start(p + r) == r,
    decreases p.len(),
{
    if p.len() == 0 {
        assert(p + r =~= r);
    } else {
        assert((p + r).drop_first() =~= p.drop_first() + r);
        lemma_trim_start_pad(p.drop_first(), r);
    }
}

proof fn lemma_trim_end_pad(r: Seq<char>, q: Seq<char>)
    requires
        all_ws(q),
        r.len() == 0 || !is_ws(r.last()),
    ensures
        trim_end(r + q) == r,
    decreases q.len(),
{
    if q.len() == 0 {
        assert(r + q =~= r);
    } else {
        assert((r + q).drop_last() =~= r + q.drop_last());
        lemma_trim_end_pad(r, q.drop_last());
    }
}

/// Trimming whitespace padding off a core that starts and ends with
/// something else gives the core.
proof fn lemma_trim_pad(p: Seq<char>, c: Seq<char>, q: Seq<char>)
    requires
        all_ws(p),
        all_ws(q),
        c.len() > 0,
        !is_ws(c[0]),
        !is_ws(c.last()),
    ensures
        trim(p + c + q) == c,
{
    assert(p + c + q =~= p + (c + q));
    lemma_trim_start_pad(p, c + q);
    lemma_trim_end_pad(c, q);
}

// ── Words ────────────────────────────────────────────────────────────────────

/// A word: not empty, no whitespace.
pub open spec fn solid(w: Seq<char>) -> bool {
    w.len() > 0 && forall|i: int| 0 <= i < w.len() ==> !is_ws(#[trigger] w[i])
}

proof fn lemma_word_end_shift(a: Seq<char>, b: Seq<char>, i: int)
    requires
        0 <= i <= b.len(),
    ensures
        word_end(a + b, a.len() + i) == a.len() + word_end(b, i),
    decreases b.len() - i,
{
    if i < b.len() {
        assert((a + b)[a.len() + i] == b[i]);
        if !is_ws(b[i]) {
            lemma_word_end_shift(a, b, i + 1);
        }
    }
}

proof fn lemma_words_shift(a: Seq<char>, b: Seq<char>, i: int)
    requires
        0 <= i <= b.len(),
    ensures
        words_from(a + b, a.len() + i) == words_from(b, i),
    decreases b.len() - i,
{
    if i < b.len() {
        assert((a + b)[a.len() + i] == b[i]);
        if is_ws(b[i]) {
            lemma_words_shift(a, b, i + 1);
        } else {
            lemma_word_end_shift(a, b, i);
            lemma_word_end(b, i);
            let e = word_end(b, i);
            assert((a + b).subrange(a.len() + i, a.len() + e) =~= b.subrange(i, e));
            lemma_words_shift(a, b, e);
        }
    }
}

pub proof fn lemma_word_end_solid(w: Seq<char>, rest: Seq<char>, i: int)
    requires
        solid(w),
        0 <= i <= w.len(),
        rest.len() == 0 || is_ws(rest[0]),
    ensures
        word_end(w + rest, i) == w.len(),
    decreases w.len() - i,
{
    if i < w.len() {
        assert((w + rest)[i] == w[i]);
        lemma_word_end_solid(w, rest, i + 1);
    } else if rest.len() > 0 {
        assert((w + rest)[i] == rest[0]);
    }
}

/// The words of a word followed by text that starts with whitespace.
proof fn lemma_words_lead(w: Seq<char>, rest: Seq<char>)
    requires
        solid(w),
        rest.len() == 0 || is_ws(rest[0]),
    ensures
        words_from(w + rest, 0) == seq![w] + words_from(rest, 0),
{
    assert((w + rest)[0] == w[0]);
    lemma_word_end_solid(w, rest, 0);
    assert((w + rest).subrange(0, w.len() as int) =~= w);
    lemma_words_shift(w, rest, 0);
}

/// Leading whitespace does not change the words.
proof fn lemma_words_skip(p: Seq<char>, rest: Seq<char>)
    requires
        all_ws(p),
    ensures
        words_from(p + rest, 0) == words_from(rest, 0),
    decreases p.len(),
{
    if p.len() > 0 {
        assert((p + rest)[0] == p[0]);
        let q = p.drop_first();
        assert(p + rest =~= seq![p[0]] + (q + rest));
        lemma_words_shift(seq![p[0]], q + rest, 0);
        lemma_words_skip(q, rest);
    } else {
        assert(p + rest =~= rest);
    }
}

// ── Argument tokens ──────────────────────────────────────────────────────────

pub open spec fn no_quote(s: Seq<char>) -> bool {
    forall|i: int| 0 <= i < s.len() ==> #[trigger] s[i] != '"'
}

proof fn lemma_quote_end_shift(a: Seq<char>, b: Seq<char>, i: int)
    requires
        0 <= i <= b.len(),
    ensures
        quote_end(a + b, a.len() + i) == a.len() + quote_end(b, i),
    decreases b.len() - i,
{
    if i < b.len() {
        assert((a + b)[a.len() + i] == b[i]);
        if b[i] != '"' {
            lemma_quote_end_shift(a, b, i + 1);
        }
    }
}

proof fn lemma_tokens_shift(a: Seq<char>, b: Seq<char>, i: int)
    requires
        0 <= i <= b.len(),
    ensures
        arg_tokens(a + b, a.len() + i) == arg_tokens(b, i),
    decreases b.len() - i,
{
    if i < b.len() {
        assert((a + b)[a.len() + i] == b[i]);
        if is_ws(b[i]) {
            lemma_tokens_shift(a, b, i + 1);
        } else if b[i] == '"' {
            lemma_quote_end_shift(a, b, i + 1);
            lemma_quote_end(b, i + 1);
            let e = quote_end(b, i + 1);
            assert((a + b).subrange(a.len() + i + 1, a.len() + e) =~= b.subrange(i + 1, e));
            if e < b.len() {
                lemma_tokens_shift(a, b, e + 1);
            } else {
                lemma_tokens_shift(a, b, b.len() as int);
            }
        } else {
            lemma_word_end_shift(a, b, i);
            lemma_word_end(b, i);
            let e = word_end(b, i);
            assert((a + b).subrange(a.len() + i, a.len() + e) =~= b.subrange(i, e));
            lemma_tokens_shift(a, b, e);
        }
    }
}

proof fn lemma_quote_end_in(w: Seq<char>, rest: Seq<char>, i: int)
    requires
        no_quote(w),
        1 <= i <= w.len() + 1,
    ensures
        quote_end(quote(w) + rest, i) == w.len() + 1,
    decreases w.len() + 1 - i,
{
    let s = quote(w) + rest;
    if i <= w.len() {
        assert(s[i] == w[i - 1]);
        lemma_quote_end_in(w, rest, i + 1);
    } else {
        assert(s[i] == '"');
    }
}

/// The tokens of a quoted word followed by more text.
proof fn lemma_tokens_quoted(w: Seq<char>, rest: Seq<char>)
    requires
        w.len() > 0,
        no_quote(w),
    ensures
        arg_tokens(quote(w) + rest, 0) == seq![w] + arg_tokens(rest, 0),
{
    let s = quote(w) + rest;
    assert(s[0] == '"');
    assert(!is_ws('"'));
    lemma_quote_end_in(w, rest, 1);
    assert(s.subrange(1, w.len() + 1 as int) =~= w);
    assert(s =~= quote(w) + rest);
    lemma_tokens_shift(quote(w), rest, 0);
}

/// Leading whitespace does not change the tokens.
proof fn lemma_tokens_skip(p: Seq<char>, rest: Seq<char>)
    requires
        all_ws(p),
    ensures
        arg_tokens(p + rest, 0) == arg_tokens(rest, 0),
    decreases p.len(),
{
    if p.len() > 0 {
        assert((p + rest)[0] == p[0]);
        let q = p.drop_first();
        assert(p + rest =~= seq![p[0]] + (q + rest));
        lemma_tokens_shift(seq![p[0]], q + rest, 0);
        lemma_tokens_skip(q, rest);
    } else {
        assert(p + rest =~= rest);
    }
}

/// Without quotes the tokens are the words.
proof fn lemma_tokens_are_words(s: Seq<char>, i: int)
    requires
        no_quote(s),
        0 <= i <= s.len(),
    ensures
        arg_tokens(s, i) == words_from(s, i),
    decreases s.len() - i,
{
    if i < s.len() {
        if is_ws(s[i]) {
            lemma_tokens_are_words(s, i + 1);
        } else {
            lemma_word_end(s, i);
            lemma_tokens_are_words(s, word_end(s, i));
        }
    }
}

// ── Joining and quoting ──────────────────────────────────────────────────────

proof fn lemma_join_front(w: Seq<char>, ws: Seq<Seq<char>>)
    ensures
        join_space(seq![w] + ws) == (if ws.len() == 0 {
            w
        } else {
            w + seq![' '] + join_space(ws)
        }),
    decreases ws.len(),
{
    let s = seq![w] + ws;
    if ws.len() == 0 {
        assert(s =~= seq![w]);
    } else if ws.len() == 1 {
        assert(s.drop_last() =~= seq![w]);
        assert(join_space(seq![w]) == w);
        assert(s.last() == ws[0]);
    } else {
        assert(s.drop_last() =~= seq![w] + ws.drop_last());
        lemma_join_front(w, ws.drop_last());
        assert(s.last() == ws.last());
    }
}

pub open spec fn path_clean(s: Seq<char>) -> bool {
    forall|i: int| 0 <= i < s.len() ==> path_char(#[trigger] s[i])
}

proof fn lemma_keep_path(s: Seq<char>)
    requires
        path_clean(s),
    ensures
        keep_chars(s, |c: char| path_char(c)) == s,
    decreases s.len(),
{
    if s.len() > 0 {
        assert(path_char(s.last()));
        lemma_keep_path(s.drop_last());
        assert(s.drop_last().push(s.last()) =~= s);
    }
}

proof fn lemma_keep_key(s: Seq<char>)
    requires
        forall|i: int| 0 <= i < s.len() ==> key_char(#[trigger] s[i]),
    ensures
        keep_chars(s, |c: char| key_char(c)) == s,
    decreases s.len(),
{
    if s.len() > 0 {
        assert(key_char(s.last()));
        lemma_keep_key(s.drop_last());
        assert(s.drop_last().push(s.last()) =~= s);
    }
}

/// The tokens of quoted, clean words are the words.
proof fn lemma_tokens_quoted_words(ws: Seq<Seq<char>>)
    requires
        forall|k: int| 0 <= k < ws.len() ==> (#[trigger] ws[k]).len() > 0 && path_clean(ws[k]),
    ensures
        arg_tokens(quoted_words(ws), 0) == ws,
    decreases ws.len(),
{
    let qs = ws.map_values(|w: Seq<char>| quoted_path(w));
    if ws.len() == 0 {
        assert(qs =~= Seq::<Seq<char>>::empty());
        assert(arg_tokens(Seq::<char>::empty(), 0) =~= Seq::<Seq<char>>::empty());
    } else {
        let w = ws[0];
        let rest = ws.drop_first();
        let rq = rest.map_values(|w: Seq<char>| quoted_path(w));
        assert(qs =~= seq![quoted_path(w)] + rq);
        assert(forall|k: int| 0 <= k < rest.len() ==> #[trigger] rest[k] == ws[k + 1]);
        lemma_keep_path(w);
        assert(quoted_path(w) == quote(w));
        assert(no_quote(w)) by {
            assert forall|i: int| 0 <= i < w.len() implies #[trigger] w[i] != '"' by {
                assert(path_char(w[i]));
            }
        }
        lemma_join_front(quoted_path(w), rq);
        lemma_tokens_quoted_words(rest);
        assert(quoted_words(rest) == join_space(rq));
        if rest.len() == 0 {
            assert(quoted_words(ws) == quote(w));
            assert(quote(w) + Seq::<char>::empty() =~= quote(w));
            lemma_tokens_quoted(w, Seq::<char>::empty());
            assert(arg_tokens(Seq::<char>::empty(), 0) =~= Seq::<Seq<char>>::empty());
            assert(ws =~= seq![w]);
        } else {
            let j = join_space(rq);
            assert(quoted_words(ws) =~= quote(w) + (seq![' '] + j));
            lemma_tokens_quoted(w, seq![' '] + j);
            assert(all_ws(seq![' ']));
            lemma_tokens_skip(seq![' '], j);
            assert(ws =~= seq![w] + rest);
        }
    }
}

// ── Numbers, positions and ends ──────────────────────────────────────────────

proof fn lemma_dec_reads_back(n: nat)
    ensures
        dec(n).len() >= 1,
        all_digits(dec(n)),
        digits_val(dec(n)) == n,
    decreases n,
{
    if n < 10 {
        let c = (('0' as u32) + n) as char;
        assert(dec(n) == seq![c]);
        assert(seq![c].drop_last() =~= Seq::<char>::empty());
        assert(('0' as u32) == 48);
        assert((c as u32) == 48 + n);
        assert(digits_val(seq![c]) == digits_val(Seq::<char>::empty()) * 10 + ((c as u32) - ('0' as u32)) as nat);
    } else {
        lemma_dec_reads_back(n / 10);
        let d = dec(n / 10);
        let c = (('0' as u32) + (n % 10)) as char;
        assert(dec(n) == d.push(c));
        assert(d.push(c).drop_last() =~= d);
        assert((c as u32) == 48 + n % 10);
        assert(n == (n / 10) * 10 + n % 10);
        assert(forall|i: int| 0 <= i < d.len() ==> d.push(c)[i] == d[i]);
    }
}

proof fn lemma_words_clean(s: Seq<char>, i: int)
    requires
        path_clean(s),
        0 <= i <= s.len(),
    ensures
        forall|k: int|
            0 <= k < words_from(s, i).len() ==> (#[trigger] words_from(s, i)[k]).len() > 0
                && path_clean(words_from(s, i)[k]),
    decreases s.len() - i,
{
    if i < s.len() {
        if is_ws(s[i]) {
            lemma_words_clean(s, i + 1);
            assert(words_from(s, i) == words_from(s, i + 1));
        } else {
            lemma_word_end(s, i);
            let e = word_end(s, i);
            lemma_words_clean(s, e);
            let w = s.subrange(i, e);
            assert(path_clean(w)) by {
                assert forall|j: int| 0 <= j < w.len() implies path_char(#[trigger] w[j]) by {
                    assert(w[j] == s[i + j]);
                }
            }
            let ws = words_from(s, i);
            assert(ws == seq![w] + words_from(s, e));
            assert forall|k: int| 0 <= k < ws.len() implies (#[trigger] ws[k]).len() > 0
                && path_clean(ws[k]) by {
                if k > 0 {
                    assert(ws[k] == words_from(s, e)[k - 1]);
                }
            }
        }
    }
}

proof fn lemma_char_pos_at(s: Seq<char>, c: char, i: int, j: int)
    requires
        0 <= i <= j < s.len(),
        s[j] == c,
        forall|k: int| i <= k < j ==> #[trigger] s[k] != c,
    ensures
        char_pos(s, c, i) == j,
    decreases j - i,
{
    if i < j {
        lemma_char_pos_at(s, c, i + 1, j);
    }
}

proof fn lemma_strip_end_push(s: Seq<char>, c: char)
    requires
        s.len() == 0 || s.last() != c,
    ensures
        strip_end(s.push(c), c) == s,
{
    assert(s.push(c).drop_last() =~= s);
    assert(strip_end(s, c) == s);
}

// ── Properties ───────────────────────────────────────────────────────────────

pub open spec fn lacks(s: Seq<char>, c: char) -> bool {
    forall|i: int| 0 <= i < s.len() ==> #[trigger] s[i] != c
}

pub open spec fn opt_word(c: bool, w: Seq<char>) -> Seq<Seq<char>> {
    if c {
        seq![w]
    } else {
        Seq::empty()
    }
}

/// The property words of a bind line, as the writer puts them.
pub open spec fn prop_words(b: Keybind) -> Seq<Seq<char>> {
    opt_word(!b.repeat, "repeat=false"@) + opt_word(
        b.cooldown_ms > 0,
        "cooldown-ms="@ + dec(b.cooldown_ms as nat),
    ) + opt_word(b.allow_when_locked, "allow-when-locked=true"@)
}

/// Text that is empty or a space, a word, and nothing more.
pub open spec fn spaced(s: Seq<char>) -> bool {
    s.len() == 0 || (s[0] == ' ' && !is_ws(s.last()) && lacks(s, '{'))
}

proof fn lemma_piece(c: bool, w: Seq<char>, rest: Seq<char>)
    requires
        solid(w),
        lacks(w, '{'),
        spaced(rest),
    ensures
        words_from(opt(c, seq![' '] + w) + rest, 0) == opt_word(c, w) + words_from(rest, 0),
        spaced(opt(c, seq![' '] + w) + rest),
{
    let p = opt(c, seq![' '] + w);
    if c {
        assert(p + rest =~= seq![' '] + (w + rest));
        assert(all_ws(seq![' ']));
        lemma_words_skip(seq![' '], w + rest);
        lemma_words_lead(w, rest);
        let s = p + rest;
        assert(s.last() == (if rest.len() == 0 {
            w.last()
        } else {
            rest.last()
        }));
        assert forall|i: int| 0 <= i < s.len() implies #[trigger] s[i] != '{' by {
            if 1 <= i < 1 + w.len() {
                assert(s[i] == w[i - 1]);
            } else if i >= 1 + w.len() {
                assert(s[i] == rest[i - 1 - w.len()]);
            }
        }
    } else {
        assert(p + rest =~= rest);
        assert(opt_word(c, w) + words_from(rest, 0) =~= words_from(rest, 0));
    }
}

proof fn lemma_props_words(b: Keybind)
    ensures
        words_from(bind_props_text(b), 0) == prop_words(b),
        spaced(bind_props_text(b)),
{
    reveal_strlit(" repeat=false");
    reveal_strlit("repeat=false");
    reveal_strlit(" cooldown-ms=");
    reveal_strlit("cooldown-ms=");
    reveal_strlit(" allow-when-locked=true");
    reveal_strlit("allow-when-locked=true");
    reveal_strlit("");
    let r = "repeat=false"@;
    let n = dec(b.cooldown_ms as nat);
    lemma_dec_reads_back(b.cooldown_ms as nat);
    let cw = "cooldown-ms="@ + n;
    let a = "allow-when-locked=true"@;
    assert(solid(cw) && lacks(cw, '{')) by {
        assert forall|i: int| 0 <= i < cw.len() implies !is_ws(#[trigger] cw[i]) && cw[i] != '{' by {
            if i >= 12 {
                assert(cw[i] == n[i - 12]);
                assert(is_digit(n[i - 12]));
            }
        }
    }
    assert(" repeat=false"@ =~= seq![' '] + r);
    assert(" allow-when-locked=true"@ =~= seq![' '] + a);
    assert(" cooldown-ms="@ + n + ""@ =~= seq![' '] + cw);
    let e = Seq::<char>::empty();
    assert(words_from(e, 0) =~= Seq::<Seq<char>>::empty());
    lemma_piece(b.allow_when_locked, a, e);
    let p3 = opt(b.allow_when_locked, seq![' '] + a);
    assert(p3 + e =~= p3);
    lemma_piece(b.cooldown_ms > 0, cw, p3);
    let p2 = opt(b.cooldown_ms > 0, seq![' '] + cw);
    lemma_piece(!b.repeat, r, p2 + p3);
    let p1 = opt(!b.repeat, seq![' '] + r);
    assert(num_line(b.cooldown_ms > 0, " cooldown-ms="@, b.cooldown_ms as nat, ""@) == p2);
    assert(bind_props_text(b) =~= p1 + (p2 + p3));
    assert(opt_word(!b.repeat, r) + (opt_word(b.cooldown_ms > 0, cw) + (opt_word(
        b.allow_when_locked,
        a,
    ) + Seq::<Seq<char>>::empty())) =~= prop_words(b));
}

proof fn lemma_props_read(b: Keybind)
    ensures
        bind_props(prop_words(b)) == Some((b.repeat, b.cooldown_ms, b.allow_when_locked)),
{
    reveal_strlit("repeat=false");
    reveal_strlit("cooldown-ms=");
    reveal_strlit("allow-when-locked=true");
    let r = "repeat=false"@;
    let pre = "cooldown-ms="@;
    let a = "allow-when-locked=true"@;
    let n = dec(b.cooldown_ms as nat);
    lemma_dec_reads_back(b.cooldown_ms as nat);
    let cw = pre + n;
    let s1 = opt_word(!b.repeat, r);
    let s2 = s1 + opt_word(b.cooldown_ms > 0, cw);
    let s3 = s2 + opt_word(b.allow_when_locked, a);
    let e = Seq::<Seq<char>>::empty();
    assert(bind_props(e) == Some((true, 0u32, false)));
    if !b.repeat {
        assert(s1 =~= e.push(r));
        assert(s1.drop_last() =~= e);
    } else {
        assert(s1 =~= e);
    }
    assert(bind_props(s1) == Some((b.repeat, 0u32, false)));
    if b.cooldown_ms > 0 {
        assert(s2 =~= s1.push(cw));
        assert(s2.drop_last() =~= s1);
        assert(cw != r) by {
            assert(cw.len() != r.len());
        }
        assert(cw.subrange(0, pre.len() as int) =~= pre);
        assert(cw.subrange(pre.len() as int, cw.len() as int) =~= n);
        assert(n[0] != '+') by {
            assert(is_digit(n[0]));
        }
        assert(parse_u32_spec(n) == Some(b.cooldown_ms));
    } else {
        assert(s2 =~= s1);
    }
    assert(bind_props(s2) == Some((b.repeat, b.cooldown_ms, false)));
    if b.allow_when_locked {
        assert(s3 =~= s2.push(a));
        assert(s3.drop_last() =~= s2);
        assert(a != r) by {
            assert(a.len() != r.len());
        }
        assert(a.subrange(0, pre.len() as int) != pre) by {
            assert(a.subrange(0, pre.len() as int)[0] != pre[0]);
        }
    } else {
        assert(s3 =~= s2);
    }
}

// ── The action ───────────────────────────────────────────────────────────────

/// Arguments whose characters survive path sanitisation and that are
/// already words joined by single spaces.
pub open spec fn args_canonical(a: Seq<char>) -> bool {
    path_clean(a) && a == join_space(words_from(a, 0))
}

/// The action and arguments of a binding come back unchanged from its bind
/// line: the action is one word; `spawn` has canonical arguments to run,
/// `spawn-sh` a command of clean characters; other actions have canonical
/// arguments that do not end in `;`, or none and a name that does not.
pub open spec fn action_reads_back(action: Seq<char>, args: Seq<char>) -> bool {
    &&& solid(action)
    &&& if action == "spawn"@ {
        args.len() > 0 && args_canonical(args)
    } else if action == "spawn-sh"@ {
        args.len() > 0 && path_clean(args)
    } else if args.len() > 0 {
        args_canonical(args) && args.last() != ';'
    } else {
        action.last() != ';'
    }
}

proof fn lemma_join_ends(ws: Seq<Seq<char>>)
    requires
        ws.len() > 0,
        forall|k: int| 0 <= k < ws.len() ==> solid(#[trigger] ws[k]),
    ensures
        join_space(ws).len() > 0,
        !is_ws(join_space(ws)[0]),
        !is_ws(join_space(ws).last()),
        join_space(ws)[0] == ws[0][0],
        join_space(ws).last() == ws.last().last(),
    decreases ws.len(),
{
    if ws.len() > 1 {
        lemma_join_ends(ws.drop_last());
        assert(solid(ws.last()));
        assert(ws.drop_last()[0] == ws[0]);
    } else {
        assert(solid(ws[0]));
    }
}

proof fn lemma_canonical_ends(a: Seq<char>)
    requires
        args_canonical(a),
        a.len() > 0,
    ensures
        !is_ws(a[0]),
        !is_ws(a.last()),
        words_from(a, 0).len() > 0,
{
    let ws = words_from(a, 0);
    lemma_words_clean(a, 0);
    if ws.len() == 0 {
        assert(join_space(ws) =~= Seq::<char>::empty());
    } else {
        assert forall|k: int| 0 <= k < ws.len() implies solid(#[trigger] ws[k]) by {
            lemma_words_solid(a, 0);
        }
        lemma_join_ends(ws);
    }
}

proof fn lemma_words_solid(s: Seq<char>, i: int)
    requires
        0 <= i <= s.len(),
    ensures
        forall|k: int| 0 <= k < words_from(s, i).len() ==> solid(#[trigger] words_from(s, i)[k]),
    decreases s.len() - i,
{
    if i < s.len() {
        if is_ws(s[i]) {
            lemma_words_solid(s, i + 1);
            assert(words_from(s, i) == words_from(s, i + 1));
        } else {
            lemma_word_end(s, i);
            let e = word_end(s, i);
            lemma_words_solid(s, e);
            let w = s.subrange(i, e);
            assert(solid(w)) by {
                assert forall|j: int| 0 <= j < w.len() implies !is_ws(#[trigger] w[j]) by {
                    assert(w[j] == s[i + j]);
                }
            }
            let ws = words_from(s, i);
            assert(ws == seq![w] + words_from(s, e));
            assert forall|k: int| 0 <= k < ws.len() implies solid(#[trigger] ws[k]) by {
                if k > 0 {
                    assert(ws[k] == words_from(s, e)[k - 1]);
                }
            }
        }
    }
}

pub open spec fn quote_each(ws: Seq<Seq<char>>) -> Seq<Seq<char>> {
    ws.map_values(|w: Seq<char>| quoted_path(w))
}

proof fn lemma_quoted_solid(ws: Seq<Seq<char>>)
    requires
        forall|k: int| 0 <= k < ws.len() ==> solid(#[trigger] ws[k]) && path_clean(ws[k]),
    ensures
        forall|k: int|
            0 <= k < ws.len() ==> solid(#[trigger] quote_each(ws)[k]) && quote_each(ws)[k].last()
                == '"',
{
    assert forall|k: int| 0 <= k < ws.len() implies solid(#[trigger] quote_each(ws)[k])
        && quote_each(ws)[k].last() == '"' by {
        let w = ws[k];
        assert(solid(w) && path_clean(w));
        lemma_keep_path(w);
        let q = quote(w);
        assert(quote_each(ws)[k] == q);
        assert forall|j: int| 0 <= j < q.len() implies !is_ws(#[trigger] q[j]) by {
            if 1 <= j <= w.len() {
                assert(q[j] == w[j - 1]);
            }
        }
    }
}

proof fn lemma_action_reads_back(b: Keybind)
    requires
        action_reads_back(b.action@, b.action_args@),
    ensures
        action_kdl(b) is Some,
        ({
            let a = action_kdl(b)->0;
            &&& a.len() > 0
            &&& !is_ws(a[0])
            &&& !is_ws(a.last())
            &&& a.last() != ';'
            &&& a[0] == b.action@[0]
            &&& action_name(a) == b.action@
            &&& action_args(a) == b.action_args@
        }),
{
    reveal_strlit("spawn");
    reveal_strlit("spawn ");
    reveal_strlit("spawn-sh");
    reveal_strlit("spawn-sh ");
    reveal_strlit(" ");
    let act = b.action@;
    let args = b.action_args@;
    let sp = seq![' '];
    assert(all_ws(sp));
    let e = Seq::<char>::empty();
    assert(arg_tokens(e, 0) =~= Seq::<Seq<char>>::empty());
    assert(join_space(Seq::<Seq<char>>::empty()) =~= e);
    if act == "spawn"@ || act == "spawn-sh"@ || args.len() > 0 {
        // The action word, a space, then the argument text `x`.
        let x = if act == "spawn"@ {
            quoted_words(words_from(args, 0))
        } else if act == "spawn-sh"@ {
            quoted_path(args)
        } else {
            keep_chars(args, |c: char| path_char(c))
        };
        if act == "spawn"@ {
            lemma_canonical_ends(args);
            lemma_words_clean(args, 0);
            lemma_words_solid(args, 0);
            let ws = words_from(args, 0);
            assert(forall|k: int| 0 <= k < ws.len() ==> solid(#[trigger] ws[k]) && path_clean(ws[k]));
            lemma_quoted_solid(ws);
            let qs = quote_each(ws);
            lemma_join_ends(qs);
            assert(x == join_space(qs));
            lemma_tokens_quoted_words(ws);
            assert(action_kdl(b) == Some("spawn "@ + x));
            assert("spawn "@ + x =~= act + (sp + x));
        } else if act == "spawn-sh"@ {
            lemma_keep_path(args);
            assert(x == quote(args));
            assert(no_quote(args)) by {
                assert forall|i: int| 0 <= i < args.len() implies #[trigger] args[i] != '"' by {
                    assert(path_char(args[i]));
                }
            }
            lemma_tokens_quoted(args, e);
            assert(quote(args) + e =~= quote(args));
            assert(seq![args] + Seq::<Seq<char>>::empty() =~= seq![args]);
            assert(join_space(seq![args]) == args);
            assert(x[0] == '"' && x.last() == '"');
            assert(action_kdl(b) == Some("spawn-sh "@ + x));
            assert("spawn-sh "@ + x =~= act + (sp + x));
        } else {
            lemma_keep_path(args);
            lemma_canonical_ends(args);
            assert(no_quote(args)) by {
                assert forall|i: int| 0 <= i < args.len() implies #[trigger] args[i] != '"' by {
                    assert(path_char(args[i]));
                }
            }
            lemma_tokens_are_words(args, 0);
            assert(action_kdl(b) == Some(act + " "@ + x));
            assert(act + " "@ + x =~= act + (sp + x));
        }
        let a = act + (sp + x);
        assert(x.len() > 0 && !is_ws(x[0]) && !is_ws(x.last()) && x.last() != ';');
        assert(a.last() == x.last());
        assert(a[0] == act[0]);
        lemma_trim_pad(e, a, e);
        assert(e + a + e =~= a);
        lemma_word_end_solid(act, sp + x, 0);
        assert(a.subrange(0, act.len() as int) =~= act);
        assert(a.subrange(act.len() as int, a.len() as int) =~= sp + x);
        lemma_trim_pad(sp, x, e);
        assert(sp + x + e =~= sp + x);
        assert(join_space(arg_tokens(x, 0)) == args);
    } else {
        let a = act;
        assert(action_kdl(b) == Some(act));
        lemma_trim_pad(e, a, e);
        assert(e + a + e =~= a);
        lemma_word_end_solid(act, e, 0);
        assert(act + e =~= act);
        assert(a.subrange(0, act.len() as int) =~= act);
        assert(a.subrange(act.len() as int, a.len() as int) =~= e);
        assert(trim(e) =~= e);
        assert(args =~= e);
    }
}

// ── The law ──────────────────────────────────────────────────────────────────

/// A binding whose bind line reads back as itself: its key is made of the
/// characters a key may hold, and its action and arguments come back
/// unchanged (see [`action_reads_back`]).
pub open spec fn bind_reads_back(b: Keybind) -> bool {
    &&& b.key@.len() > 0
    &&& forall|i: int| 0 <= i < b.key@.len() ==> key_char(#[trigger] b.key@[i])
    &&& action_reads_back(b.action@, b.action_args@)
}

/// The bind line reader reads back what the writer writes: the line written
/// for such a binding reads as its key, action, arguments, repeat flag,
/// cooldown and lock permission.
pub proof fn law_bind_line_reads_back(b: Keybind)
    requires
        bind_reads_back(b),
    ensures
        bind_line(bind_text(b)) == Some(bind_fields(b)),
{
    reveal_strlit("    ");
    reveal_strlit(" { ");
    reveal_strlit("; }\n");
    let k = b.key@;
    lemma_keep_key(k);
    assert(solid(k) && lacks(k, '{') && lacks(k, '"')) by {
        assert forall|i: int| 0 <= i < k.len() implies !is_ws(#[trigger] k[i]) && k[i] != '{'
            && k[i] != '"' by {
            assert(key_char(k[i]));
        }
    }
    lemma_action_reads_back(b);
    let a = action_kdl(b)->0;
    let p = bind_props_text(b);
    lemma_props_words(b);
    lemma_props_read(b);
    let core = k + p + seq![' ', '{', ' '] + a + seq![';', ' ', '}'];
    let pad = seq![' ', ' ', ' ', ' '];
    let nl = seq!['\n'];
    assert(bind_text(b) =~= pad + core + nl);
    assert(all_ws(pad));
    assert(all_ws(nl));
    assert(core[0] == k[0]);
    lemma_trim_pad(pad, core, nl);
    let t = core;
    let open: int = (k.len() + p.len() + 1) as int;
    assert(t[open] == '{');
    assert forall|j: int| 0 <= j < open implies #[trigger] t[j] != '{' by {
        if j < k.len() {
            assert(t[j] == k[j]);
        } else if j < k.len() + p.len() {
            assert(t[j] == p[j - k.len()]);
        }
    }
    lemma_char_pos_at(t, '{', 0, open);
    let close: int = t.len() - 1;
    assert(t[close] == '}');
    assert(char_rpos(t, '}', t.len() as int) == close);
    // What stands before the brace.
    let e = Seq::<char>::empty();
    let kp = k + p;
    assert(t.subrange(0, open) =~= e + kp + seq![' ']);
    assert(kp[0] == k[0]);
    assert(!is_ws(kp.last())) by {
        if p.len() == 0 {
            assert(kp.last() == k.last());
        } else {
            assert(kp.last() == p.last());
        }
    }
    assert(all_ws(e));
    assert(all_ws(seq![' ']));
    lemma_trim_pad(e, kp, seq![' ']);
    let before = trim(t.subrange(0, open));
    assert(before == kp);
    // What stands between the braces.
    assert(t.subrange(open + 1, close) =~= seq![' '] + a.push(';') + seq![' ']);
    assert(a.push(';')[0] == a[0]);
    lemma_trim_pad(seq![' '], a.push(';'), seq![' ']);
    lemma_strip_end_push(a, ';');
    lemma_trim_pad(e, a, e);
    assert(e + a + e =~= a);
    let inner = trim(strip_end(trim(t.subrange(open + 1, close)), ';'));
    assert(inner == a);
    // The words before the brace.
    lemma_words_lead(k, p);
    let ws = words_from(before, 0);
    assert(ws == seq![k] + prop_words(b));
    assert(ws[0] == k);
    assert(ws.drop_first() =~= prop_words(b));
    assert(!k.contains('"'));
    assert(t.len() >= 2 && t[0] == k[0]);
}

/// A command field shows an argument vector as its words joined with
/// spaces; reading that text back gives the same vector, when no argument
/// is empty or holds whitespace.
pub proof fn law_argv_line_reads_back(ws: Seq<Seq<char>>)
    requires
        forall|k: int| 0 <= k < ws.len() ==> solid(#[trigger] ws[k]),
    ensures
        words_from(join_space(ws), 0) == ws,
    decreases ws.len(),
{
    if ws.len() == 0 {
        assert(join_space(ws) =~= Seq::<char>::empty());
        assert(words_from(Seq::<char>::empty(), 0) =~= ws);
    } else {
        let w = ws[0];
        let rest = ws.drop_first();
        assert(ws =~= seq![w] + rest);
        assert(forall|k: int| 0 <= k < rest.len() ==> #[trigger] rest[k] == ws[k + 1]);
        assert(solid(w));
        law_argv_line_reads_back(rest);
        lemma_join_front(w, rest);
        if rest.len() == 0 {
            let e = Seq::<char>::empty();
            assert(w + e =~= w);
            lemma_words_lead(w, e);
            assert(words_from(e, 0) =~= Seq::<Seq<char>>::empty());
        } else {
            let j = join_space(rest);
            assert(w + seq![' '] + j =~= w + (seq![' '] + j));
            lemma_words_lead(w, seq![' '] + j);
            assert(all_ws(seq![' ']));
            lemma_words_skip(seq![' '], j);
        }
    }
}

/// The characters of plain action arguments: ASCII letters and digits and
/// ` -_%+=.@/:`.
pub open spec fn plain_arg_char(c: char) -> bool {
    crate::text::is_ascii_alnum(c) || c == ' ' || c == '-' || c == '_' || c == '%' || c == '+'
        || c == '=' || c == '.' || c == '@' || c == '/' || c == ':'
}

/// The bind line of a plainly written binding reads back as the binding: a
/// key of key characters, an action of lower-case letters and `-`, and
/// arguments of plain characters that are their words joined by single
/// spaces (not empty for `spawn` and `spawn-sh`).
pub proof fn law_plain_bind_lines_read_back(b: Keybind)
    requires
        b.key@.len() > 0,
        forall|i: int| 0 <= i < b.key@.len() ==> key_char(#[trigger] b.key@[i]),
        b.action@.len() > 0,
        forall|i: int|
            0 <= i < b.action@.len() ==> ('a' <= #[trigger] b.action@[i] <= 'z' || b.action@[i]
                == '-'),
        forall|i: int| 0 <= i < b.action_args@.len() ==> plain_arg_char(#[trigger] b.action_args@[i]),
        b.action_args@ == join_space(words_from(b.action_args@, 0)),
        (b.action@ == "spawn"@ || b.action@ == "spawn-sh"@) ==> b.action_args@.len() > 0,
    ensures
        bind_line(bind_text(b)) == Some(bind_fields(b)),
{
    let act = b.action@;
    let args = b.action_args@;
    assert(solid(act)) by {
        assert forall|i: int| 0 <= i < act.len() implies !is_ws(#[trigger] act[i]) by {
            assert('a' <= act[i] <= 'z' || act[i] == '-');
        }
    }
    assert(path_clean(args)) by {
        assert forall|i: int| 0 <= i < args.len() implies path_char(#[trigger] args[i]) by {
            assert(plain_arg_char(args[i]));
        }
    }
    if args.len() > 0 {
        assert(plain_arg_char(args.last()));
    }
    assert(act.last() != ';') by {
        assert('a' <= act[act.len() - 1] <= 'z' || act[act.len() - 1] == '-');
    }
    assert(action_reads_back(act, args));
    law_bind_line_reads_back(b);
}

} // verus!
