//! Character classes, trimming and decimal conversions over `Seq<char>`.

use vstd::prelude::*;

verus! {

// ── Character classes ────────────────────────────────────────────────────────

/// Unicode `White_Space`, as `char::is_whitespace` decides it.
pub open spec fn is_ws(c: char) -> bool {
    ||| c == ' '
    ||| ('\t' <= c && c <= '\r')
    ||| c == '\u{85}'
    ||| c == '\u{a0}'
    ||| c == '\u{1680}'
    ||| ('\u{2000}' <= c && c <= '\u{200a}')
    ||| c == '\u{2028}'
    ||| c == '\u{2029}'
    ||| c == '\u{202f}'
    ||| c == '\u{205f}'
    ||| c == '\u{3000}'
}

/// General category `Cc`, as `char::is_control` decides it.
pub open spec fn is_ctrl(c: char) -> bool {
    c <= '\u{1f}' || ('\u{7f}' <= c && c <= '\u{9f}')
}

pub open spec fn is_digit(c: char) -> bool {
    '0' <= c && c <= '9'
}

pub open spec fn is_hex(c: char) -> bool {
    is_digit(c) || ('a' <= c && c <= 'f') || ('A' <= c && c <= 'F')
}

pub open spec fn is_ascii_alnum(c: char) -> bool {
    is_digit(c) || ('a' <= c && c <= 'z') || ('A' <= c && c <= 'Z')
}

/// `char::to_ascii_lowercase`.
pub open spec fn lower(c: char) -> char {
    if 'A' <= c && c <= 'Z' {
        ((c as u32) + 32) as char
    } else {
        c
    }
}

pub open spec fn lower_seq(s: Seq<char>) -> Seq<char> {
    s.map_values(|c: char| lower(c))
}

pub fn whitespace(c: char) -> (r: bool)
    ensures
        r == is_ws(c),
{
    c == ' ' || ('\t' <= c && c <= '\r') || c == '\u{85}' || c == '\u{a0}' || c == '\u{1680}'
        || ('\u{2000}' <= c && c <= '\u{200a}') || c == '\u{2028}' || c == '\u{2029}' || c
        == '\u{202f}' || c == '\u{205f}' || c == '\u{3000}'
}

pub fn control(c: char) -> (r: bool)
    ensures
        r == is_ctrl(c),
{
    c <= '\u{1f}' || ('\u{7f}' <= c && c <= '\u{9f}')
}

pub fn digit(c: char) -> (r: bool)
    ensures
        r == is_digit(c),
{
    '0' <= c && c <= '9'
}

pub fn hexdigit(c: char) -> (r: bool)
    ensures
        r == is_hex(c),
{
    ('0' <= c && c <= '9') || ('a' <= c && c <= 'f') || ('A' <= c && c <= 'F')
}

pub fn ascii_alnum(c: char) -> (r: bool)
    ensures
        r == is_ascii_alnum(c),
{
    ('0' <= c && c <= '9') || ('a' <= c && c <= 'z') || ('A' <= c && c <= 'Z')
}

pub fn to_lower(c: char) -> (r: char)
    ensures
        r == lower(c),
{
    if 'A' <= c && c <= 'Z' {
        let u: u32 = c as u32;
        let l: u32 = u + 32;
        assert(0x61 <= l && l <= 0x7a);
        char_from_ascii(l)
    } else {
        c
    }
}

/// Converts an ASCII code point to its character.
fn char_from_ascii(u: u32) -> (r: char)
    requires
        u < 128,
    ensures
        r == u as char,
{
    let b: u8 = u as u8;
    b as char
}

// ── Conversions between `str`, `String` and `Vec<char>` ──────────────────────

/// The characters of `s`, in order (`str::chars` collected).
#[verifier::external_body]
pub(crate) fn chars_of(s: &str) -> (v: Vec<char>)
    ensures
        v@ == s@,
{
    s.chars().collect()
}

/// The string made of the characters of `v` (`FromIterator<&char>` for `String`).
#[verifier::external_body]
pub(crate) fn string_of(v: &Vec<char>) -> (s: String)
    ensures
        s@ == v@,
{
    v.iter().collect()
}

/// Appends one character (`String::push`).
#[verifier::external_body]
pub(crate) fn push_char(s: &mut String, c: char)
    ensures
        final(s)@ == old(s)@.push(c),
{
    s.push(c)
}

/// Appends a slice of characters to a vector.
pub fn push_all(out: &mut Vec<char>, s: &Vec<char>)
    ensures
        final(out)@ == old(out)@ + s@,
{
    let mut i: usize = 0;
    while i < s.len()
        invariant
            i <= s.len(),
            out@ == old(out)@ + s@.subrange(0, i as int),
        decreases s.len() - i,
    {
        out.push(s[i]);
        i = i + 1;
        assert(s@.subrange(0, i as int) =~= s@.subrange(0, i - 1).push(s@[i - 1]));
    }
    assert(s@.subrange(0, i as int) =~= s@);
}

/// Appends the characters of a string slice to a vector.
pub fn push_str(out: &mut Vec<char>, s: &str)
    ensures
        final(out)@ == old(out)@ + s@,
{
    let v = chars_of(s);
    push_all(out, &v);
}

/// Spec equality of character sequences, decided.
pub fn chars_eq(a: &Vec<char>, b: &Vec<char>) -> (r: bool)
    ensures
        r == (a@ == b@),
{
    if a.len() != b.len() {
        return false;
    }
    let mut i: usize = 0;
    while i < a.len()
        invariant
            a.len() == b.len(),
            i <= a.len(),
            forall|j: int| 0 <= j < i ==> a@[j] == b@[j],
        decreases a.len() - i,
    {
        if a[i] != b[i] {
            return false;
        }
        i = i + 1;
    }
    assert(a@ =~= b@);
    true
}

/// Whether `s` equals the characters of `lit`.
pub fn str_is(s: &Vec<char>, lit: &str) -> (r: bool)
    ensures
        r == (s@ == lit@),
{
    let l = chars_of(lit);
    chars_eq(s, &l)
}

/// Whether `s` starts with `p`.
pub fn starts_with(s: &Vec<char>, p: &str) -> (r: bool)
    ensures
        r == (p@.len() <= s@.len() && s@.subrange(0, p@.len() as int) == p@),
{
    let pv = chars_of(p);
    if pv.len() > s.len() {
        return false;
    }
    let mut i: usize = 0;
    while i < pv.len()
        invariant
            pv.len() <= s.len(),
            pv@ == p@,
            i <= pv.len(),
            forall|j: int| 0 <= j < i ==> s@[j] == pv@[j],
        decreases pv.len() - i,
    {
        if s[i] != pv[i] {
            assert(s@.subrange(0, pv@.len() as int)[i as int] != pv@[i as int]);
            assert(s@.subrange(0, pv@.len() as int) != pv@);
            return false;
        }
        i = i + 1;
    }
    assert(s@.subrange(0, pv@.len() as int) =~= pv@);
    true
}

/// The characters of `s` from `lo` to `hi`.
pub fn slice(s: &Vec<char>, lo: usize, hi: usize) -> (r: Vec<char>)
    requires
        lo <= hi <= s.len(),
    ensures
        r@ == s@.subrange(lo as int, hi as int),
{
    let mut r: Vec<char> = Vec::new();
    let mut i: usize = lo;
    while i < hi
        invariant
            lo <= i <= hi <= s.len(),
            r@ == s@.subrange(lo as int, i as int),
        decreases hi - i,
    {
        r.push(s[i]);
        i = i + 1;
        assert(r@ =~= s@.subrange(lo as int, i as int));
    }
    r
}

// ── Trimming ─────────────────────────────────────────────────────────────────

/// Leading whitespace removed (`str::trim_start`).
pub open spec fn trim_start(s: Seq<char>) -> Seq<char>
    decreases s.len(),
{
    if s.len() > 0 && is_ws(s[0]) {
        trim_start(s.drop_first())
    } else {
        s
    }
}

/// Trailing whitespace removed (`str::trim_end`).
pub open spec fn trim_end(s: Seq<char>) -> Seq<char>
    decreases s.len(),
{
    if s.len() > 0 && is_ws(s.last()) {
        trim_end(s.drop_last())
    } else {
        s
    }
}

/// Whitespace removed at both ends (`str::trim`).
pub open spec fn trim(s: Seq<char>) -> Seq<char> {
    trim_end(trim_start(s))
}

proof fn lemma_trim_start_step(s: Seq<char>, i: int)
    requires
        0 <= i < s.len(),
        is_ws(s[i]),
    ensures
        trim_start(s.subrange(i, s.len() as int)) == trim_start(s.subrange(i + 1, s.len() as int)),
{
    assert(s.subrange(i, s.len() as int).drop_first() =~= s.subrange(i + 1, s.len() as int));
}

proof fn lemma_trim_end_step(s: Seq<char>, lo: int, j: int)
    requires
        0 <= lo < j <= s.len(),
        is_ws(s[j - 1]),
    ensures
        trim_end(s.subrange(lo, j)) == trim_end(s.subrange(lo, j - 1)),
{
    assert(s.subrange(lo, j).drop_last() =~= s.subrange(lo, j - 1));
}

/// `trim_start` drops a prefix, and what is left starts with a
/// non-whitespace character (or is empty).
pub proof fn lemma_trim_start_shape(s: Seq<char>)
    ensures
        exists|k: int| 0 <= k <= s.len() && trim_start(s) == s.subrange(k, s.len() as int),
        trim_start(s).len() == 0 || !is_ws(trim_start(s)[0]),
    decreases s.len(),
{
    if s.len() > 0 && is_ws(s[0]) {
        lemma_trim_start_shape(s.drop_first());
        let k = choose|k: int|
            0 <= k <= s.drop_first().len() && trim_start(s.drop_first()) == s.drop_first().subrange(
                k,
                s.drop_first().len() as int,
            );
        assert(s.drop_first().subrange(k, s.drop_first().len() as int) =~= s.subrange(
            k + 1,
            s.len() as int,
        ));
    } else {
        assert(s.subrange(0, s.len() as int) =~= s);
    }
}

/// `trim_end` drops a suffix, and what is left ends with a non-whitespace
/// character (or is empty).
pub proof fn lemma_trim_end_shape(s: Seq<char>)
    ensures
        exists|m: int| 0 <= m <= s.len() && trim_end(s) == s.subrange(0, m),
        trim_end(s).len() == 0 || !is_ws(trim_end(s).last()),
        s.len() > 0 && !is_ws(s[0]) && trim_end(s).len() > 0 ==> trim_end(s)[0] == s[0],
        s.len() > 0 && !is_ws(s[0]) ==> trim_end(s).len() > 0,
    decreases s.len(),
{
    if s.len() > 0 && is_ws(s.last()) {
        lemma_trim_end_shape(s.drop_last());
        let m = choose|m: int|
            0 <= m <= s.drop_last().len() && trim_end(s.drop_last()) == s.drop_last().subrange(
                0,
                m,
            );
        assert(s.drop_last().subrange(0, m) =~= s.subrange(0, m));
        if s.len() == 1 {
            assert(is_ws(s[0]));
        }
    } else {
        assert(s.subrange(0, s.len() as int) =~= s);
    }
}

/// `trim` keeps a contiguous part of its argument, with no whitespace at
/// either end.
pub proof fn lemma_trim_shape(s: Seq<char>)
    ensures
        exists|lo: int, hi: int| 0 <= lo <= hi <= s.len() && trim(s) == s.subrange(lo, hi),
        trim(s).len() == 0 || (!is_ws(trim(s)[0]) && !is_ws(trim(s).last())),
{
    lemma_trim_start_shape(s);
    let t = trim_start(s);
    lemma_trim_end_shape(t);
    let k = choose|k: int| 0 <= k <= s.len() && trim_start(s) == s.subrange(k, s.len() as int);
    let m = choose|m: int| 0 <= m <= t.len() && trim_end(t) == t.subrange(0, m);
    assert(t.subrange(0, m) =~= s.subrange(k, k + m));
}

/// A text without whitespace at either end is its own trim.
pub proof fn lemma_trim_fixed(s: Seq<char>)
    requires
        s.len() == 0 || (!is_ws(s[0]) && !is_ws(s.last())),
    ensures
        trim(s) == s,
{
}

/// `s` with whitespace removed at both ends.
pub fn trim_chars(s: &Vec<char>) -> (r: Vec<char>)
    ensures
        r@ == trim(s@),
{
    let n = s.len();
    let mut i: usize = 0;
    assert(s@.subrange(0, n as int) =~= s@);
    while i < n && whitespace(s[i])
        invariant
            i <= n == s.len(),
            trim_start(s@) == trim_start(s@.subrange(i as int, n as int)),
        decreases n - i,
    {
        proof {
            lemma_trim_start_step(s@, i as int);
        }
        i = i + 1;
    }
    assert(trim_start(s@) == s@.subrange(i as int, n as int));
    let mut j: usize = n;
    while j > i && whitespace(s[j - 1])
        invariant
            i <= j <= n == s.len(),
            trim_start(s@) == s@.subrange(i as int, n as int),
            trim(s@) == trim_end(s@.subrange(i as int, j as int)),
        decreases j - i,
    {
        proof {
            lemma_trim_end_step(s@, i as int, j as int);
        }
        j = j - 1;
    }
    let r = slice(s, i, j);
    proof {
        let t = s@.subrange(i as int, j as int);
        if t.len() > 0 {
            assert(t.last() == s@[j - 1]);
            assert(t[0] == s@[i as int]);
        }
    }
    r
}

// ── Decimal text ─────────────────────────────────────────────────────────────

pub open spec fn digit_char(d: nat) -> char
    recommends
        d < 10,
{
    (('0' as u32) + d) as char
}

/// The decimal digits of `n`, without leading zeros.
pub open spec fn dec(n: nat) -> Seq<char>
    decreases n,
{
    if n < 10 {
        seq![digit_char(n)]
    } else {
        dec(n / 10).push(digit_char(n % 10))
    }
}

/// Decimal text of an integer, with `-` before a negative one.
pub open spec fn int_text(v: int) -> Seq<char> {
    if v < 0 {
        seq!['-'] + dec((-v) as nat)
    } else {
        dec(v as nat)
    }
}

fn digit_of(d: u64) -> (c: char)
    requires
        d < 10,
    ensures
        c == digit_char(d as nat),
{
    let b: u8 = (48 + d) as u8;
    b as char
}

/// Appends the decimal digits of `n`.
pub fn push_dec(out: &mut Vec<char>, n: u64)
    ensures
        final(out)@ == old(out)@ + dec(n as nat),
    decreases n,
{
    if n >= 10 {
        push_dec(out, n / 10);
    }
    out.push(digit_of(n % 10));
    proof {
        if n >= 10 {
            assert(dec(n as nat) == dec((n / 10) as nat).push(digit_char((n % 10) as nat)));
        }
    }
    assert(final(out)@ =~= old(out)@ + dec(n as nat)) by {
        if n >= 10 {
            assert(dec(n as nat) == dec((n / 10) as nat).push(digit_char((n % 10) as nat)));
        }
    }
}

/// Appends the decimal text of a signed integer.
pub fn push_int(out: &mut Vec<char>, v: i64)
    ensures
        final(out)@ == old(out)@ + int_text(v as int),
{
    if v < 0 {
        out.push('-');
        let m: u64 = if v == i64::MIN {
            9223372036854775808u64
        } else {
            (-v) as u64
        };
        let ghost mid = out@;
        push_dec(out, m);
        assert(out@ =~= old(out)@ + int_text(v as int));
    } else {
        push_dec(out, v as u64);
    }
}

/// Decimal text of an unsigned integer.
pub fn u64_text(n: u64) -> (r: String)
    ensures
        r@ == dec(n as nat),
{
    let mut v: Vec<char> = Vec::new();
    push_dec(&mut v, n);
    assert(v@ =~= dec(n as nat));
    string_of(&v)
}

/// Decimal text of a signed integer.
pub fn i64_text(n: i64) -> (r: String)
    ensures
        r@ == int_text(n as int),
{
    let mut v: Vec<char> = Vec::new();
    push_int(&mut v, n);
    assert(v@ =~= int_text(n as int));
    string_of(&v)
}


// ── Parsing decimal text ─────────────────────────────────────────────────────

/// The value of a run of decimal digits.
pub open spec fn digits_val(s: Seq<char>) -> nat
    decreases s.len(),
{
    if s.len() == 0 {
        0
    } else {
        digits_val(s.drop_last()) * 10 + ((s.last() as u32) - ('0' as u32)) as nat
    }
}

pub open spec fn all_digits(s: Seq<char>) -> bool {
    forall|i: int| 0 <= i < s.len() ==> is_digit(#[trigger] s[i])
}

/// `str::parse::<u32>`: an optional `+`, then one or more ASCII digits whose
/// value fits in a `u32`.
pub open spec fn parse_u32_spec(t: Seq<char>) -> Option<u32> {
    let body = if t.len() > 0 && t[0] == '+' {
        t.drop_first()
    } else {
        t
    };
    if body.len() >= 1 && all_digits(body) && digits_val(body) <= u32::MAX {
        Some(digits_val(body) as u32)
    } else {
        None
    }
}

proof fn lemma_digits_val_push(s: Seq<char>, c: char)
    ensures
        digits_val(s.push(c)) == digits_val(s) * 10 + ((c as u32) - ('0' as u32)) as nat,
{
    assert(s.push(c).drop_last() =~= s);
}

proof fn lemma_digits_val_grows(s: Seq<char>, c: char)
    requires
        is_digit(c),
    ensures
        digits_val(s.push(c)) >= digits_val(s),
{
    lemma_digits_val_push(s, c);
}

/// Parses a `u32` as `str::parse::<u32>` does.
pub fn parse_u32(t: &Vec<char>) -> (r: Option<u32>)
    ensures
        r == parse_u32_spec(t@),
{
    let start: usize = if t.len() > 0 && t[0] == '+' {
        1
    } else {
        0
    };
    let ghost body = if t@.len() > 0 && t@[0] == '+' {
        t@.drop_first()
    } else {
        t@
    };
    assert(body =~= t@.subrange(start as int, t@.len() as int));
    if start >= t.len() {
        return None;
    }
    let mut acc: u64 = 0;
    let mut i: usize = start;
    assert(t@.subrange(start as int, start as int) =~= Seq::<char>::empty());
    while i < t.len()
        invariant
            start <= i <= t.len(),
            start < t.len(),
            body == t@.subrange(start as int, t@.len() as int),
            body == (if t@.len() > 0 && t@[0] == '+' {
                t@.drop_first()
            } else {
                t@
            }),
            all_digits(t@.subrange(start as int, i as int)),
            acc as nat == digits_val(t@.subrange(start as int, i as int)),
            acc <= u32::MAX,
        decreases t.len() - i,
    {
        let c = t[i];
        if !digit(c) {
            assert(body[i - start] == c);
            assert(!is_digit(body[i - start]));
            assert(!all_digits(body));
            return None;
        }
        let d: u64 = (c as u32 - '0' as u32) as u64;
        proof {
            assert(t@.subrange(start as int, i + 1) =~= t@.subrange(start as int, i as int).push(c));
            lemma_digits_val_push(t@.subrange(start as int, i as int), c);
        }
        acc = acc * 10 + d;
        i = i + 1;
        if acc > 4294967295 {
            proof {
                assert(t@.subrange(start as int, i as int) =~= body.subrange(0, (i - start) as int));
                if all_digits(body) {
                    lemma_digits_val_prefix_bound(body, (i - start) as int);
                }
            }
            return None;
        }
    }
    assert(t@.subrange(start as int, i as int) =~= body);
    Some(acc as u32)
}

/// A digit run is worth at least any of its prefixes.
proof fn lemma_digits_val_prefix_bound(s: Seq<char>, k: int)
    requires
        0 <= k <= s.len(),
        all_digits(s),
    ensures
        digits_val(s) >= digits_val(s.subrange(0, k)),
    decreases s.len() - k,
{
    if k < s.len() {
        assert(s.subrange(0, k + 1) =~= s.subrange(0, k).push(s[k]));
        lemma_digits_val_grows(s.subrange(0, k), s[k]);
        lemma_digits_val_prefix_bound(s, k + 1);
    } else {
        assert(s.subrange(0, k) =~= s);
    }
}

pub open spec fn pow10(k: nat) -> nat
    decreases k,
{
    if k == 0 {
        1
    } else {
        10 * pow10((k - 1) as nat)
    }
}

/// The parts of a decimal literal `[+|-]digits[.digits]`: sign, integer
/// digits and fraction digits.
pub open spec fn sign_len(t: Seq<char>) -> int {
    if t.len() > 0 && (t[0] == '-' || t[0] == '+') {
        1
    } else {
        0
    }
}

pub open spec fn dot_at(t: Seq<char>) -> int {
    if exists|i: int| sign_len(t) <= i < t.len() && t[i] == '.' {
        choose|i: int|
            sign_len(t) <= i < t.len() && t[i] == '.' && forall|j: int|
                sign_len(t) <= j < i ==> t[j] != '.'
    } else {
        t.len() as int
    }
}

pub open spec fn int_digits(t: Seq<char>) -> Seq<char> {
    t.subrange(sign_len(t), dot_at(t))
}

pub open spec fn frac_digits(t: Seq<char>) -> Seq<char> {
    if dot_at(t) < t.len() {
        t.subrange(dot_at(t) + 1, t.len() as int)
    } else {
        Seq::empty()
    }
}

/// `n / d` rounded to the nearest integer, halves away from zero.
pub open spec fn div_round(n: nat, d: nat) -> nat
    recommends
        d > 0,
{
    if (n % d) * 2 >= d {
        n / d + 1
    } else {
        n / d
    }
}

/// The value of a decimal literal in units of `10^-scale`, rounded to the
/// nearest unit with halves away from zero; `None` when the text is not such
/// a literal, has more than 35 digits, or the result leaves the `i64` range.
pub open spec fn decimal_fixed(t: Seq<char>, scale: nat) -> Option<i64> {
    let ip = int_digits(t);
    let fp = frac_digits(t);
    let m = digits_val(ip + fp);
    let mag: nat = if fp.len() <= scale {
        m * pow10((scale - fp.len()) as nat)
    } else {
        div_round(m, pow10((fp.len() - scale) as nat))
    };
    let v: int = if sign_len(t) == 1 && t[0] == '-' {
        -mag
    } else {
        mag as int
    };
    if all_digits(ip) && all_digits(fp) && ip.len() + fp.len() >= 1 && ip.len() + fp.len() <= 35
        && i64::MIN <= v <= i64::MAX {
        Some(v as i64)
    } else {
        None
    }
}

proof fn lemma_pow10_values()
    ensures
        pow10(2) == 100,
        pow10(3) == 1000,
        pow10(35) == 100000000000000000000000000000000000,
        pow10(36) == 1000000000000000000000000000000000000,
        pow10(38) == 100000000000000000000000000000000000000,
{
    reveal_with_fuel(pow10, 40);
}

proof fn lemma_pow10_pos(k: nat)
    ensures
        pow10(k) >= 1,
    decreases k,
{
    if k > 0 {
        lemma_pow10_pos((k - 1) as nat);
    }
}

proof fn lemma_pow10_mono(a: nat, b: nat)
    requires
        a <= b,
    ensures
        pow10(a) <= pow10(b),
    decreases b,
{
    if a < b {
        lemma_pow10_mono(a, (b - 1) as nat);
        lemma_pow10_pos((b - 1) as nat);
    }
}

/// `10^k` for `k <= 38`.
fn pow10_u128(k: u32) -> (r: u128)
    requires
        k <= 38,
    ensures
        r == pow10(k as nat),
{
    let mut r: u128 = 1;
    let mut i: u32 = 0;
    proof {
        lemma_pow10_mono(0, 38);
        lemma_pow10_values();
    }
    while i < k
        invariant
            i <= k <= 38,
            r == pow10(i as nat),
            r <= pow10(38),
        decreases k - i,
    {
        proof {
            lemma_pow10_mono((i + 1) as nat, 38);
            lemma_pow10_values();
        }
        r = r * 10;
        i = i + 1;
    }
    r
}

/// `10^k` for `k <= 3`.
pub fn pow10_i64(k: u32) -> (r: i64)
    requires
        k <= 3,
    ensures
        r == pow10(k as nat),
        1 <= r <= 1000,
{
    proof {
        lemma_pow10_values();
        reveal_with_fuel(pow10, 4);
    }
    if k == 0 {
        1
    } else if k == 1 {
        10
    } else if k == 2 {
        100
    } else {
        1000
    }
}

proof fn lemma_digits_val_bound(s: Seq<char>)
    requires
        all_digits(s),
    ensures
        digits_val(s) < pow10(s.len()),
    decreases s.len(),
{
    if s.len() > 0 {
        let p = s.drop_last();
        assert(all_digits(p)) by {
            assert forall|i: int| 0 <= i < p.len() implies is_digit(#[trigger] p[i]) by {
                assert(p[i] == s[i]);
            }
        }
        lemma_digits_val_bound(p);
        assert(is_digit(s[s.len() - 1]));
    }
}

/// The first position at or after `from` holding `c`, or the length.
fn find_from(t: &Vec<char>, from: usize, c: char) -> (r: usize)
    requires
        from <= t.len(),
    ensures
        from <= r <= t.len(),
        r < t.len() ==> t@[r as int] == c,
        forall|j: int| from <= j < r ==> t@[j] != c,
{
    let mut i = from;
    while i < t.len() && t[i] != c
        invariant
            from <= i <= t.len(),
            forall|j: int| from <= j < i ==> t@[j] != c,
        decreases t.len() - i,
    {
        i = i + 1;
    }
    i
}

/// Reads a run of digits `t[lo..hi]` onto `acc`, when all are digits.
fn read_digits(t: &Vec<char>, lo: usize, hi: usize, acc: u128, Ghost(seen): Ghost<Seq<char>>) -> (r: Option<u128>)
    requires
        lo <= hi <= t.len(),
        acc == digits_val(seen),
        seen.len() + (hi - lo) <= 36,
        all_digits(seen),
    ensures
        r is Some <==> all_digits(t@.subrange(lo as int, hi as int)),
        r matches Some(v) ==> v == digits_val(seen + t@.subrange(lo as int, hi as int)),
{
    let mut a = acc;
    let mut i = lo;
    proof {
        assert(seen + t@.subrange(lo as int, lo as int) =~= seen);
        lemma_digits_val_bound(seen);
        lemma_pow10_mono(seen.len(), 36);
        lemma_pow10_values();
    }
    while i < hi
        invariant
            lo <= i <= hi <= t.len(),
            seen.len() + (hi - lo) <= 36,
            all_digits(seen + t@.subrange(lo as int, i as int)),
            a == digits_val(seen + t@.subrange(lo as int, i as int)),
            a < 1000000000000000000000000000000000000,
        decreases hi - i,
    {
        let c = t[i];
        if !digit(c) {
            assert(t@.subrange(lo as int, hi as int)[i - lo] == c);
            return None;
        }
        let ghost cur = seen + t@.subrange(lo as int, i as int);
        proof {
            assert(seen + t@.subrange(lo as int, i + 1) =~= cur.push(c));
            lemma_digits_val_push(cur, c);
            assert(all_digits(cur.push(c))) by {
                assert forall|j: int| 0 <= j < cur.push(c).len() implies is_digit(#[trigger] cur.push(c)[j]) by {
                    if j < cur.len() {
                        assert(cur.push(c)[j] == cur[j]);
                    }
                }
            }
            lemma_digits_val_bound(cur.push(c));
            lemma_pow10_mono(cur.push(c).len(), 36);
            lemma_pow10_values();
        }
        a = a * 10 + (c as u32 - '0' as u32) as u128;
        i = i + 1;
    }
    proof {
        assert forall|j: int| 0 <= j < t@.subrange(lo as int, hi as int).len() implies is_digit(#[trigger] t@.subrange(lo as int, hi as int)[j]) by {
            assert((seen + t@.subrange(lo as int, hi as int))[seen.len() + j] == t@.subrange(lo as int, hi as int)[j]);
        }
    }
    Some(a)
}

/// The magnitude of a digit run worth `m` with `fl` fraction digits, in units
/// of `10^-scale`.
fn scale_magnitude(m: u128, fl: u32, scale: u32, Ghost(ds): Ghost<Seq<char>>) -> (r: u128)
    requires
        scale <= 3,
        fl <= ds.len() <= 35,
        m == digits_val(ds),
        all_digits(ds),
    ensures
        r == (if fl <= scale {
            (m * pow10((scale - fl) as nat)) as nat
        } else {
            div_round(m as nat, pow10((fl - scale) as nat))
        }),
{
    proof {
        lemma_digits_val_bound(ds);
        lemma_pow10_mono(ds.len(), 35);
        lemma_pow10_mono(ds.len(), 36);
        lemma_pow10_values();
    }
    if fl <= scale {
        let p = pow10_u128(scale - fl);
        proof {
            lemma_pow10_mono((scale - fl) as nat, 3);
            assert(m * p <= 100000000000000000000000000000000000 * 1000) by (nonlinear_arith)
                requires
                    m < 100000000000000000000000000000000000,
                    p <= 1000,
            ;
        }
        m * p
    } else {
        let p = pow10_u128(fl - scale);
        proof {
            lemma_pow10_pos((fl - scale) as nat);
            lemma_pow10_mono((fl - scale) as nat, 36);
        }
        let q = m / p;
        let rem = m % p;
        if rem * 2 >= p {
            proof {
                assert(q <= m) by (nonlinear_arith)
                    requires
                        q == m / p,
                        p >= 1,
                ;
            }
            q + 1
        } else {
            q
        }
    }
}

/// The value of a decimal literal in units of `10^-scale`, as
/// [`decimal_fixed`] defines it.
pub fn parse_fixed(t: &Vec<char>, scale: u32) -> (r: Option<i64>)
    requires
        scale <= 3,
    ensures
        r == decimal_fixed(t@, scale as nat),
{
    let neg = t.len() > 0 && t[0] == '-';
    let sl: usize = if t.len() > 0 && (t[0] == '-' || t[0] == '+') {
        1
    } else {
        0
    };
    let dot = find_from(t, sl, '.');
    proof {
        assert(sign_len(t@) == sl);
        if exists|i: int| sign_len(t@) <= i < t@.len() && t@[i] == '.' {
            let c = choose|i: int|
                sign_len(t@) <= i < t@.len() && t@[i] == '.' && forall|j: int|
                    sign_len(t@) <= j < i ==> t@[j] != '.';
            assert(sign_len(t@) <= c < t@.len() && t@[c] == '.' && forall|j: int|
                sign_len(t@) <= j < c ==> t@[j] != '.') by {
                let w = choose|i: int| sign_len(t@) <= i < t@.len() && t@[i] == '.';
                assert(t@[dot as int] == '.');
            }
            if c < dot {
                assert(t@[c] != '.');
            }
            if dot < c {
                assert(t@[dot as int] == '.');
            }
        } else {
            if dot < t.len() {
                assert(t@[dot as int] == '.');
            }
        }
        assert(dot_at(t@) == dot);
    }
    let fl: usize = if dot < t.len() {
        t.len() - dot - 1
    } else {
        0
    };
    let il: usize = dot - sl;
    if il + fl == 0 || il + fl > 35 {
        return None;
    }
    let ghost ip = int_digits(t@);
    let ghost fp = frac_digits(t@);
    let a = read_digits(t, sl, dot, 0, Ghost(Seq::empty()));
    proof {
        assert(Seq::<char>::empty() + ip =~= ip);
    }
    let a = match a {
        Some(a) => a,
        None => return None,
    };
    let m = if dot < t.len() {
        let b = read_digits(t, dot + 1, t.len(), a, Ghost(ip));
        match b {
            Some(b) => b,
            None => return None,
        }
    } else {
        proof {
            assert(ip + fp =~= ip);
            assert(all_digits(fp));
        }
        a
    };
    proof {
        lemma_digits_val_bound(ip + fp);
        lemma_pow10_mono((ip + fp).len(), 36);
        lemma_pow10_values();
    }
    let mag = scale_magnitude(m, fl as u32, scale, Ghost(ip + fp));
    if mag > 9223372036854775808 {
        return None;
    }
    if neg {
        if mag == 9223372036854775808 {
            Some(i64::MIN)
        } else {
            Some(-(mag as i64))
        }
    } else {
        if mag == 9223372036854775808 {
            None
        } else {
            Some(mag as i64)
        }
    }
}

} // verus!
