//! A plain model of a parsed KDL document, the call into the `kdl` parser that
//! produces it, and the lookups the settings readers make on it.

use vstd::prelude::*;
use vstd::string::*;
use crate::text::{chars_of, decimal_fixed, parse_fixed, pow10, pow10_i64};

verus! {

/// A KDL value. A decimal float is kept as the text the parser prints for it.
#[derive(Clone, Debug)]
pub enum Value {
    Str(String),
    Int(i64),
    Float(String),
    Bool(bool),
    Null,
}

/// An argument (no name) or a property (`name=value`) of a node.
#[derive(Clone, Debug)]
pub struct Entry {
    pub name: Option<String>,
    pub value: Value,
}

/// A node: its name, entries and children, and the exact text it prints as.
#[derive(Debug)]
pub struct Node {
    pub name: String,
    pub entries: Vec<Entry>,
    pub children: Option<Document>,
    /// The node as the parser prints it, with the whitespace and comments
    /// that came with it.
    pub text: String,
    /// Whether the node carries its own terminator (else printing the
    /// document adds a newline after it).
    pub has_trailing: bool,
}

/// A document: its nodes, with the text before the first and after the last.
#[derive(Debug)]
pub struct Document {
    pub leading: Option<String>,
    pub nodes: Vec<Node>,
    pub trailing: Option<String>,
}

#[verifier::external_type_specification]
#[verifier::external_body]
pub struct ExKdlDocument(kdl::KdlDocument);

#[verifier::external_type_specification]
#[verifier::external_body]
pub struct ExKdlNode(kdl::KdlNode);

#[verifier::external_type_specification]
#[verifier::external_body]
pub struct ExKdlEntry(kdl::KdlEntry);

/// What `kdl::KdlDocument::from_str` yields for a text, as the plain model
/// (or the parser's error message).
pub uninterp spec fn kdl_parse(text: Seq<char>) -> Result<Document, String>;

/// Whether `w` stands in `s` from position `i` on.
pub open spec fn starts_at(s: Seq<char>, i: int, w: Seq<char>) -> bool {
    0 <= i && i + w.len() <= s.len() && s.subrange(i, i + w.len()) == w
}

/// Whether one of the keywords `true`, `false`, `null` starts at `i`.
pub open spec fn keyword_at(s: Seq<char>, i: int) -> bool {
    starts_at(s, i, "true"@) || starts_at(s, i, "false"@) || starts_at(s, i, "null"@)
}

// ── What the parser is handed ────────────────────────────────────────────────
//
// kdl 4 recurses once per children block, once per `*`, `/` or nested
// comment inside a block comment, and once per slashdash that directly
// follows another one; deep enough recursion exhausts the stack and aborts
// the process. It also panics on a type annotation that names a keyword.
// The scan below follows KDL's strings and comments, so that it counts
// exactly the braces, comment characters and slashdash links that the
// parser recurses on, and refuses a text that goes past these bounds.

/// The deepest brace nesting handed to the KDL parser.
pub open spec fn max_kdl_nesting() -> u64 {
    64
}

/// The most `*` and `/` characters one block comment handed to the parser
/// may hold (its delimiters and those of nested comments included).
pub open spec fn max_comment_weight() -> u64 {
    128
}

/// The most slashdashes handed to the parser that directly follow another
/// slashdash (with only whitespace, comments or line escapes between).
pub open spec fn max_slashdash_links() -> u64 {
    16
}

/// Where the scan of a KDL text is.
#[derive(Clone, Copy, PartialEq, Eq, Structural)]
pub enum LexMode {
    Code,
    Str,
    RawStr,
    LineComment,
    BlockComment,
}

/// The state of the scan: where it is, the `#`s of the raw string it is
/// in, the nesting and weight of the block comment it is in, the braces
/// open, the slashdash links so far, and whether a slashdash still waits
/// for what it comments out.
#[derive(Clone, Copy, PartialEq, Eq, Structural)]
pub struct LexState {
    pub mode: LexMode,
    pub hashes: u64,
    pub nest: u64,
    pub weight: u64,
    pub depth: u64,
    pub links: u64,
    pub pending: bool,
    /// A type annotation naming a keyword was met.
    pub keyword_annotation: bool,
}

pub open spec fn lex_start() -> LexState {
    LexState {
        mode: LexMode::Code,
        hashes: 0,
        nest: 0,
        weight: 0,
        depth: 0,
        links: 0,
        pending: false,
        keyword_annotation: false,
    }
}

pub open spec fn char_at(s: Seq<char>, i: int, c: char) -> bool {
    0 <= i < s.len() && s[i] == c
}

/// KDL's spaces (`unicode-space`) and newlines.
pub open spec fn kdl_blank(c: char) -> bool {
    crate::text::is_ws(c) || c == '\u{FEFF}'
}

pub open spec fn kdl_newline(c: char) -> bool {
    c == '\n' || c == '\r' || c == '\u{85}' || c == '\u{c}' || c == '\u{2028}' || c == '\u{2029}'
}

/// The `#`s from position `i` on.
pub open spec fn hash_run(s: Seq<char>, i: int) -> nat
    decreases s.len() - i,
{
    if 0 <= i < s.len() && s[i] == '#' {
        1 + hash_run(s, i + 1)
    } else {
        0
    }
}

/// A raw string closes at `i`: a `"` and then `h` `#`s.
pub open spec fn raw_close(s: Seq<char>, i: int, h: nat) -> bool {
    char_at(s, i, '"') && forall|k: int| 0 <= k < h ==> #[trigger] char_at(s, i + 1 + k, '#')
}

/// One step of the scan at position `i` (in range): the next position and
/// state.
pub open spec fn lex_next(s: Seq<char>, i: int, st: LexState) -> (int, LexState) {
    let c = s[i];
    let past2 = if i + 2 <= s.len() {
        i + 2
    } else {
        s.len() as int
    };
    match st.mode {
        LexMode::Code => if c == '(' && keyword_at(s, i + 1) {
            (i + 1, LexState { keyword_annotation: true, pending: false, ..st })
        } else if c == '"' {
            (i + 1, LexState { mode: LexMode::Str, pending: false, ..st })
        } else if c == 'r' && char_at(s, i + 1 + hash_run(s, i + 1), '"') {
            (
                i + 2 + hash_run(s, i + 1),
                LexState { mode: LexMode::RawStr, hashes: hash_run(s, i + 1) as u64, pending: false, ..st },
            )
        } else if c == '/' && char_at(s, i + 1, '/') {
            (i + 2, LexState { mode: LexMode::LineComment, ..st })
        } else if c == '/' && char_at(s, i + 1, '*') {
            (i + 2, LexState { mode: LexMode::BlockComment, nest: 1, weight: 2, ..st })
        } else if c == '/' && char_at(s, i + 1, '-') {
            (
                i + 2,
                LexState {
                    links: if st.pending {
                        (st.links + 1) as u64
                    } else {
                        st.links
                    },
                    pending: true,
                    ..st
                },
            )
        } else if c == '{' {
            (i + 1, LexState { depth: (st.depth + 1) as u64, pending: false, ..st })
        } else if c == '}' {
            (
                i + 1,
                LexState {
                    depth: if st.depth > 0 {
                        (st.depth - 1) as u64
                    } else {
                        0
                    },
                    pending: false,
                    ..st
                },
            )
        } else if c == '\\' || kdl_blank(c) || kdl_newline(c) {
            (i + 1, st)
        } else {
            (i + 1, LexState { pending: false, ..st })
        },
        LexMode::Str => if c == '\\' {
            (past2, st)
        } else if c == '"' {
            (i + 1, LexState { mode: LexMode::Code, ..st })
        } else {
            (i + 1, st)
        },
        LexMode::RawStr => if raw_close(s, i, st.hashes as nat) {
            (i + 1 + st.hashes, LexState { mode: LexMode::Code, ..st })
        } else {
            (i + 1, st)
        },
        LexMode::LineComment => if kdl_newline(c) {
            (i + 1, LexState { mode: LexMode::Code, ..st })
        } else {
            (i + 1, st)
        },
        LexMode::BlockComment => if c == '*' && char_at(s, i + 1, '/') {
            (
                i + 2,
                LexState {
                    mode: if st.nest <= 1 {
                        LexMode::Code
                    } else {
                        LexMode::BlockComment
                    },
                    nest: if st.nest > 0 {
                        (st.nest - 1) as u64
                    } else {
                        0
                    },
                    weight: (st.weight + 2) as u64,
                    ..st
                },
            )
        } else if c == '/' && char_at(s, i + 1, '*') {
            (i + 2, LexState { nest: (st.nest + 1) as u64, weight: (st.weight + 2) as u64, ..st })
        } else if c == '*' || c == '/' {
            (i + 1, LexState { weight: (st.weight + 1) as u64, ..st })
        } else {
            (i + 1, st)
        },
    }
}

/// The scan's bounds hold in this state.
pub open spec fn lex_within(st: LexState) -> bool {
    !st.keyword_annotation && st.depth <= max_kdl_nesting() && st.weight <= max_comment_weight() && st.links
        <= max_slashdash_links()
}

/// The scan from position `i` on stays within the bounds.
pub open spec fn lex_ok(s: Seq<char>, i: int, st: LexState) -> bool
    decreases s.len() - i,
{
    if i < 0 || i >= s.len() {
        true
    } else {
        let n = lex_next(s, i, st);
        if i < n.0 <= s.len() && lex_within(n.1) {
            lex_ok(s, n.0, n.1)
        } else {
            false
        }
    }
}

/// The texts handed to the KDL parser: outside strings and comments no
/// `(` is followed by `true`, `false` or `null`, and the scan stays within
/// [`max_kdl_nesting`], [`max_comment_weight`] and [`max_slashdash_links`].
pub open spec fn kdl_admissible(s: Seq<char>) -> bool {
    lex_ok(s, 0, lex_start())
}

/// The message of a text that is not handed to the KDL parser.
pub open spec fn kdl_refusal() -> Seq<char> {
    "unsupported KDL: a type annotation naming true, false or null, or nesting too deep"@
}

fn word_at(cs: &Vec<char>, i: usize, w: &str) -> (r: bool)
    ensures
        r == starts_at(cs@, i as int, w@),
{
    let wc = chars_of(w);
    if wc.len() > cs.len() || i > cs.len() - wc.len() {
        return false;
    }
    let mut j: usize = 0;
    while j < wc.len()
        invariant
            j <= wc.len(),
            i + wc.len() <= cs.len(),
            wc@ == w@,
            forall|k: int| 0 <= k < j ==> cs@[i + k] == wc@[k],
        decreases wc.len() - j,
    {
        if cs[i + j] != wc[j] {
            assert(cs@.subrange(i as int, i + wc@.len())[j as int] != w@[j as int]);
            return false;
        }
        j = j + 1;
    }
    assert(cs@.subrange(i as int, i + wc@.len()) =~= w@);
    true
}

fn has_char(cs: &Vec<char>, i: usize, c: char) -> (r: bool)
    ensures
        r == char_at(cs@, i as int, c),
{
    i < cs.len() && cs[i] == c
}

fn count_hashes(cs: &Vec<char>, i: usize) -> (r: usize)
    requires
        i <= cs.len(),
    ensures
        r == hash_run(cs@, i as int),
        i + r <= cs.len(),
{
    let mut j: usize = i;
    while j < cs.len() && cs[j] == '#'
        invariant
            i <= j <= cs.len(),
            hash_run(cs@, i as int) == (j - i) + hash_run(cs@, j as int),
        decreases cs.len() - j,
    {
        j = j + 1;
    }
    j - i
}

fn closes_raw(cs: &Vec<char>, i: usize, h: u64) -> (r: bool)
    ensures
        r == raw_close(cs@, i as int, h as nat),
        r ==> i + 1 + h <= cs.len(),
{
    if !has_char(cs, i, '"') {
        return false;
    }
    let mut k: u64 = 0;
    while k < h
        invariant
            k <= h,
            char_at(cs@, i as int, '"'),
            forall|m: int| 0 <= m < k ==> #[trigger] char_at(cs@, i + 1 + m, '#'),
        decreases h - k,
    {
        if k >= (cs.len() - i - 1) as u64 {
            assert(!char_at(cs@, i + 1 + k, '#'));
            return false;
        }
        let p: usize = i + 1 + k as usize;
        if cs[p] != '#' {
            assert(!char_at(cs@, i + 1 + k, '#'));
            return false;
        }
        k = k + 1;
    }
    if h > 0 {
        assert(char_at(cs@, i + 1 + (h - 1), '#'));
    }
    true
}

fn blank_or_newline(c: char) -> (r: bool)
    ensures
        r == (kdl_blank(c) || kdl_newline(c)),
{
    crate::text::whitespace(c) || c == '\u{FEFF}' || c == '\n' || c == '\r' || c == '\u{85}'
        || c == '\u{c}' || c == '\u{2028}' || c == '\u{2029}'
}

fn is_newline(c: char) -> (r: bool)
    ensures
        r == kdl_newline(c),
{
    c == '\n' || c == '\r' || c == '\u{85}' || c == '\u{c}' || c == '\u{2028}' || c == '\u{2029}'
}

/// One step of the scan (see [`lex_next`]).
fn lex_step(cs: &Vec<char>, i: usize, st: LexState) -> (r: (usize, LexState))
    requires
        i < cs.len(),
        lex_within(st),
        st.nest <= st.weight,
    ensures
        r.0 == lex_next(cs@, i as int, st).0,
        r.1 == lex_next(cs@, i as int, st).1,
        r.0 <= cs.len(),
        r.1.nest <= r.1.weight,
{
    let c = cs[i];
    let past2: usize = if i + 1 < cs.len() {
        i + 2
    } else {
        cs.len()
    };
    match st.mode {
        LexMode::Code => {
            if c == '(' && (word_at(cs, i + 1, "true") || word_at(cs, i + 1, "false") || word_at(
                cs,
                i + 1,
                "null",
            )) {
                return (i + 1, LexState { keyword_annotation: true, pending: false, ..st });
            }
            if c == '"' {
                return (i + 1, LexState { mode: LexMode::Str, pending: false, ..st });
            }
            if c == 'r' {
                let h = count_hashes(cs, i + 1);
                if has_char(cs, i + 1 + h, '"') {
                    return (
                        i + 2 + h,
                        LexState { mode: LexMode::RawStr, hashes: h as u64, pending: false, ..st },
                    );
                }
            }
            if c == '/' && has_char(cs, i + 1, '/') {
                return (i + 2, LexState { mode: LexMode::LineComment, ..st });
            }
            if c == '/' && has_char(cs, i + 1, '*') {
                return (i + 2, LexState { mode: LexMode::BlockComment, nest: 1, weight: 2, ..st });
            }
            if c == '/' && has_char(cs, i + 1, '-') {
                let links = if st.pending {
                    st.links + 1
                } else {
                    st.links
                };
                return (i + 2, LexState { links, pending: true, ..st });
            }
            if c == '{' {
                return (i + 1, LexState { depth: st.depth + 1, pending: false, ..st });
            }
            if c == '}' {
                let depth = if st.depth > 0 {
                    st.depth - 1
                } else {
                    0
                };
                return (i + 1, LexState { depth, pending: false, ..st });
            }
            if c == '\\' || blank_or_newline(c) {
                return (i + 1, st);
            }
            (i + 1, LexState { pending: false, ..st })
        },
        LexMode::Str => {
            if c == '\\' {
                (past2, st)
            } else if c == '"' {
                (i + 1, LexState { mode: LexMode::Code, ..st })
            } else {
                (i + 1, st)
            }
        },
        LexMode::RawStr => {
            if closes_raw(cs, i, st.hashes) {
                (i + 1 + st.hashes as usize, LexState { mode: LexMode::Code, ..st })
            } else {
                (i + 1, st)
            }
        },
        LexMode::LineComment => {
            if is_newline(c) {
                (i + 1, LexState { mode: LexMode::Code, ..st })
            } else {
                (i + 1, st)
            }
        },
        LexMode::BlockComment => {
            if c == '*' && has_char(cs, i + 1, '/') {
                let mode = if st.nest <= 1 {
                    LexMode::Code
                } else {
                    LexMode::BlockComment
                };
                let nest = if st.nest > 0 {
                    st.nest - 1
                } else {
                    0
                };
                (i + 2, LexState { mode, nest, weight: st.weight + 2, ..st })
            } else if c == '/' && has_char(cs, i + 1, '*') {
                (i + 2, LexState { nest: st.nest + 1, weight: st.weight + 2, ..st })
            } else if c == '*' || c == '/' {
                (i + 1, LexState { weight: st.weight + 1, ..st })
            } else {
                (i + 1, st)
            }
        },
    }
}

/// Whether the text is handed to the KDL parser (see [`kdl_admissible`]).
pub fn kdl_admissible_text(text: &str) -> (r: bool)
    ensures
        r == kdl_admissible(text@),
{
    let cs = chars_of(text);
    let mut st = LexState {
        mode: LexMode::Code,
        hashes: 0,
        nest: 0,
        weight: 0,
        depth: 0,
        links: 0,
        pending: false,
        keyword_annotation: false,
    };
    let mut i: usize = 0;
    while i < cs.len()
        invariant
            i <= cs.len(),
            cs@ == text@,
            lex_ok(cs@, 0, lex_start()) == lex_ok(cs@, i as int, st),
            lex_within(st),
            st.nest <= st.weight,
        decreases cs.len() - i,
    {
        let (j, t) = lex_step(&cs, i, st);
        if j <= i || t.keyword_annotation || !(t.depth <= 64 && t.weight <= 128 && t.links <= 16) {
            return false;
        }
        st = t;
        i = j;
    }
    true
}

/// Parses KDL text with `kdl::KdlDocument::from_str` (kdl 4) and returns the
/// document as the plain model. Nothing is claimed of the result but that it
/// is the parser's, a function of the text. The text must be one that
/// [`kdl_admissible`] admits: on a type annotation naming a keyword the
/// parser panics, and it recurses once per children block, per `*` or `/`
/// of a block comment and per chained slashdash, which the admissible
/// texts bound. How much stack that recursion takes is the machine's; the
/// deepest admitted text is run by the tests on a default-sized thread
/// stack.
#[verifier::external_body]
pub(crate) fn parse_document(text: &str) -> (r: Result<Document, String>)
    requires
        kdl_admissible(text@),
    ensures
        r == kdl_parse(text@),
{
    match text.parse::<kdl::KdlDocument>() {
        Ok(doc) => Ok(document_model(&doc)),
        Err(e) => Err(e.to_string()),
    }
}

/// Parses KDL text when it is admissible (see [`kdl_admissible`]): then the
/// parser's result, else an error with [`kdl_refusal`].
pub fn read_kdl(text: &str) -> (r: Result<Document, String>)
    ensures
        kdl_admissible(text@) ==> r == kdl_parse(text@),
        !kdl_admissible(text@) ==> (r matches Err(m) && m@ == kdl_refusal()),
{
    if kdl_admissible_text(text) {
        parse_document(text)
    } else {
        Err(String::from_str(
            "unsupported KDL: a type annotation naming true, false or null, or nesting too deep",
        ))
    }
}

/// Copies a parsed `kdl::KdlDocument` into the plain model, node by node.
#[verifier::external_body]
fn document_model(d: &kdl::KdlDocument) -> Document {
    Document {
        leading: d.leading().map(|s| s.to_owned()),
        nodes: d.nodes().iter().map(node_model).collect(),
        trailing: d.trailing().map(|s| s.to_owned()),
    }
}

/// Copies a `kdl::KdlNode`; its text is the node's `Display` output.
#[verifier::external_body]
fn node_model(n: &kdl::KdlNode) -> Node {
    Node {
        name: n.name().value().to_owned(),
        entries: n.entries().iter().map(entry_model).collect(),
        children: n.children().map(document_model),
        text: n.to_string(),
        has_trailing: n.trailing().is_some(),
    }
}

/// Copies a `kdl::KdlEntry`, one arm per `kdl::KdlValue` variant; a decimal
/// float is kept as the value's `Display` text.
#[verifier::external_body]
fn entry_model(e: &kdl::KdlEntry) -> Entry {
    let value = match e.value() {
        kdl::KdlValue::RawString(s) | kdl::KdlValue::String(s) => Value::Str(s.clone()),
        kdl::KdlValue::Base2(i) | kdl::KdlValue::Base8(i) => Value::Int(*i),
        kdl::KdlValue::Base10(i) | kdl::KdlValue::Base16(i) => Value::Int(*i),
        kdl::KdlValue::Base10Float(_) => Value::Float(e.value().to_string()),
        kdl::KdlValue::Bool(b) => Value::Bool(*b),
        kdl::KdlValue::Null => Value::Null,
    };
    Entry { name: e.name().map(|k| k.value().to_owned()), value }
}

// ── Lookups ─────────────────────────────────────────────────────────────────

/// The value behind an optional reference.
pub open spec fn deref_opt<T>(o: Option<&T>) -> Option<T> {
    match o {
        Some(x) => Some(*x),
        None => None,
    }
}

/// The position of the first node named `name` at or after `k`, or the
/// number of nodes.
pub open spec fn node_pos(nodes: Seq<Node>, name: Seq<char>, k: int) -> int
    decreases nodes.len() - k,
{
    if k < 0 || k >= nodes.len() {
        nodes.len() as int
    } else if nodes[k].name@ == name {
        k
    } else {
        node_pos(nodes, name, k + 1)
    }
}

/// The first node named `name` (`KdlDocument::get`).
pub open spec fn get_node(doc: Document, name: Seq<char>) -> Option<Node> {
    let p = node_pos(doc.nodes@, name, 0);
    if p < doc.nodes@.len() {
        Some(doc.nodes@[p])
    } else {
        None
    }
}

/// The value of the first argument (unnamed entry) at or after `k`.
pub open spec fn arg_from(entries: Seq<Entry>, k: int) -> Option<Value>
    decreases entries.len() - k,
{
    if k < 0 || k >= entries.len() {
        None
    } else if entries[k].name is None {
        Some(entries[k].value)
    } else {
        arg_from(entries, k + 1)
    }
}

/// The first argument of a node (`KdlNode::get(0)`).
pub open spec fn first_arg(node: Node) -> Option<Value> {
    arg_from(node.entries@, 0)
}

pub open spec fn entry_named(e: Entry, key: Seq<char>) -> bool {
    e.name matches Some(n) && n@ == key
}

/// The value of the last property named `key` among the first `k` entries.
pub open spec fn prop_upto(entries: Seq<Entry>, key: Seq<char>, k: int) -> Option<Value>
    decreases k,
{
    if k <= 0 || k > entries.len() {
        None
    } else if entry_named(entries[k - 1], key) {
        Some(entries[k - 1].value)
    } else {
        prop_upto(entries, key, k - 1)
    }
}

/// The value of a node's property `key`; the last one wins, as in
/// `KdlNode::get(key)`.
pub open spec fn prop(node: Node, key: Seq<char>) -> Option<Value> {
    prop_upto(node.entries@, key, node.entries@.len() as int)
}

/// The first argument of the first node named `name` (`KdlDocument::get_arg`).
pub open spec fn get_arg(doc: Document, name: Seq<char>) -> Option<Value> {
    match get_node(doc, name) {
        Some(n) => first_arg(n),
        None => None,
    }
}

pub open spec fn value_str(v: Option<Value>) -> Option<Seq<char>> {
    match v {
        Some(Value::Str(s)) => Some(s@),
        _ => None,
    }
}

pub open spec fn value_int(v: Option<Value>) -> Option<i64> {
    match v {
        Some(Value::Int(i)) => Some(i),
        _ => None,
    }
}

pub open spec fn value_bool(v: Option<Value>) -> Option<bool> {
    match v {
        Some(Value::Bool(b)) => Some(b),
        _ => None,
    }
}

/// A number in units of `10^-scale`: a float through its decimal text, an
/// integer scaled up (when the result fits).
pub open spec fn value_fixed(v: Option<Value>, scale: nat) -> Option<i64> {
    match v {
        Some(Value::Float(t)) => decimal_fixed(t@, scale),
        Some(Value::Int(i)) => {
            let x = i * pow10(scale);
            if i64::MIN <= x <= i64::MAX {
                Some(x as i64)
            } else {
                None
            }
        },
        _ => None,
    }
}

/// The first node named `name`.
pub fn find_node<'a>(doc: &'a Document, name: &str) -> (r: Option<&'a Node>)
    ensures
        deref_opt(r) == get_node(*doc, name@),
{
    let key: String = name.to_owned();
    let mut i: usize = 0;
    while i < doc.nodes.len()
        invariant
            i <= doc.nodes.len(),
            key@ == name@,
            node_pos(doc.nodes@, name@, 0) == node_pos(doc.nodes@, name@, i as int),
        decreases doc.nodes.len() - i,
    {
        if doc.nodes[i].name == key {
            return Some(&doc.nodes[i]);
        }
        i = i + 1;
    }
    None
}

/// The first argument of a node.
pub fn node_arg(node: &Node) -> (r: Option<&Value>)
    ensures
        deref_opt(r) == first_arg(*node),
{
    let mut i: usize = 0;
    while i < node.entries.len()
        invariant
            i <= node.entries.len(),
            arg_from(node.entries@, 0) == arg_from(node.entries@, i as int),
        decreases node.entries.len() - i,
    {
        if node.entries[i].name.is_none() {
            return Some(&node.entries[i].value);
        }
        i = i + 1;
    }
    None
}

fn name_is(n: &Option<String>, key: &String) -> (r: bool)
    ensures
        r == (n matches Some(s) && s@ == key@),
{
    match n {
        Some(s) => *s == *key,
        None => false,
    }
}

/// The value of a node's property `key` (the last such property).
pub fn node_prop<'a>(node: &'a Node, key: &str) -> (r: Option<&'a Value>)
    ensures
        deref_opt(r) == prop(*node, key@),
{
    let k: String = key.to_owned();
    let mut i: usize = node.entries.len();
    while i > 0
        invariant
            i <= node.entries.len(),
            k@ == key@,
            prop(*node, key@) == prop_upto(node.entries@, key@, i as int),
        decreases i,
    {
        if name_is(&node.entries[i - 1].name, &k) {
            return Some(&node.entries[i - 1].value);
        }
        i = i - 1;
    }
    None
}

/// The first argument of the first node named `name`.
pub fn doc_arg<'a>(doc: &'a Document, name: &str) -> (r: Option<&'a Value>)
    ensures
        deref_opt(r) == get_arg(*doc, name@),
{
    match find_node(doc, name) {
        Some(n) => node_arg(n),
        None => None,
    }
}

pub fn as_str(v: Option<&Value>) -> (r: Option<String>)
    ensures
        r matches Some(s) ==> value_str(deref_opt(v)) == Some(s@),
        r is None ==> value_str(deref_opt(v)) is None,
{
    match v {
        Some(Value::Str(s)) => Some(s.clone()),
        _ => None,
    }
}


pub fn as_int(v: Option<&Value>) -> (r: Option<i64>)
    ensures
        r == value_int(deref_opt(v)),
{
    match v {
        Some(Value::Int(i)) => Some(*i),
        _ => None,
    }
}

pub fn as_bool(v: Option<&Value>) -> (r: Option<bool>)
    ensures
        r == value_bool(deref_opt(v)),
{
    match v {
        Some(Value::Bool(b)) => Some(*b),
        _ => None,
    }
}

/// A number in units of `10^-scale`, as [`value_fixed`] reads it.
pub fn as_fixed(v: Option<&Value>, scale: u32) -> (r: Option<i64>)
    requires
        scale <= 3,
    ensures
        r == value_fixed(deref_opt(v), scale as nat),
{
    match v {
        Some(Value::Float(t)) => {
            let cs = chars_of(t.as_str());
            parse_fixed(&cs, scale)
        },
        Some(Value::Int(i)) => {
            let p: i64 = pow10_i64(scale);
            let a: i128 = *i as i128;
            let b: i128 = p as i128;
            assert(-9223372036854775808 * 1000 <= a * b <= 9223372036854775807 * 1000)
                by (nonlinear_arith)
                requires
                    -9223372036854775808 <= a <= 9223372036854775807,
                    1 <= b <= 1000,
            ;
            let x: i128 = a * b;
            if -9223372036854775808 <= x && x <= 9223372036854775807 {
                Some(x as i64)
            } else {
                None
            }
        },
        _ => None,
    }
}

} // verus!
