//! The text handling of saving: merging the generated fragment with the one
//! on disk, the root file that `niri validate` checks, the reading of its
//! verdict, and the `include` line added to the main niri config.

use vstd::prelude::*;
use vstd::string::*;
use crate::errors::SettingsError;
use crate::keybinds::{char_pos, lemma_char_pos, split_char, split_on, views};
use crate::generate::escape_quotes;
use crate::kdl_doc::{kdl_admissible, kdl_parse, kdl_refusal, read_kdl, Document, Node};
use crate::text::{chars_of, is_ws, push_all, slice, string_of, trim, trim_chars, trim_end};

verus! {

// ── Document text ────────────────────────────────────────────────────────────

pub open spec fn or_empty(s: Option<String>) -> Seq<char> {
    match s {
        Some(t) => t@,
        None => Seq::empty(),
    }
}

/// The nodes printed one after another, each followed by a newline unless
/// it carries its own terminator.
pub open spec fn nodes_text(ns: Seq<Node>) -> Seq<char>
    decreases ns.len(),
{
    if ns.len() == 0 {
        Seq::empty()
    } else {
        nodes_text(ns.drop_last()) + ns.last().text@ + (if ns.last().has_trailing {
            Seq::empty()
        } else {
            seq!['\n']
        })
    }
}

/// A document as `KdlDocument`'s `Display` prints it from its parts: the
/// leading text, the nodes, the trailing text.
pub open spec fn doc_text(d: Document) -> Seq<char> {
    or_empty(d.leading) + nodes_text(d.nodes@) + or_empty(d.trailing)
}

fn put_nodes(out: &mut String, ns: &Vec<Node>)
    ensures
        final(out)@ == old(out)@ + nodes_text(ns@),
{
    let mut i: usize = 0;
    assert(ns@.subrange(0, 0) =~= Seq::<Node>::empty());
    assert(out@ =~= old(out)@ + nodes_text(ns@.subrange(0, 0)));
    while i < ns.len()
        invariant
            i <= ns.len(),
            out@ == old(out)@ + nodes_text(ns@.subrange(0, i as int)),
        decreases ns.len() - i,
    {
        assert(ns@.subrange(0, i + 1).drop_last() =~= ns@.subrange(0, i as int));
        out.append(ns[i].text.as_str());
        if !ns[i].has_trailing {
            crate::text::push_char(out, '\n');
        }
        assert(out@ =~= old(out)@ + nodes_text(ns@.subrange(0, i + 1)));
        i = i + 1;
    }
    assert(ns@.subrange(0, i as int) =~= ns@);
}

fn put_opt_string(out: &mut String, s: &Option<String>)
    ensures
        final(out)@ == old(out)@ + or_empty(*s),
{
    match s {
        Some(t) => out.append(t.as_str()),
        None => {},
    }
    assert(out@ =~= old(out)@ + or_empty(*s));
}

/// The text of a document (see [`doc_text`]).
pub fn document_text(d: &Document) -> (r: String)
    ensures
        r@ == doc_text(*d),
{
    let mut out = String::new();
    put_opt_string(&mut out, &d.leading);
    put_nodes(&mut out, &d.nodes);
    put_opt_string(&mut out, &d.trailing);
    assert(out@ =~= doc_text(*d));
    out
}

// ── Merging ──────────────────────────────────────────────────────────────────

/// The top-level nodes this editor owns and replaces wholesale when it
/// writes its fragment; every other node is kept.
pub open spec fn is_managed(name: Seq<char>) -> bool {
    name == "input"@ || name == "layout"@ || name == "hotkey-overlay"@ || name
        == "screenshot-path"@ || name == "cursor"@ || name == "clipboard"@ || name == "overview"@
        || name == "xwayland-satellite"@ || name == "config-notification"@ || name
        == "animations"@ || name == "workspace"@ || name == "gestures"@ || name
        == "recent-windows"@ || name == "debug"@ || name == "output"@ || name == "window-rule"@
        || name == "layer-rule"@ || name == "switch-events"@ || name == "binds"@ || name
        == "prefer-no-csd"@
}

/// Whether a top-level node name is one the editor manages.
pub fn managed_top_level(name: &str) -> (r: bool)
    ensures
        r == is_managed(name@),
{
    let n = chars_of(name);
    let is = |lit: &str| -> (b: bool)
        ensures
            b == (n@ == lit@),
        { crate::text::str_is(&n, lit) };
    is("input") || is("layout") || is("hotkey-overlay") || is("screenshot-path") || is("cursor")
        || is("clipboard") || is("overview") || is("xwayland-satellite") || is(
        "config-notification",
    ) || is("animations") || is("workspace") || is("gestures") || is("recent-windows") || is(
        "debug",
    ) || is("output") || is("window-rule") || is("layer-rule") || is("switch-events") || is(
        "binds",
    ) || is("prefer-no-csd")
}

/// The nodes the editor does not manage, in order.
pub open spec fn unmanaged(ns: Seq<Node>) -> Seq<Node>
    decreases ns.len(),
{
    if ns.len() == 0 {
        Seq::empty()
    } else if is_managed(ns.last().name@) {
        unmanaged(ns.drop_last())
    } else {
        unmanaged(ns.drop_last()).push(ns.last())
    }
}

/// The generated document with the unmanaged nodes of the existing one
/// appended after its own nodes, printed.
pub open spec fn merged_text(gen: Document, existing: Document) -> Seq<char> {
    or_empty(gen.leading) + nodes_text(gen.nodes@) + nodes_text(unmanaged(existing.nodes@))
        + or_empty(gen.trailing)
}

fn put_unmanaged(out: &mut String, ns: &Vec<Node>)
    ensures
        final(out)@ == old(out)@ + nodes_text(unmanaged(ns@)),
{
    let mut i: usize = 0;
    assert(ns@.subrange(0, 0) =~= Seq::<Node>::empty());
    assert(out@ =~= old(out)@ + nodes_text(unmanaged(ns@.subrange(0, 0))));
    while i < ns.len()
        invariant
            i <= ns.len(),
            out@ == old(out)@ + nodes_text(unmanaged(ns@.subrange(0, i as int))),
        decreases ns.len() - i,
    {
        let ghost pre = unmanaged(ns@.subrange(0, i as int));
        assert(ns@.subrange(0, i + 1).drop_last() =~= ns@.subrange(0, i as int));
        if !managed_top_level(ns[i].name.as_str()) {
            out.append(ns[i].text.as_str());
            if !ns[i].has_trailing {
                crate::text::push_char(out, '\n');
            }
            assert(unmanaged(ns@.subrange(0, i + 1)) == pre.push(ns@[i as int]));
            assert(pre.push(ns@[i as int]).drop_last() =~= pre);
            assert(out@ =~= old(out)@ + nodes_text(unmanaged(ns@.subrange(0, i + 1))));
        }
        i = i + 1;
    }
    assert(ns@.subrange(0, i as int) =~= ns@);
}

/// Merges the generated fragment with the existing one: the generated text
/// as the KDL parser prints it, followed by every top-level node of the
/// existing text that the editor does not manage. Either text not handed to
/// the parser (see [`kdl_admissible`]) or failing to parse gives `Kdl` with
/// the message (the generated one first).
pub fn merge_kdl_text(generated: &str, existing: Option<&str>) -> (r: Result<String, SettingsError>)
    ensures
        !kdl_admissible(generated@) ==> (r matches Err(SettingsError::Kdl(m)) && m@ == kdl_refusal()),
        kdl_admissible(generated@) ==> match kdl_parse(generated@) {
            Err(m) => r == Err::<String, SettingsError>(SettingsError::Kdl(m)),
            Ok(c) => match existing {
                None => r matches Ok(t) && t@ == doc_text(c),
                Some(x) => if !kdl_admissible(x@) {
                    r matches Err(SettingsError::Kdl(m)) && m@ == kdl_refusal()
                } else {
                    match kdl_parse(x@) {
                        Err(m) => r == Err::<String, SettingsError>(SettingsError::Kdl(m)),
                        Ok(e) => r matches Ok(t) && t@ == merged_text(c, e),
                    }
                },
            },
        },
{
    let c = match read_kdl(generated) {
        Ok(d) => d,
        Err(m) => return Err(SettingsError::Kdl(m)),
    };
    match existing {
        None => Ok(document_text(&c)),
        Some(x) => {
            let e = match read_kdl(x) {
                Ok(d) => d,
                Err(m) => return Err(SettingsError::Kdl(m)),
            };
            let mut out = String::new();
            put_opt_string(&mut out, &c.leading);
            put_nodes(&mut out, &c.nodes);
            put_unmanaged(&mut out, &e.nodes);
            put_opt_string(&mut out, &c.trailing);
            assert(out@ =~= merged_text(c, e));
            Ok(out)
        },
    }
}

// ── Lines ────────────────────────────────────────────────────────────────────

/// `l` without one trailing carriage return.
pub open spec fn strip_cr(l: Seq<char>) -> Seq<char> {
    if l.len() > 0 && l.last() == '\r' {
        l.drop_last()
    } else {
        l
    }
}

pub proof fn lemma_split_nonempty(s: Seq<char>, c: char)
    ensures
        split_on(s, c).len() >= 1,
    decreases s.len(),
{
    lemma_char_pos(s, c, 0);
}

/// The lines of `s` (`str::lines`): split at `\n`, a `\r` before a `\n`
/// dropped, no final empty line after a last `\n`.
pub open spec fn text_lines(s: Seq<char>) -> Seq<Seq<char>> {
    let ps = split_on(s, '\n');
    let n = if ps.len() > 0 && ps.last().len() == 0 {
        ps.len() - 1
    } else {
        ps.len() as int
    };
    Seq::new(
        n as nat,
        |i: int|
            if i < ps.len() - 1 {
                strip_cr(ps[i])
            } else {
                ps[i]
            },
    )
}

/// `n` occurs in `h` at position `k`.
pub open spec fn occurs_at(h: Seq<char>, n: Seq<char>, k: int) -> bool {
    0 <= k && k + n.len() <= h.len() && h.subrange(k, k + n.len()) == n
}

/// `n` occurs in `h` (`str::contains`).
pub open spec fn contains_text(h: Seq<char>, n: Seq<char>) -> bool {
    exists|k: int| occurs_at(h, n, k)
}

/// The lines that do not contain `p`, in order.
pub open spec fn lines_without(ls: Seq<Seq<char>>, p: Seq<char>) -> Seq<Seq<char>>
    decreases ls.len(),
{
    if ls.len() == 0 {
        Seq::empty()
    } else if contains_text(ls.last(), p) {
        lines_without(ls.drop_last(), p)
    } else {
        lines_without(ls.drop_last(), p).push(ls.last())
    }
}

/// The lines joined with `\n`.
pub open spec fn join_lines(ws: Seq<Seq<char>>) -> Seq<char>
    decreases ws.len(),
{
    if ws.len() == 0 {
        Seq::empty()
    } else if ws.len() == 1 {
        ws[0]
    } else {
        join_lines(ws.drop_last()) + seq!['\n'] + ws.last()
    }
}

fn occurs(h: &Vec<char>, n: &Vec<char>, k: usize) -> (r: bool)
    requires
        k + n.len() <= h.len(),
    ensures
        r == occurs_at(h@, n@, k as int),
{
    let mut j: usize = 0;
    while j < n.len()
        invariant
            j <= n.len(),
            k + n.len() <= h.len(),
            forall|t: int| 0 <= t < j ==> h@[k + t] == n@[t],
        decreases n.len() - j,
    {
        if h[k + j] != n[j] {
            assert(h@.subrange(k as int, k + n.len())[j as int] != n@[j as int]);
            return false;
        }
        j = j + 1;
    }
    assert(h@.subrange(k as int, k + n.len()) =~= n@);
    true
}

/// Whether `n` occurs in `h`.
pub fn contains(h: &Vec<char>, n: &Vec<char>) -> (r: bool)
    ensures
        r == contains_text(h@, n@),
{
    if n.len() > h.len() {
        return false;
    }
    let last = h.len() - n.len();
    let mut k: usize = 0;
    loop
        invariant
            n.len() <= h.len(),
            last == h.len() - n.len(),
            k <= last,
            forall|t: int| 0 <= t < k ==> !occurs_at(h@, n@, t),
        decreases last - k,
    {
        if occurs(h, n, k) {
            return true;
        }
        if k == last {
            assert forall|t: int| !occurs_at(h@, n@, t) by {
                if 0 <= t && t + n@.len() <= h@.len() && t != k {
                    assert(t < k);
                }
            }
            return false;
        }
        k = k + 1;
    }
}

fn strip_cr_chars(l: &Vec<char>) -> (r: Vec<char>)
    ensures
        r@ == strip_cr(l@),
{
    if l.len() > 0 && l[l.len() - 1] == '\r' {
        slice(l, 0, l.len() - 1)
    } else {
        slice(l, 0, l.len())
    }
}

/// The lines of `s` (see [`text_lines`]).
pub fn lines_of(s: &Vec<char>) -> (r: Vec<Vec<char>>)
    ensures
        views(r@) == text_lines(s@),
{
    let ps = split_char(s, '\n');
    proof {
        lemma_split_nonempty(s@, '\n');
    }
    let ghost pv = views(ps@);
    let n: usize = if ps[ps.len() - 1].len() == 0 {
        ps.len() - 1
    } else {
        ps.len()
    };
    assert(pv.last() == ps@[ps.len() - 1]@);
    let mut r: Vec<Vec<char>> = Vec::new();
    let mut i: usize = 0;
    while i < n
        invariant
            i <= n <= ps.len(),
            pv == views(ps@),
            pv == split_on(s@, '\n'),
            n == (if pv.len() > 0 && pv.last().len() == 0 {
                pv.len() - 1
            } else {
                pv.len() as int
            }),
            views(r@) == text_lines(s@).subrange(0, i as int),
        decreases n - i,
    {
        let l = if i + 1 < ps.len() {
            strip_cr_chars(&ps[i])
        } else {
            slice(&ps[i], 0, ps[i].len())
        };
        assert(pv[i as int] == ps@[i as int]@);
        assert(l@ == text_lines(s@)[i as int]);
        let ghost before = views(r@);
        r.push(l);
        assert(views(r@) =~= before.push(l@));
        assert(text_lines(s@).subrange(0, i + 1) =~= text_lines(s@).subrange(0, i as int).push(l@));
        i = i + 1;
    }
    assert(text_lines(s@).subrange(0, i as int) =~= text_lines(s@));
    r
}

/// The lines that do not contain `p`.
fn drop_lines_containing(ls: &Vec<Vec<char>>, p: &Vec<char>) -> (r: Vec<Vec<char>>)
    ensures
        views(r@) == lines_without(views(ls@), p@),
{
    let mut r: Vec<Vec<char>> = Vec::new();
    let mut i: usize = 0;
    while i < ls.len()
        invariant
            i <= ls.len(),
            views(r@) == lines_without(views(ls@).subrange(0, i as int), p@),
        decreases ls.len() - i,
    {
        let ghost sub1 = views(ls@).subrange(0, i + 1);
        assert(sub1.drop_last() =~= views(ls@).subrange(0, i as int));
        assert(sub1.last() == ls@[i as int]@);
        if !contains(&ls[i], p) {
            let l = slice(&ls[i], 0, ls[i].len());
            assert(l@ =~= ls@[i as int]@);
            let ghost before = views(r@);
            r.push(l);
            assert(views(r@) =~= before.push(l@));
        }
        i = i + 1;
    }
    assert(views(ls@).subrange(0, i as int) =~= views(ls@));
    r
}

fn join_with_newlines(ws: &Vec<Vec<char>>) -> (r: Vec<char>)
    ensures
        r@ == join_lines(views(ws@)),
{
    let mut r: Vec<char> = Vec::new();
    let mut i: usize = 0;
    while i < ws.len()
        invariant
            i <= ws.len(),
            r@ == join_lines(views(ws@).subrange(0, i as int)),
        decreases ws.len() - i,
    {
        let ghost pre = views(ws@).subrange(0, i as int);
        if i > 0 {
            r.push('\n');
        }
        push_all(&mut r, &ws[i]);
        proof {
            let next = views(ws@).subrange(0, i + 1);
            assert(next.drop_last() =~= pre);
            assert(next.last() == ws@[i as int]@);
            if i == 0 {
                assert(next =~= seq![ws@[0]@]);
            }
        }
        i = i + 1;
    }
    assert(views(ws@).subrange(0, i as int) =~= views(ws@));
    r
}

// ── Validation ───────────────────────────────────────────────────────────────

/// The root config `niri validate` checks: the current main config without
/// the lines that mention the fragment's final path, then an `include` of
/// the candidate fragment.
pub open spec fn validation_root_text(current: Seq<char>, final_path: Seq<char>, candidate: Seq<char>) -> Seq<char> {
    join_lines(lines_without(text_lines(current), final_path)) + "\ninclude \""@
        + escape_quotes(candidate) + "\"\n"@
}

/// Builds the root config for validating a candidate fragment (see
/// [`validation_root_text`]).
pub fn validation_root(current: &str, final_path: &str, candidate: &str) -> (r: String)
    ensures
        r@ == validation_root_text(current@, final_path@, candidate@),
{
    let cur = chars_of(current);
    let fp = chars_of(final_path);
    let ls = lines_of(&cur);
    let kept = drop_lines_containing(&ls, &fp);
    let joined = join_with_newlines(&kept);
    let mut out = string_of(&joined);
    out.append("\ninclude \"");
    let esc = crate::generate::escaped_string(candidate);
    out.append(esc.as_str());
    out.append("\"\n");
    out
}

/// Whether a compositor validation run happened and what it said.
#[derive(Clone, Debug, PartialEq, Eq)]
pub enum ValidatorRun {
    /// `niri validate` accepted the configuration.
    Accepted,
    /// `niri validate` rejected it, with its standard error and output.
    Rejected { stderr: String, stdout: String },
    /// There is no `niri` executable to run.
    Missing,
    /// Running it failed otherwise (the system's message).
    Failed(String),
}

/// Outcome of a successful save: whether the compositor validated the
/// written config, or it was saved unvalidated because `niri` was missing.
#[derive(Clone, Copy, Debug, PartialEq, Eq, Structural)]
pub enum SaveStatus {
    Validated,
    SavedWithoutValidation,
}

/// The diagnostics of a rejection: trimmed standard error, or trimmed
/// standard output when standard error is blank.
pub open spec fn diagnostics(stderr: Seq<char>, stdout: Seq<char>) -> Seq<char> {
    if trim(stderr).len() == 0 {
        trim(stdout)
    } else {
        trim(stderr)
    }
}

/// What a validation run means for the save: an accepted run is
/// `Validated`, a missing compositor `SavedWithoutValidation` (the parser
/// already accepted the text), a rejection a `Validation` error with the
/// diagnostics, any other failure an `Io` error.
pub fn validation_outcome(run: ValidatorRun) -> (r: Result<SaveStatus, SettingsError>)
    ensures
        match run {
            ValidatorRun::Accepted => r == Ok::<SaveStatus, SettingsError>(SaveStatus::Validated),
            ValidatorRun::Missing => r == Ok::<SaveStatus, SettingsError>(
                SaveStatus::SavedWithoutValidation,
            ),
            ValidatorRun::Rejected { stderr, stdout } => r matches Err(
                SettingsError::Validation(m),
            ) && m@ == diagnostics(stderr@, stdout@),
            ValidatorRun::Failed(e) => r == Err::<SaveStatus, SettingsError>(SettingsError::Io(e)),
        },
{
    match run {
        ValidatorRun::Accepted => Ok(SaveStatus::Validated),
        ValidatorRun::Missing => Ok(SaveStatus::SavedWithoutValidation),
        ValidatorRun::Rejected { stderr, stdout } => {
            let e = trim_chars(&chars_of(stderr.as_str()));
            let o = trim_chars(&chars_of(stdout.as_str()));
            if e.len() == 0 {
                Err(SettingsError::Validation(string_of(&o)))
            } else {
                Err(SettingsError::Validation(string_of(&e)))
            }
        },
        ValidatorRun::Failed(e) => Err(SettingsError::Io(e)),
    }
}

// ── The include line ─────────────────────────────────────────────────────────

/// The `include` line for the fragment's path.
pub open spec fn include_line(path: Seq<char>) -> Seq<char> {
    "include \""@ + path + "\""@
}

/// What the main niri config becomes so that it includes the fragment:
/// `None` when it already has the include line; otherwise the config without
/// any older `~`-based include of the fragment, trailing whitespace
/// trimmed, then a comment and the include line.
pub open spec fn include_update_text(content: Seq<char>, path: Seq<char>) -> Option<Seq<char>> {
    if contains_text(content, include_line(path)) {
        None
    } else {
        Some(
            trim_end(
                join_lines(
                    lines_without(
                        text_lines(content),
                        "include \"~/.config/niri-shell/settings.kdl\""@,
                    ),
                ),
            ) + "\n\n// Added by niri-settings — overrides settings above\n"@ + include_line(path)
                + "\n"@,
        )
    }
}

fn trim_end_vec(s: &Vec<char>) -> (r: Vec<char>)
    ensures
        r@ == trim_end(s@),
{
    let mut j: usize = s.len();
    assert(s@.subrange(0, j as int) =~= s@);
    while j > 0 && crate::text::whitespace(s[j - 1])
        invariant
            j <= s.len(),
            trim_end(s@) == trim_end(s@.subrange(0, j as int)),
        decreases j,
    {
        assert(s@.subrange(0, j as int).drop_last() =~= s@.subrange(0, j - 1));
        j = j - 1;
    }
    let r = slice(s, 0, j);
    proof {
        if j > 0 {
            assert(r@.last() == s@[j - 1]);
        }
    }
    r
}

/// The main niri config with the fragment's include added (see
/// [`include_update_text`]); `None` when nothing needs to change.
pub fn include_update(content: &str, path: &str) -> (r: Option<String>)
    ensures
        match include_update_text(content@, path@) {
            Some(t) => r matches Some(s) && s@ == t,
            None => r is None,
        },
{
    let mut line = String::from_str("include \"");
    line.append(path);
    line.append("\"");
    let c = chars_of(content);
    let lv = chars_of(line.as_str());
    if contains(&c, &lv) {
        return None;
    }
    let old_line = chars_of("include \"~/.config/niri-shell/settings.kdl\"");
    let ls = lines_of(&c);
    let kept = drop_lines_containing(&ls, &old_line);
    let joined = join_with_newlines(&kept);
    let trimmed = trim_end_vec(&joined);
    let mut out = string_of(&trimmed);
    out.append("\n\n// Added by niri-settings — overrides settings above\n");
    out.append(line.as_str());
    out.append("\n");
    Some(out)
}

// ── Laws ─────────────────────────────────────────────────────────────────────

proof fn lemma_occurs_prefix(a: Seq<char>, b: Seq<char>, n: Seq<char>, k: int)
    requires
        occurs_at(a, n, k),
    ensures
        occurs_at(a + b, n, k),
{
    assert((a + b).subrange(k, k + n.len()) =~= a.subrange(k, k + n.len()));
}

proof fn lemma_occurs_shift(a: Seq<char>, b: Seq<char>, n: Seq<char>, k: int)
    requires
        occurs_at(b, n, k),
    ensures
        occurs_at(a + b, n, a.len() + k),
{
    assert((a + b).subrange(a.len() + k, a.len() + k + n.len()) =~= b.subrange(k, k + n.len()));
}

proof fn lemma_unmanaged_has(ns: Seq<Node>, i: int)
    requires
        0 <= i < ns.len(),
        !is_managed(ns[i].name@),
    ensures
        exists|j: int| 0 <= j < unmanaged(ns).len() && unmanaged(ns)[j] == ns[i],
    decreases ns.len(),
{
    if i == ns.len() - 1 {
        let u = unmanaged(ns.drop_last());
        assert(unmanaged(ns)[u.len() as int] == ns[i]);
    } else {
        lemma_unmanaged_has(ns.drop_last(), i);
        let j = choose|j: int|
            0 <= j < unmanaged(ns.drop_last()).len() && unmanaged(ns.drop_last())[j]
                == ns.drop_last()[i];
        assert(unmanaged(ns)[j] == ns[i]);
    }
}

proof fn lemma_nodes_text_has(xs: Seq<Node>, j: int)
    requires
        0 <= j < xs.len(),
    ensures
        contains_text(nodes_text(xs), xs[j].text@),
    decreases xs.len(),
{
    let p = nodes_text(xs.drop_last());
    let tail: Seq<char> = if xs.last().has_trailing {
        Seq::empty()
    } else {
        seq!['\n']
    };
    assert(nodes_text(xs) == p + xs.last().text@ + tail);
    if j == xs.len() - 1 {
        let t = xs.last().text@;
        assert((p + t + tail).subrange(p.len() as int, (p.len() + t.len()) as int) =~= t);
        assert(occurs_at(nodes_text(xs), xs[j].text@, p.len() as int));
    } else {
        lemma_nodes_text_has(xs.drop_last(), j);
        let k = choose|k: int| occurs_at(p, xs.drop_last()[j].text@, k);
        lemma_occurs_prefix(p, xs.last().text@ + tail, xs[j].text@, k);
        assert(p + (xs.last().text@ + tail) =~= p + xs.last().text@ + tail);
    }
}

/// Unknown top-level nodes survive a managed rewrite: every node of the
/// existing fragment that the editor does not manage appears, as the parser
/// prints it, in the merged text.
pub proof fn law_unmanaged_nodes_survive(gen: Document, existing: Document, i: int)
    requires
        0 <= i < existing.nodes@.len(),
        !is_managed(existing.nodes@[i].name@),
    ensures
        contains_text(merged_text(gen, existing), existing.nodes@[i].text@),
{
    let u = unmanaged(existing.nodes@);
    lemma_unmanaged_has(existing.nodes@, i);
    let j = choose|j: int| 0 <= j < u.len() && u[j] == existing.nodes@[i];
    lemma_nodes_text_has(u, j);
    let k = choose|k: int| occurs_at(nodes_text(u), u[j].text@, k);
    let a = or_empty(gen.leading) + nodes_text(gen.nodes@);
    lemma_occurs_shift(a, nodes_text(u), u[j].text@, k);
    lemma_occurs_prefix(a + nodes_text(u), or_empty(gen.trailing), u[j].text@, a.len() + k);
}

/// Adding the include line is done once: the updated config contains the
/// include line, so a second update changes nothing.
pub proof fn law_include_added_once(content: Seq<char>, path: Seq<char>)
    ensures
        match include_update_text(content, path) {
            Some(t) => contains_text(t, include_line(path)) && include_update_text(t, path) is None,
            None => contains_text(content, include_line(path)),
        },
{
    if let Some(t) = include_update_text(content, path) {
        let a = trim_end(
            join_lines(
                lines_without(text_lines(content), "include \"~/.config/niri-shell/settings.kdl\""@),
            ),
        ) + "\n\n// Added by niri-settings — overrides settings above\n"@;
        let l = include_line(path);
        assert(t == a + l + "\n"@);
        assert((a + l + "\n"@).subrange(a.len() as int, (a.len() + l.len()) as int) =~= l);
        assert(occurs_at(t, l, a.len() as int));
    }
}

// ── Which nodes the generator writes ─────────────────────────────────────────

/// The name of the node a text starts with: its first word.
pub open spec fn node_name_of(t: Seq<char>) -> Seq<char> {
    t.subrange(0, crate::keybinds::word_end(t, 0))
}

proof fn lemma_named(name: Seq<char>, sep: Seq<char>, rest: Seq<char>)
    requires
        crate::reads_back::solid(name),
        sep.len() > 0,
        is_ws(sep[0]),
    ensures
        node_name_of(name + sep + rest) == name,
{
    let t = name + sep + rest;
    assert(t =~= name + (sep + rest));
    crate::reads_back::lemma_word_end_solid(name, sep + rest, 0);
    assert(t.subrange(0, name.len() as int) =~= name);
}

proof fn lemma_prefix_named(t: Seq<char>, name: Seq<char>, sep: Seq<char>)
    requires
        crate::reads_back::solid(name),
        sep.len() > 0,
        is_ws(sep[0]),
        t.len() >= name.len() + sep.len(),
        t.subrange(0, (name.len() + sep.len()) as int) == name + sep,
    ensures
        node_name_of(t) == name,
{
    let k = name.len() + sep.len();
    let rest = t.subrange(k as int, t.len() as int);
    assert(t =~= name + sep + rest) by {
        assert forall|i: int| 0 <= i < t.len() implies t[i] == (name + sep + rest)[i] by {
            if i < k {
                assert(t[i] == t.subrange(0, k as int)[i]);
            }
        }
    }
    lemma_named(name, sep, rest);
}

proof fn lemma_managed_input(cfg: crate::types::SettingsConfig)
    ensures
        crate::generate::input_text(cfg.input).len() > 0 ==> is_managed(node_name_of(crate::generate::input_text(cfg.input))),
{
    reveal_strlit(" ");
    reveal_strlit("input");
    reveal_strlit("input {\n");
    let t = crate::generate::input_text(cfg.input);
    if t.len() > 0 {
        assert(t.subrange(0, 6) =~= "input"@ + " "@);
        lemma_prefix_named(t, "input"@, " "@);
    }
}

proof fn lemma_managed_layout(cfg: crate::types::SettingsConfig)
    ensures
        is_managed(node_name_of(crate::generate::layout_text(cfg.layout))),
{
    reveal_strlit(" ");
    reveal_strlit("layout");
    reveal_strlit("layout {\n");
    let t = crate::generate::layout_text(cfg.layout);
    if t.len() > 0 {
        assert(t.subrange(0, 7) =~= "layout"@ + " "@);
        lemma_prefix_named(t, "layout"@, " "@);
    }
}

proof fn lemma_managed_cursor(cfg: crate::types::SettingsConfig)
    ensures
        crate::generate::cursor_text(cfg.misc).len() > 0 ==> is_managed(node_name_of(crate::generate::cursor_text(cfg.misc))),
{
    reveal_strlit(" ");
    reveal_strlit("cursor");
    reveal_strlit("cursor {\n");
    let t = crate::generate::cursor_text(cfg.misc);
    if t.len() > 0 {
        assert(t.subrange(0, 7) =~= "cursor"@ + " "@);
        lemma_prefix_named(t, "cursor"@, " "@);
    }
}

proof fn lemma_managed_overview(cfg: crate::types::SettingsConfig)
    ensures
        crate::generate::overview_text(cfg.misc).len() > 0 ==> is_managed(node_name_of(crate::generate::overview_text(cfg.misc))),
{
    reveal_strlit(" ");
    reveal_strlit("overview");
    reveal_strlit("overview {\n");
    let t = crate::generate::overview_text(cfg.misc);
    if t.len() > 0 {
        assert(t.subrange(0, 9) =~= "overview"@ + " "@);
        lemma_prefix_named(t, "overview"@, " "@);
    }
}

proof fn lemma_managed_hotkey(cfg: crate::types::SettingsConfig)
    ensures
        crate::generate::hotkey_text(cfg.misc).len() > 0 ==> is_managed(node_name_of(crate::generate::hotkey_text(cfg.misc))),
{
    reveal_strlit(" ");
    reveal_strlit("hotkey-overlay");
    reveal_strlit("hotkey-overlay {\n");
    let t = crate::generate::hotkey_text(cfg.misc);
    if t.len() > 0 {
        assert(t.subrange(0, 15) =~= "hotkey-overlay"@ + " "@);
        lemma_prefix_named(t, "hotkey-overlay"@, " "@);
    }
}

proof fn lemma_managed_xwayland(cfg: crate::types::SettingsConfig)
    ensures
        crate::generate::xwayland_text(cfg.misc).len() > 0 ==> is_managed(node_name_of(crate::generate::xwayland_text(cfg.misc))),
{
    reveal_strlit(" ");
    reveal_strlit("xwayland-satellite");
    reveal_strlit("xwayland-satellite {\n");
    let t = crate::generate::xwayland_text(cfg.misc);
    if t.len() > 0 {
        assert(t.subrange(0, 19) =~= "xwayland-satellite"@ + " "@);
        lemma_prefix_named(t, "xwayland-satellite"@, " "@);
    }
}

proof fn lemma_managed_animations(cfg: crate::types::SettingsConfig)
    ensures
        crate::generate::animations_text(cfg.anim).len() > 0 ==> is_managed(node_name_of(crate::generate::animations_text(cfg.anim))),
{
    reveal_strlit(" ");
    reveal_strlit("animations");
    reveal_strlit("animations {\n");
    reveal_strlit("animations {\n    off\n}\n\n");
    let t = crate::generate::animations_text(cfg.anim);
    if t.len() > 0 {
        assert(t.subrange(0, 11) =~= "animations"@ + " "@);
        lemma_prefix_named(t, "animations"@, " "@);
    }
}

proof fn lemma_managed_gestures(cfg: crate::types::SettingsConfig)
    ensures
        crate::generate::gestures_text(cfg.gestures).len() > 0 ==> is_managed(node_name_of(crate::generate::gestures_text(cfg.gestures))),
{
    reveal_strlit(" ");
    reveal_strlit("gestures");
    reveal_strlit("gestures {\n");
    let t = crate::generate::gestures_text(cfg.gestures);
    if t.len() > 0 {
        assert(t.subrange(0, 9) =~= "gestures"@ + " "@);
        lemma_prefix_named(t, "gestures"@, " "@);
    }
}

proof fn lemma_managed_recent(cfg: crate::types::SettingsConfig)
    ensures
        crate::generate::recent_windows_text(cfg.recent_windows).len() > 0 ==> is_managed(node_name_of(crate::generate::recent_windows_text(cfg.recent_windows))),
{
    reveal_strlit(" ");
    reveal_strlit("recent-windows");
    reveal_strlit("recent-windows {\n");
    reveal_strlit("recent-windows {\n    off\n}\n\n");
    let t = crate::generate::recent_windows_text(cfg.recent_windows);
    if t.len() > 0 {
        assert(t.subrange(0, 15) =~= "recent-windows"@ + " "@);
        lemma_prefix_named(t, "recent-windows"@, " "@);
    }
}

proof fn lemma_managed_debug(cfg: crate::types::SettingsConfig)
    ensures
        crate::generate::debug_text(cfg.debug).len() > 0 ==> is_managed(node_name_of(crate::generate::debug_text(cfg.debug))),
{
    reveal_strlit(" ");
    reveal_strlit("debug");
    reveal_strlit("debug {\n");
    let t = crate::generate::debug_text(cfg.debug);
    if t.len() > 0 {
        assert(t.subrange(0, 6) =~= "debug"@ + " "@);
        lemma_prefix_named(t, "debug"@, " "@);
    }
}

proof fn lemma_managed_window_rule(r: crate::types::WindowRule)
    ensures
        crate::generate::window_rule_text(r).len() > 0 ==> is_managed(node_name_of(crate::generate::window_rule_text(r))),
{
    reveal_strlit(" ");
    reveal_strlit("window-rule");
    reveal_strlit("window-rule {\n");
    let t = crate::generate::window_rule_text(r);
    if t.len() > 0 {
        assert(t.subrange(0, 12) =~= "window-rule"@ + " "@);
        lemma_prefix_named(t, "window-rule"@, " "@);
    }
}

proof fn lemma_managed_layer_rule(l: crate::types::LayerRule)
    ensures
        crate::generate::layer_rule_text(l).len() > 0 ==> is_managed(node_name_of(crate::generate::layer_rule_text(l))),
{
    reveal_strlit(" ");
    reveal_strlit("layer-rule");
    reveal_strlit("layer-rule {\n");
    let t = crate::generate::layer_rule_text(l);
    if t.len() > 0 {
        assert(t.subrange(0, 11) =~= "layer-rule"@ + " "@);
        lemma_prefix_named(t, "layer-rule"@, " "@);
    }
}

proof fn lemma_managed_switch_events(cfg: crate::types::SettingsConfig)
    ensures
        crate::generate::switch_events_text(cfg.switch_events).len() > 0 ==> is_managed(node_name_of(crate::generate::switch_events_text(cfg.switch_events))),
{
    reveal_strlit(" ");
    reveal_strlit("switch-events");
    reveal_strlit("switch-events {\n");
    let t = crate::generate::switch_events_text(cfg.switch_events);
    if t.len() > 0 {
        assert(t.subrange(0, 14) =~= "switch-events"@ + " "@);
        lemma_prefix_named(t, "switch-events"@, " "@);
    }
}

proof fn lemma_managed_binds(cfg: crate::types::SettingsConfig)
    ensures
        crate::generate::binds_text(cfg.binds@).len() > 0 ==> is_managed(node_name_of(crate::generate::binds_text(cfg.binds@))),
{
    reveal_strlit(" ");
    reveal_strlit("binds");
    reveal_strlit("binds {\n");
    let t = crate::generate::binds_text(cfg.binds@);
    if t.len() > 0 {
        assert(t.subrange(0, 6) =~= "binds"@ + " "@);
        lemma_prefix_named(t, "binds"@, " "@);
    }
}

proof fn lemma_managed_workspace(w: crate::types::NamedWorkspace)
    ensures
        is_managed(node_name_of(crate::generate::workspace_text(w))),
{
    reveal_strlit(" ");
    reveal_strlit("workspace");
    reveal_strlit("workspace \"");
    let t = crate::generate::workspace_text(w);
    if t.len() > 0 {
        assert(t.subrange(0, 10) =~= "workspace"@ + " "@);
        lemma_prefix_named(t, "workspace"@, " "@);
    }
}

proof fn lemma_managed_output(o: crate::types::OutputConfig)
    ensures
        crate::generate::output_text(o).len() > 0 ==> is_managed(node_name_of(crate::generate::output_text(o))),
{
    reveal_strlit(" ");
    reveal_strlit("output");
    reveal_strlit("output \"");
    let t = crate::generate::output_text(o);
    if t.len() > 0 {
        assert(t.subrange(0, 7) =~= "output"@ + " "@);
        lemma_prefix_named(t, "output"@, " "@);
    }
}

proof fn lemma_managed_screenshot(cfg: crate::types::SettingsConfig)
    ensures
        crate::generate::screenshot_text(cfg.misc.screenshot_path@).len() > 0 ==> is_managed(node_name_of(crate::generate::screenshot_text(cfg.misc.screenshot_path@))),
{
    reveal_strlit(" ");
    reveal_strlit("screenshot-path");
    reveal_strlit("screenshot-path null\n\n");
    reveal_strlit("screenshot-path \"");
    let t = crate::generate::screenshot_text(cfg.misc.screenshot_path@);
    if t.len() > 0 {
        assert(t.subrange(0, 16) =~= "screenshot-path"@ + " "@);
        lemma_prefix_named(t, "screenshot-path"@, " "@);
    }
}

proof fn lemma_managed_clipboard()
    ensures
        is_managed(node_name_of("clipboard {\n    disable-primary\n}\n\n"@)),
{
    reveal_strlit(" ");
    reveal_strlit("clipboard");
    reveal_strlit("clipboard {\n    disable-primary\n}\n\n");
    let t = "clipboard {\n    disable-primary\n}\n\n"@;
    if t.len() > 0 {
        assert(t.subrange(0, 10) =~= "clipboard"@ + " "@);
        lemma_prefix_named(t, "clipboard"@, " "@);
    }
}

proof fn lemma_managed_config_notification()
    ensures
        is_managed(node_name_of("config-notification {\n    disable-failed\n}\n\n"@)),
{
    reveal_strlit(" ");
    reveal_strlit("config-notification");
    reveal_strlit("config-notification {\n    disable-failed\n}\n\n");
    let t = "config-notification {\n    disable-failed\n}\n\n"@;
    if t.len() > 0 {
        assert(t.subrange(0, 20) =~= "config-notification"@ + " "@);
        lemma_prefix_named(t, "config-notification"@, " "@);
    }
}

proof fn lemma_managed_prefer_no_csd(cfg: crate::types::SettingsConfig)
    ensures
        cfg.misc.prefer_no_csd ==> is_managed(node_name_of(crate::generate::misc_text(cfg.misc))),
{
    reveal_strlit("prefer-no-csd");
    reveal_strlit("prefer-no-csd\n\n");
    reveal_strlit("\n");
    if cfg.misc.prefer_no_csd {
        let t = crate::generate::misc_text(cfg.misc);
        assert(t.subrange(0, 14) =~= "prefer-no-csd"@ + "\n"@);
        lemma_prefix_named(t, "prefer-no-csd"@, "\n"@);
    }
}

/// Every top-level node the generator writes has a name the merge manages,
/// so a save replaces such nodes of the existing fragment instead of keeping
/// them beside the generated ones: the input, layout, misc (screenshot path,
/// cursor, overview, hotkey overlay, xwayland, prefer-no-csd, clipboard and
/// config-notification), animations, workspace, gestures, recent-windows,
/// debug, output, window-rule, layer-rule, switch-events and binds nodes.
pub proof fn law_generated_nodes_are_managed(
    cfg: crate::types::SettingsConfig,
    w: crate::types::NamedWorkspace,
    o: crate::types::OutputConfig,
    r: crate::types::WindowRule,
    l: crate::types::LayerRule,
)
    ensures
        crate::generate::input_text(cfg.input).len() > 0 ==> is_managed(node_name_of(crate::generate::input_text(cfg.input))),
        is_managed(node_name_of(crate::generate::layout_text(cfg.layout))),
        crate::generate::cursor_text(cfg.misc).len() > 0 ==> is_managed(node_name_of(crate::generate::cursor_text(cfg.misc))),
        crate::generate::overview_text(cfg.misc).len() > 0 ==> is_managed(node_name_of(crate::generate::overview_text(cfg.misc))),
        crate::generate::hotkey_text(cfg.misc).len() > 0 ==> is_managed(node_name_of(crate::generate::hotkey_text(cfg.misc))),
        crate::generate::xwayland_text(cfg.misc).len() > 0 ==> is_managed(node_name_of(crate::generate::xwayland_text(cfg.misc))),
        crate::generate::animations_text(cfg.anim).len() > 0 ==> is_managed(node_name_of(crate::generate::animations_text(cfg.anim))),
        crate::generate::gestures_text(cfg.gestures).len() > 0 ==> is_managed(node_name_of(crate::generate::gestures_text(cfg.gestures))),
        crate::generate::recent_windows_text(cfg.recent_windows).len() > 0 ==> is_managed(node_name_of(crate::generate::recent_windows_text(cfg.recent_windows))),
        crate::generate::debug_text(cfg.debug).len() > 0 ==> is_managed(node_name_of(crate::generate::debug_text(cfg.debug))),
        crate::generate::window_rule_text(r).len() > 0 ==> is_managed(node_name_of(crate::generate::window_rule_text(r))),
        crate::generate::layer_rule_text(l).len() > 0 ==> is_managed(node_name_of(crate::generate::layer_rule_text(l))),
        crate::generate::switch_events_text(cfg.switch_events).len() > 0 ==> is_managed(node_name_of(crate::generate::switch_events_text(cfg.switch_events))),
        crate::generate::binds_text(cfg.binds@).len() > 0 ==> is_managed(node_name_of(crate::generate::binds_text(cfg.binds@))),
        is_managed(node_name_of(crate::generate::workspace_text(w))),
        crate::generate::output_text(o).len() > 0 ==> is_managed(node_name_of(crate::generate::output_text(o))),
        crate::generate::screenshot_text(cfg.misc.screenshot_path@).len() > 0 ==> is_managed(node_name_of(crate::generate::screenshot_text(cfg.misc.screenshot_path@))),
        is_managed(node_name_of("clipboard {\n    disable-primary\n}\n\n"@)),
        is_managed(node_name_of("config-notification {\n    disable-failed\n}\n\n"@)),
        cfg.misc.prefer_no_csd ==> is_managed(node_name_of(crate::generate::misc_text(cfg.misc))),
{
    lemma_managed_input(cfg);
    lemma_managed_layout(cfg);
    lemma_managed_cursor(cfg);
    lemma_managed_overview(cfg);
    lemma_managed_hotkey(cfg);
    lemma_managed_xwayland(cfg);
    lemma_managed_animations(cfg);
    lemma_managed_gestures(cfg);
    lemma_managed_recent(cfg);
    lemma_managed_debug(cfg);
    lemma_managed_window_rule(r);
    lemma_managed_layer_rule(l);
    lemma_managed_switch_events(cfg);
    lemma_managed_binds(cfg);
    lemma_managed_workspace(w);
    lemma_managed_output(o);
    lemma_managed_screenshot(cfg);
    lemma_managed_clipboard();
    lemma_managed_config_notification();
    lemma_managed_prefer_no_csd(cfg);
}

/// What the merge keeps of the existing fragment never shares a name with
/// a node the generator writes: every kept node's name is unmanaged, while
/// (see [`law_generated_nodes_are_managed`]) every generated name is managed.
/// So a window rule, output, layer rule or binds block of the existing text
/// is replaced by the generated one, never kept beside it.
pub proof fn law_kept_nodes_are_not_generated_kinds(ns: Seq<Node>, r: crate::types::WindowRule, k: int)
    requires
        0 <= k < unmanaged(ns).len(),
    ensures
        !is_managed(unmanaged(ns)[k].name@),
        crate::generate::window_rule_text(r).len() > 0 ==> unmanaged(ns)[k].name@ != node_name_of(
            crate::generate::window_rule_text(r),
        ),
    decreases ns.len(),
{
    lemma_managed_window_rule(r);
    let p = ns.drop_last();
    if !is_managed(ns.last().name@) && k == unmanaged(p).len() {
    } else {
        law_kept_nodes_are_not_generated_kinds(p, r, k);
    }
}

} // verus!
