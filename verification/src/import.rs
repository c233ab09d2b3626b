//! Importing key bindings from a niri config: what one config file
//! contributes (its `include`s and the lines of its `binds` blocks, in
//! order), a tolerant line scanner for files the KDL parser rejects, and the
//! guard that stops include cycles and runaway nesting.

use vstd::prelude::*;
use vstd::string::*;
use crate::keybinds::{bind_fields, bind_line, parse_bind_line, views};
use crate::kdl_doc::{
    as_str, first_arg, kdl_admissible, kdl_parse, node_arg, read_kdl, value_str, Document, Node,
};
use crate::persist::{lines_of, text_lines};
use crate::text::{chars_of, starts_with, string_of, trim, trim_chars};
use crate::types::Keybind;

verus! {

/// One thing a config file contributes to the import, in file order.
#[derive(Clone, Debug)]
pub enum ImportItem {
    /// An `include "PATH"` to follow.
    Include(String),
    /// A binding read from a `binds` block.
    Bind(Keybind),
}

/// The spec form of an item: an include path, or the fields of a binding.
pub open spec fn item_view(i: ImportItem) -> Result<Seq<char>, (Seq<char>, Seq<char>, Seq<char>, bool, u32, bool)> {
    match i {
        ImportItem::Include(p) => Ok(p@),
        ImportItem::Bind(b) => Err(bind_fields(b)),
    }
}

/// The bindings read from the lines of a block's first `k` nodes.
pub open spec fn block_binds(ns: Seq<Node>, k: int) -> Seq<
    Result<Seq<char>, (Seq<char>, Seq<char>, Seq<char>, bool, u32, bool)>,
>
    decreases k,
{
    if k <= 0 || k > ns.len() {
        Seq::empty()
    } else {
        match bind_line(ns[k - 1].text@) {
            Some(t) => block_binds(ns, k - 1).push(Err(t)),
            None => block_binds(ns, k - 1),
        }
    }
}

/// What one top-level node contributes: an `include` with a string path,
/// or the bind lines of a `binds` block.
pub open spec fn node_items(n: Node) -> Seq<
    Result<Seq<char>, (Seq<char>, Seq<char>, Seq<char>, bool, u32, bool)>,
> {
    if n.name@ == "include"@ {
        match value_str(first_arg(n)) {
            Some(p) => seq![Ok(p)],
            None => Seq::empty(),
        }
    } else if n.name@ == "binds"@ {
        match n.children {
            Some(c) => block_binds(c.nodes@, c.nodes@.len() as int),
            None => Seq::empty(),
        }
    } else {
        Seq::empty()
    }
}

/// What the first `k` top-level nodes contribute, in order.
pub open spec fn doc_items(ns: Seq<Node>, k: int) -> Seq<
    Result<Seq<char>, (Seq<char>, Seq<char>, Seq<char>, bool, u32, bool)>,
>
    decreases k,
{
    if k <= 0 || k > ns.len() {
        Seq::empty()
    } else {
        doc_items(ns, k - 1) + node_items(ns[k - 1])
    }
}

/// Every binding among the items has no row id yet (id 0).
pub open spec fn ids_unassigned(v: Seq<ImportItem>) -> bool {
    forall|k: int| 0 <= k < v.len() ==> (#[trigger] v[k] matches ImportItem::Bind(b) ==> b.id == 0)
}

pub open spec fn item_views(v: Seq<ImportItem>) -> Seq<
    Result<Seq<char>, (Seq<char>, Seq<char>, Seq<char>, bool, u32, bool)>,
> {
    v.map_values(|i: ImportItem| item_view(i))
}

fn name_is(n: &String, lit: &str) -> (r: bool)
    ensures
        r == (n@ == lit@),
{
    let t: String = lit.to_owned();
    *n == t
}

fn push_block_binds(out: &mut Vec<ImportItem>, c: &Document)
    requires
        ids_unassigned(old(out)@),
    ensures
        item_views(final(out)@) == item_views(old(out)@) + block_binds(
            c.nodes@,
            c.nodes@.len() as int,
        ),
        ids_unassigned(final(out)@),
{
    let mut i: usize = 0;
    assert(item_views(out@) =~= item_views(old(out)@) + block_binds(c.nodes@, 0));
    while i < c.nodes.len()
        invariant
            i <= c.nodes.len(),
            item_views(out@) == item_views(old(out)@) + block_binds(c.nodes@, i as int),
            ids_unassigned(out@),
        decreases c.nodes.len() - i,
    {
        if let Some(b) = parse_bind_line(c.nodes[i].text.as_str()) {
            let ghost before = out@;
            out.push(ImportItem::Bind(b));
            assert(item_views(out@) =~= item_views(before).push(Err(bind_fields(b))));
        }
        assert(item_views(out@) =~= item_views(old(out)@) + block_binds(c.nodes@, i + 1));
        i = i + 1;
    }
}

/// The position of the first `binds` node with a children block from `k`
/// on, or the number of nodes.
pub open spec fn first_block(ns: Seq<Node>, k: int) -> int
    decreases ns.len() - k,
{
    if k < 0 || k >= ns.len() {
        ns.len() as int
    } else if ns[k].name@ == "binds"@ && ns[k].children is Some {
        k
    } else {
        first_block(ns, k + 1)
    }
}

/// How many top-level nodes the import reads: up to and including the
/// first `binds { … }` block, or all of them when there is none.
pub open spec fn block_stop(ns: Seq<Node>) -> int {
    let f = first_block(ns, 0);
    if f < ns.len() {
        f + 1
    } else {
        ns.len() as int
    }
}

/// What one config file contributes to the import, and whether it holds a
/// `binds { … }` block (the import ends with the first such block).
#[derive(Clone, Debug)]
pub struct ConfigImport {
    pub items: Vec<ImportItem>,
    pub has_block: bool,
}

/// What a parsed config file contributes, in file order, up to and including
/// its first `binds { … }` block (see [`doc_items`], [`block_stop`]).
pub fn config_items(doc: &Document) -> (r: ConfigImport)
    ensures
        item_views(r.items@) == doc_items(doc.nodes@, block_stop(doc.nodes@)),
        r.has_block == (first_block(doc.nodes@, 0) < doc.nodes@.len()),
        ids_unassigned(r.items@),
{
    let mut out: Vec<ImportItem> = Vec::new();
    let mut i: usize = 0;
    assert(item_views(out@) =~= doc_items(doc.nodes@, 0));
    while i < doc.nodes.len()
        invariant
            i <= doc.nodes.len(),
            item_views(out@) == doc_items(doc.nodes@, i as int),
            first_block(doc.nodes@, 0) == first_block(doc.nodes@, i as int),
            ids_unassigned(out@),
        decreases doc.nodes.len() - i,
    {
        let node = &doc.nodes[i];
        let ghost before = out@;
        proof {
            reveal_strlit("include");
            reveal_strlit("binds");
        }
        if name_is(&node.name, "include") {
            assert(node.name@ != "binds"@) by {
                assert("include"@.len() != "binds"@.len());
            }
            if let Some(p) = as_str(node_arg(node)) {
                out.push(ImportItem::Include(p));
                assert(item_views(out@) =~= item_views(before) + node_items(*node));
            } else {
                assert(item_views(out@) =~= item_views(before) + node_items(*node));
            }
        } else if name_is(&node.name, "binds") {
            if let Some(c) = &node.children {
                push_block_binds(&mut out, c);
                assert(first_block(doc.nodes@, i as int) == i);
                return ConfigImport { items: out, has_block: true };
            } else {
                assert(item_views(out@) =~= item_views(before) + node_items(*node));
            }
        } else {
            assert(item_views(out@) =~= item_views(before) + node_items(*node));
        }
        assert(first_block(doc.nodes@, i as int) == first_block(doc.nodes@, i + 1));
        i = i + 1;
    }
    ConfigImport { items: out, has_block: false }
}

// ── Tolerant scanning ────────────────────────────────────────────────────────

/// How many times `c` occurs in `s`.
pub open spec fn count_char(s: Seq<char>, c: char) -> nat
    decreases s.len(),
{
    if s.len() == 0 {
        0
    } else {
        count_char(s.drop_last(), c) + (if s.last() == c {
            1nat
        } else {
            0nat
        })
    }
}

pub open spec fn sat_add(a: u32, b: u32) -> u32 {
    if a + b > u32::MAX {
        u32::MAX
    } else {
        (a + b) as u32
    }
}

pub open spec fn sat_sub(a: u32, b: u32) -> u32 {
    if a < b {
        0
    } else {
        (a - b) as u32
    }
}

/// The scanner's state after some lines: inside the first `binds {` block,
/// its brace depth, whether the block has closed, and the bindings so far.
pub open spec fn scan_lines(ls: Seq<Seq<char>>, k: int) -> (bool, u32, bool, Seq<
    (Seq<char>, Seq<char>, Seq<char>, bool, u32, bool),
>)
    decreases k,
{
    if k <= 0 || k > ls.len() {
        (false, 0u32, false, Seq::empty())
    } else {
        let (inside, depth, done, bs) = scan_lines(ls, k - 1);
        let t = trim(ls[k - 1]);
        let head = "binds {"@;
        if done {
            (inside, depth, done, bs)
        } else if !inside {
            if head.len() <= t.len() && t.subrange(0, head.len() as int) == head {
                (true, 1u32, false, bs)
            } else {
                (false, depth, false, bs)
            }
        } else if t == seq!['}'] {
            let d = sat_sub(depth, 1);
            (true, d, d == 0, bs)
        } else {
            let d = sat_sub(
                sat_add(depth, count_char(t, '{') as u32),
                count_char(t, '}') as u32,
            );
            match bind_line(t) {
                Some(b) => (true, d, false, bs.push(b)),
                None => (true, d, false, bs),
            }
        }
    }
}

/// The bindings the tolerant scanner finds in a config text.
pub open spec fn fallback_spec(content: Seq<char>) -> Seq<
    (Seq<char>, Seq<char>, Seq<char>, bool, u32, bool),
> {
    let ls = text_lines(content);
    scan_lines(ls, ls.len() as int).3
}

fn count_in(s: &Vec<char>, c: char) -> (r: u32)
    ensures
        r == count_char(s@, c) as u32,
{
    let mut n: u64 = 0;
    let mut i: usize = 0;
    while i < s.len()
        invariant
            i <= s.len(),
            n == count_char(s@.subrange(0, i as int), c),
            n <= i,
        decreases s.len() - i,
    {
        assert(s@.subrange(0, i + 1).drop_last() =~= s@.subrange(0, i as int));
        if s[i] == c {
            n = n + 1;
        }
        i = i + 1;
    }
    assert(s@.subrange(0, i as int) =~= s@);
    n as u32
}

/// Whether the tolerant scanner finds a `binds {` line in a config text.
pub open spec fn fallback_has_block(content: Seq<char>) -> bool {
    let ls = text_lines(content);
    scan_lines(ls, ls.len() as int).0
}

/// Scans a config that the KDL parser rejects, line by line, for the bind
/// lines of its first `binds {` block (see [`scan_lines`]).
pub fn fallback_binds(content: &str) -> (r: Vec<Keybind>)
    ensures
        r@.map_values(|b: Keybind| bind_fields(b)) == fallback_spec(content@),
        forall|k: int| 0 <= k < r@.len() ==> #[trigger] r@[k].id == 0,
{
    fallback_scan(content).0
}

/// The tolerant scan of a config text: the bindings of its first `binds {`
/// block, and whether it has such a block.
fn fallback_scan(content: &str) -> (r: (Vec<Keybind>, bool))
    ensures
        r.0@.map_values(|b: Keybind| bind_fields(b)) == fallback_spec(content@),
        r.1 == fallback_has_block(content@),
        forall|k: int| 0 <= k < r.0@.len() ==> #[trigger] r.0@[k].id == 0,
{
    let cs = chars_of(content);
    let ls = lines_of(&cs);
    let ghost lv = views(ls@);
    let mut inside = false;
    let mut depth: u32 = 0;
    let mut done = false;
    let mut binds: Vec<Keybind> = Vec::new();
    let mut i: usize = 0;
    while i < ls.len()
        invariant
            i <= ls.len(),
            lv == views(ls@),
            lv == text_lines(content@),
            scan_lines(lv, i as int) == (inside, depth, done, binds@.map_values(
                |b: Keybind| bind_fields(b),
            )),
            forall|k: int| 0 <= k < binds@.len() ==> #[trigger] binds@[k].id == 0,
        decreases ls.len() - i,
    {
        assert(lv[i as int] == ls@[i as int]@);
        let t = trim_chars(&ls[i]);
        if !done {
            if !inside {
                if starts_with(&t, "binds {") {
                    inside = true;
                    depth = 1;
                }
            } else if t.len() == 1 && t[0] == '}' {
                assert(t@ =~= seq!['}']);
                depth = if depth < 1 {
                    0
                } else {
                    depth - 1
                };
                done = depth == 0;
            } else {
                proof {
                    if t@ == seq!['}'] {
                        assert(t@.len() == 1);
                    }
                }
                let opens = count_in(&t, '{');
                let closes = count_in(&t, '}');
                let up: u32 = if depth as u64 + opens as u64 > 4294967295 {
                    4294967295
                } else {
                    depth + opens
                };
                depth = if up < closes {
                    0
                } else {
                    up - closes
                };
                let ts = string_of(&t);
                if let Some(b) = parse_bind_line(ts.as_str()) {
                    let ghost before = binds@;
                    binds.push(b);
                    assert(binds@.map_values(|b: Keybind| bind_fields(b)) =~= before.map_values(
                        |b: Keybind| bind_fields(b),
                    ).push(bind_fields(b)));
                }
            }
        }
        i = i + 1;
    }
    (binds, inside)
}

/// The document a config file's text parses to, when it is handed to the
/// KDL parser and parses.
pub open spec fn kdl_import_read(content: Seq<char>) -> Option<Document> {
    if kdl_admissible(content) {
        match kdl_parse(content) {
            Ok(doc) => Some(doc),
            Err(_) => None,
        }
    } else {
        None
    }
}

/// The items a config file's text contributes (see [`config_import_items`]).
pub open spec fn import_items_of(content: Seq<char>) -> Seq<
    Result<Seq<char>, (Seq<char>, Seq<char>, Seq<char>, bool, u32, bool)>,
> {
    match kdl_import_read(content) {
        Some(doc) => doc_items(doc.nodes@, block_stop(doc.nodes@)),
        None => fallback_spec(content).map_values(
            |b: (Seq<char>, Seq<char>, Seq<char>, bool, u32, bool)|
                Err::<Seq<char>, (Seq<char>, Seq<char>, Seq<char>, bool, u32, bool)>(b),
        ),
    }
}

/// Whether a config file's text holds a `binds` block (see
/// [`config_import_items`]).
pub open spec fn import_has_block(content: Seq<char>) -> bool {
    match kdl_import_read(content) {
        Some(doc) => first_block(doc.nodes@, 0) < doc.nodes@.len(),
        None => fallback_has_block(content),
    }
}

/// What a config file's text contributes to the import: its items up to
/// its first `binds { … }` block when it is handed to the KDL parser (see
/// [`kdl_admissible`]) and parses, else the bindings of the first `binds {`
/// block that the tolerant scanner finds; and whether there is such a block.
pub fn config_import_items(content: &str) -> (r: ConfigImport)
    ensures
        item_views(r.items@) == import_items_of(content@),
        r.has_block == import_has_block(content@),
        ids_unassigned(r.items@),
{
    match read_kdl(content) {
        Ok(doc) => config_items(&doc),
        Err(_) => {
            let (bs, has_block) = fallback_scan(content);
            let ghost all = bs@.map_values(
                |b: Keybind| Err::<Seq<char>, (Seq<char>, Seq<char>, Seq<char>, bool, u32, bool)>(bind_fields(b)),
            );
            let mut rest = bs;
            let mut out: Vec<ImportItem> = Vec::new();
            assert(item_views(out@) + rest@.map_values(
                |b: Keybind| Err::<Seq<char>, (Seq<char>, Seq<char>, Seq<char>, bool, u32, bool)>(bind_fields(b)),
            ) =~= all);
            while rest.len() > 0
                invariant
                    item_views(out@) + rest@.map_values(
                        |b: Keybind| Err::<Seq<char>, (Seq<char>, Seq<char>, Seq<char>, bool, u32, bool)>(bind_fields(b)),
                    ) == all,
                    ids_unassigned(out@),
                    forall|k: int| 0 <= k < rest@.len() ==> #[trigger] rest@[k].id == 0,
                decreases rest.len(),
            {
                let ghost r0 = rest@;
                let ghost o0 = out@;
                let b = rest.remove(0);
                out.push(ImportItem::Bind(b));
                assert(item_views(out@) =~= item_views(o0).push(Err(bind_fields(b))));
                assert(r0.map_values(
                    |b: Keybind| Err::<Seq<char>, (Seq<char>, Seq<char>, Seq<char>, bool, u32, bool)>(bind_fields(b)),
                ) =~= seq![Err::<Seq<char>, (Seq<char>, Seq<char>, Seq<char>, bool, u32, bool)>(bind_fields(b))] + rest@.map_values(
                    |b: Keybind| Err::<Seq<char>, (Seq<char>, Seq<char>, Seq<char>, bool, u32, bool)>(bind_fields(b)),
                ));
            }
            assert(item_views(out@) =~= all);
            ConfigImport { items: out, has_block }
        },
    }
}

// ── Include paths ────────────────────────────────────────────────────────────

/// `rel` joined onto `base` as a path: an absolute `rel` replaces `base`,
/// an empty `base` gives `rel`, else the two with one `/` between.
pub open spec fn path_join(base: Seq<char>, rel: Seq<char>) -> Seq<char> {
    if rel.len() > 0 && rel[0] == '/' {
        rel
    } else if base.len() == 0 {
        rel
    } else if base.last() == '/' {
        base + rel
    } else {
        base + seq!['/'] + rel
    }
}

/// The directory of a file path: the text before its last `/` (`/` when
/// that is the root); empty for a bare file name; `.` for the root itself
/// or an empty path.
pub open spec fn parent_dir(p: Seq<char>) -> Seq<char> {
    let k = crate::keybinds::char_rpos(p, '/', p.len() as int);
    if p.len() == 0 {
        "."@
    } else if k < 0 {
        Seq::empty()
    } else if k == 0 {
        if p.len() == 1 {
            "."@
        } else {
            "/"@
        }
    } else {
        p.subrange(0, k)
    }
}

/// The file an `include "PATH"` of the config at `parent` names: `~/REST`
/// under the home directory when there is one, an absolute path as it is,
/// anything else relative to the including file's directory.
pub open spec fn include_target_spec(parent: Seq<char>, named: Seq<char>, home: Option<Seq<char>>) -> Seq<char> {
    if named.len() >= 2 && named[0] == '~' && named[1] == '/' && home is Some {
        path_join(home->0, named.subrange(2, named.len() as int))
    } else if named.len() > 0 && named[0] == '/' {
        named
    } else {
        path_join(parent_dir(parent), named)
    }
}

fn join_chars(base: &Vec<char>, rel: &Vec<char>) -> (r: Vec<char>)
    ensures
        r@ == path_join(base@, rel@),
{
    let mut out: Vec<char> = Vec::new();
    if rel.len() > 0 && rel[0] == '/' {
        crate::text::push_all(&mut out, rel);
    } else if base.len() == 0 {
        crate::text::push_all(&mut out, rel);
    } else {
        crate::text::push_all(&mut out, base);
        if base[base.len() - 1] != '/' {
            out.push('/');
        }
        crate::text::push_all(&mut out, rel);
    }
    out
}

/// The file an include names (see [`include_target_spec`]).
pub fn include_target(parent_config: &str, named: &str, home: Option<&str>) -> (r: String)
    ensures
        r@ == include_target_spec(
            parent_config@,
            named@,
            match home {
                Some(h) => Some(h@),
                None => None,
            },
        ),
{
    let inc = chars_of(named);
    if inc.len() >= 2 && inc[0] == '~' && inc[1] == '/' {
        if let Some(h) = home {
            let rest = crate::text::slice(&inc, 2, inc.len());
            return string_of(&join_chars(&chars_of(h), &rest));
        }
    }
    if inc.len() > 0 && inc[0] == '/' {
        return named.to_owned();
    }
    let p = chars_of(parent_config);
    let dir: Vec<char> = if p.len() == 0 {
        chars_of(".")
    } else {
        match crate::keybinds::rfind_char(&p, '/') {
            None => Vec::new(),
            Some(k) => if k == 0 {
                if p.len() == 1 {
                    chars_of(".")
                } else {
                    chars_of("/")
                }
            } else {
                crate::text::slice(&p, 0, k)
            },
        }
    };
    proof {
        reveal_strlit(".");
        reveal_strlit("/");
    }
    assert(dir@ == parent_dir(parent_config@));
    string_of(&join_chars(&dir, &inc))
}


// ── Merging an import ────────────────────────────────────────────────────────

/// The keys of some bindings.
pub open spec fn keys_of(s: Seq<Keybind>) -> Seq<Seq<char>> {
    s.map_values(|b: Keybind| b.key@)
}

/// `existing` followed by each imported binding whose key is on no binding
/// before it, existing or imported earlier.
pub open spec fn merged_binds(existing: Seq<Keybind>, imported: Seq<Keybind>) -> Seq<Keybind>
    decreases imported.len(),
{
    if imported.len() == 0 {
        existing
    } else {
        let m = merged_binds(existing, imported.drop_last());
        if keys_of(m).contains(imported.last().key@) {
            m
        } else {
            m.push(imported.last())
        }
    }
}

fn has_key(binds: &Vec<Keybind>, key: &String) -> (r: bool)
    ensures
        r == keys_of(binds@).contains(key@),
{
    let mut i: usize = 0;
    while i < binds.len()
        invariant
            i <= binds.len(),
            forall|j: int| 0 <= j < i ==> binds@[j].key@ != key@,
        decreases binds.len() - i,
    {
        if binds[i].key == *key {
            assert(keys_of(binds@)[i as int] == key@);
            return true;
        }
        i = i + 1;
    }
    assert(!keys_of(binds@).contains(key@)) by {
        if keys_of(binds@).contains(key@) {
            let j = choose|j: int| 0 <= j < keys_of(binds@).len() && keys_of(binds@)[j] == key@;
            assert(binds@[j].key@ == key@);
        }
    }
    false
}

/// Appends to `binds` the imported bindings whose keys are new (see
/// [`merged_binds`]) and returns how many were added.
pub fn add_imported_binds(binds: &mut Vec<Keybind>, imported: Vec<Keybind>) -> (r: usize)
    ensures
        final(binds)@ == merged_binds(old(binds)@, imported@),
        r == final(binds)@.len() - old(binds)@.len(),
{
    let ghost start = binds@;
    let ghost all = imported@;
    let n: usize = imported.len();
    let mut rest = imported;
    let mut added: usize = 0;
    let mut i: usize = 0;
    while rest.len() > 0
        invariant
            i + rest@.len() == all.len(),
            all.len() == n,
            added <= i,
            rest@ == all.subrange(i as int, all.len() as int),
            binds@ == merged_binds(start, all.subrange(0, i as int)),
            added == binds@.len() - start.len(),
        decreases rest.len(),
    {
        assert(all.subrange(0, i + 1).drop_last() =~= all.subrange(0, i as int));
        let b = rest.remove(0);
        assert(b == all[i as int]);
        if !has_key(binds, &b.key) {
            binds.push(b);
            added = added + 1;
        }
        i = i + 1;
        assert(rest@ =~= all.subrange(i as int, all.len() as int));
    }
    assert(all.subrange(0, i as int) =~= all);
    added
}

/// Merging an import never gives two bindings one key: when the existing
/// bindings' keys are distinct, so are those of the merged list.
pub proof fn law_import_adds_no_duplicate_keys(existing: Seq<Keybind>, imported: Seq<Keybind>)
    requires
        keys_of(existing).no_duplicates(),
    ensures
        keys_of(merged_binds(existing, imported)).no_duplicates(),
    decreases imported.len(),
{
    if imported.len() > 0 {
        law_import_adds_no_duplicate_keys(existing, imported.drop_last());
        let m = merged_binds(existing, imported.drop_last());
        if !keys_of(m).contains(imported.last().key@) {
            assert(keys_of(m.push(imported.last())) =~= keys_of(m).push(imported.last().key@));
        }
    }
}

// ── Include guard ────────────────────────────────────────────────────────────

/// The deepest include nesting that is followed.
pub const MAX_INCLUDE_DEPTH: usize = 16;

/// Remembers the config files already imported, so that an include cycle is
/// followed once, and refuses nesting deeper than [`MAX_INCLUDE_DEPTH`].
pub struct IncludeGuard {
    visited: Vec<String>,
}

impl View for IncludeGuard {
    type V = Seq<Seq<char>>;

    closed spec fn view(&self) -> Seq<Seq<char>> {
        self.visited@.map_values(|s: String| s@)
    }
}

impl IncludeGuard {
    /// A guard that has seen no file.
    pub fn new() -> (r: Self)
        ensures
            r@ == Seq::<Seq<char>>::empty(),
    {
        let r = IncludeGuard { visited: Vec::new() };
        assert(r@ =~= Seq::<Seq<char>>::empty());
        r
    }

    /// Whether the file `identity`, reached at nesting `depth`, is to be
    /// imported: not too deep and not seen before. An admitted file is
    /// remembered.
    pub fn enter(&mut self, identity: &str, depth: usize) -> (r: bool)
        ensures
            r == (depth <= MAX_INCLUDE_DEPTH && !old(self)@.contains(identity@)),
            final(self)@ == (if r {
                old(self)@.push(identity@)
            } else {
                old(self)@
            }),
    {
        if depth > MAX_INCLUDE_DEPTH {
            return false;
        }
        let id: String = identity.to_owned();
        let mut i: usize = 0;
        while i < self.visited.len()
            invariant
                i <= self.visited.len(),
                id@ == identity@,
                forall|j: int| 0 <= j < i ==> self.visited@[j]@ != identity@,
            decreases self.visited.len() - i,
        {
            if self.visited[i] == id {
                assert(self@[i as int] == identity@);
                return false;
            }
            i = i + 1;
        }
        assert(!self@.contains(identity@)) by {
            if self@.contains(identity@) {
                let j = choose|j: int| 0 <= j < self@.len() && self@[j] == identity@;
                assert(self.visited@[j]@ == identity@);
            }
        }
        let ghost before = self@;
        self.visited.push(id);
        assert(self@ =~= before.push(identity@));
        true
    }
}

// ── The walk over a config and its includes ──────────────────────────────────

/// A config file being read: its path, its include depth, the items still
/// to take from it, and whether it holds a `binds` block.
#[derive(Debug)]
pub struct WalkFrame {
    pub path: String,
    pub depth: usize,
    pub items: Vec<ImportItem>,
    pub has_block: bool,
}

/// What the caller of [`ImportWalk::step`] is to do.
#[derive(Debug, PartialEq, Eq)]
pub enum WalkAction {
    /// Nothing: call `step` again.
    Continue,
    /// Read the config file at `path` and report it with
    /// [`ImportWalk::opened`].
    Read { path: String, depth: usize },
    /// The import is complete: take the bindings.
    Finish,
}

/// The import of bindings from a niri config and the files it includes, as
/// a walk that the caller drives: files are read depth first, each
/// include where it stands, each file once and none nested deeper than
/// [`MAX_INCLUDE_DEPTH`]; the walk ends with the first `binds` block.
pub struct ImportWalk {
    pub guard: IncludeGuard,
    pub frames: Vec<WalkFrame>,
    /// The file asked for and not yet reported, with its depth.
    pub pending: Option<(String, usize)>,
    pub binds: Vec<Keybind>,
    /// Whether the first `binds` block has been taken.
    pub done: bool,
    pub home: Option<String>,
}

/// The view of an optional home directory.
pub open spec fn home_view(h: Option<String>) -> Option<Seq<char>> {
    match h {
        Some(s) => Some(s@),
        None => None,
    }
}

/// `b` is `a` with its first item taken.
pub open spec fn frame_advanced(a: WalkFrame, b: WalkFrame) -> bool {
    &&& b.path == a.path
    &&& b.depth == a.depth
    &&& b.has_block == a.has_block
    &&& b.items@ == a.items@.drop_first()
}

impl ImportWalk {
    /// A walk that starts with the config at `root`; `home` is the home
    /// directory that `~/` includes name.
    pub fn new(root: &str, home: Option<&str>) -> (r: Self)
        ensures
            r.guard@ == Seq::<Seq<char>>::empty(),
            r.frames@.len() == 0,
            r.pending matches Some(p) && p.0@ == root@ && p.1 == 0,
            r.binds@.len() == 0,
            !r.done,
            home_view(r.home) == match home {
                Some(h) => Some(h@),
                None => None,
            },
    {
        let home = match home {
            Some(h) => Some(h.to_owned()),
            None => None,
        };
        ImportWalk {
            guard: IncludeGuard::new(),
            frames: Vec::new(),
            pending: Some((root.to_owned(), 0)),
            binds: Vec::new(),
            done: false,
            home,
        }
    }

    /// One step of the walk. When it is done, or nothing is left, it
    /// finishes; a file asked for and not yet reported is asked for again;
    /// a file with no items left is closed, and the walk is done when that
    /// file held the first `binds` block; a binding is taken; an include is
    /// asked for unless it would nest deeper than [`MAX_INCLUDE_DEPTH`].
    pub fn step(&mut self) -> (r: WalkAction)
        ensures
            old(self).done ==> r is Finish && *final(self) == *old(self),
            !old(self).done && old(self).pending is Some ==> (r matches WalkAction::Read {
                path,
                depth,
            } && path@ == (old(self).pending->0).0@ && depth == (old(self).pending->0).1)
                && *final(self) == *old(self),
            !old(self).done && old(self).pending is None && old(self).frames@.len() == 0 ==> r is Finish
                && *final(self) == *old(self),
            !old(self).done && old(self).pending is None && old(self).frames@.len() > 0 ==> {
                let top = old(self).frames@.last();
                &&& final(self).guard == old(self).guard
                &&& final(self).home == old(self).home
                &&& if top.items@.len() == 0 {
                    &&& r is Continue
                    &&& final(self).frames@ == old(self).frames@.drop_last()
                    &&& final(self).done == top.has_block
                    &&& final(self).binds == old(self).binds
                    &&& final(self).pending is None
                } else {
                    &&& final(self).frames@.len() == old(self).frames@.len()
                    &&& final(self).frames@.drop_last() == old(self).frames@.drop_last()
                    &&& frame_advanced(top, final(self).frames@.last())
                    &&& !final(self).done
                    &&& match top.items@[0] {
                        ImportItem::Bind(b) => r is Continue && final(self).binds@ == old(
                            self,
                        ).binds@.push(b) && final(self).pending is None,
                        ImportItem::Include(x) => final(self).binds == old(self).binds && if top.depth
                            >= MAX_INCLUDE_DEPTH {
                            r is Continue && final(self).pending is None
                        } else {
                            (r matches WalkAction::Read { path, depth } && path@
                                == include_target_spec(top.path@, x@, home_view(old(self).home))
                                && depth == top.depth + 1) && (final(self).pending matches Some(p)
                                && p.0@ == include_target_spec(top.path@, x@, home_view(old(self).home))
                                && p.1 == top.depth + 1)
                        },
                    }
                }
            },
    {
        if self.done {
            return WalkAction::Finish;
        }
        if let Some(p) = &self.pending {
            return WalkAction::Read { path: p.0.clone(), depth: p.1 };
        }
        if self.frames.len() == 0 {
            return WalkAction::Finish;
        }
        match self.frames.pop() {
            None => WalkAction::Finish,
            Some(mut top) => {
                if top.items.len() == 0 {
                    self.done = top.has_block;
                    return WalkAction::Continue;
                }
                let item = top.items.remove(0);
                let action = match item {
                    ImportItem::Bind(b) => {
                        self.binds.push(b);
                        WalkAction::Continue
                    },
                    ImportItem::Include(x) => {
                        if top.depth >= MAX_INCLUDE_DEPTH {
                            WalkAction::Continue
                        } else {
                            let home = match &self.home {
                                Some(h) => Some(h.as_str()),
                                None => None,
                            };
                            let target = include_target(top.path.as_str(), x.as_str(), home);
                            let depth = top.depth + 1;
                            self.pending = Some((target.clone(), depth));
                            WalkAction::Read { path: target, depth }
                        }
                    },
                };
                self.frames.push(top);
                action
            },
        }
    }

    /// Reports the file asked for: `identity` names it (two paths to one
    /// file have one identity) and `content` is its text, `None` when it
    /// could not be read. A file seen before, or nested too deep, adds
    /// nothing; otherwise it is remembered and, when read, its items (see
    /// [`config_import_items`]) are taken next. Without a pending file
    /// nothing changes.
    pub fn opened(&mut self, identity: &str, content: Option<&str>)
        ensures
            old(self).pending is None ==> *final(self) == *old(self),
            old(self).pending matches Some(p) ==> {
                let admitted = p.1 <= MAX_INCLUDE_DEPTH && !old(self).guard@.contains(identity@);
                &&& final(self).pending is None
                &&& final(self).binds == old(self).binds
                &&& final(self).done == old(self).done
                &&& final(self).home == old(self).home
                &&& final(self).guard@ == if admitted {
                    old(self).guard@.push(identity@)
                } else {
                    old(self).guard@
                }
                &&& if admitted && content is Some {
                    let text = content->0@;
                    let f = final(self).frames@.last();
                    &&& final(self).frames@.len() == old(self).frames@.len() + 1
                    &&& final(self).frames@.drop_last() == old(self).frames@
                    &&& f.path == p.0
                    &&& f.depth == p.1
                    &&& item_views(f.items@) == import_items_of(text)
                    &&& f.has_block == import_has_block(text)
                } else {
                    final(self).frames == old(self).frames
                }
            },
    {
        let pending = self.pending.take();
        if let Some((path, depth)) = pending {
            let admitted = self.guard.enter(identity, depth);
            if admitted {
                if let Some(text) = content {
                    let ci = config_import_items(text);
                    self.frames.push(WalkFrame { path, depth, items: ci.items, has_block: ci.has_block });
                }
            }
        }
    }

    /// The bindings taken, in order.
    pub fn into_binds(self) -> (r: Vec<Keybind>)
        ensures
            r == self.binds,
    {
        self.binds
    }
}

} // verus!
