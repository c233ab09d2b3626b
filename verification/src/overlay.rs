//! Reading the hand-editable sections of the managed KDL fragment (`binds`,
//! `output`, `window-rule`, `layer-rule`) back into the settings model.

use vstd::prelude::*;
use vstd::string::*;
use crate::kdl_doc::{
    kdl_admissible, kdl_parse, kdl_refusal, as_bool, as_fixed, as_int, as_str, deref_opt, doc_arg, find_node, first_arg, get_arg,
    get_node, node_arg, node_prop, prop, value_bool, value_fixed, value_int, value_str, Document,
    Node, Value,
};
use crate::keybinds::{bind_fields, bind_line, char_pos, parse_bind_line};
use crate::text::{chars_of, decimal_fixed, parse_fixed, parse_u32, parse_u32_spec, slice};
use crate::types::{
    BlockOutFrom, Keybind, LayerRule, OutputConfig, OutputTransform, SettingsConfig, TriState,
    VrrMode, WindowRule,
};

verus! {

// ── Small readers ────────────────────────────────────────────────────────────

pub open spec fn tri_of(b: Option<bool>) -> TriState {
    match b {
        Some(true) => TriState::On,
        Some(false) => TriState::Off,
        None => TriState::Default,
    }
}

pub open spec fn or_empty(s: Option<Seq<char>>) -> Seq<char> {
    match s {
        Some(t) => t,
        None => Seq::empty(),
    }
}

pub open spec fn or_zero(v: Option<i64>) -> i64 {
    match v {
        Some(x) => x,
        None => 0,
    }
}

/// A size limit read as `i64`, negatives as 0, then cast to `u32` (which
/// keeps the low 32 bits).
pub open spec fn size_limit(v: Option<i64>) -> u32 {
    let x = or_zero(v);
    (if x < 0 {
        0
    } else {
        x
    }) as u32
}

/// The inverse of `BlockOutFrom::as_kdl_str`; anything else is `Nowhere`.
pub open spec fn block_out_of(s: Option<Seq<char>>) -> BlockOutFrom {
    if s == Some("screencast"@) {
        BlockOutFrom::Screencast
    } else if s == Some("screen-capture"@) {
        BlockOutFrom::ScreenCapture
    } else {
        BlockOutFrom::Nowhere
    }
}

/// An output transform word; anything unknown is `Normal`.
pub open spec fn transform_of(s: Seq<char>) -> OutputTransform {
    if s == "90"@ {
        OutputTransform::Rotate90
    } else if s == "180"@ {
        OutputTransform::Rotate180
    } else if s == "270"@ {
        OutputTransform::Rotate270
    } else if s == "flipped"@ {
        OutputTransform::Flipped
    } else if s == "flipped-90"@ {
        OutputTransform::Flipped90
    } else if s == "flipped-180"@ {
        OutputTransform::Flipped180
    } else if s == "flipped-270"@ {
        OutputTransform::Flipped270
    } else {
        OutputTransform::Normal
    }
}

/// A layer rule's `shadow { on|off }` block as a tri-state: the first
/// `shadow` node, `on` before `off`.
pub open spec fn shadow_of(c: Document) -> TriState {
    match get_node(c, "shadow"@) {
        Some(n) => match n.children {
            Some(inner) => if get_node(inner, "on"@) is Some {
                TriState::On
            } else if get_node(inner, "off"@) is Some {
                TriState::Off
            } else {
                TriState::Default
            },
            None => TriState::Default,
        },
        None => TriState::Default,
    }
}

fn name_is(n: &String, lit: &str) -> (r: bool)
    ensures
        r == (n@ == lit@),
{
    let t: String = lit.to_owned();
    *n == t
}

fn str_eq(s: &String, lit: &str) -> (r: bool)
    ensures
        r == (s@ == lit@),
{
    name_is(s, lit)
}

/// The tri-state of a boolean first argument of the first node `name`.
fn tri_child(doc: &Document, name: &str) -> (r: TriState)
    ensures
        r == tri_of(value_bool(get_arg(*doc, name@))),
{
    match as_bool(doc_arg(doc, name)) {
        Some(true) => TriState::On,
        Some(false) => TriState::Off,
        None => TriState::Default,
    }
}

/// The tri-state of a boolean property.
fn tri_property(node: &Node, key: &str) -> (r: TriState)
    ensures
        r == tri_of(value_bool(prop(*node, key@))),
{
    match as_bool(node_prop(node, key)) {
        Some(true) => TriState::On,
        Some(false) => TriState::Off,
        None => TriState::Default,
    }
}

/// The string first argument of the first node `name`, or empty.
fn child_string(doc: &Document, name: &str) -> (r: String)
    ensures
        r@ == or_empty(value_str(get_arg(*doc, name@))),
{
    match as_str(doc_arg(doc, name)) {
        Some(s) => s,
        None => String::new(),
    }
}

/// A number first argument in units of `10^-scale`, or 0.
fn child_fixed(doc: &Document, name: &str, scale: u32) -> (r: i64)
    requires
        scale <= 3,
    ensures
        r == or_zero(value_fixed(get_arg(*doc, name@), scale as nat)),
{
    match as_fixed(doc_arg(doc, name), scale) {
        Some(v) => v,
        None => 0,
    }
}

/// A size limit first argument.
fn child_size(doc: &Document, name: &str) -> (r: u32)
    ensures
        r == size_limit(value_int(get_arg(*doc, name@))),
{
    let v = match as_int(doc_arg(doc, name)) {
        Some(x) => x,
        None => 0,
    };
    let w: i64 = if v < 0 {
        0
    } else {
        v
    };
    w as u32
}

/// Inverse of `BlockOutFrom::as_kdl_str`.
pub fn parse_block_out_from(value: Option<&String>) -> (r: BlockOutFrom)
    ensures
        r == block_out_of(match value {
            Some(s) => Some(s@),
            None => None,
        }),
{
    match value {
        Some(s) => if str_eq(s, "screencast") {
            BlockOutFrom::Screencast
        } else if str_eq(s, "screen-capture") {
            BlockOutFrom::ScreenCapture
        } else {
            BlockOutFrom::Nowhere
        },
        None => BlockOutFrom::Nowhere,
    }
}

/// Reads a layer-rule `shadow { on|off }` block back into a tri-state.
pub fn parse_shadow(doc: &Document) -> (r: TriState)
    ensures
        r == shadow_of(*doc),
{
    match find_node(doc, "shadow") {
        Some(n) => match &n.children {
            Some(inner) => if find_node(inner, "on").is_some() {
                TriState::On
            } else if find_node(inner, "off").is_some() {
                TriState::Off
            } else {
                TriState::Default
            },
            None => TriState::Default,
        },
        None => TriState::Default,
    }
}

fn transform_word(s: &String) -> (r: OutputTransform)
    ensures
        r == transform_of(s@),
{
    if str_eq(s, "90") {
        OutputTransform::Rotate90
    } else if str_eq(s, "180") {
        OutputTransform::Rotate180
    } else if str_eq(s, "270") {
        OutputTransform::Rotate270
    } else if str_eq(s, "flipped") {
        OutputTransform::Flipped
    } else if str_eq(s, "flipped-90") {
        OutputTransform::Flipped90
    } else if str_eq(s, "flipped-180") {
        OutputTransform::Flipped180
    } else if str_eq(s, "flipped-270") {
        OutputTransform::Flipped270
    } else {
        OutputTransform::Normal
    }
}

// ── Output modes ─────────────────────────────────────────────────────────────

/// A refresh rate in hertz as millihertz: the decimal read to the nearest
/// millihertz, negatives as 0 and values past `u32::MAX` as `u32::MAX`;
/// text that is not a decimal number gives 0.
pub open spec fn refresh_mhz(t: Seq<char>) -> u32 {
    match decimal_fixed(t, 3) {
        Some(v) => if v < 0 {
            0
        } else if v > u32::MAX {
            u32::MAX
        } else {
            v as u32
        },
        None => 0,
    }
}

/// What a mode `WxH[@Hz]` sets as `(width, height, refresh_mhz)`; `None`
/// (nothing set) when the part before `@` has no `x`. A side that is not a
/// `u32` reads as 0.
pub open spec fn mode_of(m: Seq<char>) -> Option<(u32, u32, u32)> {
    let at = char_pos(m, '@', 0);
    let res = m.subrange(0, at);
    let refresh = if at < m.len() {
        m.subrange(at + 1, m.len() as int)
    } else {
        Seq::empty()
    };
    let x = char_pos(res, 'x', 0);
    if x >= res.len() {
        None
    } else {
        let w = match parse_u32_spec(res.subrange(0, x)) {
            Some(v) => v,
            None => 0,
        };
        let h = match parse_u32_spec(res.subrange(x + 1, res.len() as int)) {
            Some(v) => v,
            None => 0,
        };
        Some((w, h, refresh_mhz(refresh)))
    }
}

fn find_char_at(s: &Vec<char>, c: char) -> (r: usize)
    ensures
        r == char_pos(s@, c, 0),
        r <= s.len(),
{
    let mut i: usize = 0;
    while i < s.len() && s[i] != c
        invariant
            i <= s.len(),
            char_pos(s@, c, 0) == char_pos(s@, c, i as int),
        decreases s.len() - i,
    {
        i = i + 1;
    }
    i
}

fn refresh_of(t: &Vec<char>) -> (r: u32)
    ensures
        r == refresh_mhz(t@),
{
    match parse_fixed(t, 3) {
        Some(v) => if v < 0 {
            0
        } else if v > 4294967295 {
            4294967295
        } else {
            v as u32
        },
        None => 0,
    }
}

/// Reads a mode string `WxH[@Hz]` into an output (see [`mode_of`]); the
/// output is left as it was when the resolution has no `x`.
pub fn parse_mode(mode: &str, output: &mut OutputConfig)
    ensures
        match mode_of(mode@) {
            Some((w, h, r)) => {
                &&& final(output).mode_width == w
                &&& final(output).mode_height == h
                &&& final(output).mode_refresh_mhz == r
                &&& final(output).name == old(output).name
                &&& final(output).off == old(output).off
                &&& final(output).scale == old(output).scale
                &&& final(output).transform == old(output).transform
                &&& final(output).position_set == old(output).position_set
                &&& final(output).position_x == old(output).position_x
                &&& final(output).position_y == old(output).position_y
                &&& final(output).vrr == old(output).vrr
            },
            None => *final(output) == *old(output),
        },
{
    let m = chars_of(mode);
    let at = find_char_at(&m, '@');
    let res = slice(&m, 0, at);
    let refresh = if at < m.len() {
        slice(&m, at + 1, m.len())
    } else {
        Vec::new()
    };
    assert(refresh@ =~= (if at < m@.len() {
        m@.subrange(at + 1, m@.len() as int)
    } else {
        Seq::<char>::empty()
    }));
    let x = find_char_at(&res, 'x');
    if x >= res.len() {
        return;
    }
    let ws = slice(&res, 0, x);
    let hs = slice(&res, x + 1, res.len());
    output.mode_width = match parse_u32(&ws) {
        Some(v) => v,
        None => 0,
    };
    output.mode_height = match parse_u32(&hs) {
        Some(v) => v,
        None => 0,
    };
    output.mode_refresh_mhz = refresh_of(&refresh);
}

// ── Rules and outputs ────────────────────────────────────────────────────────

pub open spec fn opt_view(s: Option<String>) -> Option<Seq<char>> {
    match s {
        Some(t) => Some(t@),
        None => None,
    }
}

/// The string property `key` of the last `match` node among the first `k`
/// nodes that carries it as a string. The writer puts each matcher on a
/// `match` line of its own, so they are merged.
pub open spec fn match_str(nodes: Seq<Node>, key: Seq<char>, k: int) -> Option<Seq<char>>
    decreases k,
{
    if k <= 0 || k > nodes.len() {
        None
    } else if nodes[k - 1].name@ == "match"@ && value_str(prop(nodes[k - 1], key)) is Some {
        value_str(prop(nodes[k - 1], key))
    } else {
        match_str(nodes, key, k - 1)
    }
}

/// The `at-startup` tri-state of the last `match` node among the first `k`
/// nodes that has an `at-startup` property.
pub open spec fn match_tri(nodes: Seq<Node>, k: int) -> Option<TriState>
    decreases k,
{
    if k <= 0 || k > nodes.len() {
        None
    } else if nodes[k - 1].name@ == "match"@ && prop(nodes[k - 1], "at-startup"@) is Some {
        Some(tri_of(value_bool(prop(nodes[k - 1], "at-startup"@))))
    } else {
        match_tri(nodes, k - 1)
    }
}

pub open spec fn tri_or_default(t: Option<TriState>) -> TriState {
    match t {
        Some(x) => x,
        None => TriState::Default,
    }
}

/// A window rule as read from the children of a `window-rule` node.
pub open spec fn window_rule_of(r: WindowRule, c: Document) -> bool {
    let ns = c.nodes@;
    &&& r.id == 0
    &&& r.match_app_id@ == or_empty(match_str(ns, "app-id"@, ns.len() as int))
    &&& r.match_title@ == or_empty(match_str(ns, "title"@, ns.len() as int))
    &&& r.match_at_startup == tri_or_default(match_tri(ns, ns.len() as int))
    &&& r.open_maximized == tri_of(value_bool(get_arg(c, "open-maximized"@)))
    &&& r.open_fullscreen == tri_of(value_bool(get_arg(c, "open-fullscreen"@)))
    &&& r.open_floating == tri_of(value_bool(get_arg(c, "open-floating"@)))
    &&& r.open_focused == tri_of(value_bool(get_arg(c, "open-focused"@)))
    &&& r.open_on_output@ == or_empty(value_str(get_arg(c, "open-on-output"@)))
    &&& r.open_on_workspace@ == or_empty(value_str(get_arg(c, "open-on-workspace"@)))
    &&& r.opacity == or_zero(value_fixed(get_arg(c, "opacity"@), 2))
    &&& r.block_out_from == block_out_of(value_str(get_arg(c, "block-out-from"@)))
    &&& r.draw_border_with_background == tri_of(
        value_bool(get_arg(c, "draw-border-with-background"@)),
    )
    &&& r.geometry_corner_radius == or_zero(value_fixed(get_arg(c, "geometry-corner-radius"@), 1))
    &&& r.clip_to_geometry == tri_of(value_bool(get_arg(c, "clip-to-geometry"@)))
    &&& r.variable_refresh_rate == tri_of(value_bool(get_arg(c, "variable-refresh-rate"@)))
    &&& r.min_width == size_limit(value_int(get_arg(c, "min-width"@)))
    &&& r.max_width == size_limit(value_int(get_arg(c, "max-width"@)))
    &&& r.min_height == size_limit(value_int(get_arg(c, "min-height"@)))
    &&& r.max_height == size_limit(value_int(get_arg(c, "max-height"@)))
    &&& r.scroll_factor == or_zero(value_fixed(get_arg(c, "scroll-factor"@), 2))
}

/// A layer rule as read from the children of a `layer-rule` node.
pub open spec fn layer_rule_of(r: LayerRule, c: Document) -> bool {
    let ns = c.nodes@;
    &&& r.id == 0
    &&& r.match_namespace@ == or_empty(match_str(ns, "namespace"@, ns.len() as int))
    &&& r.match_at_startup == tri_or_default(match_tri(ns, ns.len() as int))
    &&& r.opacity == or_zero(value_fixed(get_arg(c, "opacity"@), 2))
    &&& r.block_out_from == block_out_of(value_str(get_arg(c, "block-out-from"@)))
    &&& r.shadow == shadow_of(c)
    &&& r.geometry_corner_radius == or_zero(value_fixed(get_arg(c, "geometry-corner-radius"@), 1))
    &&& r.place_within_backdrop == tri_of(value_bool(get_arg(c, "place-within-backdrop"@)))
}

/// The merged matchers of a rule block: `(app-id, title, namespace,
/// at-startup)`.
fn read_matchers(c: &Document) -> (r: (String, String, String, TriState))
    ensures
        r.0@ == or_empty(match_str(c.nodes@, "app-id"@, c.nodes@.len() as int)),
        r.1@ == or_empty(match_str(c.nodes@, "title"@, c.nodes@.len() as int)),
        r.2@ == or_empty(match_str(c.nodes@, "namespace"@, c.nodes@.len() as int)),
        r.3 == tri_or_default(match_tri(c.nodes@, c.nodes@.len() as int)),
{
    let mut app: Option<String> = None;
    let mut title: Option<String> = None;
    let mut ns: Option<String> = None;
    let mut at: Option<TriState> = None;
    let mut i: usize = 0;
    while i < c.nodes.len()
        invariant
            i <= c.nodes.len(),
            opt_view(app) == match_str(c.nodes@, "app-id"@, i as int),
            opt_view(title) == match_str(c.nodes@, "title"@, i as int),
            opt_view(ns) == match_str(c.nodes@, "namespace"@, i as int),
            at == match_tri(c.nodes@, i as int),
        decreases c.nodes.len() - i,
    {
        let node = &c.nodes[i];
        if name_is(&node.name, "match") {
            if let Some(s) = as_str(node_prop(node, "app-id")) {
                app = Some(s);
            }
            if let Some(s) = as_str(node_prop(node, "title")) {
                title = Some(s);
            }
            if let Some(s) = as_str(node_prop(node, "namespace")) {
                ns = Some(s);
            }
            if node_prop(node, "at-startup").is_some() {
                at = Some(tri_property(node, "at-startup"));
            }
        }
        i = i + 1;
    }
    let a = match app {
        Some(s) => s,
        None => String::new(),
    };
    let t = match title {
        Some(s) => s,
        None => String::new(),
    };
    let n = match ns {
        Some(s) => s,
        None => String::new(),
    };
    let st = match at {
        Some(x) => x,
        None => TriState::Default,
    };
    (a, t, n, st)
}

/// Reads a window rule from the children of a `window-rule` node.
pub fn read_window_rule(c: &Document) -> (r: WindowRule)
    ensures
        window_rule_of(r, *c),
{
    let (app, title, _ns, at) = read_matchers(c);
    let block = as_str(doc_arg(c, "block-out-from"));
    WindowRule {
        id: 0,
        match_app_id: app,
        match_title: title,
        match_at_startup: at,
        open_maximized: tri_child(c, "open-maximized"),
        open_fullscreen: tri_child(c, "open-fullscreen"),
        open_floating: tri_child(c, "open-floating"),
        open_focused: tri_child(c, "open-focused"),
        open_on_output: child_string(c, "open-on-output"),
        open_on_workspace: child_string(c, "open-on-workspace"),
        opacity: child_fixed(c, "opacity", 2),
        block_out_from: parse_block_out_from(block.as_ref()),
        draw_border_with_background: tri_child(c, "draw-border-with-background"),
        geometry_corner_radius: child_fixed(c, "geometry-corner-radius", 1),
        clip_to_geometry: tri_child(c, "clip-to-geometry"),
        variable_refresh_rate: tri_child(c, "variable-refresh-rate"),
        min_width: child_size(c, "min-width"),
        max_width: child_size(c, "max-width"),
        min_height: child_size(c, "min-height"),
        max_height: child_size(c, "max-height"),
        scroll_factor: child_fixed(c, "scroll-factor", 2),
    }
}

/// Reads a layer rule from the children of a `layer-rule` node.
pub fn read_layer_rule(c: &Document) -> (r: LayerRule)
    ensures
        layer_rule_of(r, *c),
{
    let (_app, _title, ns, at) = read_matchers(c);
    let block = as_str(doc_arg(c, "block-out-from"));
    LayerRule {
        id: 0,
        match_namespace: ns,
        match_at_startup: at,
        opacity: child_fixed(c, "opacity", 2),
        block_out_from: parse_block_out_from(block.as_ref()),
        shadow: parse_shadow(c),
        geometry_corner_radius: child_fixed(c, "geometry-corner-radius", 1),
        place_within_backdrop: tri_child(c, "place-within-backdrop"),
    }
}

/// An output as read from an `output "NAME" { … }` node.
pub open spec fn output_of(o: OutputConfig, n: Node) -> bool {
    &&& o.name@ == or_empty(value_str(first_arg(n)))
    &&& match n.children {
        None => {
            &&& !o.off
            &&& o.mode_width == 0 && o.mode_height == 0 && o.mode_refresh_mhz == 0
            &&& o.scale == 0
            &&& o.transform == OutputTransform::Normal
            &&& !o.position_set && o.position_x == 0 && o.position_y == 0
            &&& o.vrr == VrrMode::Default
        },
        Some(c) => {
            &&& o.off == (get_node(c, "off"@) is Some)
            &&& (o.mode_width, o.mode_height, o.mode_refresh_mhz) == (match value_str(
                get_arg(c, "mode"@),
            ) {
                Some(m) => match mode_of(m) {
                    Some(t) => t,
                    None => (0u32, 0u32, 0u32),
                },
                None => (0u32, 0u32, 0u32),
            })
            &&& o.scale == or_zero(value_fixed(get_arg(c, "scale"@), 2))
            &&& o.transform == (match value_str(get_arg(c, "transform"@)) {
                Some(t) => transform_of(t),
                None => OutputTransform::Normal,
            })
            &&& match get_node(c, "position"@) {
                Some(p) => {
                    &&& o.position_set
                    &&& o.position_x == or_zero(value_int(prop(p, "x"@))) as i32
                    &&& o.position_y == or_zero(value_int(prop(p, "y"@))) as i32
                },
                None => !o.position_set && o.position_x == 0 && o.position_y == 0,
            }
            &&& o.vrr == (match get_node(c, "variable-refresh-rate"@) {
                Some(v) => if value_bool(prop(v, "on-demand"@)) == Some(true) {
                    VrrMode::OnDemand
                } else {
                    VrrMode::On
                },
                None => VrrMode::Default,
            })
        },
    }
}

/// Reads an output from an `output` node.
pub fn read_output(n: &Node) -> (r: OutputConfig)
    ensures
        output_of(r, *n),
{
    let name = match as_str(node_arg(n)) {
        Some(s) => s,
        None => String::new(),
    };
    let mut o = OutputConfig::new(name.as_str());
    if let Some(c) = &n.children {
        o.off = find_node(c, "off").is_some();
        if let Some(mode) = as_str(doc_arg(c, "mode")) {
            parse_mode(mode.as_str(), &mut o);
        }
        o.scale = child_fixed(c, "scale", 2);
        if let Some(t) = as_str(doc_arg(c, "transform")) {
            o.transform = transform_word(&t);
        }
        if let Some(p) = find_node(c, "position") {
            o.position_set = true;
            let x = match as_int(node_prop(p, "x")) {
                Some(v) => v,
                None => 0,
            };
            let y = match as_int(node_prop(p, "y")) {
                Some(v) => v,
                None => 0,
            };
            o.position_x = x as i32;
            o.position_y = y as i32;
        }
        if let Some(v) = find_node(c, "variable-refresh-rate") {
            o.vrr = if as_bool(node_prop(v, "on-demand")) == Some(true) {
                VrrMode::OnDemand
            } else {
                VrrMode::On
            };
        }
    }
    o
}

// ── The overlay ──────────────────────────────────────────────────────────────

/// The nodes among the first `k` for which `keep` holds, in order.
pub open spec fn select(nodes: Seq<Node>, keep: spec_fn(Node) -> bool, k: int) -> Seq<Node>
    decreases k,
{
    if k <= 0 || k > nodes.len() {
        Seq::empty()
    } else if keep(nodes[k - 1]) {
        select(nodes, keep, k - 1).push(nodes[k - 1])
    } else {
        select(nodes, keep, k - 1)
    }
}

/// An `output` node with a string name.
pub open spec fn is_output_node(n: Node) -> bool {
    n.name@ == "output"@ && value_str(first_arg(n)) is Some
}

/// A `window-rule` node with a block.
pub open spec fn is_window_rule_node(n: Node) -> bool {
    n.name@ == "window-rule"@ && n.children is Some
}

/// A `layer-rule` node with a block.
pub open spec fn is_layer_rule_node(n: Node) -> bool {
    n.name@ == "layer-rule"@ && n.children is Some
}

pub open spec fn output_nodes(doc: Document) -> Seq<Node> {
    select(doc.nodes@, |n: Node| is_output_node(n), doc.nodes@.len() as int)
}

pub open spec fn window_rule_nodes(doc: Document) -> Seq<Node> {
    select(doc.nodes@, |n: Node| is_window_rule_node(n), doc.nodes@.len() as int)
}

pub open spec fn layer_rule_nodes(doc: Document) -> Seq<Node> {
    select(doc.nodes@, |n: Node| is_layer_rule_node(n), doc.nodes@.len() as int)
}

/// The bind lines among the first `k` children of a `binds` block that read
/// as bindings, in order.
pub open spec fn parsed_binds(nodes: Seq<Node>, k: int) -> Seq<
    (Seq<char>, Seq<char>, Seq<char>, bool, u32, bool),
>
    decreases k,
{
    if k <= 0 || k > nodes.len() {
        Seq::empty()
    } else {
        match bind_line(nodes[k - 1].text@) {
            Some(t) => parsed_binds(nodes, k - 1).push(t),
            None => parsed_binds(nodes, k - 1),
        }
    }
}

/// The block of the first `binds` node, if it has one.
pub open spec fn binds_block(doc: Document) -> Option<Document> {
    match get_node(doc, "binds"@) {
        Some(n) => n.children,
        None => None,
    }
}

/// Reads the bindings of a `binds` block, one per child node's text.
fn read_binds(c: &Document) -> (r: Vec<Keybind>)
    ensures
        r@.map_values(|b: Keybind| bind_fields(b)) == parsed_binds(c.nodes@, c.nodes@.len() as int),
        forall|i: int| 0 <= i < r.len() ==> (#[trigger] r@[i]).id == 0,
{
    let mut r: Vec<Keybind> = Vec::new();
    let mut i: usize = 0;
    while i < c.nodes.len()
        invariant
            i <= c.nodes.len(),
            r@.map_values(|b: Keybind| bind_fields(b)) == parsed_binds(c.nodes@, i as int),
            forall|j: int| 0 <= j < r.len() ==> (#[trigger] r@[j]).id == 0,
        decreases c.nodes.len() - i,
    {
        let parsed = parse_bind_line(c.nodes[i].text.as_str());
        if let Some(b) = parsed {
            let ghost before = r@;
            r.push(b);
            assert(r@.map_values(|b: Keybind| bind_fields(b)) =~= before.map_values(
                |b: Keybind| bind_fields(b),
            ).push(bind_fields(b)));
        }
        i = i + 1;
    }
    r
}

fn read_outputs(doc: &Document) -> (r: Vec<OutputConfig>)
    ensures
        r.len() == output_nodes(*doc).len(),
        forall|j: int| 0 <= j < r.len() ==> output_of(#[trigger] r@[j], output_nodes(*doc)[j]),
{
    let ghost ns = doc.nodes@;
    let ghost keep = |n: Node| is_output_node(n);
    let mut r: Vec<OutputConfig> = Vec::new();
    let mut i: usize = 0;
    while i < doc.nodes.len()
        invariant
            i <= doc.nodes.len(),
            ns == doc.nodes@,
            keep == (|n: Node| is_output_node(n)),
            r.len() == select(ns, keep, i as int).len(),
            forall|j: int| 0 <= j < r.len() ==> output_of(#[trigger] r@[j], select(ns, keep, i as int)[j]),
        decreases doc.nodes.len() - i,
    {
        let node = &doc.nodes[i];
        if name_is(&node.name, "output") && as_str(node_arg(node)).is_some() {
            let o = read_output(node);
            r.push(o);
        }
        i = i + 1;
    }
    r
}

fn read_window_rules(doc: &Document) -> (r: Vec<WindowRule>)
    ensures
        r.len() == window_rule_nodes(*doc).len(),
        forall|j: int|
            0 <= j < r.len() ==> window_rule_of(
                #[trigger] r@[j],
                window_rule_nodes(*doc)[j].children.unwrap(),
            ),
{
    let ghost ns = doc.nodes@;
    let ghost keep = |n: Node| is_window_rule_node(n);
    let mut r: Vec<WindowRule> = Vec::new();
    let mut i: usize = 0;
    while i < doc.nodes.len()
        invariant
            i <= doc.nodes.len(),
            ns == doc.nodes@,
            keep == (|n: Node| is_window_rule_node(n)),
            r.len() == select(ns, keep, i as int).len(),
            forall|j: int|
                0 <= j < r.len() ==> window_rule_of(
                    #[trigger] r@[j],
                    select(ns, keep, i as int)[j].children.unwrap(),
                ),
        decreases doc.nodes.len() - i,
    {
        let node = &doc.nodes[i];
        if name_is(&node.name, "window-rule") {
            if let Some(c) = &node.children {
                let w = read_window_rule(c);
                r.push(w);
            }
        }
        i = i + 1;
    }
    r
}

fn read_layer_rules(doc: &Document) -> (r: Vec<LayerRule>)
    ensures
        r.len() == layer_rule_nodes(*doc).len(),
        forall|j: int|
            0 <= j < r.len() ==> layer_rule_of(
                #[trigger] r@[j],
                layer_rule_nodes(*doc)[j].children.unwrap(),
            ),
{
    let ghost ns = doc.nodes@;
    let ghost keep = |n: Node| is_layer_rule_node(n);
    let mut r: Vec<LayerRule> = Vec::new();
    let mut i: usize = 0;
    while i < doc.nodes.len()
        invariant
            i <= doc.nodes.len(),
            ns == doc.nodes@,
            keep == (|n: Node| is_layer_rule_node(n)),
            r.len() == select(ns, keep, i as int).len(),
            forall|j: int|
                0 <= j < r.len() ==> layer_rule_of(
                    #[trigger] r@[j],
                    select(ns, keep, i as int)[j].children.unwrap(),
                ),
        decreases doc.nodes.len() - i,
    {
        let node = &doc.nodes[i];
        if name_is(&node.name, "layer-rule") {
            if let Some(c) = &node.children {
                let w = read_layer_rule(c);
                r.push(w);
            }
        }
        i = i + 1;
    }
    r
}

/// Overlays the externally-editable nodes of a parsed settings fragment onto
/// a configuration loaded from JSON. The bindings are replaced by those of
/// the first `binds` block (when it has a block); outputs, window rules and
/// layer rules are replaced by those read from their nodes, in document
/// order; every other section is left as it was. Bindings come back without
/// ids.
/// `new` is `prev` with the externally-editable nodes of `doc` read over it:
/// the bindings of the first `binds` block (when it has a block, without
/// ids), and the outputs, window rules and layer rules of their nodes in
/// document order; every other section unchanged.
pub open spec fn overlaid(prev: SettingsConfig, new: SettingsConfig, doc: Document) -> bool {
    &&& match binds_block(doc) {
        Some(c) => {
            &&& new.binds@.map_values(|b: Keybind| bind_fields(b)) == parsed_binds(
                c.nodes@,
                c.nodes@.len() as int,
            )
            &&& forall|i: int| 0 <= i < new.binds.len() ==> (#[trigger] new.binds@[i]).id == 0
        },
        None => new.binds == prev.binds,
    }
    &&& new.outputs.len() == output_nodes(doc).len()
    &&& forall|i: int|
            0 <= i < new.outputs.len() ==> output_of(
                #[trigger] new.outputs@[i],
                output_nodes(doc)[i],
            )
    &&& new.window_rules.len() == window_rule_nodes(doc).len()
    &&& forall|i: int|
            0 <= i < new.window_rules.len() ==> window_rule_of(
                #[trigger] new.window_rules@[i],
                window_rule_nodes(doc)[i].children.unwrap(),
            )
    &&& new.layer_rules.len() == layer_rule_nodes(doc).len()
    &&& forall|i: int|
            0 <= i < new.layer_rules.len() ==> layer_rule_of(
                #[trigger] new.layer_rules@[i],
                layer_rule_nodes(doc)[i].children.unwrap(),
            )
    &&& new.input == prev.input
    &&& new.layout == prev.layout
    &&& new.misc == prev.misc
    &&& new.anim == prev.anim
    &&& new.gestures == prev.gestures
    &&& new.workspaces == prev.workspaces
    &&& new.recent_windows == prev.recent_windows
    &&& new.debug == prev.debug
    &&& new.switch_events == prev.switch_events
}

pub fn overlay_primary_kdl(cfg: &mut SettingsConfig, doc: &Document)
    ensures
        overlaid(*old(cfg), *final(cfg), *doc),
{
    if let Some(node) = find_node(doc, "binds") {
        if let Some(children) = &node.children {
            cfg.binds = read_binds(children);
        }
    }
    let outputs = read_outputs(doc);
    let rules = read_window_rules(doc);
    let layers = read_layer_rules(doc);
    cfg.outputs = outputs;
    cfg.window_rules = rules;
    cfg.layer_rules = layers;
}

/// Reads the managed fragment's text over the configuration: text that is
/// not handed to the KDL parser (see [`kdl_admissible`]) or that the parser
/// rejects gives `Kdl` with the message and leaves the configuration as it
/// was; otherwise see [`overlaid`].
pub fn apply_managed_kdl(cfg: &mut SettingsConfig, text: &str) -> (r: Result<(), crate::errors::SettingsError>)
    ensures
        !kdl_admissible(text@) ==> (r matches Err(crate::errors::SettingsError::Kdl(e)) && e@
            == kdl_refusal()) && *final(cfg) == *old(cfg),
        kdl_admissible(text@) ==> match kdl_parse(text@) {
            Ok(doc) => r is Ok && overlaid(*old(cfg), *final(cfg), doc),
            Err(m) => r == Err::<(), crate::errors::SettingsError>(crate::errors::SettingsError::Kdl(m))
                && *final(cfg) == *old(cfg),
        },
{
    match crate::kdl_doc::read_kdl(text) {
        Ok(doc) => {
            overlay_primary_kdl(cfg, &doc);
            Ok(())
        },
        Err(m) => Err(crate::errors::SettingsError::Kdl(m)),
    }
}

/// The overview zoom rounded to the nearest 0.05 (halves away from zero),
/// in hundredths.
pub open spec fn zoom_normalised(z: i64) -> i64 {
    (5 * ((2 * z + 5) / 10)) as i64
}

/// Normalising a loaded zoom is idempotent: a zoom that is already a
/// multiple of 0.05 stays as it is on the next load.
pub proof fn law_zoom_normalisation_idempotent(z: i64)
    requires
        0 < z,
        5 * ((2 * z + 5) / 10) <= i64::MAX,
    ensures
        zoom_normalised(z) > 0 ==> zoom_normalised(zoom_normalised(z)) == zoom_normalised(z),
{
    let k = (2 * z + 5) / 10;
    assert(zoom_normalised(z) == 5 * k);
    assert((2 * (5 * k) + 5) / 10 == k) by (nonlinear_arith);
}

/// Normalises what was loaded from the JSON store: a positive overview zoom
/// is rounded to the nearest 0.05; everything else is kept.
pub fn normalize_loaded(cfg: &mut SettingsConfig)
    ensures
        final(cfg).misc.overview_zoom == (if old(cfg).misc.overview_zoom > 0 {
            zoom_normalised(old(cfg).misc.overview_zoom)
        } else {
            old(cfg).misc.overview_zoom
        }),
        final(cfg).misc.overview_zoom > 0 ==> final(cfg).misc.overview_zoom % 5 == 0,
        *final(cfg) == (SettingsConfig {
            misc: crate::types::MiscSettings { overview_zoom: final(cfg).misc.overview_zoom, ..old(cfg).misc },
            ..*old(cfg)
        }),
{
    let z = cfg.misc.overview_zoom;
    if z > 0 {
        let w: i128 = (2 * (z as i128) + 5) / 10;
        let n: i128 = 5 * w;
        assert(n <= z + 3);
        cfg.misc.overview_zoom = n as i64;
    }
}

/// Reading a transform word inverts writing it: for every transform, the
/// transform read back from the word the generator writes for it is that
/// transform (`"90"` reads as a quarter turn, `"270"` as three).
pub proof fn law_transform_word_reads_back(t: OutputTransform)
    ensures
        transform_of(t.kdl_word()) == t,
{
    reveal_strlit("normal");
    reveal_strlit("90");
    reveal_strlit("180");
    reveal_strlit("270");
    reveal_strlit("flipped");
    reveal_strlit("flipped-90");
    reveal_strlit("flipped-180");
    reveal_strlit("flipped-270");
    let w = t.kdl_word();
    // The words differ in length or in their first or ninth character.
    assert(w == "90"@ ==> t == OutputTransform::Rotate90) by {
        if w == "90"@ {
            assert(w.len() == 2 && w[0] == '9');
        }
    }
    assert(w == "180"@ ==> t == OutputTransform::Rotate180) by {
        if w == "180"@ {
            assert(w.len() == 3 && w[0] == '1');
        }
    }
    assert(w == "270"@ ==> t == OutputTransform::Rotate270) by {
        if w == "270"@ {
            assert(w.len() == 3 && w[0] == '2');
        }
    }
    assert(w == "flipped"@ ==> t == OutputTransform::Flipped) by {
        if w == "flipped"@ {
            assert(w.len() == 7);
        }
    }
    assert(w == "flipped-90"@ ==> t == OutputTransform::Flipped90) by {
        if w == "flipped-90"@ {
            assert(w.len() == 10);
        }
    }
    assert(w == "flipped-180"@ ==> t == OutputTransform::Flipped180) by {
        if w == "flipped-180"@ {
            assert(w.len() == 11 && w[8] == '1');
        }
    }
    assert(w == "flipped-270"@ ==> t == OutputTransform::Flipped270) by {
        if w == "flipped-270"@ {
            assert(w.len() == 11 && w[8] == '2');
        }
    }
    if t == OutputTransform::Normal {
        assert(w.len() == 6);
    }
}

} // verus!
