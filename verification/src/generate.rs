//! The KDL fragment niri reads, generated from the settings model. Each
//! section has a spec function that spells out its text; `generate_kdl` is
//! proved to produce their concatenation.

use vstd::prelude::*;
use vstd::string::*;
use crate::sanitise::{
    is_valid_color, keep_chars, key_char, path_char, regex_char, sanitise_color, sanitise_keybind_key,
    sanitise_path, sanitise_regex, spec_is_valid_color, spec_sanitise_color,
};
use crate::text::{dec, digit_char, i64_text, int_text, pow10, u64_text};
use crate::keybinds::{join_space, split_words, views, words_from};
use crate::types::{
    AnimSettings, BlockOutFrom, CenterFocusedColumn, DebugSettings, DragSetting, GestureSettings,
    InputSettings, Keybind, LayerRule, LayoutSettings, MiscSettings, NamedWorkspace, OutputConfig,
    OutputTransform, RecentWindowsSettings, SettingsConfig, SwitchEventsSettings, TrackLayout,
    TriState, VrrMode, WindowRule,
};

verus! {

// ── Text pieces ──────────────────────────────────────────────────────────────

/// `s` when `c` holds, else nothing.
pub open spec fn opt(c: bool, s: Seq<char>) -> Seq<char> {
    if c {
        s
    } else {
        Seq::empty()
    }
}

/// A block `head body tail`, or nothing when the body is empty.
pub open spec fn block(head: Seq<char>, body: Seq<char>, tail: Seq<char>) -> Seq<char> {
    if body.len() == 0 {
        Seq::empty()
    } else {
        head + body + tail
    }
}

/// `s` with each `"` written as `\"` (`str::replace('"', "\\\"")`).
pub open spec fn escape_quotes(s: Seq<char>) -> Seq<char>
    decreases s.len(),
{
    if s.len() == 0 {
        Seq::empty()
    } else if s.last() == '"' {
        escape_quotes(s.drop_last()) + seq!['\\', '"']
    } else {
        escape_quotes(s.drop_last()).push(s.last())
    }
}

/// The `k` low decimal digits of `r`, zero-padded.
pub open spec fn frac_text(r: nat, k: nat) -> Seq<char>
    decreases k,
{
    if k == 0 {
        Seq::empty()
    } else {
        frac_text(r / 10, (k - 1) as nat).push(digit_char(r % 10))
    }
}

/// A fixed-point value `v / 10^scale` printed with `scale` decimals, as
/// `format!("{:.N}")` prints the real number it stands for.
pub open spec fn fixed_text(v: int, scale: nat) -> Seq<char> {
    let a: nat = if v < 0 {
        (-v) as nat
    } else {
        v as nat
    };
    let p = pow10(scale);
    opt(v < 0, seq!['-']) + dec(a / p) + seq!['.'] + frac_text(a % p, scale)
}

/// `head n tail` when `c` holds.
pub open spec fn num_line(c: bool, head: Seq<char>, n: nat, tail: Seq<char>) -> Seq<char> {
    opt(c, head + dec(n) + tail)
}

/// `head v tail` (fixed point) when `v` is not 0.
pub open spec fn fixed_line(v: i64, scale: nat, head: Seq<char>, tail: Seq<char>) -> Seq<char> {
    opt(v != 0, head + fixed_text(v as int, scale) + tail)
}

/// `head word tail` when there is a word.
pub open spec fn word_line(w: Option<Seq<char>>, head: Seq<char>, tail: Seq<char>) -> Seq<char> {
    match w {
        Some(s) => head + s + tail,
        None => Seq::empty(),
    }
}

/// `head "escaped" tail` when the value is not empty.
pub open spec fn quoted_line(v: Seq<char>, head: Seq<char>) -> Seq<char> {
    opt(v.len() > 0, head + seq!['"'] + escape_quotes(v) + "\"\n"@)
}

pub open spec fn opt_word(w: Option<&str>) -> Option<Seq<char>> {
    match w {
        Some(s) => Some(s@),
        None => None,
    }
}

fn put(out: &mut String, s: &str)
    ensures
        final(out)@ == old(out)@ + s@,
{
    out.append(s);
}

fn put_opt(out: &mut String, c: bool, s: &str)
    ensures
        final(out)@ == old(out)@ + opt(c, s@),
{
    if c {
        out.append(s);
    }
    assert(out@ =~= old(out)@ + opt(c, s@));
}

fn put_block(out: &mut String, head: &str, body: &String, tail: &str)
    ensures
        final(out)@ == old(out)@ + block(head@, body@, tail@),
{
    if !body.as_str().is_empty() {
        out.append(head);
        out.append(body.as_str());
        out.append(tail);
    }
    assert(out@ =~= old(out)@ + block(head@, body@, tail@));
}

fn put_dec(out: &mut String, n: u64)
    ensures
        final(out)@ == old(out)@ + dec(n as nat),
{
    let t = u64_text(n);
    out.append(t.as_str());
}

fn put_int(out: &mut String, v: i64)
    ensures
        final(out)@ == old(out)@ + int_text(v as int),
{
    let t = i64_text(v);
    out.append(t.as_str());
}

fn put_string(out: &mut String, s: &String)
    ensures
        final(out)@ == old(out)@ + s@,
{
    out.append(s.as_str());
}

fn put_escaped(out: &mut String, s: &str)
    ensures
        final(out)@ == old(out)@ + escape_quotes(s@),
{
    let cs = crate::text::chars_of(s);
    let mut i: usize = 0;
    assert(cs@.subrange(0, 0) =~= Seq::<char>::empty());
    assert(out@ =~= old(out)@ + escape_quotes(cs@.subrange(0, 0)));
    while i < cs.len()
        invariant
            i <= cs.len(),
            cs@ == s@,
            out@ == old(out)@ + escape_quotes(cs@.subrange(0, i as int)),
        decreases cs.len() - i,
    {
        let c = cs[i];
        let ghost pre = cs@.subrange(0, i as int);
        assert(cs@.subrange(0, i + 1).drop_last() =~= pre);
        if c == '"' {
            out.append("\\\"");
            proof {
                reveal_strlit("\\\"");
            }
            assert(out@ =~= old(out)@ + escape_quotes(cs@.subrange(0, i + 1)));
        } else {
            crate::text::push_char(out, c);
            assert(out@ =~= old(out)@ + escape_quotes(cs@.subrange(0, i + 1)));
        }
        i = i + 1;
    }
    assert(cs@.subrange(0, i as int) =~= s@);
}

/// `s` with each `"` written as `\"`.
pub fn escaped_string(s: &str) -> (r: String)
    ensures
        r@ == escape_quotes(s@),
{
    let mut out = String::new();
    put_escaped(&mut out, s);
    assert(out@ =~= escape_quotes(s@));
    out
}

fn put_frac(out: &mut String, r: u64, k: u32)
    requires
        k <= 3,
    ensures
        final(out)@ == old(out)@ + frac_text(r as nat, k as nat),
    decreases k,
{
    if k > 0 {
        put_frac(out, r / 10, k - 1);
        let d: u8 = (48 + (r % 10)) as u8;
        crate::text::push_char(out, d as char);
        assert(out@ =~= old(out)@ + frac_text(r as nat, k as nat));
    } else {
        assert(out@ =~= old(out)@ + frac_text(r as nat, k as nat));
    }
}

fn put_fixed(out: &mut String, v: i64, scale: u32)
    requires
        scale <= 3,
    ensures
        final(out)@ == old(out)@ + fixed_text(v as int, scale as nat),
{
    let a: u64 = if v < 0 {
        if v == i64::MIN {
            9223372036854775808u64
        } else {
            (-v) as u64
        }
    } else {
        v as u64
    };
    let p: i64 = crate::text::pow10_i64(scale);
    let pu: u64 = p as u64;
    if v < 0 {
        out.append("-");
        proof {
            reveal_strlit("-");
        }
    }
    assert(out@ =~= old(out)@ + opt(v < 0, seq!['-']));
    put_dec(out, a / pu);
    out.append(".");
    proof {
        reveal_strlit(".");
    }
    put_frac(out, a % pu, scale);
    assert(out@ =~= old(out)@ + fixed_text(v as int, scale as nat));
}

/// A fixed-point value printed with `scale` decimals.
pub fn fixed_string(v: i64, scale: u32) -> (r: String)
    requires
        scale <= 3,
    ensures
        r@ == fixed_text(v as int, scale as nat),
{
    let mut s = String::new();
    put_fixed(&mut s, v, scale);
    assert(s@ =~= fixed_text(v as int, scale as nat));
    s
}

fn put_num_line(out: &mut String, c: bool, head: &str, n: u64, tail: &str)
    ensures
        final(out)@ == old(out)@ + num_line(c, head@, n as nat, tail@),
{
    if c {
        out.append(head);
        put_dec(out, n);
        out.append(tail);
    }
    assert(out@ =~= old(out)@ + num_line(c, head@, n as nat, tail@));
}

fn put_fixed_line(out: &mut String, v: i64, scale: u32, head: &str, tail: &str)
    requires
        scale <= 3,
    ensures
        final(out)@ == old(out)@ + fixed_line(v, scale as nat, head@, tail@),
{
    if v != 0 {
        out.append(head);
        put_fixed(out, v, scale);
        out.append(tail);
    }
    assert(out@ =~= old(out)@ + fixed_line(v, scale as nat, head@, tail@));
}

fn put_word_line(out: &mut String, w: Option<&str>, head: &str, tail: &str)
    ensures
        final(out)@ == old(out)@ + word_line(opt_word(w), head@, tail@),
{
    if let Some(s) = w {
        out.append(head);
        out.append(s);
        out.append(tail);
    }
    assert(out@ =~= old(out)@ + word_line(opt_word(w), head@, tail@));
}

fn put_quoted_line(out: &mut String, v: &String, head: &str)
    ensures
        final(out)@ == old(out)@ + quoted_line(v@, head@),
{
    if !v.as_str().is_empty() {
        out.append(head);
        out.append("\"");
        proof {
            reveal_strlit("\"");
        }
        put_escaped(out, v.as_str());
        out.append("\"\n");
    }
    assert(out@ =~= old(out)@ + quoted_line(v@, head@));
}

// ── input ────────────────────────────────────────────────────────────────────

pub open spec fn keyboard_text(i: InputSettings) -> Seq<char> {
    let xkb = Seq::empty() + quoted_line(i.keyboard_xkb_layout@, "            layout "@)
        + quoted_line(i.keyboard_xkb_variant@, "            variant "@) + quoted_line(
        i.keyboard_xkb_model@,
        "            model "@,
    ) + quoted_line(i.keyboard_xkb_rules@, "            rules "@) + quoted_line(
        i.keyboard_xkb_options@,
        "            options "@,
    );
    let kb = Seq::empty() + block("        xkb {\n"@, xkb, "        }\n"@) + num_line(
        i.keyboard_repeat_delay > 0,
        "        repeat-delay "@,
        i.keyboard_repeat_delay as nat,
        "\n"@,
    ) + num_line(
        i.keyboard_repeat_rate > 0,
        "        repeat-rate "@,
        i.keyboard_repeat_rate as nat,
        "\n"@,
    ) + opt(i.keyboard_track_layout == TrackLayout::Window, "        track-layout \"window\"\n"@)
        + opt(i.numlock, "        numlock\n"@);
    block("    keyboard {\n"@, kb, "    }\n"@)
}

fn write_keyboard(out: &mut String, i: &InputSettings)
    ensures
        final(out)@ == old(out)@ + keyboard_text(*i),
{
    let mut xkb = String::new();
    put_quoted_line(&mut xkb, &i.keyboard_xkb_layout, "            layout ");
    put_quoted_line(&mut xkb, &i.keyboard_xkb_variant, "            variant ");
    put_quoted_line(&mut xkb, &i.keyboard_xkb_model, "            model ");
    put_quoted_line(&mut xkb, &i.keyboard_xkb_rules, "            rules ");
    put_quoted_line(&mut xkb, &i.keyboard_xkb_options, "            options ");
    let mut kb = String::new();
    put_block(&mut kb, "        xkb {\n", &xkb, "        }\n");
    put_num_line(
        &mut kb,
        i.keyboard_repeat_delay > 0,
        "        repeat-delay ",
        i.keyboard_repeat_delay as u64,
        "\n",
    );
    put_num_line(
        &mut kb,
        i.keyboard_repeat_rate > 0,
        "        repeat-rate ",
        i.keyboard_repeat_rate as u64,
        "\n",
    );
    put_opt(
        &mut kb,
        i.keyboard_track_layout == TrackLayout::Window,
        "        track-layout \"window\"\n",
    );
    put_opt(&mut kb, i.numlock, "        numlock\n");
    put_block(out, "    keyboard {\n", &kb, "    }\n");
}

pub open spec fn drag_text(d: DragSetting) -> Seq<char> {
    match d {
        DragSetting::Enabled => "        drag true\n"@,
        DragSetting::Disabled => "        drag false\n"@,
        DragSetting::Default => Seq::empty(),
    }
}

pub open spec fn touchpad_text(i: InputSettings) -> Seq<char> {
    let tp = Seq::empty() + opt(i.touchpad_off, "        off\n"@) + opt(
        i.touchpad_tap,
        "        tap\n"@,
    ) + opt(i.touchpad_dwt, "        dwt\n"@) + opt(i.touchpad_dwtp, "        dwtp\n"@) + drag_text(
        i.touchpad_drag,
    ) + opt(i.touchpad_drag_lock, "        drag-lock\n"@) + opt(
        i.touchpad_natural_scroll,
        "        natural-scroll\n"@,
    ) + fixed_line(i.touchpad_accel_speed, 1, "        accel-speed "@, "\n"@) + word_line(
        i.touchpad_accel_profile.kdl_word(),
        "        accel-profile \""@,
        "\"\n"@,
    ) + word_line(
        i.touchpad_scroll_method.kdl_word(),
        "        scroll-method \""@,
        "\"\n"@,
    ) + word_line(
        i.touchpad_tap_button_map.kdl_word(),
        "        tap-button-map \""@,
        "\"\n"@,
    ) + word_line(i.touchpad_click_method.kdl_word(), "        click-method \""@, "\"\n"@)
        + opt(i.touchpad_disabled_on_external_mouse, "        disabled-on-external-mouse\n"@)
        + opt(i.touchpad_left_handed, "        left-handed\n"@) + opt(
        i.touchpad_middle_emulation,
        "        middle-emulation\n"@,
    );
    block("    touchpad {\n"@, tp, "    }\n"@)
}

#[verifier::rlimit(50)]
fn put_drag(out: &mut String, d: DragSetting)
    ensures
        final(out)@ == old(out)@ + drag_text(d),
{
    match d {
        DragSetting::Enabled => put(out, "        drag true\n"),
        DragSetting::Disabled => put(out, "        drag false\n"),
        DragSetting::Default => {},
    }
    assert(out@ =~= old(out)@ + drag_text(d));
}

fn write_touchpad(out: &mut String, i: &InputSettings)
    ensures
        final(out)@ == old(out)@ + touchpad_text(*i),
{
    let mut tp = String::new();
    put_opt(&mut tp, i.touchpad_off, "        off\n");
    put_opt(&mut tp, i.touchpad_tap, "        tap\n");
    put_opt(&mut tp, i.touchpad_dwt, "        dwt\n");
    put_opt(&mut tp, i.touchpad_dwtp, "        dwtp\n");
    put_drag(&mut tp, i.touchpad_drag);
    put_opt(&mut tp, i.touchpad_drag_lock, "        drag-lock\n");
    put_opt(&mut tp, i.touchpad_natural_scroll, "        natural-scroll\n");
    put_fixed_line(&mut tp, i.touchpad_accel_speed, 1, "        accel-speed ", "\n");
    put_word_line(&mut tp, i.touchpad_accel_profile.as_kdl_str(), "        accel-profile \"", "\"\n");
    put_word_line(&mut tp, i.touchpad_scroll_method.as_kdl_str(), "        scroll-method \"", "\"\n");
    put_word_line(
        &mut tp,
        i.touchpad_tap_button_map.as_kdl_str(),
        "        tap-button-map \"",
        "\"\n",
    );
    put_word_line(&mut tp, i.touchpad_click_method.as_kdl_str(), "        click-method \"", "\"\n");
    put_opt(
        &mut tp,
        i.touchpad_disabled_on_external_mouse,
        "        disabled-on-external-mouse\n",
    );
    put_opt(&mut tp, i.touchpad_left_handed, "        left-handed\n");
    put_opt(&mut tp, i.touchpad_middle_emulation, "        middle-emulation\n");
    put_block(out, "    touchpad {\n", &tp, "    }\n");
}

pub open spec fn mouse_text(i: InputSettings) -> Seq<char> {
    let ms = Seq::empty() + opt(i.mouse_off, "        off\n"@) + opt(
        i.mouse_natural_scroll,
        "        natural-scroll\n"@,
    ) + fixed_line(i.mouse_accel_speed, 1, "        accel-speed "@, "\n"@) + word_line(
        i.mouse_accel_profile.kdl_word(),
        "        accel-profile \""@,
        "\"\n"@,
    ) + word_line(i.mouse_scroll_method.kdl_word(), "        scroll-method \""@, "\"\n"@) + opt(
        i.mouse_left_handed,
        "        left-handed\n"@,
    ) + opt(i.mouse_middle_emulation, "        middle-emulation\n"@);
    block("    mouse {\n"@, ms, "    }\n"@)
}

fn write_mouse(out: &mut String, i: &InputSettings)
    ensures
        final(out)@ == old(out)@ + mouse_text(*i),
{
    let mut ms = String::new();
    put_opt(&mut ms, i.mouse_off, "        off\n");
    put_opt(&mut ms, i.mouse_natural_scroll, "        natural-scroll\n");
    put_fixed_line(&mut ms, i.mouse_accel_speed, 1, "        accel-speed ", "\n");
    put_word_line(&mut ms, i.mouse_accel_profile.as_kdl_str(), "        accel-profile \"", "\"\n");
    put_word_line(&mut ms, i.mouse_scroll_method.as_kdl_str(), "        scroll-method \"", "\"\n");
    put_opt(&mut ms, i.mouse_left_handed, "        left-handed\n");
    put_opt(&mut ms, i.mouse_middle_emulation, "        middle-emulation\n");
    put_block(out, "    mouse {\n", &ms, "    }\n");
}

/// The `input { … }` section.
pub open spec fn input_text(i: InputSettings) -> Seq<char> {
    let body = Seq::empty() + keyboard_text(i) + touchpad_text(i) + mouse_text(i) + opt(
        i.focus_follows_mouse,
        "    focus-follows-mouse\n"@,
    ) + opt(i.workspace_auto_back_and_forth, "    workspace-auto-back-and-forth\n"@) + opt(
        i.warp_mouse_to_focus,
        "    warp-mouse-to-focus\n"@,
    ) + opt(i.disable_power_key_handling, "    disable-power-key-handling\n"@) + quoted_line(
        i.mod_key@,
        "    mod-key "@,
    ) + quoted_line(i.mod_key_nested@, "    mod-key-nested "@);
    block("input {\n"@, body, "}\n\n"@)
}

fn write_input(out: &mut String, i: &InputSettings)
    ensures
        final(out)@ == old(out)@ + input_text(*i),
{
    let mut body = String::new();
    write_keyboard(&mut body, i);
    write_touchpad(&mut body, i);
    write_mouse(&mut body, i);
    put_opt(&mut body, i.focus_follows_mouse, "    focus-follows-mouse\n");
    put_opt(&mut body, i.workspace_auto_back_and_forth, "    workspace-auto-back-and-forth\n");
    put_opt(&mut body, i.warp_mouse_to_focus, "    warp-mouse-to-focus\n");
    put_opt(&mut body, i.disable_power_key_handling, "    disable-power-key-handling\n");
    put_quoted_line(&mut body, &i.mod_key, "    mod-key ");
    put_quoted_line(&mut body, &i.mod_key_nested, "    mod-key-nested ");
    put_block(out, "input {\n", &body, "}\n\n");
}

// ── layout ───────────────────────────────────────────────────────────────────

/// `head "sanitised colour"` line, always written.
pub open spec fn color_text(c: Seq<char>, head: Seq<char>) -> Seq<char> {
    head + spec_sanitise_color(c) + "\"\n"@
}

fn put_color(out: &mut String, c: &String, head: &str)
    ensures
        final(out)@ == old(out)@ + color_text(c@, head@),
{
    out.append(head);
    let s = sanitise_color(c.as_str());
    out.append(s.as_str());
    out.append("\"\n");
    assert(out@ =~= old(out)@ + color_text(c@, head@));
}

/// A colour line written only when the colour is valid.
pub open spec fn valid_color_line(c: Seq<char>, head: Seq<char>) -> Seq<char> {
    opt(spec_is_valid_color(c), color_text(c, head))
}

fn put_valid_color(out: &mut String, c: &String, head: &str)
    ensures
        final(out)@ == old(out)@ + valid_color_line(c@, head@),
{
    if is_valid_color(c.as_str()) {
        put_color(out, c, head);
    }
    assert(out@ =~= old(out)@ + valid_color_line(c@, head@));
}

pub open spec fn int_line(head: Seq<char>, v: int, tail: Seq<char>) -> Seq<char> {
    head + int_text(v) + tail
}

fn put_int_line(out: &mut String, head: &str, v: i64, tail: &str)
    ensures
        final(out)@ == old(out)@ + int_line(head@, v as int, tail@),
{
    out.append(head);
    put_int(out, v);
    out.append(tail);
    assert(out@ =~= old(out)@ + int_line(head@, v as int, tail@));
}

pub open spec fn word_text(w: Seq<char>, head: Seq<char>) -> Seq<char> {
    head + w + "\"\n"@
}

fn put_word(out: &mut String, w: &str, head: &str)
    ensures
        final(out)@ == old(out)@ + word_text(w@, head@),
{
    out.append(head);
    out.append(w);
    out.append("\"\n");
    assert(out@ =~= old(out)@ + word_text(w@, head@));
}

/// The `layout { … }` section (always written).
pub open spec fn layout_text(l: LayoutSettings) -> Seq<char> {
    Seq::empty() + "layout {\n"@ + int_line("    gaps "@, l.gaps as int, "\n"@) + word_text(
        l.center_focused_column.kdl_word(),
        "    center-focused-column \""@,
    ) + opt(l.always_center_single_column, "    always-center-single-column\n"@)
        + "    focus-ring {\n"@ + color_text(
        l.focus_ring_active_color@,
        "        active-color \""@,
    ) + color_text(l.focus_ring_inactive_color@, "        inactive-color \""@) + "    }\n"@
        + opt(l.border_on, "    border {\n        on\n    }\n"@) + opt(
        l.shadow_on,
        "    shadow {\n        on\n    }\n"@,
    ) + "}\n\n"@
}

fn write_layout(out: &mut String, l: &LayoutSettings)
    ensures
        final(out)@ == old(out)@ + layout_text(*l),
{
    let mut s = String::new();
    put(&mut s, "layout {\n");
    put_int_line(&mut s, "    gaps ", l.gaps, "\n");
    put_word(&mut s, l.center_focused_column.as_kdl_str(), "    center-focused-column \"");
    put_opt(&mut s, l.always_center_single_column, "    always-center-single-column\n");
    put(&mut s, "    focus-ring {\n");
    put_color(&mut s, &l.focus_ring_active_color, "        active-color \"");
    put_color(&mut s, &l.focus_ring_inactive_color, "        inactive-color \"");
    put(&mut s, "    }\n");
    put_opt(&mut s, l.border_on, "    border {\n        on\n    }\n");
    put_opt(&mut s, l.shadow_on, "    shadow {\n        on\n    }\n");
    put(&mut s, "}\n\n");
    put_string(out, &s);
}

// ── miscellaneous ────────────────────────────────────────────────────────────

/// `head "path-sanitised value"` line when the raw value is not empty.
pub open spec fn path_line(v: Seq<char>, head: Seq<char>) -> Seq<char> {
    opt(v.len() > 0, head + keep_chars(v, |c: char| path_char(c)) + "\"\n"@)
}

fn put_path_line(out: &mut String, v: &str, head: &str)
    ensures
        final(out)@ == old(out)@ + path_line(v@, head@),
{
    if !v.is_empty() {
        out.append(head);
        let p = sanitise_path(v);
        out.append(p.as_str());
        out.append("\"\n");
    }
    assert(out@ =~= old(out)@ + path_line(v@, head@));
}

/// The `screenshot-path` line: `null` (any case) unquoted, another non-empty
/// path quoted and sanitised, after trimming.
pub open spec fn screenshot_text(p: Seq<char>) -> Seq<char> {
    let t = crate::text::trim(p);
    if crate::text::lower_seq(t) == "null"@ {
        "screenshot-path null\n\n"@
    } else {
        opt(t.len() > 0, "screenshot-path \""@ + keep_chars(t, |c: char| path_char(c)) + "\"\n\n"@)
    }
}

fn write_screenshot(out: &mut String, p: &String)
    ensures
        final(out)@ == old(out)@ + screenshot_text(p@),
{
    let v = crate::text::chars_of(p.as_str());
    let t = crate::text::trim_chars(&v);
    let mut low: Vec<char> = Vec::new();
    let mut i: usize = 0;
    while i < t.len()
        invariant
            i <= t.len(),
            low@ == crate::text::lower_seq(t@.subrange(0, i as int)),
        decreases t.len() - i,
    {
        low.push(crate::text::to_lower(t[i]));
        i = i + 1;
        assert(low@ =~= crate::text::lower_seq(t@.subrange(0, i as int)));
    }
    assert(t@.subrange(0, i as int) =~= t@);
    if crate::text::str_is(&low, "null") {
        put(out, "screenshot-path null\n\n");
    } else if t.len() > 0 {
        let ts = crate::text::string_of(&t);
        out.append("screenshot-path \"");
        let sp = sanitise_path(ts.as_str());
        out.append(sp.as_str());
        out.append("\"\n\n");
    }
    assert(out@ =~= old(out)@ + screenshot_text(p@));
}

pub open spec fn cursor_text(m: MiscSettings) -> Seq<char> {
    let size: nat = if m.cursor_size > 512 {
        512
    } else {
        m.cursor_size as nat
    };
    let body = Seq::empty() + path_line(m.cursor_theme@, "    xcursor-theme \""@) + num_line(
        m.cursor_size > 0,
        "    xcursor-size "@,
        size,
        "\n"@,
    ) + opt(m.cursor_hide_when_typing, "    hide-when-typing\n"@) + num_line(
        m.cursor_hide_after_inactive_ms > 0,
        "    hide-after-inactive-ms "@,
        m.cursor_hide_after_inactive_ms as nat,
        "\n"@,
    );
    block("cursor {\n"@, body, "}\n\n"@)
}

fn write_cursor(out: &mut String, m: &MiscSettings)
    ensures
        final(out)@ == old(out)@ + cursor_text(*m),
{
    let mut body = String::new();
    put_path_line(&mut body, m.cursor_theme.as_str(), "    xcursor-theme \"");
    let size: u32 = if m.cursor_size > 512 {
        512
    } else {
        m.cursor_size
    };
    put_num_line(&mut body, m.cursor_size > 0, "    xcursor-size ", size as u64, "\n");
    put_opt(&mut body, m.cursor_hide_when_typing, "    hide-when-typing\n");
    put_num_line(
        &mut body,
        m.cursor_hide_after_inactive_ms > 0,
        "    hide-after-inactive-ms ",
        m.cursor_hide_after_inactive_ms as u64,
        "\n",
    );
    put_block(out, "cursor {\n", &body, "}\n\n");
}

/// The zoom clamped to `0.01..=0.75`, in hundredths.
pub open spec fn zoom_clamped(z: i64) -> i64 {
    if z < 1 {
        1
    } else if z > 75 {
        75
    } else {
        z
    }
}

pub open spec fn overview_text(m: MiscSettings) -> Seq<char> {
    let body = Seq::empty() + opt(
        m.overview_zoom > 0,
        "    zoom "@ + fixed_text(zoom_clamped(m.overview_zoom) as int, 2) + "\n"@,
    ) + valid_color_line(m.overview_backdrop_color@, "    backdrop-color \""@);
    block("overview {\n"@, body, "}\n\n"@)
}

fn write_overview(out: &mut String, m: &MiscSettings)
    ensures
        final(out)@ == old(out)@ + overview_text(*m),
{
    let mut body = String::new();
    if m.overview_zoom > 0 {
        let z: i64 = if m.overview_zoom < 1 {
            1
        } else if m.overview_zoom > 75 {
            75
        } else {
            m.overview_zoom
        };
        body.append("    zoom ");
        put_fixed(&mut body, z, 2);
        body.append("\n");
    }
    assert(body@ =~= Seq::empty() + opt(
        m.overview_zoom > 0,
        "    zoom "@ + fixed_text(zoom_clamped(m.overview_zoom) as int, 2) + "\n"@,
    ));
    put_valid_color(&mut body, &m.overview_backdrop_color, "    backdrop-color \"");
    put_block(out, "overview {\n", &body, "}\n\n");
}

pub open spec fn hotkey_text(m: MiscSettings) -> Seq<char> {
    block(
        "hotkey-overlay {\n"@,
        Seq::empty() + opt(m.skip_hotkey_overlay, "    skip-at-startup\n"@) + opt(
            m.hotkey_overlay_hide_not_bound,
            "    hide-not-bound\n"@,
        ),
        "}\n\n"@,
    )
}

pub open spec fn xwayland_text(m: MiscSettings) -> Seq<char> {
    let body = if m.xwayland_off {
        "    off\n"@
    } else {
        path_line(m.xwayland_path@, "    path \""@)
    };
    block("xwayland-satellite {\n"@, body, "}\n\n"@)
}

fn write_xwayland(out: &mut String, m: &MiscSettings)
    ensures
        final(out)@ == old(out)@ + xwayland_text(*m),
{
    let mut body = String::new();
    if m.xwayland_off {
        put(&mut body, "    off\n");
    } else {
        put_path_line(&mut body, m.xwayland_path.as_str(), "    path \"");
    }
    assert(body@ =~= (if m.xwayland_off {
        "    off\n"@
    } else {
        path_line(m.xwayland_path@, "    path \""@)
    }));
    put_block(out, "xwayland-satellite {\n", &body, "}\n\n");
}

/// The miscellaneous top-level sections.
pub open spec fn misc_text(m: MiscSettings) -> Seq<char> {
    Seq::empty() + opt(m.prefer_no_csd, "prefer-no-csd\n\n"@) + screenshot_text(m.screenshot_path@)
        + cursor_text(m) + overview_text(m) + opt(
        m.clipboard_disable_primary,
        "clipboard {\n    disable-primary\n}\n\n"@,
    ) + hotkey_text(m) + opt(
        m.config_notification_disable_failed,
        "config-notification {\n    disable-failed\n}\n\n"@,
    ) + xwayland_text(m)
}

fn write_misc(out: &mut String, m: &MiscSettings)
    ensures
        final(out)@ == old(out)@ + misc_text(*m),
{
    let mut s = String::new();
    put_opt(&mut s, m.prefer_no_csd, "prefer-no-csd\n\n");
    write_screenshot(&mut s, &m.screenshot_path);
    write_cursor(&mut s, m);
    write_overview(&mut s, m);
    put_opt(&mut s, m.clipboard_disable_primary, "clipboard {\n    disable-primary\n}\n\n");
    let mut hk = String::new();
    put_opt(&mut hk, m.skip_hotkey_overlay, "    skip-at-startup\n");
    put_opt(&mut hk, m.hotkey_overlay_hide_not_bound, "    hide-not-bound\n");
    put_block(&mut s, "hotkey-overlay {\n", &hk, "}\n\n");
    put_opt(
        &mut s,
        m.config_notification_disable_failed,
        "config-notification {\n    disable-failed\n}\n\n",
    );
    write_xwayland(&mut s, m);
    put_string(out, &s);
}

// ── animations ───────────────────────────────────────────────────────────────

pub open spec fn anim_body(a: AnimSettings) -> Seq<char> {
    Seq::empty() + fixed_line(a.slowdown, 1, "    slowdown "@, "\n"@) + opt(
        a.workspace_switch_off,
        "    workspace-switch {\n        off\n    }\n"@,
    ) + opt(a.window_open_off, "    window-open {\n        off\n    }\n"@) + opt(
        a.window_close_off,
        "    window-close {\n        off\n    }\n"@,
    ) + opt(
        a.horizontal_view_movement_off,
        "    horizontal-view-movement {\n        off\n    }\n"@,
    ) + opt(a.window_movement_off, "    window-movement {\n        off\n    }\n"@) + opt(
        a.window_resize_off,
        "    window-resize {\n        off\n    }\n"@,
    ) + opt(
        a.config_notification_open_close_off,
        "    config-notification-open-close {\n        off\n    }\n"@,
    ) + opt(
        a.exit_confirmation_open_close_off,
        "    exit-confirmation-open-close {\n        off\n    }\n"@,
    ) + opt(a.screenshot_ui_open_off, "    screenshot-ui-open {\n        off\n    }\n"@) + opt(
        a.overview_open_close_off,
        "    overview-open-close {\n        off\n    }\n"@,
    ) + opt(a.recent_windows_close_off, "    recent-windows-close {\n        off\n    }\n"@)
}

/// The `animations { … }` section: just `off` when all are off.
pub open spec fn animations_text(a: AnimSettings) -> Seq<char> {
    if a.global_off {
        "animations {\n    off\n}\n\n"@
    } else {
        block("animations {\n"@, anim_body(a), "}\n\n"@)
    }
}

fn anim_flags(out: &mut String, a: &AnimSettings)
    ensures
        final(out)@ == old(out)@ + anim_body(*a),
{
    let mut b = String::new();
    put_fixed_line(&mut b, a.slowdown, 1, "    slowdown ", "\n");
    put_opt(&mut b, a.workspace_switch_off, "    workspace-switch {\n        off\n    }\n");
    put_opt(&mut b, a.window_open_off, "    window-open {\n        off\n    }\n");
    put_opt(&mut b, a.window_close_off, "    window-close {\n        off\n    }\n");
    put_opt(
        &mut b,
        a.horizontal_view_movement_off,
        "    horizontal-view-movement {\n        off\n    }\n",
    );
    put_opt(&mut b, a.window_movement_off, "    window-movement {\n        off\n    }\n");
    put_opt(&mut b, a.window_resize_off, "    window-resize {\n        off\n    }\n");
    put_opt(
        &mut b,
        a.config_notification_open_close_off,
        "    config-notification-open-close {\n        off\n    }\n",
    );
    put_opt(
        &mut b,
        a.exit_confirmation_open_close_off,
        "    exit-confirmation-open-close {\n        off\n    }\n",
    );
    put_opt(&mut b, a.screenshot_ui_open_off, "    screenshot-ui-open {\n        off\n    }\n");
    put_opt(&mut b, a.overview_open_close_off, "    overview-open-close {\n        off\n    }\n");
    put_opt(&mut b, a.recent_windows_close_off, "    recent-windows-close {\n        off\n    }\n");
    put_string(out, &b);
}

fn write_animations(out: &mut String, a: &AnimSettings)
    ensures
        final(out)@ == old(out)@ + animations_text(*a),
{
    if a.global_off {
        put(out, "animations {\n    off\n}\n\n");
    } else {
        let mut body = String::new();
        anim_flags(&mut body, a);
        assert(body@ =~= anim_body(*a));
        put_block(out, "animations {\n", &body, "}\n\n");
    }
}

// ── workspaces ───────────────────────────────────────────────────────────────

pub open spec fn workspace_text(w: NamedWorkspace) -> Seq<char> {
    if w.open_on_output@.len() == 0 {
        "workspace \""@ + escape_quotes(w.name@) + "\"\n"@
    } else {
        "workspace \""@ + escape_quotes(w.name@) + "\" {\n    open-on-output \""@ + escape_quotes(
            w.open_on_output@,
        ) + "\"\n}\n"@
    }
}

pub open spec fn workspaces_lines(ws: Seq<NamedWorkspace>) -> Seq<char>
    decreases ws.len(),
{
    if ws.len() == 0 {
        Seq::empty()
    } else {
        workspaces_lines(ws.drop_last()) + workspace_text(ws.last())
    }
}

/// One `workspace` node per named workspace, then a blank line.
pub open spec fn workspaces_text(ws: Seq<NamedWorkspace>) -> Seq<char> {
    workspaces_lines(ws) + opt(ws.len() > 0, "\n"@)
}

fn put_workspace(out: &mut String, w: &NamedWorkspace)
    ensures
        final(out)@ == old(out)@ + workspace_text(*w),
{
    out.append("workspace \"");
    put_escaped(out, w.name.as_str());
    if w.open_on_output.as_str().is_empty() {
        out.append("\"\n");
    } else {
        out.append("\" {\n    open-on-output \"");
        put_escaped(out, w.open_on_output.as_str());
        out.append("\"\n}\n");
    }
    assert(out@ =~= old(out)@ + workspace_text(*w));
}

fn write_workspaces(out: &mut String, ws: &Vec<NamedWorkspace>)
    ensures
        final(out)@ == old(out)@ + workspaces_text(ws@),
{
    let mut s = String::new();
    let mut i: usize = 0;
    while i < ws.len()
        invariant
            i <= ws.len(),
            s@ == workspaces_lines(ws@.subrange(0, i as int)),
        decreases ws.len() - i,
    {
        let ghost pre = s@;
        put_workspace(&mut s, &ws[i]);
        assert(ws@.subrange(0, i + 1).drop_last() =~= ws@.subrange(0, i as int));
        i = i + 1;
    }
    assert(ws@.subrange(0, i as int) =~= ws@);
    put_opt(&mut s, ws.len() > 0, "\n");
    put_string(out, &s);
}

// ── gestures ─────────────────────────────────────────────────────────────────

pub open spec fn dnd_text(head: Seq<char>, first: Seq<char>, a: u32, b: u32, c: u32) -> Seq<char> {
    opt(
        a != 0 || b != 0 || c != 0,
        Seq::empty() + head + num_line(a != 0, first, a as nat, "\n"@) + num_line(
            b != 0,
            "        delay-ms "@,
            b as nat,
            "\n"@,
        ) + num_line(c != 0, "        max-speed "@, c as nat, "\n"@) + "    }\n"@,
    )
}

fn put_dnd(out: &mut String, head: &str, first: &str, a: u32, b: u32, c: u32)
    ensures
        final(out)@ == old(out)@ + dnd_text(head@, first@, a, b, c),
{
    let mut s = String::new();
    if a != 0 || b != 0 || c != 0 {
        put(&mut s, head);
        put_num_line(&mut s, a != 0, first, a as u64, "\n");
        put_num_line(&mut s, b != 0, "        delay-ms ", b as u64, "\n");
        put_num_line(&mut s, c != 0, "        max-speed ", c as u64, "\n");
        put(&mut s, "    }\n");
    }
    assert(s@ =~= dnd_text(head@, first@, a, b, c));
    put_string(out, &s);
}

pub open spec fn hot_corners_text(g: GestureSettings) -> Seq<char> {
    if g.hot_corners_off {
        "    hot-corners {\n        off\n    }\n"@
    } else {
        opt(
            g.hot_corners_top_left || g.hot_corners_top_right || g.hot_corners_bottom_left
                || g.hot_corners_bottom_right,
            Seq::empty() + "    hot-corners {\n"@ + opt(g.hot_corners_top_left, "        top-left\n"@)
                + opt(g.hot_corners_top_right, "        top-right\n"@) + opt(
                g.hot_corners_bottom_left,
                "        bottom-left\n"@,
            ) + opt(g.hot_corners_bottom_right, "        bottom-right\n"@) + "    }\n"@,
        )
    }
}

fn put_hot_corners(out: &mut String, g: &GestureSettings)
    ensures
        final(out)@ == old(out)@ + hot_corners_text(*g),
{
    let mut s = String::new();
    if g.hot_corners_off {
        put(&mut s, "    hot-corners {\n        off\n    }\n");
    } else if g.hot_corners_top_left || g.hot_corners_top_right || g.hot_corners_bottom_left
        || g.hot_corners_bottom_right {
        put(&mut s, "    hot-corners {\n");
        put_opt(&mut s, g.hot_corners_top_left, "        top-left\n");
        put_opt(&mut s, g.hot_corners_top_right, "        top-right\n");
        put_opt(&mut s, g.hot_corners_bottom_left, "        bottom-left\n");
        put_opt(&mut s, g.hot_corners_bottom_right, "        bottom-right\n");
        put(&mut s, "    }\n");
    }
    assert(s@ =~= hot_corners_text(*g));
    put_string(out, &s);
}

/// The `gestures { … }` section.
pub open spec fn gestures_text(g: GestureSettings) -> Seq<char> {
    let body = Seq::empty() + dnd_text(
        "    dnd-edge-view-scroll {\n"@,
        "        trigger-width "@,
        g.dnd_view_trigger_width,
        g.dnd_view_delay_ms,
        g.dnd_view_max_speed,
    ) + dnd_text(
        "    dnd-edge-workspace-switch {\n"@,
        "        trigger-height "@,
        g.dnd_ws_trigger_height,
        g.dnd_ws_delay_ms,
        g.dnd_ws_max_speed,
    ) + hot_corners_text(g);
    block("gestures {\n"@, body, "}\n\n"@)
}

fn write_gestures(out: &mut String, g: &GestureSettings)
    ensures
        final(out)@ == old(out)@ + gestures_text(*g),
{
    let mut body = String::new();
    put_dnd(
        &mut body,
        "    dnd-edge-view-scroll {\n",
        "        trigger-width ",
        g.dnd_view_trigger_width,
        g.dnd_view_delay_ms,
        g.dnd_view_max_speed,
    );
    put_dnd(
        &mut body,
        "    dnd-edge-workspace-switch {\n",
        "        trigger-height ",
        g.dnd_ws_trigger_height,
        g.dnd_ws_delay_ms,
        g.dnd_ws_max_speed,
    );
    put_hot_corners(&mut body, g);
    put_block(out, "gestures {\n", &body, "}\n\n");
}

// ── recent windows ───────────────────────────────────────────────────────────

pub open spec fn recent_body(r: RecentWindowsSettings) -> Seq<char> {
    let hl = Seq::empty() + valid_color_line(r.highlight_active_color@, "        active-color \""@)
        + valid_color_line(r.highlight_urgent_color@, "        urgent-color \""@) + num_line(
        r.highlight_padding != 0,
        "        padding "@,
        r.highlight_padding as nat,
        "\n"@,
    ) + num_line(
        r.highlight_corner_radius != 0,
        "        corner-radius "@,
        r.highlight_corner_radius as nat,
        "\n"@,
    );
    let pv = Seq::empty() + num_line(
        r.previews_max_height != 0,
        "        max-height "@,
        r.previews_max_height as nat,
        "\n"@,
    ) + fixed_line(r.previews_max_scale, 2, "        max-scale "@, "\n"@);
    Seq::empty() + num_line(r.debounce_ms != 0, "    debounce-ms "@, r.debounce_ms as nat, "\n"@)
        + num_line(r.open_delay_ms != 0, "    open-delay-ms "@, r.open_delay_ms as nat, "\n"@)
        + block("    highlight {\n"@, hl, "    }\n"@) + block("    previews {\n"@, pv, "    }\n"@)
}

/// The `recent-windows { … }` section: just `off` when switched off.
pub open spec fn recent_windows_text(r: RecentWindowsSettings) -> Seq<char> {
    if r.off {
        "recent-windows {\n    off\n}\n\n"@
    } else {
        block("recent-windows {\n"@, recent_body(r), "}\n\n"@)
    }
}

fn recent_parts(out: &mut String, r: &RecentWindowsSettings)
    ensures
        final(out)@ == old(out)@ + recent_body(*r),
{
    let mut hl = String::new();
    put_valid_color(&mut hl, &r.highlight_active_color, "        active-color \"");
    put_valid_color(&mut hl, &r.highlight_urgent_color, "        urgent-color \"");
    put_num_line(&mut hl, r.highlight_padding != 0, "        padding ", r.highlight_padding as u64, "\n");
    put_num_line(
        &mut hl,
        r.highlight_corner_radius != 0,
        "        corner-radius ",
        r.highlight_corner_radius as u64,
        "\n",
    );
    let mut pv = String::new();
    put_num_line(
        &mut pv,
        r.previews_max_height != 0,
        "        max-height ",
        r.previews_max_height as u64,
        "\n",
    );
    put_fixed_line(&mut pv, r.previews_max_scale, 2, "        max-scale ", "\n");
    let mut b = String::new();
    put_num_line(&mut b, r.debounce_ms != 0, "    debounce-ms ", r.debounce_ms as u64, "\n");
    put_num_line(&mut b, r.open_delay_ms != 0, "    open-delay-ms ", r.open_delay_ms as u64, "\n");
    put_block(&mut b, "    highlight {\n", &hl, "    }\n");
    put_block(&mut b, "    previews {\n", &pv, "    }\n");
    put_string(out, &b);
}

fn write_recent_windows(out: &mut String, r: &RecentWindowsSettings)
    ensures
        final(out)@ == old(out)@ + recent_windows_text(*r),
{
    if r.off {
        put(out, "recent-windows {\n    off\n}\n\n");
    } else {
        let mut body = String::new();
        recent_parts(&mut body, r);
        assert(body@ =~= recent_body(*r));
        put_block(out, "recent-windows {\n", &body, "}\n\n");
    }
}

// ── debug ────────────────────────────────────────────────────────────────────

pub open spec fn debug_body(d: DebugSettings) -> Seq<char> {
    Seq::empty() + opt(d.enable_overlay_planes, "    enable-overlay-planes\n"@) + opt(
        d.disable_cursor_plane,
        "    disable-cursor-plane\n"@,
    ) + opt(d.disable_direct_scanout, "    disable-direct-scanout\n"@) + opt(
        d.restrict_primary_scanout_to_matching_format,
        "    restrict-primary-scanout-to-matching-format\n"@,
    ) + opt(d.force_disable_connectors_on_resume, "    force-disable-connectors-on-resume\n"@)
        + opt(d.force_pipewire_invalid_modifier, "    force-pipewire-invalid-modifier\n"@) + opt(
        d.dbus_interfaces_in_non_session_instances,
        "    dbus-interfaces-in-non-session-instances\n"@,
    ) + opt(
        d.wait_for_frame_completion_before_queueing,
        "    wait-for-frame-completion-before-queueing\n"@,
    ) + opt(d.emulate_zero_presentation_time, "    emulate-zero-presentation-time\n"@) + opt(
        d.disable_resize_throttling,
        "    disable-resize-throttling\n"@,
    ) + opt(d.disable_transactions, "    disable-transactions\n"@) + opt(
        d.keep_laptop_panel_on_when_lid_is_closed,
        "    keep-laptop-panel-on-when-lid-is-closed\n"@,
    ) + opt(d.disable_monitor_names, "    disable-monitor-names\n"@) + opt(
        d.strict_new_window_focus_policy,
        "    strict-new-window-focus-policy\n"@,
    ) + opt(
        d.honor_xdg_activation_with_invalid_serial,
        "    honor-xdg-activation-with-invalid-serial\n"@,
    ) + opt(
        d.skip_cursor_only_updates_during_vrr,
        "    skip-cursor-only-updates-during-vrr\n"@,
    ) + opt(d.deactivate_unfocused_windows, "    deactivate-unfocused-windows\n"@) + path_line(
        d.render_drm_device@,
        "    render-drm-device \""@,
    )
}

/// The `debug { … }` section.
pub open spec fn debug_text(d: DebugSettings) -> Seq<char> {
    block("debug {\n"@, debug_body(d), "}\n\n"@)
}

fn debug_flags(out: &mut String, d: &DebugSettings)
    ensures
        final(out)@ == old(out)@ + debug_body(*d),
{
    let mut b = String::new();
    put_opt(&mut b, d.enable_overlay_planes, "    enable-overlay-planes\n");
    put_opt(&mut b, d.disable_cursor_plane, "    disable-cursor-plane\n");
    put_opt(&mut b, d.disable_direct_scanout, "    disable-direct-scanout\n");
    put_opt(
        &mut b,
        d.restrict_primary_scanout_to_matching_format,
        "    restrict-primary-scanout-to-matching-format\n",
    );
    put_opt(
        &mut b,
        d.force_disable_connectors_on_resume,
        "    force-disable-connectors-on-resume\n",
    );
    put_opt(&mut b, d.force_pipewire_invalid_modifier, "    force-pipewire-invalid-modifier\n");
    put_opt(
        &mut b,
        d.dbus_interfaces_in_non_session_instances,
        "    dbus-interfaces-in-non-session-instances\n",
    );
    put_opt(
        &mut b,
        d.wait_for_frame_completion_before_queueing,
        "    wait-for-frame-completion-before-queueing\n",
    );
    put_opt(&mut b, d.emulate_zero_presentation_time, "    emulate-zero-presentation-time\n");
    put_opt(&mut b, d.disable_resize_throttling, "    disable-resize-throttling\n");
    put_opt(&mut b, d.disable_transactions, "    disable-transactions\n");
    put_opt(
        &mut b,
        d.keep_laptop_panel_on_when_lid_is_closed,
        "    keep-laptop-panel-on-when-lid-is-closed\n",
    );
    put_opt(&mut b, d.disable_monitor_names, "    disable-monitor-names\n");
    put_opt(&mut b, d.strict_new_window_focus_policy, "    strict-new-window-focus-policy\n");
    put_opt(
        &mut b,
        d.honor_xdg_activation_with_invalid_serial,
        "    honor-xdg-activation-with-invalid-serial\n",
    );
    put_opt(
        &mut b,
        d.skip_cursor_only_updates_during_vrr,
        "    skip-cursor-only-updates-during-vrr\n",
    );
    put_opt(&mut b, d.deactivate_unfocused_windows, "    deactivate-unfocused-windows\n");
    put_path_line(&mut b, d.render_drm_device.as_str(), "    render-drm-device \"");
    put_string(out, &b);
}

fn write_debug(out: &mut String, d: &DebugSettings)
    ensures
        final(out)@ == old(out)@ + debug_text(*d),
{
    let mut body = String::new();
    debug_flags(&mut body, d);
    assert(body@ =~= debug_body(*d));
    put_block(out, "debug {\n", &body, "}\n\n");
}

// ── outputs ──────────────────────────────────────────────────────────────────

pub open spec fn mode_text(o: OutputConfig) -> Seq<char> {
    if o.mode_width != 0 && o.mode_height != 0 {
        if o.mode_refresh_mhz != 0 {
            "    mode \""@ + dec(o.mode_width as nat) + "x"@ + dec(o.mode_height as nat) + "@"@
                + fixed_text(o.mode_refresh_mhz as int, 3) + "\"\n"@
        } else {
            "    mode \""@ + dec(o.mode_width as nat) + "x"@ + dec(o.mode_height as nat) + "\"\n"@
        }
    } else {
        Seq::empty()
    }
}

pub open spec fn vrr_text(v: VrrMode) -> Seq<char> {
    match v {
        VrrMode::On => "    variable-refresh-rate\n"@,
        VrrMode::OnDemand => "    variable-refresh-rate on-demand=true\n"@,
        _ => Seq::empty(),
    }
}

pub open spec fn output_body(o: OutputConfig) -> Seq<char> {
    if o.off {
        "    off\n"@
    } else {
        Seq::empty() + mode_text(o) + fixed_line(o.scale, 2, "    scale "@, "\n"@) + opt(
            o.transform != OutputTransform::Normal,
            word_text(o.transform.kdl_word(), "    transform \""@),
        ) + opt(
            o.position_set,
            "    position x="@ + int_text(o.position_x as int) + " y="@ + int_text(
                o.position_y as int,
            ) + "\n"@,
        ) + vrr_text(o.vrr)
    }
}

/// An `output "NAME" { … }` node; nothing for a nameless output.
pub open spec fn output_text(o: OutputConfig) -> Seq<char> {
    opt(
        o.name@.len() > 0,
        "output \""@ + escape_quotes(o.name@) + "\" {\n"@ + output_body(o) + "}\n\n"@,
    )
}

fn put_mode(out: &mut String, o: &OutputConfig)
    ensures
        final(out)@ == old(out)@ + mode_text(*o),
{
    if o.mode_width != 0 && o.mode_height != 0 {
        out.append("    mode \"");
        put_dec(out, o.mode_width as u64);
        out.append("x");
        put_dec(out, o.mode_height as u64);
        if o.mode_refresh_mhz != 0 {
            out.append("@");
            put_fixed(out, o.mode_refresh_mhz as i64, 3);
        }
        out.append("\"\n");
    }
    assert(out@ =~= old(out)@ + mode_text(*o));
}

fn put_position(out: &mut String, o: &OutputConfig)
    ensures
        final(out)@ == old(out)@ + opt(
            o.position_set,
            "    position x="@ + int_text(o.position_x as int) + " y="@ + int_text(
                o.position_y as int,
            ) + "\n"@,
        ),
{
    if o.position_set {
        out.append("    position x=");
        put_int(out, o.position_x as i64);
        out.append(" y=");
        put_int(out, o.position_y as i64);
        out.append("\n");
    }
    assert(out@ =~= old(out)@ + opt(
        o.position_set,
        "    position x="@ + int_text(o.position_x as int) + " y="@ + int_text(o.position_y as int)
            + "\n"@,
    ));
}

fn put_output_body(out: &mut String, o: &OutputConfig)
    ensures
        final(out)@ == old(out)@ + output_body(*o),
{
    let mut b = String::new();
    if o.off {
        put(&mut b, "    off\n");
    } else {
        put_mode(&mut b, o);
        put_fixed_line(&mut b, o.scale, 2, "    scale ", "\n");
        let ghost before = b@;
        if o.transform != OutputTransform::Normal {
            put_word(&mut b, o.transform.as_kdl_str(), "    transform \"");
        }
        assert(b@ =~= before + opt(
            o.transform != OutputTransform::Normal,
            word_text(o.transform.kdl_word(), "    transform \""@),
        ));
        put_position(&mut b, o);
        let ghost before2 = b@;
        match o.vrr {
            VrrMode::On => put(&mut b, "    variable-refresh-rate\n"),
            VrrMode::OnDemand => put(&mut b, "    variable-refresh-rate on-demand=true\n"),
            _ => {},
        }
        assert(b@ =~= before2 + vrr_text(o.vrr));
    }
    assert(b@ =~= output_body(*o));
    put_string(out, &b);
}

fn put_output(out: &mut String, o: &OutputConfig)
    ensures
        final(out)@ == old(out)@ + output_text(*o),
{
    if !o.name.as_str().is_empty() {
        out.append("output \"");
        put_escaped(out, o.name.as_str());
        out.append("\" {\n");
        put_output_body(out, o);
        out.append("}\n\n");
    }
    assert(out@ =~= old(out)@ + output_text(*o));
}

/// Concatenates `f` of each item.
pub open spec fn outputs_text(os: Seq<OutputConfig>) -> Seq<char>
    decreases os.len(),
{
    if os.len() == 0 {
        Seq::empty()
    } else {
        outputs_text(os.drop_last()) + output_text(os.last())
    }
}

fn write_outputs(out: &mut String, os: &Vec<OutputConfig>)
    ensures
        final(out)@ == old(out)@ + outputs_text(os@),
{
    let mut s = String::new();
    let mut i: usize = 0;
    while i < os.len()
        invariant
            i <= os.len(),
            s@ == outputs_text(os@.subrange(0, i as int)),
        decreases os.len() - i,
    {
        put_output(&mut s, &os[i]);
        assert(os@.subrange(0, i + 1).drop_last() =~= os@.subrange(0, i as int));
        i = i + 1;
    }
    assert(os@.subrange(0, i as int) =~= os@);
    put_string(out, &s);
}

// ── window and layer rules ───────────────────────────────────────────────────

/// `head "regex-sanitised value"` line when the value is not empty.
pub open spec fn regex_line(v: Seq<char>, head: Seq<char>) -> Seq<char> {
    opt(v.len() > 0, head + keep_chars(v, |c: char| regex_char(c)) + "\"\n"@)
}

fn put_regex_line(out: &mut String, v: &str, head: &str)
    ensures
        final(out)@ == old(out)@ + regex_line(v@, head@),
{
    if !v.is_empty() {
        out.append(head);
        let p = sanitise_regex(v);
        out.append(p.as_str());
        out.append("\"\n");
    }
    assert(out@ =~= old(out)@ + regex_line(v@, head@));
}

pub open spec fn block_out_text(b: BlockOutFrom) -> Seq<char> {
    opt(b != BlockOutFrom::Nowhere, word_text(b.kdl_word(), "    block-out-from \""@))
}

fn put_block_out(out: &mut String, b: BlockOutFrom)
    ensures
        final(out)@ == old(out)@ + block_out_text(b),
{
    if b != BlockOutFrom::Nowhere {
        put_word(out, b.as_kdl_str(), "    block-out-from \"");
    }
    assert(out@ =~= old(out)@ + block_out_text(b));
}

pub open spec fn window_rule_head(r: WindowRule) -> Seq<char> {
    Seq::empty() + regex_line(r.match_app_id@, "    match app-id=\""@) + regex_line(
        r.match_title@,
        "    match title=\""@,
    ) + r.match_at_startup.match_line("at-startup"@) + r.open_maximized.bool_line(
        "open-maximized"@,
    ) + r.open_fullscreen.bool_line("open-fullscreen"@) + r.open_floating.bool_line(
        "open-floating"@,
    ) + r.open_focused.bool_line("open-focused"@) + path_line(
        r.open_on_output@,
        "    open-on-output \""@,
    ) + path_line(r.open_on_workspace@, "    open-on-workspace \""@)
}

pub open spec fn window_rule_tail(r: WindowRule) -> Seq<char> {
    Seq::empty() + fixed_line(r.opacity, 2, "    opacity "@, "\n"@) + block_out_text(r.block_out_from)
        + r.draw_border_with_background.bool_line("draw-border-with-background"@) + fixed_line(
        r.geometry_corner_radius,
        1,
        "    geometry-corner-radius "@,
        "\n"@,
    ) + r.clip_to_geometry.bool_line("clip-to-geometry"@) + r.variable_refresh_rate.bool_line(
        "variable-refresh-rate"@,
    ) + num_line(r.min_width != 0, "    min-width "@, r.min_width as nat, "\n"@) + num_line(
        r.max_width != 0,
        "    max-width "@,
        r.max_width as nat,
        "\n"@,
    ) + num_line(r.min_height != 0, "    min-height "@, r.min_height as nat, "\n"@) + num_line(
        r.max_height != 0,
        "    max-height "@,
        r.max_height as nat,
        "\n"@,
    ) + fixed_line(r.scroll_factor, 2, "    scroll-factor "@, "\n"@)
}

/// A `window-rule { … }` node; nothing when the rule sets nothing.
pub open spec fn window_rule_text(r: WindowRule) -> Seq<char> {
    block("window-rule {\n"@, window_rule_head(r) + window_rule_tail(r), "}\n\n"@)
}

fn put_window_rule_head(out: &mut String, r: &WindowRule)
    ensures
        final(out)@ == old(out)@ + window_rule_head(*r),
{
    let mut b = String::new();
    put_regex_line(&mut b, r.match_app_id.as_str(), "    match app-id=\"");
    put_regex_line(&mut b, r.match_title.as_str(), "    match title=\"");
    r.match_at_startup.write_kdl_match(&mut b, "at-startup");
    r.open_maximized.write_kdl_bool(&mut b, "open-maximized");
    r.open_fullscreen.write_kdl_bool(&mut b, "open-fullscreen");
    r.open_floating.write_kdl_bool(&mut b, "open-floating");
    r.open_focused.write_kdl_bool(&mut b, "open-focused");
    put_path_line(&mut b, r.open_on_output.as_str(), "    open-on-output \"");
    put_path_line(&mut b, r.open_on_workspace.as_str(), "    open-on-workspace \"");
    put_string(out, &b);
}

fn put_window_rule_tail(out: &mut String, r: &WindowRule)
    ensures
        final(out)@ == old(out)@ + window_rule_tail(*r),
{
    let mut b = String::new();
    put_fixed_line(&mut b, r.opacity, 2, "    opacity ", "\n");
    put_block_out(&mut b, r.block_out_from);
    r.draw_border_with_background.write_kdl_bool(&mut b, "draw-border-with-background");
    put_fixed_line(&mut b, r.geometry_corner_radius, 1, "    geometry-corner-radius ", "\n");
    r.clip_to_geometry.write_kdl_bool(&mut b, "clip-to-geometry");
    r.variable_refresh_rate.write_kdl_bool(&mut b, "variable-refresh-rate");
    put_num_line(&mut b, r.min_width != 0, "    min-width ", r.min_width as u64, "\n");
    put_num_line(&mut b, r.max_width != 0, "    max-width ", r.max_width as u64, "\n");
    put_num_line(&mut b, r.min_height != 0, "    min-height ", r.min_height as u64, "\n");
    put_num_line(&mut b, r.max_height != 0, "    max-height ", r.max_height as u64, "\n");
    put_fixed_line(&mut b, r.scroll_factor, 2, "    scroll-factor ", "\n");
    put_string(out, &b);
}

fn put_window_rule(out: &mut String, r: &WindowRule)
    ensures
        final(out)@ == old(out)@ + window_rule_text(*r),
{
    let mut body = String::new();
    put_window_rule_head(&mut body, r);
    put_window_rule_tail(&mut body, r);
    assert(body@ =~= window_rule_head(*r) + window_rule_tail(*r));
    put_block(out, "window-rule {\n", &body, "}\n\n");
}

pub open spec fn window_rules_text(rs: Seq<WindowRule>) -> Seq<char>
    decreases rs.len(),
{
    if rs.len() == 0 {
        Seq::empty()
    } else {
        window_rules_text(rs.drop_last()) + window_rule_text(rs.last())
    }
}

fn write_window_rules(out: &mut String, rs: &Vec<WindowRule>)
    ensures
        final(out)@ == old(out)@ + window_rules_text(rs@),
{
    let mut s = String::new();
    let mut i: usize = 0;
    while i < rs.len()
        invariant
            i <= rs.len(),
            s@ == window_rules_text(rs@.subrange(0, i as int)),
        decreases rs.len() - i,
    {
        put_window_rule(&mut s, &rs[i]);
        assert(rs@.subrange(0, i + 1).drop_last() =~= rs@.subrange(0, i as int));
        i = i + 1;
    }
    assert(rs@.subrange(0, i as int) =~= rs@);
    put_string(out, &s);
}

pub open spec fn shadow_text(t: TriState) -> Seq<char> {
    match t {
        TriState::On => "    shadow {\n        on\n    }\n"@,
        TriState::Off => "    shadow {\n        off\n    }\n"@,
        TriState::Default => Seq::empty(),
    }
}

pub open spec fn layer_rule_body(r: LayerRule) -> Seq<char> {
    Seq::empty() + regex_line(r.match_namespace@, "    match namespace=\""@)
        + r.match_at_startup.match_line("at-startup"@) + fixed_line(
        r.opacity,
        2,
        "    opacity "@,
        "\n"@,
    ) + block_out_text(r.block_out_from) + shadow_text(r.shadow) + fixed_line(
        r.geometry_corner_radius,
        1,
        "    geometry-corner-radius "@,
        "\n"@,
    ) + r.place_within_backdrop.bool_line("place-within-backdrop"@)
}

/// A `layer-rule { … }` node; nothing when the rule sets nothing.
pub open spec fn layer_rule_text(r: LayerRule) -> Seq<char> {
    block("layer-rule {\n"@, layer_rule_body(r), "}\n\n"@)
}

fn put_shadow(out: &mut String, t: TriState)
    ensures
        final(out)@ == old(out)@ + shadow_text(t),
{
    match t {
        TriState::On => put(out, "    shadow {\n        on\n    }\n"),
        TriState::Off => put(out, "    shadow {\n        off\n    }\n"),
        TriState::Default => {},
    }
    assert(out@ =~= old(out)@ + shadow_text(t));
}

fn put_layer_rule(out: &mut String, r: &LayerRule)
    ensures
        final(out)@ == old(out)@ + layer_rule_text(*r),
{
    let mut b = String::new();
    put_regex_line(&mut b, r.match_namespace.as_str(), "    match namespace=\"");
    r.match_at_startup.write_kdl_match(&mut b, "at-startup");
    put_fixed_line(&mut b, r.opacity, 2, "    opacity ", "\n");
    put_block_out(&mut b, r.block_out_from);
    put_shadow(&mut b, r.shadow);
    put_fixed_line(&mut b, r.geometry_corner_radius, 1, "    geometry-corner-radius ", "\n");
    r.place_within_backdrop.write_kdl_bool(&mut b, "place-within-backdrop");
    put_block(out, "layer-rule {\n", &b, "}\n\n");
}

pub open spec fn layer_rules_text(rs: Seq<LayerRule>) -> Seq<char>
    decreases rs.len(),
{
    if rs.len() == 0 {
        Seq::empty()
    } else {
        layer_rules_text(rs.drop_last()) + layer_rule_text(rs.last())
    }
}

fn write_layer_rules(out: &mut String, rs: &Vec<LayerRule>)
    ensures
        final(out)@ == old(out)@ + layer_rules_text(rs@),
{
    let mut s = String::new();
    let mut i: usize = 0;
    while i < rs.len()
        invariant
            i <= rs.len(),
            s@ == layer_rules_text(rs@.subrange(0, i as int)),
        decreases rs.len() - i,
    {
        put_layer_rule(&mut s, &rs[i]);
        assert(rs@.subrange(0, i + 1).drop_last() =~= rs@.subrange(0, i as int));
        i = i + 1;
    }
    assert(rs@.subrange(0, i as int) =~= rs@);
    put_string(out, &s);
}

// ── switch events ────────────────────────────────────────────────────────────

pub open spec fn quote(s: Seq<char>) -> Seq<char> {
    seq!['"'] + s + seq!['"']
}

/// A word quoted after path sanitisation.
pub open spec fn quoted_path(s: Seq<char>) -> Seq<char> {
    quote(keep_chars(s, |c: char| path_char(c)))
}

/// Quotes each word after path sanitisation and joins them with spaces.
pub open spec fn quoted_words(ws: Seq<Seq<char>>) -> Seq<char> {
    join_space(ws.map_values(|w: Seq<char>| quoted_path(w)))
}

pub open spec fn string_views(v: Seq<String>) -> Seq<Seq<char>> {
    v.map_values(|s: String| s@)
}

fn put_quoted_path(out: &mut String, w: &str)
    ensures
        final(out)@ == old(out)@ + quoted_path(w@),
{
    out.append("\"");
    let p = sanitise_path(w);
    out.append(p.as_str());
    out.append("\"");
    proof {
        reveal_strlit("\"");
    }
    assert(out@ =~= old(out)@ + quoted_path(w@));
}

/// Appends the quoted, sanitised words joined with spaces.
fn put_quoted_words(out: &mut String, ws: &Vec<String>)
    ensures
        final(out)@ == old(out)@ + quoted_words(string_views(ws@)),
{
    let ghost all = string_views(ws@).map_values(|w: Seq<char>| quoted_path(w));
    let mut s = String::new();
    let mut i: usize = 0;
    while i < ws.len()
        invariant
            i <= ws.len(),
            all == string_views(ws@).map_values(|w: Seq<char>| quoted_path(w)),
            s@ == join_space(all.subrange(0, i as int)),
        decreases ws.len() - i,
    {
        let ghost pre = all.subrange(0, i as int);
        if i > 0 {
            s.append(" ");
            proof {
                reveal_strlit(" ");
            }
        }
        let ghost mid = s@;
        put_quoted_path(&mut s, ws[i].as_str());
        proof {
            let next = all.subrange(0, i + 1);
            assert(next.drop_last() =~= pre);
            assert(next.last() == quoted_path(ws@[i as int]@));
            if i == 0 {
                assert(next =~= seq![quoted_path(ws@[0]@)]);
                assert(s@ =~= join_space(next));
            } else {
                assert(s@ =~= join_space(pre) + seq![' '] + next.last());
            }
        }
        i = i + 1;
    }
    assert(all.subrange(0, i as int) =~= all);
    put_string(out, &s);
}

pub open spec fn event_text(name: Seq<char>, argv: Seq<String>) -> Seq<char> {
    opt(
        argv.len() > 0,
        "    "@ + name + " { spawn "@ + quoted_words(string_views(argv)) + "; }\n"@,
    )
}

fn put_event(out: &mut String, name: &str, argv: &Vec<String>)
    ensures
        final(out)@ == old(out)@ + event_text(name@, argv@),
{
    if argv.len() > 0 {
        out.append("    ");
        out.append(name);
        out.append(" { spawn ");
        put_quoted_words(out, argv);
        out.append("; }\n");
    }
    assert(out@ =~= old(out)@ + event_text(name@, argv@));
}

/// The `switch-events { … }` section.
pub open spec fn switch_events_text(se: SwitchEventsSettings) -> Seq<char> {
    let body = Seq::empty() + event_text("lid-close"@, se.lid_close@) + event_text(
        "lid-open"@,
        se.lid_open@,
    ) + event_text("tablet-mode-on"@, se.tablet_mode_on@) + event_text(
        "tablet-mode-off"@,
        se.tablet_mode_off@,
    );
    block("switch-events {\n"@, body, "}\n\n"@)
}

fn write_switch_events(out: &mut String, se: &SwitchEventsSettings)
    ensures
        final(out)@ == old(out)@ + switch_events_text(*se),
{
    let mut body = String::new();
    put_event(&mut body, "lid-close", &se.lid_close);
    put_event(&mut body, "lid-open", &se.lid_open);
    put_event(&mut body, "tablet-mode-on", &se.tablet_mode_on);
    put_event(&mut body, "tablet-mode-off", &se.tablet_mode_off);
    put_block(out, "switch-events {\n", &body, "}\n\n");
}

// ── binds ────────────────────────────────────────────────────────────────────

/// The action part of a bind line, or `None` when the binding is not
/// written: `spawn` quotes each whitespace-separated argument, `spawn-sh`
/// quotes the whole command, other actions take their arguments bare.
pub open spec fn action_kdl(b: Keybind) -> Option<Seq<char>> {
    let args = b.action_args@;
    if b.action@ == "spawn"@ {
        let ws = words_from(args, 0);
        if ws.len() == 0 {
            None
        } else {
            Some("spawn "@ + quoted_words(ws))
        }
    } else if b.action@ == "spawn-sh"@ {
        if args.len() == 0 {
            None
        } else {
            Some("spawn-sh "@ + quoted_path(args))
        }
    } else if args.len() > 0 {
        Some(b.action@ + " "@ + keep_chars(args, |c: char| path_char(c)))
    } else {
        Some(b.action@)
    }
}

/// The properties written after the key.
pub open spec fn bind_props_text(b: Keybind) -> Seq<char> {
    Seq::empty() + opt(!b.repeat, " repeat=false"@) + num_line(
        b.cooldown_ms > 0,
        " cooldown-ms="@,
        b.cooldown_ms as nat,
        ""@,
    ) + opt(b.allow_when_locked, " allow-when-locked=true"@)
}

/// A bind line `    KEY[props] { ACTION; }`, or nothing for a binding
/// without key or action, whose key has no valid character, or whose
/// `spawn`/`spawn-sh` has nothing to run.
pub open spec fn bind_text(b: Keybind) -> Seq<char> {
    let key = keep_chars(b.key@, |c: char| key_char(c));
    if b.key@.len() == 0 || b.action@.len() == 0 || key.len() == 0 {
        Seq::empty()
    } else {
        match action_kdl(b) {
            Some(a) => "    "@ + key + bind_props_text(b) + " { "@ + a + "; }\n"@,
            None => Seq::empty(),
        }
    }
}

/// Appends the quoted, sanitised words of `s` joined with spaces; returns
/// whether there were any.
fn put_spawn_args(out: &mut String, s: &str) -> (r: bool)
    ensures
        r == (words_from(s@, 0).len() > 0),
        final(out)@ == old(out)@ + quoted_words(words_from(s@, 0)),
{
    let cs = crate::text::chars_of(s);
    let ws = split_words(&cs);
    let mut strs: Vec<String> = Vec::new();
    let mut i: usize = 0;
    while i < ws.len()
        invariant
            i <= ws.len(),
            string_views(strs@) == views(ws@).subrange(0, i as int),
        decreases ws.len() - i,
    {
        let w = crate::text::string_of(&ws[i]);
        let ghost before = strs@;
        strs.push(w);
        assert(strs@ == before.push(w));
        assert(views(ws@)[i as int] == ws@[i as int]@);
        assert(string_views(strs@) =~= string_views(before).push(w@));
        assert(views(ws@).subrange(0, i + 1) =~= views(ws@).subrange(0, i as int).push(w@));
        i = i + 1;
    }
    assert(views(ws@).subrange(0, i as int) =~= views(ws@));
    put_quoted_words(out, &strs);
    ws.len() > 0
}

fn action_text(b: &Keybind) -> (r: Option<String>)
    ensures
        match r {
            Some(t) => action_kdl(*b) == Some(t@),
            None => action_kdl(*b) is None,
        },
{
    let a = crate::text::chars_of(b.action.as_str());
    if crate::text::str_is(&a, "spawn") {
        let mut t = String::new();
        t.append("spawn ");
        let any = put_spawn_args(&mut t, b.action_args.as_str());
        if !any {
            return None;
        }
        assert(t@ =~= "spawn "@ + quoted_words(words_from(b.action_args@, 0)));
        Some(t)
    } else if crate::text::str_is(&a, "spawn-sh") {
        if b.action_args.as_str().is_empty() {
            return None;
        }
        let mut t = String::new();
        t.append("spawn-sh ");
        put_quoted_path(&mut t, b.action_args.as_str());
        assert(t@ =~= "spawn-sh "@ + quoted_path(b.action_args@));
        Some(t)
    } else if !b.action_args.as_str().is_empty() {
        let mut t = String::new();
        t.append(b.action.as_str());
        t.append(" ");
        let p = sanitise_path(b.action_args.as_str());
        t.append(p.as_str());
        assert(t@ =~= b.action@ + " "@ + keep_chars(b.action_args@, |c: char| path_char(c)));
        Some(t)
    } else {
        let mut t = String::new();
        t.append(b.action.as_str());
        assert(t@ =~= b.action@);
        Some(t)
    }
}

fn put_bind(out: &mut String, b: &Keybind)
    ensures
        final(out)@ == old(out)@ + bind_text(*b),
{
    if !b.key.as_str().is_empty() && !b.action.as_str().is_empty() {
        let key = sanitise_keybind_key(b.key.as_str());
        if !key.as_str().is_empty() {
            if let Some(a) = action_text(b) {
                let mut props = String::new();
                put_opt(&mut props, !b.repeat, " repeat=false");
                put_num_line(&mut props, b.cooldown_ms > 0, " cooldown-ms=", b.cooldown_ms as u64, "");
                put_opt(&mut props, b.allow_when_locked, " allow-when-locked=true");
                out.append("    ");
                out.append(key.as_str());
                out.append(props.as_str());
                out.append(" { ");
                out.append(a.as_str());
                out.append("; }\n");
            }
        }
    }
    assert(out@ =~= old(out)@ + bind_text(*b));
}

pub open spec fn binds_lines(bs: Seq<Keybind>) -> Seq<char>
    decreases bs.len(),
{
    if bs.len() == 0 {
        Seq::empty()
    } else {
        binds_lines(bs.drop_last()) + bind_text(bs.last())
    }
}

/// The `binds { … }` section.
pub open spec fn binds_text(bs: Seq<Keybind>) -> Seq<char> {
    block("binds {\n"@, binds_lines(bs), "}\n\n"@)
}

fn write_binds(out: &mut String, bs: &Vec<Keybind>)
    ensures
        final(out)@ == old(out)@ + binds_text(bs@),
{
    let mut s = String::new();
    let mut i: usize = 0;
    while i < bs.len()
        invariant
            i <= bs.len(),
            s@ == binds_lines(bs@.subrange(0, i as int)),
        decreases bs.len() - i,
    {
        put_bind(&mut s, &bs[i]);
        assert(bs@.subrange(0, i + 1).drop_last() =~= bs@.subrange(0, i as int));
        i = i + 1;
    }
    assert(bs@.subrange(0, i as int) =~= bs@);
    put_block(out, "binds {\n", &s, "}\n\n");
}

// ── the fragment ─────────────────────────────────────────────────────────────

/// The first line of every generated fragment.
pub open spec fn kdl_header() -> Seq<char> {
    "// Managed by niri-settings. Manual KDL edits are preserved where possible.\n\n"@
}

/// The whole generated fragment: the header, then the sections in a fixed
/// order.
pub open spec fn kdl_text(cfg: SettingsConfig) -> Seq<char> {
    kdl_header() + input_text(cfg.input) + layout_text(cfg.layout) + misc_text(cfg.misc)
        + animations_text(cfg.anim) + workspaces_text(cfg.workspaces@) + gestures_text(
        cfg.gestures,
    ) + recent_windows_text(cfg.recent_windows) + debug_text(cfg.debug) + outputs_text(
        cfg.outputs@,
    ) + window_rules_text(cfg.window_rules@) + layer_rules_text(cfg.layer_rules@)
        + switch_events_text(cfg.switch_events) + binds_text(cfg.binds@)
}

/// Generates the niri KDL fragment for the settings (see [`kdl_text`]).
pub fn generate_kdl(cfg: &SettingsConfig) -> (r: String)
    ensures
        r@ == kdl_text(*cfg),
{
    let mut out = String::from_str(
        "// Managed by niri-settings. Manual KDL edits are preserved where possible.\n\n",
    );
    write_input(&mut out, &cfg.input);
    write_layout(&mut out, &cfg.layout);
    write_misc(&mut out, &cfg.misc);
    write_animations(&mut out, &cfg.anim);
    write_workspaces(&mut out, &cfg.workspaces);
    write_gestures(&mut out, &cfg.gestures);
    write_recent_windows(&mut out, &cfg.recent_windows);
    write_debug(&mut out, &cfg.debug);
    write_outputs(&mut out, &cfg.outputs);
    write_window_rules(&mut out, &cfg.window_rules);
    write_layer_rules(&mut out, &cfg.layer_rules);
    write_switch_events(&mut out, &cfg.switch_events);
    write_binds(&mut out, &cfg.binds);
    out
}

// ── Hot corners, line by line ────────────────────────────────────────────────

/// `l` is one line: it ends with its only newline.
pub open spec fn is_line(l: Seq<char>) -> bool {
    l.len() > 0 && l.last() == '\n' && forall|i: int| 0 <= i < l.len() - 1 ==> l[i] != '\n'
}

/// `t` has the line `l`: `l` stands at the start of `t` or right after a
/// newline.
pub open spec fn has_line(t: Seq<char>, l: Seq<char>) -> bool {
    exists|p: int|
        0 <= p && p + l.len() <= t.len() && (p == 0 || t[p - 1] == '\n') && #[trigger] t.subrange(
            p,
            p + l.len(),
        ) == l
}

pub open spec fn ends_line(a: Seq<char>) -> bool {
    a.len() == 0 || a.last() == '\n'
}

proof fn lemma_ends_line_concat(a: Seq<char>, b: Seq<char>)
    requires
        ends_line(a),
        ends_line(b),
    ensures
        ends_line(a + b),
{
    if b.len() > 0 {
        assert((a + b).last() == b.last());
    } else {
        assert(a + b =~= a);
    }
}

/// A line found in `a + b`, where `a` ends a line, is found in `a` or in `b`.
proof fn lemma_has_line_split(a: Seq<char>, b: Seq<char>, l: Seq<char>)
    requires
        is_line(l),
        ends_line(a),
        has_line(a + b, l),
    ensures
        has_line(a, l) || has_line(b, l),
{
    let t = a + b;
    let p = choose|p: int|
        0 <= p && p + l.len() <= t.len() && (p == 0 || t[p - 1] == '\n') && #[trigger] t.subrange(
            p,
            p + l.len(),
        ) == l;
    if p + l.len() <= a.len() {
        assert(a.subrange(p, p + l.len()) =~= t.subrange(p, p + l.len()));
        if p > 0 {
            assert(a[p - 1] == t[p - 1]);
        }
    } else if p >= a.len() {
        let q = p - a.len();
        assert(b.subrange(q, q + l.len()) =~= t.subrange(p, p + l.len()));
        if q > 0 {
            assert(b[q - 1] == t[p - 1]);
        }
    } else {
        let i = a.len() - 1 - p;
        assert(t[a.len() - 1] == a.last());
        assert(t.subrange(p, p + l.len())[i] == t[p + i]);
        assert(l[i] == '\n');
        assert(i < l.len() - 1);
    }
}

/// A line found in a line is that line.
proof fn lemma_has_line_in_line(x: Seq<char>, l: Seq<char>)
    requires
        is_line(x),
        is_line(l),
        has_line(x, l),
    ensures
        x == l,
{
    let p = choose|p: int|
        0 <= p && p + l.len() <= x.len() && (p == 0 || x[p - 1] == '\n') && #[trigger] x.subrange(
            p,
            p + l.len(),
        ) == l;
    if p > 0 {
        assert(p - 1 == x.len() - 1);
    }
    assert(x.subrange(0, l.len() as int)[l.len() - 1] == x[l.len() - 1]);
    assert(x[l.len() - 1] == '\n');
    assert(l.len() == x.len());
    assert(x =~= x.subrange(0, l.len() as int));
}

proof fn lemma_no_line_in_empty(l: Seq<char>)
    requires
        is_line(l),
    ensures
        !has_line(Seq::<char>::empty(), l),
{
}

/// A line in `x` not at its very start stays a line of `a + x + b`.
proof fn lemma_has_line_extend(a: Seq<char>, x: Seq<char>, b: Seq<char>, l: Seq<char>, p: int)
    requires
        0 < p,
        p + l.len() <= x.len(),
        x[p - 1] == '\n',
        x.subrange(p, p + l.len()) == l,
    ensures
        has_line(a + x + b, l),
{
    let t = a + x + b;
    let q = a.len() + p;
    assert(t.subrange(q, q + l.len()) =~= x.subrange(p, p + l.len()));
    assert(t[q - 1] == x[p - 1]);
}

pub open spec fn corner_line(k: int) -> Seq<char> {
    if k == 0 {
        "        top-left\n"@
    } else if k == 1 {
        "        top-right\n"@
    } else if k == 2 {
        "        bottom-left\n"@
    } else {
        "        bottom-right\n"@
    }
}

pub open spec fn corner_flag(g: GestureSettings, k: int) -> bool {
    if k == 0 {
        g.hot_corners_top_left
    } else if k == 1 {
        g.hot_corners_top_right
    } else if k == 2 {
        g.hot_corners_bottom_left
    } else {
        g.hot_corners_bottom_right
    }
}

proof fn lemma_corner_literals()
    ensures
        is_line("    hot-corners {\n"@),
        is_line("    }\n"@),
        forall|k: int| 0 <= k < 4 ==> is_line(#[trigger] corner_line(k)),
        forall|k: int, j: int| 0 <= k < 4 && 0 <= j < 4 && k != j ==> #[trigger] corner_line(k) != #[trigger] corner_line(j),
        forall|k: int| 0 <= k < 4 ==> #[trigger] corner_line(k) != "    hot-corners {\n"@ && corner_line(k) != "    }\n"@,
{
    reveal_strlit("    hot-corners {\n");
    reveal_strlit("    }\n");
    reveal_strlit("        top-left\n");
    reveal_strlit("        top-right\n");
    reveal_strlit("        bottom-left\n");
    reveal_strlit("        bottom-right\n");
    assert forall|k: int| 0 <= k < 4 implies is_line(#[trigger] corner_line(k)) by {
        let l = corner_line(k);
        assert forall|i: int| 0 <= i < l.len() - 1 implies l[i] != '\n' by {}
    }
    assert forall|k: int, j: int| 0 <= k < 4 && 0 <= j < 4 && k != j implies #[trigger] corner_line(k)
        != #[trigger] corner_line(j) by {
        if corner_line(k).len() == corner_line(j).len() {
            assert(corner_line(k)[8] != corner_line(j)[8] || corner_line(k)[12] != corner_line(j)[12]);
        }
    }
    assert forall|k: int| 0 <= k < 4 implies #[trigger] corner_line(k) != "    hot-corners {\n"@
        && corner_line(k) != "    }\n"@ by {
        assert(corner_line(k)[4] != "    hot-corners {\n"@[4]);
    }
}

/// Each hot-corner line is written exactly when its own corner is enabled
/// (and the corners are not turned off as a whole): the `top-left`,
/// `top-right`, `bottom-left` and `bottom-right` lines of the hot-corners
/// block follow the flags of those corners.
pub proof fn law_hot_corner_lines(g: GestureSettings, k: int)
    requires
        !g.hot_corners_off,
        0 <= k < 4,
    ensures
        has_line(hot_corners_text(g), corner_line(k)) == corner_flag(g, k),
{
    lemma_corner_literals();
    let h = "    hot-corners {\n"@;
    let c = "    }\n"@;
    let t = hot_corners_text(g);
    let l = corner_line(k);
    let any = g.hot_corners_top_left || g.hot_corners_top_right || g.hot_corners_bottom_left
        || g.hot_corners_bottom_right;
    let o0 = opt(g.hot_corners_top_left, corner_line(0));
    let o1 = opt(g.hot_corners_top_right, corner_line(1));
    let o2 = opt(g.hot_corners_bottom_left, corner_line(2));
    let o3 = opt(g.hot_corners_bottom_right, corner_line(3));
    reveal_strlit("    hot-corners {\n");
    reveal_strlit("    }\n");
    reveal_strlit("        top-left\n");
    reveal_strlit("        top-right\n");
    reveal_strlit("        bottom-left\n");
    reveal_strlit("        bottom-right\n");
    if !any {
        assert(t =~= Seq::<char>::empty());
        lemma_no_line_in_empty(l);
        return;
    }
    let x0 = Seq::<char>::empty() + h;
    let x1 = x0 + o0;
    let x2 = x1 + o1;
    let x3 = x2 + o2;
    let x4 = x3 + o3;
    assert(t == x4 + c);
    assert(ends_line(h) && ends_line(c));
    assert(ends_line(o0) && ends_line(o1) && ends_line(o2) && ends_line(o3));
    assert(x0 =~= h);
    lemma_ends_line_concat(x0, o0);
    lemma_ends_line_concat(x1, o1);
    lemma_ends_line_concat(x2, o2);
    lemma_ends_line_concat(x3, o3);
    if corner_flag(g, k) {
        // The line stands after the header and the lines before it.
        let pre = if k == 0 {
            x0
        } else if k == 1 {
            x1
        } else if k == 2 {
            x2
        } else {
            x3
        };
        let post = if k == 0 {
            o1 + o2 + o3 + c
        } else if k == 1 {
            o2 + o3 + c
        } else if k == 2 {
            o3 + c
        } else {
            c
        };
        assert(t =~= pre + l + post);
        assert(pre.len() > 0 && pre.last() == '\n');
        assert((pre + l).subrange(pre.len() as int, (pre.len() + l.len()) as int) =~= l);
        assert((pre + l)[pre.len() - 1] == '\n');
        lemma_has_line_extend(Seq::empty(), pre + l, post, l, pre.len() as int);
        assert(Seq::<char>::empty() + (pre + l) + post =~= t);
    } else {
        if has_line(t, l) {
            // Every piece the line could stand in is another line or empty.
            lemma_has_line_split(x4, c, l);
            if has_line(c, l) {
                lemma_has_line_in_line(c, l);
            }
            lemma_has_line_split(x3, o3, l);
            lemma_has_line_split(x2, o2, l);
            lemma_has_line_split(x1, o1, l);
            lemma_has_line_split(x0, o0, l);
            assert(forall|j: int|
                0 <= j < 4 ==> has_line(#[trigger] opt(corner_flag(g, j), corner_line(j)), l)
                    ==> corner_flag(g, j) && corner_line(j) == l) by {
                assert forall|j: int| 0 <= j < 4 && has_line(
                    #[trigger] opt(corner_flag(g, j), corner_line(j)),
                    l,
                ) implies corner_flag(g, j) && corner_line(j) == l by {
                    if corner_flag(g, j) {
                        lemma_has_line_in_line(corner_line(j), l);
                    } else {
                        lemma_no_line_in_empty(l);
                    }
                }
            }
            if has_line(h, l) {
                lemma_has_line_in_line(h, l);
            }
            assert(o0 == opt(corner_flag(g, 0), corner_line(0)));
            assert(o1 == opt(corner_flag(g, 1), corner_line(1)));
            assert(o2 == opt(corner_flag(g, 2), corner_line(2)));
            assert(o3 == opt(corner_flag(g, 3), corner_line(3)));
        }
    }
}

/// `t` has the line `l` somewhere after its first character.
pub open spec fn has_inner_line(t: Seq<char>, l: Seq<char>) -> bool {
    exists|p: int|
        0 < p && p + l.len() <= t.len() && t[p - 1] == '\n' && #[trigger] t.subrange(p, p + l.len())
            == l
}

proof fn lemma_inner_line_extend(a: Seq<char>, x: Seq<char>, b: Seq<char>, l: Seq<char>)
    requires
        has_inner_line(x, l),
    ensures
        has_inner_line(a + x + b, l),
        has_line(a + x + b, l),
{
    let p = choose|p: int|
        0 < p && p + l.len() <= x.len() && x[p - 1] == '\n' && #[trigger] x.subrange(p, p + l.len())
            == l;
    let t = a + x + b;
    let q = a.len() + p;
    assert(t.subrange(q, q + l.len()) =~= x.subrange(p, p + l.len()));
    assert(t[q - 1] == x[p - 1]);
}

proof fn lemma_inner_line_prefix(a: Seq<char>, x: Seq<char>, l: Seq<char>)
    requires
        has_inner_line(x, l),
    ensures
        has_inner_line(a + x, l),
{
    lemma_inner_line_extend(a, x, Seq::empty(), l);
    assert(a + x + Seq::<char>::empty() =~= a + x);
}

proof fn lemma_inner_line_suffix(x: Seq<char>, b: Seq<char>, l: Seq<char>)
    requires
        has_inner_line(x, l),
    ensures
        has_inner_line(x + b, l),
        has_line(x + b, l),
{
    lemma_inner_line_extend(Seq::empty(), x, b, l);
    assert(Seq::<char>::empty() + x + b =~= x + b);
}

proof fn lemma_enabled_corner_inner(g: GestureSettings, k: int)
    requires
        !g.hot_corners_off,
        0 <= k < 4,
        corner_flag(g, k),
    ensures
        has_inner_line(hot_corners_text(g), corner_line(k)),
{
    let hot = hot_corners_text(g);
    let l = corner_line(k);
    law_hot_corner_lines(g, k);
    reveal_strlit("    hot-corners {\n");
    reveal_strlit("        top-left\n");
    reveal_strlit("        top-right\n");
    reveal_strlit("        bottom-left\n");
    reveal_strlit("        bottom-right\n");
    let p = choose|p: int|
        0 <= p && p + l.len() <= hot.len() && (p == 0 || hot[p - 1] == '\n') && #[trigger] hot.subrange(
            p,
            p + l.len(),
        ) == l;
    if p == 0 {
        assert(hot.subrange(0, l.len() as int)[4] == hot[4]);
        assert(hot[4] == 'h');
        assert(l[4] == ' ');
    }
}

proof fn lemma_enabled_corner_gestures(g: GestureSettings, k: int)
    requires
        !g.hot_corners_off,
        0 <= k < 4,
        corner_flag(g, k),
    ensures
        has_inner_line(gestures_text(g), corner_line(k)),
{
    let hot = hot_corners_text(g);
    let l = corner_line(k);
    lemma_enabled_corner_inner(g, k);
    let d1 = dnd_text(
        "    dnd-edge-view-scroll {\n"@,
        "        trigger-width "@,
        g.dnd_view_trigger_width,
        g.dnd_view_delay_ms,
        g.dnd_view_max_speed,
    );
    let d2 = dnd_text(
        "    dnd-edge-workspace-switch {\n"@,
        "        trigger-height "@,
        g.dnd_ws_trigger_height,
        g.dnd_ws_delay_ms,
        g.dnd_ws_max_speed,
    );
    let body = Seq::<char>::empty() + d1 + d2 + hot;
    lemma_inner_line_prefix(Seq::<char>::empty() + d1 + d2, hot, l);
    assert(body.len() > 0);
    assert(gestures_text(g) == "gestures {\n"@ + body + "}\n\n"@);
    lemma_inner_line_prefix("gestures {\n"@, body, l);
    lemma_inner_line_suffix("gestures {\n"@ + body, "}\n\n"@, l);
}

/// An enabled hot corner's line reaches the generated fragment: with the
/// corners not turned off as a whole, the gestures section and the whole
/// fragment have the line of each enabled corner.
pub proof fn law_enabled_corners_generated(cfg: SettingsConfig, k: int)
    requires
        !cfg.gestures.hot_corners_off,
        0 <= k < 4,
        corner_flag(cfg.gestures, k),
    ensures
        has_line(gestures_text(cfg.gestures), corner_line(k)),
        has_line(kdl_text(cfg), corner_line(k)),
{
    let l = corner_line(k);
    let gt = gestures_text(cfg.gestures);
    lemma_enabled_corner_gestures(cfg.gestures, k);
    lemma_inner_line_suffix(gt, Seq::empty(), l);
    assert(gt + Seq::<char>::empty() =~= gt);
    let s0 = kdl_header() + input_text(cfg.input) + layout_text(cfg.layout) + misc_text(cfg.misc)
        + animations_text(cfg.anim) + workspaces_text(cfg.workspaces@);
    lemma_inner_line_prefix(s0, gt, l);
    let s1 = s0 + gt;
    lemma_inner_line_suffix(s1, recent_windows_text(cfg.recent_windows), l);
    let s2 = s1 + recent_windows_text(cfg.recent_windows);
    lemma_inner_line_suffix(s2, debug_text(cfg.debug), l);
    let s3 = s2 + debug_text(cfg.debug);
    lemma_inner_line_suffix(s3, outputs_text(cfg.outputs@), l);
    let s4 = s3 + outputs_text(cfg.outputs@);
    lemma_inner_line_suffix(s4, window_rules_text(cfg.window_rules@), l);
    let s5 = s4 + window_rules_text(cfg.window_rules@);
    lemma_inner_line_suffix(s5, layer_rules_text(cfg.layer_rules@), l);
    let s6 = s5 + layer_rules_text(cfg.layer_rules@);
    lemma_inner_line_suffix(s6, switch_events_text(cfg.switch_events), l);
    let s7 = s6 + switch_events_text(cfg.switch_events);
    lemma_inner_line_suffix(s7, binds_text(cfg.binds@), l);
    assert(kdl_text(cfg) == s7 + binds_text(cfg.binds@));
}

} // verus!
