//! The shell preferences kept in `shell.kdl`: theme tokens, behaviour
//! toggles and quick-settings state, read from and written to KDL.

use vstd::prelude::*;
use vstd::string::*;
use crate::errors::SettingsError;
use crate::generate::{fixed_text, opt};
use crate::kdl_doc::{
    as_bool, as_fixed, as_int, as_str, doc_arg, find_node, get_arg, get_node, kdl_admissible,
    kdl_parse, kdl_refusal, read_kdl, value_bool, value_fixed, value_int, value_str, Document,
};
use crate::sanitise::color_chars;
use crate::text::{chars_of, dec, is_hex};

verus! {

/// Theme colours, fonts, corner radius and panel opacity.
#[derive(Clone, Debug, PartialEq)]
pub struct ThemeTokens {
    pub accent: String,
    pub surface: String,
    pub text: String,
    pub muted: String,
    pub success: String,
    pub warning: String,
    pub danger: String,
    pub purple: String,
    pub font_ui: String,
    pub font_mono: String,
    pub radius: u32,
    /// Hundredths.
    pub panel_opacity: i64,
}

impl ThemeTokens {
    pub open spec fn is_default(self) -> bool {
        &&& self.accent@ == "#7aa2f7"@
        &&& self.surface@ == "#0d0e17"@
        &&& self.text@ == "#c0caf5"@
        &&& self.muted@ == "#565f89"@
        &&& self.success@ == "#9ece6a"@
        &&& self.warning@ == "#e0af68"@
        &&& self.danger@ == "#f7768e"@
        &&& self.purple@ == "#bb9af7"@
        &&& self.font_ui@ == "Inter, Noto Sans, sans-serif"@
        &&& self.font_mono@ == "JetBrains Mono, monospace"@
        &&& self.radius == 14
        &&& self.panel_opacity == 90
    }
}

impl Default for ThemeTokens {
    /// The Tokyo Night palette.
    fn default() -> (r: Self)
        ensures
            r.is_default(),
    {
        ThemeTokens {
            accent: String::from_str("#7aa2f7"),
            surface: String::from_str("#0d0e17"),
            text: String::from_str("#c0caf5"),
            muted: String::from_str("#565f89"),
            success: String::from_str("#9ece6a"),
            warning: String::from_str("#e0af68"),
            danger: String::from_str("#f7768e"),
            purple: String::from_str("#bb9af7"),
            font_ui: String::from_str("Inter, Noto Sans, sans-serif"),
            font_mono: String::from_str("JetBrains Mono, monospace"),
            radius: 14,
            panel_opacity: 90,
        }
    }
}

/// Shell behaviour toggles.
#[derive(Clone, Copy, Debug, PartialEq, Eq, Structural)]
pub struct ShellBehaviour {
    pub dock_autohide: bool,
    pub show_workspace_indicator: bool,
    pub show_media_controls: bool,
    pub show_network_speeds: bool,
    pub launcher_recent_files: bool,
    pub notification_sounds: bool,
}

impl Default for ShellBehaviour {
    /// Everything on but recent files in the launcher and notification sounds.
    fn default() -> (r: Self)
        ensures
            r == (ShellBehaviour {
                dock_autohide: true,
                show_workspace_indicator: true,
                show_media_controls: true,
                show_network_speeds: true,
                launcher_recent_files: false,
                notification_sounds: false,
            }),
    {
        ShellBehaviour {
            dock_autohide: true,
            show_workspace_indicator: true,
            show_media_controls: true,
            show_network_speeds: true,
            launcher_recent_files: false,
            notification_sounds: false,
        }
    }
}

/// Do Not Disturb and Night Light state.
#[derive(Clone, Copy, Debug, PartialEq, Eq, Structural)]
pub struct QuickSettingsPrefs {
    pub dnd: bool,
    pub night_light: bool,
    pub night_light_temperature: u32,
}

impl Default for QuickSettingsPrefs {
    /// Both off, Night Light at 3200 K.
    fn default() -> (r: Self)
        ensures
            r == (QuickSettingsPrefs { dnd: false, night_light: false, night_light_temperature: 3200 }),
    {
        QuickSettingsPrefs { dnd: false, night_light: false, night_light_temperature: 3200 }
    }
}

/// The whole `shell.kdl`.
#[derive(Clone, Debug, PartialEq)]
pub struct ShellConfig {
    pub theme: ThemeTokens,
    pub behaviour: ShellBehaviour,
    pub quick_settings: QuickSettingsPrefs,
}

impl Default for ShellConfig {
    fn default() -> (r: Self)
        ensures
            r.theme.is_default(),
            r.behaviour == ShellBehaviour::default_spec(),
            r.quick_settings == QuickSettingsPrefs::default_spec(),
    {
        ShellConfig {
            theme: ThemeTokens::default(),
            behaviour: ShellBehaviour::default(),
            quick_settings: QuickSettingsPrefs::default(),
        }
    }
}

impl ShellBehaviour {
    pub open spec fn default_spec() -> Self {
        ShellBehaviour {
            dock_autohide: true,
            show_workspace_indicator: true,
            show_media_controls: true,
            show_network_speeds: true,
            launcher_recent_files: false,
            notification_sounds: false,
        }
    }
}

impl QuickSettingsPrefs {
    pub open spec fn default_spec() -> Self {
        QuickSettingsPrefs { dnd: false, night_light: false, night_light_temperature: 3200 }
    }
}

// ── Validation ───────────────────────────────────────────────────────────────

/// A `#rgb` / `#rgba` / `#rrggbb` / `#rrggbbaa` hex colour, as is.
pub fn valid_color(value: &str) -> (r: bool)
    ensures
        r == color_chars(value@),
{
    let t = chars_of(value);
    let n = t.len();
    if !(n == 4 || n == 5 || n == 7 || n == 9) || t[0] != '#' {
        return false;
    }
    let mut i: usize = 1;
    while i < n
        invariant
            1 <= i <= n == t.len(),
            t@ == value@,
            forall|j: int| 1 <= j < i ==> is_hex(#[trigger] t@[j]),
        decreases n - i,
    {
        if !crate::text::hexdigit(t[i]) {
            return false;
        }
        i = i + 1;
    }
    true
}

/// What `char::is_alphanumeric` decides for a character (Unicode
/// `Alphabetic` or `Numeric`).
pub uninterp spec fn unicode_alphanumeric(c: char) -> bool;

/// `char::is_alphanumeric`. Claimed: the result is the function of `c` named
/// [`unicode_alphanumeric`], and ASCII letters and digits are alphanumeric,
/// as the documentation of `char::is_alphanumeric` states.
#[verifier::external_body]
fn is_alphanumeric(c: char) -> (r: bool)
    ensures
        r == unicode_alphanumeric(c),
        crate::text::is_ascii_alnum(c) ==> r,
{
    c.is_alphanumeric()
}

/// The number of bytes of `c` in UTF-8.
pub open spec fn utf8_char_len(c: char) -> nat {
    if (c as u32) < 0x80 {
        1
    } else if (c as u32) < 0x800 {
        2
    } else if (c as u32) < 0x10000 {
        3
    } else {
        4
    }
}

/// The number of bytes of `s` in UTF-8 (`str::len`).
pub open spec fn utf8_len(s: Seq<char>) -> nat
    decreases s.len(),
{
    if s.len() == 0 {
        0
    } else {
        utf8_len(s.drop_last()) + utf8_char_len(s.last())
    }
}

proof fn lemma_utf8_len_prefix(s: Seq<char>, k: int)
    requires
        0 <= k <= s.len(),
    ensures
        utf8_len(s) >= utf8_len(s.subrange(0, k)),
    decreases s.len() - k,
{
    if k < s.len() {
        lemma_utf8_len_prefix(s, k + 1);
        assert(s.subrange(0, k + 1).drop_last() =~= s.subrange(0, k));
    } else {
        assert(s.subrange(0, k) =~= s);
    }
}

fn utf8_width(c: char) -> (r: u64)
    ensures
        r == utf8_char_len(c),
{
    let u = c as u32;
    if u < 0x80 {
        1
    } else if u < 0x800 {
        2
    } else if u < 0x10000 {
        3
    } else {
        4
    }
}

pub open spec fn font_char(c: char) -> bool {
    unicode_alphanumeric(c) || c == ' ' || c == '-' || c == '_' || c == ','
}

/// A font list: not empty, at most 100 bytes of UTF-8, and only
/// alphanumerics, spaces, `-`, `_` and `,`.
pub open spec fn spec_valid_font(v: Seq<char>) -> bool {
    &&& v.len() > 0
    &&& utf8_len(v) <= 100
    &&& forall|i: int| 0 <= i < v.len() ==> font_char(#[trigger] v[i])
}

pub fn valid_font(value: &str) -> (r: bool)
    ensures
        r == spec_valid_font(value@),
{
    let t = chars_of(value);
    if t.len() == 0 {
        return false;
    }
    let mut bytes: u64 = 0;
    let mut k: usize = 0;
    while k < t.len()
        invariant
            k <= t.len(),
            t@ == value@,
            bytes == utf8_len(t@.subrange(0, k as int)),
            bytes <= 100,
        decreases t.len() - k,
    {
        assert(t@.subrange(0, k + 1).drop_last() =~= t@.subrange(0, k as int));
        bytes = bytes + utf8_width(t[k]);
        k = k + 1;
        if bytes > 100 {
            proof {
                lemma_utf8_len_prefix(t@, k as int);
            }
            return false;
        }
    }
    assert(t@.subrange(0, k as int) =~= t@);
    let mut i: usize = 0;
    while i < t.len()
        invariant
            i <= t.len(),
            t@ == value@,
            forall|j: int| 0 <= j < i ==> font_char(#[trigger] t@[j]),
        decreases t.len() - i,
    {
        let c = t[i];
        if !(is_alphanumeric(c) || c == ' ' || c == '-' || c == '_' || c == ',') {
            return false;
        }
        i = i + 1;
    }
    true
}

// ── Reading ──────────────────────────────────────────────────────────────────

/// The string argument `name` when it passes `ok`, else `dflt`.
pub open spec fn read_color(doc: Document, name: Seq<char>, dflt: Seq<char>) -> Seq<char> {
    match value_str(get_arg(doc, name)) {
        Some(v) => if color_chars(v) {
            v
        } else {
            dflt
        },
        None => dflt,
    }
}

pub open spec fn read_font(doc: Document, name: Seq<char>, dflt: Seq<char>) -> Seq<char> {
    match value_str(get_arg(doc, name)) {
        Some(v) => if spec_valid_font(v) {
            v
        } else {
            dflt
        },
        None => dflt,
    }
}

pub open spec fn read_flag(doc: Document, name: Seq<char>, dflt: bool) -> bool {
    match value_bool(get_arg(doc, name)) {
        Some(b) => b,
        None => dflt,
    }
}

pub open spec fn clamp(v: int, lo: int, hi: int) -> int {
    if v < lo {
        lo
    } else if v > hi {
        hi
    } else {
        v
    }
}

/// The block of the first node `name`, if it has one.
pub open spec fn section(doc: Document, name: Seq<char>) -> Option<Document> {
    match get_node(doc, name) {
        Some(n) => n.children,
        None => None,
    }
}

/// The theme read from a `theme` block: valid colours and fonts replace the
/// defaults, the radius is clamped to `0..=32`, the panel opacity to
/// `0.40..=1.00`.
pub open spec fn theme_of(t: ThemeTokens, c: Document) -> bool {
    &&& t.accent@ == read_color(c, "accent"@, "#7aa2f7"@)
    &&& t.surface@ == read_color(c, "surface"@, "#0d0e17"@)
    &&& t.text@ == read_color(c, "text"@, "#c0caf5"@)
    &&& t.muted@ == read_color(c, "muted"@, "#565f89"@)
    &&& t.success@ == read_color(c, "success"@, "#9ece6a"@)
    &&& t.warning@ == read_color(c, "warning"@, "#e0af68"@)
    &&& t.danger@ == read_color(c, "danger"@, "#f7768e"@)
    &&& t.purple@ == read_color(c, "purple"@, "#bb9af7"@)
    &&& t.font_ui@ == read_font(c, "font-ui"@, "Inter, Noto Sans, sans-serif"@)
    &&& t.font_mono@ == read_font(c, "font-mono"@, "JetBrains Mono, monospace"@)
    &&& t.radius == (match value_int(get_arg(c, "radius"@)) {
        Some(v) => clamp(v as int, 0, 32),
        None => 14,
    })
    &&& t.panel_opacity == (match value_fixed(get_arg(c, "panel-opacity"@), 2) {
        Some(v) => clamp(v as int, 40, 100),
        None => 90,
    })
}

pub open spec fn behaviour_of(b: Document) -> ShellBehaviour {
    let d = ShellBehaviour::default_spec();
    ShellBehaviour {
        dock_autohide: read_flag(b, "dock-autohide"@, d.dock_autohide),
        show_workspace_indicator: read_flag(
            b,
            "show-workspace-indicator"@,
            d.show_workspace_indicator,
        ),
        show_media_controls: read_flag(b, "show-media-controls"@, d.show_media_controls),
        show_network_speeds: read_flag(b, "show-network-speeds"@, d.show_network_speeds),
        launcher_recent_files: read_flag(b, "launcher-recent-files"@, d.launcher_recent_files),
        notification_sounds: read_flag(b, "notification-sounds"@, d.notification_sounds),
    }
}

pub open spec fn quick_settings_of(q: Document) -> QuickSettingsPrefs {
    QuickSettingsPrefs {
        dnd: read_flag(q, "do-not-disturb"@, false),
        night_light: read_flag(q, "night-light"@, false),
        night_light_temperature: match value_int(get_arg(q, "night-light-temperature"@)) {
            Some(v) => clamp(v as int, 1000, 10000) as u32,
            None => 3200,
        },
    }
}

/// The preferences read from a parsed `shell.kdl`: each section from the
/// block of its first node, defaults where a section or value is missing or
/// invalid.
pub open spec fn shell_of(cfg: ShellConfig, doc: Document) -> bool {
    &&& match section(doc, "theme"@) {
        Some(c) => theme_of(cfg.theme, c),
        None => cfg.theme.is_default(),
    }
    &&& cfg.behaviour == (match section(doc, "behaviour"@) {
        Some(b) => behaviour_of(b),
        None => ShellBehaviour::default_spec(),
    })
    &&& cfg.quick_settings == (match section(doc, "quick-settings"@) {
        Some(q) => quick_settings_of(q),
        None => QuickSettingsPrefs::default_spec(),
    })
}

fn read_color_into(doc: &Document, name: &str, target: &mut String)
    ensures
        final(target)@ == read_color(*doc, name@, old(target)@),
{
    if let Some(v) = as_str(doc_arg(doc, name)) {
        if valid_color(v.as_str()) {
            *target = v;
        }
    }
}

fn read_font_into(doc: &Document, name: &str, target: &mut String)
    ensures
        final(target)@ == read_font(*doc, name@, old(target)@),
{
    if let Some(v) = as_str(doc_arg(doc, name)) {
        if valid_font(v.as_str()) {
            *target = v;
        }
    }
}

fn read_bool(doc: &Document, name: &str, target: &mut bool)
    ensures
        *final(target) == read_flag(*doc, name@, *old(target)),
{
    if let Some(v) = as_bool(doc_arg(doc, name)) {
        *target = v;
    }
}

fn read_theme(c: &Document) -> (t: ThemeTokens)
    ensures
        theme_of(t, *c),
{
    let mut t = ThemeTokens::default();
    read_color_into(c, "accent", &mut t.accent);
    read_color_into(c, "surface", &mut t.surface);
    read_color_into(c, "text", &mut t.text);
    read_color_into(c, "muted", &mut t.muted);
    read_color_into(c, "success", &mut t.success);
    read_color_into(c, "warning", &mut t.warning);
    read_color_into(c, "danger", &mut t.danger);
    read_color_into(c, "purple", &mut t.purple);
    if let Some(v) = as_int(doc_arg(c, "radius")) {
        t.radius = if v < 0 {
            0
        } else if v > 32 {
            32
        } else {
            v as u32
        };
    }
    if let Some(v) = as_fixed(doc_arg(c, "panel-opacity"), 2) {
        t.panel_opacity = if v < 40 {
            40
        } else if v > 100 {
            100
        } else {
            v
        };
    }
    read_font_into(c, "font-ui", &mut t.font_ui);
    read_font_into(c, "font-mono", &mut t.font_mono);
    t
}

fn read_behaviour(b: &Document) -> (r: ShellBehaviour)
    ensures
        r == behaviour_of(*b),
{
    let mut r = ShellBehaviour::default();
    read_bool(b, "dock-autohide", &mut r.dock_autohide);
    read_bool(b, "show-workspace-indicator", &mut r.show_workspace_indicator);
    read_bool(b, "show-media-controls", &mut r.show_media_controls);
    read_bool(b, "show-network-speeds", &mut r.show_network_speeds);
    read_bool(b, "launcher-recent-files", &mut r.launcher_recent_files);
    read_bool(b, "notification-sounds", &mut r.notification_sounds);
    r
}

fn read_quick_settings(q: &Document) -> (r: QuickSettingsPrefs)
    ensures
        r == quick_settings_of(*q),
{
    let mut r = QuickSettingsPrefs::default();
    read_bool(q, "do-not-disturb", &mut r.dnd);
    read_bool(q, "night-light", &mut r.night_light);
    if let Some(v) = as_int(doc_arg(q, "night-light-temperature")) {
        r.night_light_temperature = if v < 1000 {
            1000
        } else if v > 10000 {
            10000
        } else {
            v as u32
        };
    }
    r
}

/// Reads preferences from a parsed `shell.kdl` document (see [`shell_of`]).
pub fn shell_from_document(doc: &Document) -> (r: ShellConfig)
    ensures
        shell_of(r, *doc),
{
    let mut cfg = ShellConfig::default();
    if let Some(n) = find_node(doc, "theme") {
        if let Some(c) = &n.children {
            cfg.theme = read_theme(c);
        }
    }
    if let Some(n) = find_node(doc, "behaviour") {
        if let Some(c) = &n.children {
            cfg.behaviour = read_behaviour(c);
        }
    }
    if let Some(n) = find_node(doc, "quick-settings") {
        if let Some(c) = &n.children {
            cfg.quick_settings = read_quick_settings(c);
        }
    }
    cfg
}

/// Parses `shell.kdl`. Text that is not handed to the KDL parser (see
/// [`kdl_admissible`]) or that the parser rejects gives `Kdl` with the
/// message; otherwise the preferences are read from the document (see
/// [`shell_of`]).
pub fn parse(text: &str) -> (r: Result<ShellConfig, SettingsError>)
    ensures
        !kdl_admissible(text@) ==> (r matches Err(SettingsError::Kdl(e)) && e@ == kdl_refusal()),
        kdl_admissible(text@) ==> match kdl_parse(text@) {
            Ok(doc) => r matches Ok(cfg) && shell_of(cfg, doc),
            Err(m) => r matches Err(SettingsError::Kdl(e)) && e == m,
        },
{
    match read_kdl(text) {
        Ok(doc) => Ok(shell_from_document(&doc)),
        Err(m) => Err(SettingsError::Kdl(m)),
    }
}

// ── Writing ──────────────────────────────────────────────────────────────────

/// `s` with `\` doubled and `"` escaped.
pub open spec fn escape_kdl(s: Seq<char>) -> Seq<char>
    decreases s.len(),
{
    if s.len() == 0 {
        Seq::empty()
    } else if s.last() == '\\' {
        escape_kdl(s.drop_last()) + seq!['\\', '\\']
    } else if s.last() == '"' {
        escape_kdl(s.drop_last()) + seq!['\\', '"']
    } else {
        escape_kdl(s.drop_last()).push(s.last())
    }
}

/// Escapes `\` and `"` for a KDL string literal.
pub fn escape(value: &str) -> (r: String)
    ensures
        r@ == escape_kdl(value@),
{
    let cs = chars_of(value);
    let mut out = String::new();
    let mut i: usize = 0;
    assert(cs@.subrange(0, 0) =~= Seq::<char>::empty());
    while i < cs.len()
        invariant
            i <= cs.len(),
            cs@ == value@,
            out@ == escape_kdl(cs@.subrange(0, i as int)),
        decreases cs.len() - i,
    {
        let c = cs[i];
        assert(cs@.subrange(0, i + 1).drop_last() =~= cs@.subrange(0, i as int));
        if c == '\\' {
            crate::text::push_char(&mut out, '\\');
            crate::text::push_char(&mut out, '\\');
        } else if c == '"' {
            crate::text::push_char(&mut out, '\\');
            crate::text::push_char(&mut out, '"');
        } else {
            crate::text::push_char(&mut out, c);
        }
        assert(out@ =~= escape_kdl(cs@.subrange(0, i + 1)));
        i = i + 1;
    }
    assert(cs@.subrange(0, i as int) =~= value@);
    out
}

pub open spec fn bool_word(b: bool) -> Seq<char> {
    if b {
        "true"@
    } else {
        "false"@
    }
}

pub open spec fn str_entry(key: Seq<char>, v: Seq<char>) -> Seq<char> {
    "    "@ + key + " \""@ + escape_kdl(v) + "\"\n"@
}

pub open spec fn bool_entry(key: Seq<char>, b: bool) -> Seq<char> {
    "    "@ + key + " "@ + bool_word(b) + "\n"@
}

/// The text of `shell.kdl` for the preferences.
pub open spec fn shell_text(cfg: ShellConfig) -> Seq<char> {
    let t = cfg.theme;
    let b = cfg.behaviour;
    let q = cfg.quick_settings;
    Seq::empty() + "// niri-shell preferences. Safe to edit while the shell is running.\n\ntheme {\n"@
        + str_entry("accent"@, t.accent@) + str_entry("surface"@, t.surface@) + str_entry(
        "text"@,
        t.text@,
    ) + str_entry("muted"@, t.muted@) + str_entry("success"@, t.success@) + str_entry(
        "warning"@,
        t.warning@,
    ) + str_entry("danger"@, t.danger@) + str_entry("purple"@, t.purple@) + str_entry(
        "font-ui"@,
        t.font_ui@,
    ) + str_entry("font-mono"@, t.font_mono@) + "    radius "@ + dec(t.radius as nat)
        + "\n    panel-opacity "@ + fixed_text(t.panel_opacity as int, 2) + "\n}\n\nbehaviour {\n"@
        + bool_entry("dock-autohide"@, b.dock_autohide) + bool_entry(
        "show-workspace-indicator"@,
        b.show_workspace_indicator,
    ) + bool_entry("show-media-controls"@, b.show_media_controls) + bool_entry(
        "show-network-speeds"@,
        b.show_network_speeds,
    ) + bool_entry("launcher-recent-files"@, b.launcher_recent_files) + bool_entry(
        "notification-sounds"@,
        b.notification_sounds,
    ) + "}\n\nquick-settings {\n"@ + bool_entry("do-not-disturb"@, q.dnd) + bool_entry(
        "night-light"@,
        q.night_light,
    ) + "    night-light-temperature "@ + dec(q.night_light_temperature as nat) + "\n}\n"@
}

fn put_str_entry(out: &mut String, key: &str, v: &String)
    ensures
        final(out)@ == old(out)@ + str_entry(key@, v@),
{
    out.append("    ");
    out.append(key);
    out.append(" \"");
    let e = escape(v.as_str());
    out.append(e.as_str());
    out.append("\"\n");
    assert(out@ =~= old(out)@ + str_entry(key@, v@));
}

fn put_bool_entry(out: &mut String, key: &str, b: bool)
    ensures
        final(out)@ == old(out)@ + bool_entry(key@, b),
{
    out.append("    ");
    out.append(key);
    out.append(" ");
    if b {
        out.append("true");
    } else {
        out.append("false");
    }
    out.append("\n");
    assert(out@ =~= old(out)@ + bool_entry(key@, b));
}

fn put_dec(out: &mut String, n: u64)
    ensures
        final(out)@ == old(out)@ + dec(n as nat),
{
    let t = crate::text::u64_text(n);
    out.append(t.as_str());
}

fn put_fixed2(out: &mut String, v: i64)
    ensures
        final(out)@ == old(out)@ + fixed_text(v as int, 2),
{
    let t = crate::generate::fixed_string(v, 2);
    out.append(t.as_str());
}

/// Renders the preferences as `shell.kdl` text (see [`shell_text`]).
pub fn render(cfg: &ShellConfig) -> (r: String)
    ensures
        r@ == shell_text(*cfg),
{
    let t = &cfg.theme;
    let b = &cfg.behaviour;
    let q = &cfg.quick_settings;
    let mut out = String::new();
    out.append("// niri-shell preferences. Safe to edit while the shell is running.\n\ntheme {\n");
    put_str_entry(&mut out, "accent", &t.accent);
    put_str_entry(&mut out, "surface", &t.surface);
    put_str_entry(&mut out, "text", &t.text);
    put_str_entry(&mut out, "muted", &t.muted);
    put_str_entry(&mut out, "success", &t.success);
    put_str_entry(&mut out, "warning", &t.warning);
    put_str_entry(&mut out, "danger", &t.danger);
    put_str_entry(&mut out, "purple", &t.purple);
    put_str_entry(&mut out, "font-ui", &t.font_ui);
    put_str_entry(&mut out, "font-mono", &t.font_mono);
    out.append("    radius ");
    put_dec(&mut out, t.radius as u64);
    out.append("\n    panel-opacity ");
    put_fixed2(&mut out, t.panel_opacity);
    out.append("\n}\n\nbehaviour {\n");
    put_bool_entry(&mut out, "dock-autohide", b.dock_autohide);
    put_bool_entry(&mut out, "show-workspace-indicator", b.show_workspace_indicator);
    put_bool_entry(&mut out, "show-media-controls", b.show_media_controls);
    put_bool_entry(&mut out, "show-network-speeds", b.show_network_speeds);
    put_bool_entry(&mut out, "launcher-recent-files", b.launcher_recent_files);
    put_bool_entry(&mut out, "notification-sounds", b.notification_sounds);
    out.append("}\n\nquick-settings {\n");
    put_bool_entry(&mut out, "do-not-disturb", q.dnd);
    put_bool_entry(&mut out, "night-light", q.night_light);
    out.append("    night-light-temperature ");
    put_dec(&mut out, q.night_light_temperature as u64);
    out.append("\n}\n");
    out
}

// ── Laws ─────────────────────────────────────────────────────────────────────

proof fn lemma_default_colors()
    ensures
        color_chars("#7aa2f7"@),
        color_chars("#0d0e17"@),
        color_chars("#c0caf5"@),
        color_chars("#565f89"@),
        color_chars("#9ece6a"@),
        color_chars("#e0af68"@),
        color_chars("#f7768e"@),
        color_chars("#bb9af7"@),
{
    reveal_strlit("#7aa2f7");
    reveal_strlit("#0d0e17");
    reveal_strlit("#c0caf5");
    reveal_strlit("#565f89");
    reveal_strlit("#9ece6a");
    reveal_strlit("#e0af68");
    reveal_strlit("#f7768e");
    reveal_strlit("#bb9af7");
}

/// Whatever `shell.kdl` holds, the preferences read from it are in range:
/// every theme colour is a valid hex colour, the radius is at most 32, the
/// panel opacity between 0.40 and 1.00 and the Night Light temperature
/// between 1000 K and 10000 K.
pub proof fn law_parsed_preferences_in_range(cfg: ShellConfig, doc: Document)
    requires
        shell_of(cfg, doc),
    ensures
        color_chars(cfg.theme.accent@),
        color_chars(cfg.theme.surface@),
        color_chars(cfg.theme.text@),
        color_chars(cfg.theme.muted@),
        color_chars(cfg.theme.success@),
        color_chars(cfg.theme.warning@),
        color_chars(cfg.theme.danger@),
        color_chars(cfg.theme.purple@),
        cfg.theme.radius <= 32,
        40 <= cfg.theme.panel_opacity <= 100,
        1000 <= cfg.quick_settings.night_light_temperature <= 10000,
{
    lemma_default_colors();
}

// ── Preview ──────────────────────────────────────────────────────────────────

/// The style sheet of the theme page's live preview: the surface colour
/// as background, the muted colour as border, the radius capped at 20 px,
/// accent dots and text in the text colour.
pub open spec fn preview_css_spec(t: ThemeTokens) -> Seq<char> {
    let radius: nat = if t.radius < 20 {
        t.radius as nat
    } else {
        20
    };
    ".theme-preview { background: "@ + t.surface@ + "; border-color: "@ + t.muted@
        + "; border-radius: "@ + dec(radius) + "px; }\n.theme-preview .preview-dot { color: "@
        + t.accent@ + "; }\n.theme-preview .preview-text, .theme-preview .preview-time { color: "@
        + t.text@ + "; }"@
}

/// The live preview's style sheet (see [`preview_css_spec`]).
pub fn preview_css(t: &ThemeTokens) -> (r: String)
    ensures
        r@ == preview_css_spec(*t),
{
    let radius: u32 = if t.radius < 20 {
        t.radius
    } else {
        20
    };
    let mut r = String::from_str(".theme-preview { background: ");
    r.append(t.surface.as_str());
    r.append("; border-color: ");
    r.append(t.muted.as_str());
    r.append("; border-radius: ");
    let n = crate::text::u64_text(radius as u64);
    r.append(n.as_str());
    r.append("px; }\n.theme-preview .preview-dot { color: ");
    r.append(t.accent.as_str());
    r.append("; }\n.theme-preview .preview-text, .theme-preview .preview-time { color: ");
    r.append(t.text.as_str());
    r.append("; }");
    r
}


proof fn lemma_quick_tail(a: Seq<char>, e1: Seq<char>, e2: Seq<char>, l: Seq<char>, d: Seq<char>, z: Seq<char>)
    requires
        e1.len() > 0,
        e1.last() == '\n',
    ensures
        crate::persist::occurs_at(a + e1 + e2 + l + d + z, e1, a.len() as int),
        crate::persist::occurs_at(
            a + e1 + e2 + l + d + z,
            seq!['\n'] + e2,
            (a.len() + e1.len() - 1) as int,
        ),
        crate::persist::occurs_at(a + e1 + e2 + l + d + z, l + d, (a.len() + e1.len() + e2.len()) as int),
{
    let t = a + e1 + e2 + l + d + z;
    let x: int = a.len() as int;
    let y: int = x + e1.len();
    let w: int = y + e2.len();
    assert(t.subrange(x, y) =~= e1);
    assert(t.subrange(y - 1, w) =~= seq!['\n'] + e2);
    assert(t.subrange(w, w + l.len() + d.len()) =~= l + d);
}

/// The quick settings are written under their own keys: the preferences
/// text holds `do-not-disturb` with the Do Not Disturb flag, `night-light`
/// (on a line of its own) with the Night Light flag, and
/// `night-light-temperature` with the temperature.
pub proof fn law_quick_settings_written(cfg: ShellConfig)
    ensures
        crate::persist::contains_text(
            shell_text(cfg),
            "    do-not-disturb "@ + (if cfg.quick_settings.dnd {
                "true"@
            } else {
                "false"@
            }) + "\n"@,
        ),
        crate::persist::contains_text(
            shell_text(cfg),
            "\n    night-light "@ + (if cfg.quick_settings.night_light {
                "true"@
            } else {
                "false"@
            }) + "\n"@,
        ),
        crate::persist::contains_text(
            shell_text(cfg),
            "    night-light-temperature "@ + dec(cfg.quick_settings.night_light_temperature as nat),
        ),
{
    let t = cfg.theme;
    let b = cfg.behaviour;
    let q = cfg.quick_settings;
    let a =     Seq::empty() + "// niri-shell preferences. Safe to edit while the shell is running.\n\ntheme {\n"@
        + str_entry("accent"@, t.accent@) + str_entry("surface"@, t.surface@) + str_entry(
        "text"@,
        t.text@,
    ) + str_entry("muted"@, t.muted@) + str_entry("success"@, t.success@) + str_entry(
        "warning"@,
        t.warning@,
    ) + str_entry("danger"@, t.danger@) + str_entry("purple"@, t.purple@) + str_entry(
        "font-ui"@,
        t.font_ui@,
    ) + str_entry("font-mono"@, t.font_mono@) + "    radius "@ + dec(t.radius as nat)
        + "\n    panel-opacity "@ + fixed_text(t.panel_opacity as int, 2) + "\n}\n\nbehaviour {\n"@
        + bool_entry("dock-autohide"@, b.dock_autohide) + bool_entry(
        "show-workspace-indicator"@,
        b.show_workspace_indicator,
    ) + bool_entry("show-media-controls"@, b.show_media_controls) + bool_entry(
        "show-network-speeds"@,
        b.show_network_speeds,
    ) + bool_entry("launcher-recent-files"@, b.launcher_recent_files) + bool_entry(
        "notification-sounds"@,
        b.notification_sounds,
    ) + "}\n\nquick-settings {\n"@;
    let e1 = bool_entry("do-not-disturb"@, q.dnd);
    let e2 = bool_entry("night-light"@, q.night_light);
    let l = "    night-light-temperature "@;
    let d = dec(q.night_light_temperature as nat);
    let z = "\n}\n"@;
    assert(shell_text(cfg) == a + e1 + e2 + l + d + z);
    reveal_strlit("    ");
    reveal_strlit(" ");
    reveal_strlit("\n");
    reveal_strlit("do-not-disturb");
    reveal_strlit("    do-not-disturb ");
    reveal_strlit("night-light");
    reveal_strlit("\n    night-light ");
    assert(e1.last() == '\n');
    lemma_quick_tail(a, e1, e2, l, d, z);
    let w1 = if q.dnd {
        "true"@
    } else {
        "false"@
    };
    let w2 = if q.night_light {
        "true"@
    } else {
        "false"@
    };
    assert(e1 =~= "    do-not-disturb "@ + w1 + "\n"@);
    assert(seq!['\n'] + e2 =~= "\n    night-light "@ + w2 + "\n"@);
}

proof fn lemma_occurs_end(p: Seq<char>, e: Seq<char>)
    ensures
        crate::persist::contains_text(p + e, e),
{
    assert((p + e).subrange(p.len() as int, (p.len() + e.len()) as int) =~= e);
    assert(crate::persist::occurs_at(p + e, e, p.len() as int));
}

proof fn lemma_contains_suffix(x: Seq<char>, y: Seq<char>, n: Seq<char>)
    requires
        crate::persist::contains_text(x, n),
    ensures
        crate::persist::contains_text(x + y, n),
{
    let k = choose|k: int| crate::persist::occurs_at(x, n, k);
    assert((x + y).subrange(k, k + n.len()) =~= x.subrange(k, k + n.len()));
    assert(crate::persist::occurs_at(x + y, n, k));
}

proof fn lemma_written_accent(cfg: ShellConfig)
    ensures
        crate::persist::contains_text(shell_text(cfg), "    accent \""@ + escape_kdl(cfg.theme.accent@) + "\"\n"@),
{
    let t = cfg.theme;
    let b = cfg.behaviour;
    let q = cfg.quick_settings;
    reveal_strlit("    accent \"");
    reveal_strlit("    ");
    reveal_strlit("accent");
    reveal_strlit(" \"");
    reveal_strlit("\n");
    reveal_strlit("\"\n");
    let p = Seq::empty() + "// niri-shell preferences. Safe to edit while the shell is running.\n\ntheme {\n"@;
    let e = str_entry("accent"@, t.accent@);
    assert(e =~= "    accent \""@ + escape_kdl(t.accent@) + "\"\n"@);
    lemma_occurs_end(p, e);
    let x0 = p + e;
    lemma_contains_suffix(x0, str_entry("surface"@, t.surface@), e);
    let x3 = x0 + str_entry("surface"@, t.surface@);
    lemma_contains_suffix(x3, str_entry(
        "text"@,
        t.text@,
    ), e);
    let x4 = x3 + str_entry(
        "text"@,
        t.text@,
    );
    lemma_contains_suffix(x4, str_entry("muted"@, t.muted@), e);
    let x5 = x4 + str_entry("muted"@, t.muted@);
    lemma_contains_suffix(x5, str_entry("success"@, t.success@), e);
    let x6 = x5 + str_entry("success"@, t.success@);
    lemma_contains_suffix(x6, str_entry(
        "warning"@,
        t.warning@,
    ), e);
    let x7 = x6 + str_entry(
        "warning"@,
        t.warning@,
    );
    lemma_contains_suffix(x7, str_entry("danger"@, t.danger@), e);
    let x8 = x7 + str_entry("danger"@, t.danger@);
    lemma_contains_suffix(x8, str_entry("purple"@, t.purple@), e);
    let x9 = x8 + str_entry("purple"@, t.purple@);
    lemma_contains_suffix(x9, str_entry(
        "font-ui"@,
        t.font_ui@,
    ), e);
    let x10 = x9 + str_entry(
        "font-ui"@,
        t.font_ui@,
    );
    lemma_contains_suffix(x10, str_entry("font-mono"@, t.font_mono@), e);
    let x11 = x10 + str_entry("font-mono"@, t.font_mono@);
    lemma_contains_suffix(x11, "    radius "@, e);
    let x12 = x11 + "    radius "@;
    lemma_contains_suffix(x12, dec(t.radius as nat), e);
    let x13 = x12 + dec(t.radius as nat);
    lemma_contains_suffix(x13, "\n    panel-opacity "@, e);
    let x14 = x13 + "\n    panel-opacity "@;
    lemma_contains_suffix(x14, fixed_text(t.panel_opacity as int, 2), e);
    let x15 = x14 + fixed_text(t.panel_opacity as int, 2);
    lemma_contains_suffix(x15, "\n}\n\nbehaviour {\n"@, e);
    let x16 = x15 + "\n}\n\nbehaviour {\n"@;
    lemma_contains_suffix(x16, bool_entry("dock-autohide"@, b.dock_autohide), e);
    let x17 = x16 + bool_entry("dock-autohide"@, b.dock_autohide);
    lemma_contains_suffix(x17, bool_entry(
        "show-workspace-indicator"@,
        b.show_workspace_indicator,
    ), e);
    let x18 = x17 + bool_entry(
        "show-workspace-indicator"@,
        b.show_workspace_indicator,
    );
    lemma_contains_suffix(x18, bool_entry("show-media-controls"@, b.show_media_controls), e);
    let x19 = x18 + bool_entry("show-media-controls"@, b.show_media_controls);
    lemma_contains_suffix(x19, bool_entry(
        "show-network-speeds"@,
        b.show_network_speeds,
    ), e);
    let x20 = x19 + bool_entry(
        "show-network-speeds"@,
        b.show_network_speeds,
    );
    lemma_contains_suffix(x20, bool_entry("launcher-recent-files"@, b.launcher_recent_files), e);
    let x21 = x20 + bool_entry("launcher-recent-files"@, b.launcher_recent_files);
    lemma_contains_suffix(x21, bool_entry(
        "notification-sounds"@,
        b.notification_sounds,
    ), e);
    let x22 = x21 + bool_entry(
        "notification-sounds"@,
        b.notification_sounds,
    );
    lemma_contains_suffix(x22, "}\n\nquick-settings {\n"@, e);
    let x23 = x22 + "}\n\nquick-settings {\n"@;
    lemma_contains_suffix(x23, bool_entry("do-not-disturb"@, q.dnd), e);
    let x24 = x23 + bool_entry("do-not-disturb"@, q.dnd);
    lemma_contains_suffix(x24, bool_entry(
        "night-light"@,
        q.night_light,
    ), e);
    let x25 = x24 + bool_entry(
        "night-light"@,
        q.night_light,
    );
    lemma_contains_suffix(x25, "    night-light-temperature "@, e);
    let x26 = x25 + "    night-light-temperature "@;
    lemma_contains_suffix(x26, dec(q.night_light_temperature as nat), e);
    let x27 = x26 + dec(q.night_light_temperature as nat);
    lemma_contains_suffix(x27, "\n}\n"@, e);
    let x28 = x27 + "\n}\n"@;
    assert(shell_text(cfg) == x28);
}

proof fn lemma_written_surface(cfg: ShellConfig)
    ensures
        crate::persist::contains_text(shell_text(cfg), "    surface \""@ + escape_kdl(cfg.theme.surface@) + "\"\n"@),
{
    let t = cfg.theme;
    let b = cfg.behaviour;
    let q = cfg.quick_settings;
    reveal_strlit("    surface \"");
    reveal_strlit("    ");
    reveal_strlit("surface");
    reveal_strlit(" \"");
    reveal_strlit("\n");
    reveal_strlit("\"\n");
    let p = Seq::empty() + "// niri-shell preferences. Safe to edit while the shell is running.\n\ntheme {\n"@ + str_entry("accent"@, t.accent@);
    let e = str_entry("surface"@, t.surface@);
    assert(e =~= "    surface \""@ + escape_kdl(t.surface@) + "\"\n"@);
    lemma_occurs_end(p, e);
    let x0 = p + e;
    lemma_contains_suffix(x0, str_entry(
        "text"@,
        t.text@,
    ), e);
    let x4 = x0 + str_entry(
        "text"@,
        t.text@,
    );
    lemma_contains_suffix(x4, str_entry("muted"@, t.muted@), e);
    let x5 = x4 + str_entry("muted"@, t.muted@);
    lemma_contains_suffix(x5, str_entry("success"@, t.success@), e);
    let x6 = x5 + str_entry("success"@, t.success@);
    lemma_contains_suffix(x6, str_entry(
        "warning"@,
        t.warning@,
    ), e);
    let x7 = x6 + str_entry(
        "warning"@,
        t.warning@,
    );
    lemma_contains_suffix(x7, str_entry("danger"@, t.danger@), e);
    let x8 = x7 + str_entry("danger"@, t.danger@);
    lemma_contains_suffix(x8, str_entry("purple"@, t.purple@), e);
    let x9 = x8 + str_entry("purple"@, t.purple@);
    lemma_contains_suffix(x9, str_entry(
        "font-ui"@,
        t.font_ui@,
    ), e);
    let x10 = x9 + str_entry(
        "font-ui"@,
        t.font_ui@,
    );
    lemma_contains_suffix(x10, str_entry("font-mono"@, t.font_mono@), e);
    let x11 = x10 + str_entry("font-mono"@, t.font_mono@);
    lemma_contains_suffix(x11, "    radius "@, e);
    let x12 = x11 + "    radius "@;
    lemma_contains_suffix(x12, dec(t.radius as nat), e);
    let x13 = x12 + dec(t.radius as nat);
    lemma_contains_suffix(x13, "\n    panel-opacity "@, e);
    let x14 = x13 + "\n    panel-opacity "@;
    lemma_contains_suffix(x14, fixed_text(t.panel_opacity as int, 2), e);
    let x15 = x14 + fixed_text(t.panel_opacity as int, 2);
    lemma_contains_suffix(x15, "\n}\n\nbehaviour {\n"@, e);
    let x16 = x15 + "\n}\n\nbehaviour {\n"@;
    lemma_contains_suffix(x16, bool_entry("dock-autohide"@, b.dock_autohide), e);
    let x17 = x16 + bool_entry("dock-autohide"@, b.dock_autohide);
    lemma_contains_suffix(x17, bool_entry(
        "show-workspace-indicator"@,
        b.show_workspace_indicator,
    ), e);
    let x18 = x17 + bool_entry(
        "show-workspace-indicator"@,
        b.show_workspace_indicator,
    );
    lemma_contains_suffix(x18, bool_entry("show-media-controls"@, b.show_media_controls), e);
    let x19 = x18 + bool_entry("show-media-controls"@, b.show_media_controls);
    lemma_contains_suffix(x19, bool_entry(
        "show-network-speeds"@,
        b.show_network_speeds,
    ), e);
    let x20 = x19 + bool_entry(
        "show-network-speeds"@,
        b.show_network_speeds,
    );
    lemma_contains_suffix(x20, bool_entry("launcher-recent-files"@, b.launcher_recent_files), e);
    let x21 = x20 + bool_entry("launcher-recent-files"@, b.launcher_recent_files);
    lemma_contains_suffix(x21, bool_entry(
        "notification-sounds"@,
        b.notification_sounds,
    ), e);
    let x22 = x21 + bool_entry(
        "notification-sounds"@,
        b.notification_sounds,
    );
    lemma_contains_suffix(x22, "}\n\nquick-settings {\n"@, e);
    let x23 = x22 + "}\n\nquick-settings {\n"@;
    lemma_contains_suffix(x23, bool_entry("do-not-disturb"@, q.dnd), e);
    let x24 = x23 + bool_entry("do-not-disturb"@, q.dnd);
    lemma_contains_suffix(x24, bool_entry(
        "night-light"@,
        q.night_light,
    ), e);
    let x25 = x24 + bool_entry(
        "night-light"@,
        q.night_light,
    );
    lemma_contains_suffix(x25, "    night-light-temperature "@, e);
    let x26 = x25 + "    night-light-temperature "@;
    lemma_contains_suffix(x26, dec(q.night_light_temperature as nat), e);
    let x27 = x26 + dec(q.night_light_temperature as nat);
    lemma_contains_suffix(x27, "\n}\n"@, e);
    let x28 = x27 + "\n}\n"@;
    assert(shell_text(cfg) == x28);
}

proof fn lemma_written_text(cfg: ShellConfig)
    ensures
        crate::persist::contains_text(shell_text(cfg), "    text \""@ + escape_kdl(cfg.theme.text@) + "\"\n"@),
{
    let t = cfg.theme;
    let b = cfg.behaviour;
    let q = cfg.quick_settings;
    reveal_strlit("    text \"");
    reveal_strlit("    ");
    reveal_strlit("text");
    reveal_strlit(" \"");
    reveal_strlit("\n");
    reveal_strlit("\"\n");
    let p = Seq::empty() + "// niri-shell preferences. Safe to edit while the shell is running.\n\ntheme {\n"@ + str_entry("accent"@, t.accent@) + str_entry("surface"@, t.surface@);
    let e = str_entry(
        "text"@,
        t.text@,
    );
    assert(e =~= "    text \""@ + escape_kdl(t.text@) + "\"\n"@);
    lemma_occurs_end(p, e);
    let x0 = p + e;
    lemma_contains_suffix(x0, str_entry("muted"@, t.muted@), e);
    let x5 = x0 + str_entry("muted"@, t.muted@);
    lemma_contains_suffix(x5, str_entry("success"@, t.success@), e);
    let x6 = x5 + str_entry("success"@, t.success@);
    lemma_contains_suffix(x6, str_entry(
        "warning"@,
        t.warning@,
    ), e);
    let x7 = x6 + str_entry(
        "warning"@,
        t.warning@,
    );
    lemma_contains_suffix(x7, str_entry("danger"@, t.danger@), e);
    let x8 = x7 + str_entry("danger"@, t.danger@);
    lemma_contains_suffix(x8, str_entry("purple"@, t.purple@), e);
    let x9 = x8 + str_entry("purple"@, t.purple@);
    lemma_contains_suffix(x9, str_entry(
        "font-ui"@,
        t.font_ui@,
    ), e);
    let x10 = x9 + str_entry(
        "font-ui"@,
        t.font_ui@,
    );
    lemma_contains_suffix(x10, str_entry("font-mono"@, t.font_mono@), e);
    let x11 = x10 + str_entry("font-mono"@, t.font_mono@);
    lemma_contains_suffix(x11, "    radius "@, e);
    let x12 = x11 + "    radius "@;
    lemma_contains_suffix(x12, dec(t.radius as nat), e);
    let x13 = x12 + dec(t.radius as nat);
    lemma_contains_suffix(x13, "\n    panel-opacity "@, e);
    let x14 = x13 + "\n    panel-opacity "@;
    lemma_contains_suffix(x14, fixed_text(t.panel_opacity as int, 2), e);
    let x15 = x14 + fixed_text(t.panel_opacity as int, 2);
    lemma_contains_suffix(x15, "\n}\n\nbehaviour {\n"@, e);
    let x16 = x15 + "\n}\n\nbehaviour {\n"@;
    lemma_contains_suffix(x16, bool_entry("dock-autohide"@, b.dock_autohide), e);
    let x17 = x16 + bool_entry("dock-autohide"@, b.dock_autohide);
    lemma_contains_suffix(x17, bool_entry(
        "show-workspace-indicator"@,
        b.show_workspace_indicator,
    ), e);
    let x18 = x17 + bool_entry(
        "show-workspace-indicator"@,
        b.show_workspace_indicator,
    );
    lemma_contains_suffix(x18, bool_entry("show-media-controls"@, b.show_media_controls), e);
    let x19 = x18 + bool_entry("show-media-controls"@, b.show_media_controls);
    lemma_contains_suffix(x19, bool_entry(
        "show-network-speeds"@,
        b.show_network_speeds,
    ), e);
    let x20 = x19 + bool_entry(
        "show-network-speeds"@,
        b.show_network_speeds,
    );
    lemma_contains_suffix(x20, bool_entry("launcher-recent-files"@, b.launcher_recent_files), e);
    let x21 = x20 + bool_entry("launcher-recent-files"@, b.launcher_recent_files);
    lemma_contains_suffix(x21, bool_entry(
        "notification-sounds"@,
        b.notification_sounds,
    ), e);
    let x22 = x21 + bool_entry(
        "notification-sounds"@,
        b.notification_sounds,
    );
    lemma_contains_suffix(x22, "}\n\nquick-settings {\n"@, e);
    let x23 = x22 + "}\n\nquick-settings {\n"@;
    lemma_contains_suffix(x23, bool_entry("do-not-disturb"@, q.dnd), e);
    let x24 = x23 + bool_entry("do-not-disturb"@, q.dnd);
    lemma_contains_suffix(x24, bool_entry(
        "night-light"@,
        q.night_light,
    ), e);
    let x25 = x24 + bool_entry(
        "night-light"@,
        q.night_light,
    );
    lemma_contains_suffix(x25, "    night-light-temperature "@, e);
    let x26 = x25 + "    night-light-temperature "@;
    lemma_contains_suffix(x26, dec(q.night_light_temperature as nat), e);
    let x27 = x26 + dec(q.night_light_temperature as nat);
    lemma_contains_suffix(x27, "\n}\n"@, e);
    let x28 = x27 + "\n}\n"@;
    assert(shell_text(cfg) == x28);
}

proof fn lemma_written_muted(cfg: ShellConfig)
    ensures
        crate::persist::contains_text(shell_text(cfg), "    muted \""@ + escape_kdl(cfg.theme.muted@) + "\"\n"@),
{
    let t = cfg.theme;
    let b = cfg.behaviour;
    let q = cfg.quick_settings;
    reveal_strlit("    muted \"");
    reveal_strlit("    ");
    reveal_strlit("muted");
    reveal_strlit(" \"");
    reveal_strlit("\n");
    reveal_strlit("\"\n");
    let p = Seq::empty() + "// niri-shell preferences. Safe to edit while the shell is running.\n\ntheme {\n"@ + str_entry("accent"@, t.accent@) + str_entry("surface"@, t.surface@) + str_entry(
        "text"@,
        t.text@,
    );
    let e = str_entry("muted"@, t.muted@);
    assert(e =~= "    muted \""@ + escape_kdl(t.muted@) + "\"\n"@);
    lemma_occurs_end(p, e);
    let x0 = p + e;
    lemma_contains_suffix(x0, str_entry("success"@, t.success@), e);
    let x6 = x0 + str_entry("success"@, t.success@);
    lemma_contains_suffix(x6, str_entry(
        "warning"@,
        t.warning@,
    ), e);
    let x7 = x6 + str_entry(
        "warning"@,
        t.warning@,
    );
    lemma_contains_suffix(x7, str_entry("danger"@, t.danger@), e);
    let x8 = x7 + str_entry("danger"@, t.danger@);
    lemma_contains_suffix(x8, str_entry("purple"@, t.purple@), e);
    let x9 = x8 + str_entry("purple"@, t.purple@);
    lemma_contains_suffix(x9, str_entry(
        "font-ui"@,
        t.font_ui@,
    ), e);
    let x10 = x9 + str_entry(
        "font-ui"@,
        t.font_ui@,
    );
    lemma_contains_suffix(x10, str_entry("font-mono"@, t.font_mono@), e);
    let x11 = x10 + str_entry("font-mono"@, t.font_mono@);
    lemma_contains_suffix(x11, "    radius "@, e);
    let x12 = x11 + "    radius "@;
    lemma_contains_suffix(x12, dec(t.radius as nat), e);
    let x13 = x12 + dec(t.radius as nat);
    lemma_contains_suffix(x13, "\n    panel-opacity "@, e);
    let x14 = x13 + "\n    panel-opacity "@;
    lemma_contains_suffix(x14, fixed_text(t.panel_opacity as int, 2), e);
    let x15 = x14 + fixed_text(t.panel_opacity as int, 2);
    lemma_contains_suffix(x15, "\n}\n\nbehaviour {\n"@, e);
    let x16 = x15 + "\n}\n\nbehaviour {\n"@;
    lemma_contains_suffix(x16, bool_entry("dock-autohide"@, b.dock_autohide), e);
    let x17 = x16 + bool_entry("dock-autohide"@, b.dock_autohide);
    lemma_contains_suffix(x17, bool_entry(
        "show-workspace-indicator"@,
        b.show_workspace_indicator,
    ), e);
    let x18 = x17 + bool_entry(
        "show-workspace-indicator"@,
        b.show_workspace_indicator,
    );
    lemma_contains_suffix(x18, bool_entry("show-media-controls"@, b.show_media_controls), e);
    let x19 = x18 + bool_entry("show-media-controls"@, b.show_media_controls);
    lemma_contains_suffix(x19, bool_entry(
        "show-network-speeds"@,
        b.show_network_speeds,
    ), e);
    let x20 = x19 + bool_entry(
        "show-network-speeds"@,
        b.show_network_speeds,
    );
    lemma_contains_suffix(x20, bool_entry("launcher-recent-files"@, b.launcher_recent_files), e);
    let x21 = x20 + bool_entry("launcher-recent-files"@, b.launcher_recent_files);
    lemma_contains_suffix(x21, bool_entry(
        "notification-sounds"@,
        b.notification_sounds,
    ), e);
    let x22 = x21 + bool_entry(
        "notification-sounds"@,
        b.notification_sounds,
    );
    lemma_contains_suffix(x22, "}\n\nquick-settings {\n"@, e);
    let x23 = x22 + "}\n\nquick-settings {\n"@;
    lemma_contains_suffix(x23, bool_entry("do-not-disturb"@, q.dnd), e);
    let x24 = x23 + bool_entry("do-not-disturb"@, q.dnd);
    lemma_contains_suffix(x24, bool_entry(
        "night-light"@,
        q.night_light,
    ), e);
    let x25 = x24 + bool_entry(
        "night-light"@,
        q.night_light,
    );
    lemma_contains_suffix(x25, "    night-light-temperature "@, e);
    let x26 = x25 + "    night-light-temperature "@;
    lemma_contains_suffix(x26, dec(q.night_light_temperature as nat), e);
    let x27 = x26 + dec(q.night_light_temperature as nat);
    lemma_contains_suffix(x27, "\n}\n"@, e);
    let x28 = x27 + "\n}\n"@;
    assert(shell_text(cfg) == x28);
}

proof fn lemma_written_success(cfg: ShellConfig)
    ensures
        crate::persist::contains_text(shell_text(cfg), "    success \""@ + escape_kdl(cfg.theme.success@) + "\"\n"@),
{
    let t = cfg.theme;
    let b = cfg.behaviour;
    let q = cfg.quick_settings;
    reveal_strlit("    success \"");
    reveal_strlit("    ");
    reveal_strlit("success");
    reveal_strlit(" \"");
    reveal_strlit("\n");
    reveal_strlit("\"\n");
    let p = Seq::empty() + "// niri-shell preferences. Safe to edit while the shell is running.\n\ntheme {\n"@ + str_entry("accent"@, t.accent@) + str_entry("surface"@, t.surface@) + str_entry(
        "text"@,
        t.text@,
    ) + str_entry("muted"@, t.muted@);
    let e = str_entry("success"@, t.success@);
    assert(e =~= "    success \""@ + escape_kdl(t.success@) + "\"\n"@);
    lemma_occurs_end(p, e);
    let x0 = p + e;
    lemma_contains_suffix(x0, str_entry(
        "warning"@,
        t.warning@,
    ), e);
    let x7 = x0 + str_entry(
        "warning"@,
        t.warning@,
    );
    lemma_contains_suffix(x7, str_entry("danger"@, t.danger@), e);
    let x8 = x7 + str_entry("danger"@, t.danger@);
    lemma_contains_suffix(x8, str_entry("purple"@, t.purple@), e);
    let x9 = x8 + str_entry("purple"@, t.purple@);
    lemma_contains_suffix(x9, str_entry(
        "font-ui"@,
        t.font_ui@,
    ), e);
    let x10 = x9 + str_entry(
        "font-ui"@,
        t.font_ui@,
    );
    lemma_contains_suffix(x10, str_entry("font-mono"@, t.font_mono@), e);
    let x11 = x10 + str_entry("font-mono"@, t.font_mono@);
    lemma_contains_suffix(x11, "    radius "@, e);
    let x12 = x11 + "    radius "@;
    lemma_contains_suffix(x12, dec(t.radius as nat), e);
    let x13 = x12 + dec(t.radius as nat);
    lemma_contains_suffix(x13, "\n    panel-opacity "@, e);
    let x14 = x13 + "\n    panel-opacity "@;
    lemma_contains_suffix(x14, fixed_text(t.panel_opacity as int, 2), e);
    let x15 = x14 + fixed_text(t.panel_opacity as int, 2);
    lemma_contains_suffix(x15, "\n}\n\nbehaviour {\n"@, e);
    let x16 = x15 + "\n}\n\nbehaviour {\n"@;
    lemma_contains_suffix(x16, bool_entry("dock-autohide"@, b.dock_autohide), e);
    let x17 = x16 + bool_entry("dock-autohide"@, b.dock_autohide);
    lemma_contains_suffix(x17, bool_entry(
        "show-workspace-indicator"@,
        b.show_workspace_indicator,
    ), e);
    let x18 = x17 + bool_entry(
        "show-workspace-indicator"@,
        b.show_workspace_indicator,
    );
    lemma_contains_suffix(x18, bool_entry("show-media-controls"@, b.show_media_controls), e);
    let x19 = x18 + bool_entry("show-media-controls"@, b.show_media_controls);
    lemma_contains_suffix(x19, bool_entry(
        "show-network-speeds"@,
        b.show_network_speeds,
    ), e);
    let x20 = x19 + bool_entry(
        "show-network-speeds"@,
        b.show_network_speeds,
    );
    lemma_contains_suffix(x20, bool_entry("launcher-recent-files"@, b.launcher_recent_files), e);
    let x21 = x20 + bool_entry("launcher-recent-files"@, b.launcher_recent_files);
    lemma_contains_suffix(x21, bool_entry(
        "notification-sounds"@,
        b.notification_sounds,
    ), e);
    let x22 = x21 + bool_entry(
        "notification-sounds"@,
        b.notification_sounds,
    );
    lemma_contains_suffix(x22, "}\n\nquick-settings {\n"@, e);
    let x23 = x22 + "}\n\nquick-settings {\n"@;
    lemma_contains_suffix(x23, bool_entry("do-not-disturb"@, q.dnd), e);
    let x24 = x23 + bool_entry("do-not-disturb"@, q.dnd);
    lemma_contains_suffix(x24, bool_entry(
        "night-light"@,
        q.night_light,
    ), e);
    let x25 = x24 + bool_entry(
        "night-light"@,
        q.night_light,
    );
    lemma_contains_suffix(x25, "    night-light-temperature "@, e);
    let x26 = x25 + "    night-light-temperature "@;
    lemma_contains_suffix(x26, dec(q.night_light_temperature as nat), e);
    let x27 = x26 + dec(q.night_light_temperature as nat);
    lemma_contains_suffix(x27, "\n}\n"@, e);
    let x28 = x27 + "\n}\n"@;
    assert(shell_text(cfg) == x28);
}

proof fn lemma_written_warning(cfg: ShellConfig)
    ensures
        crate::persist::contains_text(shell_text(cfg), "    warning \""@ + escape_kdl(cfg.theme.warning@) + "\"\n"@),
{
    let t = cfg.theme;
    let b = cfg.behaviour;
    let q = cfg.quick_settings;
    reveal_strlit("    warning \"");
    reveal_strlit("    ");
    reveal_strlit("warning");
    reveal_strlit(" \"");
    reveal_strlit("\n");
    reveal_strlit("\"\n");
    let p = Seq::empty() + "// niri-shell preferences. Safe to edit while the shell is running.\n\ntheme {\n"@ + str_entry("accent"@, t.accent@) + str_entry("surface"@, t.surface@) + str_entry(
        "text"@,
        t.text@,
    ) + str_entry("muted"@, t.muted@) + str_entry("success"@, t.success@);
    let e = str_entry(
        "warning"@,
        t.warning@,
    );
    assert(e =~= "    warning \""@ + escape_kdl(t.warning@) + "\"\n"@);
    lemma_occurs_end(p, e);
    let x0 = p + e;
    lemma_contains_suffix(x0, str_entry("danger"@, t.danger@), e);
    let x8 = x0 + str_entry("danger"@, t.danger@);
    lemma_contains_suffix(x8, str_entry("purple"@, t.purple@), e);
    let x9 = x8 + str_entry("purple"@, t.purple@);
    lemma_contains_suffix(x9, str_entry(
        "font-ui"@,
        t.font_ui@,
    ), e);
    let x10 = x9 + str_entry(
        "font-ui"@,
        t.font_ui@,
    );
    lemma_contains_suffix(x10, str_entry("font-mono"@, t.font_mono@), e);
    let x11 = x10 + str_entry("font-mono"@, t.font_mono@);
    lemma_contains_suffix(x11, "    radius "@, e);
    let x12 = x11 + "    radius "@;
    lemma_contains_suffix(x12, dec(t.radius as nat), e);
    let x13 = x12 + dec(t.radius as nat);
    lemma_contains_suffix(x13, "\n    panel-opacity "@, e);
    let x14 = x13 + "\n    panel-opacity "@;
    lemma_contains_suffix(x14, fixed_text(t.panel_opacity as int, 2), e);
    let x15 = x14 + fixed_text(t.panel_opacity as int, 2);
    lemma_contains_suffix(x15, "\n}\n\nbehaviour {\n"@, e);
    let x16 = x15 + "\n}\n\nbehaviour {\n"@;
    lemma_contains_suffix(x16, bool_entry("dock-autohide"@, b.dock_autohide), e);
    let x17 = x16 + bool_entry("dock-autohide"@, b.dock_autohide);
    lemma_contains_suffix(x17, bool_entry(
        "show-workspace-indicator"@,
        b.show_workspace_indicator,
    ), e);
    let x18 = x17 + bool_entry(
        "show-workspace-indicator"@,
        b.show_workspace_indicator,
    );
    lemma_contains_suffix(x18, bool_entry("show-media-controls"@, b.show_media_controls), e);
    let x19 = x18 + bool_entry("show-media-controls"@, b.show_media_controls);
    lemma_contains_suffix(x19, bool_entry(
        "show-network-speeds"@,
        b.show_network_speeds,
    ), e);
    let x20 = x19 + bool_entry(
        "show-network-speeds"@,
        b.show_network_speeds,
    );
    lemma_contains_suffix(x20, bool_entry("launcher-recent-files"@, b.launcher_recent_files), e);
    let x21 = x20 + bool_entry("launcher-recent-files"@, b.launcher_recent_files);
    lemma_contains_suffix(x21, bool_entry(
        "notification-sounds"@,
        b.notification_sounds,
    ), e);
    let x22 = x21 + bool_entry(
        "notification-sounds"@,
        b.notification_sounds,
    );
    lemma_contains_suffix(x22, "}\n\nquick-settings {\n"@, e);
    let x23 = x22 + "}\n\nquick-settings {\n"@;
    lemma_contains_suffix(x23, bool_entry("do-not-disturb"@, q.dnd), e);
    let x24 = x23 + bool_entry("do-not-disturb"@, q.dnd);
    lemma_contains_suffix(x24, bool_entry(
        "night-light"@,
        q.night_light,
    ), e);
    let x25 = x24 + bool_entry(
        "night-light"@,
        q.night_light,
    );
    lemma_contains_suffix(x25, "    night-light-temperature "@, e);
    let x26 = x25 + "    night-light-temperature "@;
    lemma_contains_suffix(x26, dec(q.night_light_temperature as nat), e);
    let x27 = x26 + dec(q.night_light_temperature as nat);
    lemma_contains_suffix(x27, "\n}\n"@, e);
    let x28 = x27 + "\n}\n"@;
    assert(shell_text(cfg) == x28);
}

proof fn lemma_written_danger(cfg: ShellConfig)
    ensures
        crate::persist::contains_text(shell_text(cfg), "    danger \""@ + escape_kdl(cfg.theme.danger@) + "\"\n"@),
{
    let t = cfg.theme;
    let b = cfg.behaviour;
    let q = cfg.quick_settings;
    reveal_strlit("    danger \"");
    reveal_strlit("    ");
    reveal_strlit("danger");
    reveal_strlit(" \"");
    reveal_strlit("\n");
    reveal_strlit("\"\n");
    let p = Seq::empty() + "// niri-shell preferences. Safe to edit while the shell is running.\n\ntheme {\n"@ + str_entry("accent"@, t.accent@) + str_entry("surface"@, t.surface@) + str_entry(
        "text"@,
        t.text@,
    ) + str_entry("muted"@, t.muted@) + str_entry("success"@, t.success@) + str_entry(
        "warning"@,
        t.warning@,
    );
    let e = str_entry("danger"@, t.danger@);
    assert(e =~= "    danger \""@ + escape_kdl(t.danger@) + "\"\n"@);
    lemma_occurs_end(p, e);
    let x0 = p + e;
    lemma_contains_suffix(x0, str_entry("purple"@, t.purple@), e);
    let x9 = x0 + str_entry("purple"@, t.purple@);
    lemma_contains_suffix(x9, str_entry(
        "font-ui"@,
        t.font_ui@,
    ), e);
    let x10 = x9 + str_entry(
        "font-ui"@,
        t.font_ui@,
    );
    lemma_contains_suffix(x10, str_entry("font-mono"@, t.font_mono@), e);
    let x11 = x10 + str_entry("font-mono"@, t.font_mono@);
    lemma_contains_suffix(x11, "    radius "@, e);
    let x12 = x11 + "    radius "@;
    lemma_contains_suffix(x12, dec(t.radius as nat), e);
    let x13 = x12 + dec(t.radius as nat);
    lemma_contains_suffix(x13, "\n    panel-opacity "@, e);
    let x14 = x13 + "\n    panel-opacity "@;
    lemma_contains_suffix(x14, fixed_text(t.panel_opacity as int, 2), e);
    let x15 = x14 + fixed_text(t.panel_opacity as int, 2);
    lemma_contains_suffix(x15, "\n}\n\nbehaviour {\n"@, e);
    let x16 = x15 + "\n}\n\nbehaviour {\n"@;
    lemma_contains_suffix(x16, bool_entry("dock-autohide"@, b.dock_autohide), e);
    let x17 = x16 + bool_entry("dock-autohide"@, b.dock_autohide);
    lemma_contains_suffix(x17, bool_entry(
        "show-workspace-indicator"@,
        b.show_workspace_indicator,
    ), e);
    let x18 = x17 + bool_entry(
        "show-workspace-indicator"@,
        b.show_workspace_indicator,
    );
    lemma_contains_suffix(x18, bool_entry("show-media-controls"@, b.show_media_controls), e);
    let x19 = x18 + bool_entry("show-media-controls"@, b.show_media_controls);
    lemma_contains_suffix(x19, bool_entry(
        "show-network-speeds"@,
        b.show_network_speeds,
    ), e);
    let x20 = x19 + bool_entry(
        "show-network-speeds"@,
        b.show_network_speeds,
    );
    lemma_contains_suffix(x20, bool_entry("launcher-recent-files"@, b.launcher_recent_files), e);
    let x21 = x20 + bool_entry("launcher-recent-files"@, b.launcher_recent_files);
    lemma_contains_suffix(x21, bool_entry(
        "notification-sounds"@,
        b.notification_sounds,
    ), e);
    let x22 = x21 + bool_entry(
        "notification-sounds"@,
        b.notification_sounds,
    );
    lemma_contains_suffix(x22, "}\n\nquick-settings {\n"@, e);
    let x23 = x22 + "}\n\nquick-settings {\n"@;
    lemma_contains_suffix(x23, bool_entry("do-not-disturb"@, q.dnd), e);
    let x24 = x23 + bool_entry("do-not-disturb"@, q.dnd);
    lemma_contains_suffix(x24, bool_entry(
        "night-light"@,
        q.night_light,
    ), e);
    let x25 = x24 + bool_entry(
        "night-light"@,
        q.night_light,
    );
    lemma_contains_suffix(x25, "    night-light-temperature "@, e);
    let x26 = x25 + "    night-light-temperature "@;
    lemma_contains_suffix(x26, dec(q.night_light_temperature as nat), e);
    let x27 = x26 + dec(q.night_light_temperature as nat);
    lemma_contains_suffix(x27, "\n}\n"@, e);
    let x28 = x27 + "\n}\n"@;
    assert(shell_text(cfg) == x28);
}

proof fn lemma_written_purple(cfg: ShellConfig)
    ensures
        crate::persist::contains_text(shell_text(cfg), "    purple \""@ + escape_kdl(cfg.theme.purple@) + "\"\n"@),
{
    let t = cfg.theme;
    let b = cfg.behaviour;
    let q = cfg.quick_settings;
    reveal_strlit("    purple \"");
    reveal_strlit("    ");
    reveal_strlit("purple");
    reveal_strlit(" \"");
    reveal_strlit("\n");
    reveal_strlit("\"\n");
    let p = Seq::empty() + "// niri-shell preferences. Safe to edit while the shell is running.\n\ntheme {\n"@ + str_entry("accent"@, t.accent@) + str_entry("surface"@, t.surface@) + str_entry(
        "text"@,
        t.text@,
    ) + str_entry("muted"@, t.muted@) + str_entry("success"@, t.success@) + str_entry(
        "warning"@,
        t.warning@,
    ) + str_entry("danger"@, t.danger@);
    let e = str_entry("purple"@, t.purple@);
    assert(e =~= "    purple \""@ + escape_kdl(t.purple@) + "\"\n"@);
    lemma_occurs_end(p, e);
    let x0 = p + e;
    lemma_contains_suffix(x0, str_entry(
        "font-ui"@,
        t.font_ui@,
    ), e);
    let x10 = x0 + str_entry(
        "font-ui"@,
        t.font_ui@,
    );
    lemma_contains_suffix(x10, str_entry("font-mono"@, t.font_mono@), e);
    let x11 = x10 + str_entry("font-mono"@, t.font_mono@);
    lemma_contains_suffix(x11, "    radius "@, e);
    let x12 = x11 + "    radius "@;
    lemma_contains_suffix(x12, dec(t.radius as nat), e);
    let x13 = x12 + dec(t.radius as nat);
    lemma_contains_suffix(x13, "\n    panel-opacity "@, e);
    let x14 = x13 + "\n    panel-opacity "@;
    lemma_contains_suffix(x14, fixed_text(t.panel_opacity as int, 2), e);
    let x15 = x14 + fixed_text(t.panel_opacity as int, 2);
    lemma_contains_suffix(x15, "\n}\n\nbehaviour {\n"@, e);
    let x16 = x15 + "\n}\n\nbehaviour {\n"@;
    lemma_contains_suffix(x16, bool_entry("dock-autohide"@, b.dock_autohide), e);
    let x17 = x16 + bool_entry("dock-autohide"@, b.dock_autohide);
    lemma_contains_suffix(x17, bool_entry(
        "show-workspace-indicator"@,
        b.show_workspace_indicator,
    ), e);
    let x18 = x17 + bool_entry(
        "show-workspace-indicator"@,
        b.show_workspace_indicator,
    );
    lemma_contains_suffix(x18, bool_entry("show-media-controls"@, b.show_media_controls), e);
    let x19 = x18 + bool_entry("show-media-controls"@, b.show_media_controls);
    lemma_contains_suffix(x19, bool_entry(
        "show-network-speeds"@,
        b.show_network_speeds,
    ), e);
    let x20 = x19 + bool_entry(
        "show-network-speeds"@,
        b.show_network_speeds,
    );
    lemma_contains_suffix(x20, bool_entry("launcher-recent-files"@, b.launcher_recent_files), e);
    let x21 = x20 + bool_entry("launcher-recent-files"@, b.launcher_recent_files);
    lemma_contains_suffix(x21, bool_entry(
        "notification-sounds"@,
        b.notification_sounds,
    ), e);
    let x22 = x21 + bool_entry(
        "notification-sounds"@,
        b.notification_sounds,
    );
    lemma_contains_suffix(x22, "}\n\nquick-settings {\n"@, e);
    let x23 = x22 + "}\n\nquick-settings {\n"@;
    lemma_contains_suffix(x23, bool_entry("do-not-disturb"@, q.dnd), e);
    let x24 = x23 + bool_entry("do-not-disturb"@, q.dnd);
    lemma_contains_suffix(x24, bool_entry(
        "night-light"@,
        q.night_light,
    ), e);
    let x25 = x24 + bool_entry(
        "night-light"@,
        q.night_light,
    );
    lemma_contains_suffix(x25, "    night-light-temperature "@, e);
    let x26 = x25 + "    night-light-temperature "@;
    lemma_contains_suffix(x26, dec(q.night_light_temperature as nat), e);
    let x27 = x26 + dec(q.night_light_temperature as nat);
    lemma_contains_suffix(x27, "\n}\n"@, e);
    let x28 = x27 + "\n}\n"@;
    assert(shell_text(cfg) == x28);
}

proof fn lemma_written_font_ui(cfg: ShellConfig)
    ensures
        crate::persist::contains_text(shell_text(cfg), "    font-ui \""@ + escape_kdl(cfg.theme.font_ui@) + "\"\n"@),
{
    let t = cfg.theme;
    let b = cfg.behaviour;
    let q = cfg.quick_settings;
    reveal_strlit("    font-ui \"");
    reveal_strlit("    ");
    reveal_strlit("font-ui");
    reveal_strlit(" \"");
    reveal_strlit("\n");
    reveal_strlit("\"\n");
    let p = Seq::empty() + "// niri-shell preferences. Safe to edit while the shell is running.\n\ntheme {\n"@ + str_entry("accent"@, t.accent@) + str_entry("surface"@, t.surface@) + str_entry(
        "text"@,
        t.text@,
    ) + str_entry("muted"@, t.muted@) + str_entry("success"@, t.success@) + str_entry(
        "warning"@,
        t.warning@,
    ) + str_entry("danger"@, t.danger@) + str_entry("purple"@, t.purple@);
    let e = str_entry(
        "font-ui"@,
        t.font_ui@,
    );
    assert(e =~= "    font-ui \""@ + escape_kdl(t.font_ui@) + "\"\n"@);
    lemma_occurs_end(p, e);
    let x0 = p + e;
    lemma_contains_suffix(x0, str_entry("font-mono"@, t.font_mono@), e);
    let x11 = x0 + str_entry("font-mono"@, t.font_mono@);
    lemma_contains_suffix(x11, "    radius "@, e);
    let x12 = x11 + "    radius "@;
    lemma_contains_suffix(x12, dec(t.radius as nat), e);
    let x13 = x12 + dec(t.radius as nat);
    lemma_contains_suffix(x13, "\n    panel-opacity "@, e);
    let x14 = x13 + "\n    panel-opacity "@;
    lemma_contains_suffix(x14, fixed_text(t.panel_opacity as int, 2), e);
    let x15 = x14 + fixed_text(t.panel_opacity as int, 2);
    lemma_contains_suffix(x15, "\n}\n\nbehaviour {\n"@, e);
    let x16 = x15 + "\n}\n\nbehaviour {\n"@;
    lemma_contains_suffix(x16, bool_entry("dock-autohide"@, b.dock_autohide), e);
    let x17 = x16 + bool_entry("dock-autohide"@, b.dock_autohide);
    lemma_contains_suffix(x17, bool_entry(
        "show-workspace-indicator"@,
        b.show_workspace_indicator,
    ), e);
    let x18 = x17 + bool_entry(
        "show-workspace-indicator"@,
        b.show_workspace_indicator,
    );
    lemma_contains_suffix(x18, bool_entry("show-media-controls"@, b.show_media_controls), e);
    let x19 = x18 + bool_entry("show-media-controls"@, b.show_media_controls);
    lemma_contains_suffix(x19, bool_entry(
        "show-network-speeds"@,
        b.show_network_speeds,
    ), e);
    let x20 = x19 + bool_entry(
        "show-network-speeds"@,
        b.show_network_speeds,
    );
    lemma_contains_suffix(x20, bool_entry("launcher-recent-files"@, b.launcher_recent_files), e);
    let x21 = x20 + bool_entry("launcher-recent-files"@, b.launcher_recent_files);
    lemma_contains_suffix(x21, bool_entry(
        "notification-sounds"@,
        b.notification_sounds,
    ), e);
    let x22 = x21 + bool_entry(
        "notification-sounds"@,
        b.notification_sounds,
    );
    lemma_contains_suffix(x22, "}\n\nquick-settings {\n"@, e);
    let x23 = x22 + "}\n\nquick-settings {\n"@;
    lemma_contains_suffix(x23, bool_entry("do-not-disturb"@, q.dnd), e);
    let x24 = x23 + bool_entry("do-not-disturb"@, q.dnd);
    lemma_contains_suffix(x24, bool_entry(
        "night-light"@,
        q.night_light,
    ), e);
    let x25 = x24 + bool_entry(
        "night-light"@,
        q.night_light,
    );
    lemma_contains_suffix(x25, "    night-light-temperature "@, e);
    let x26 = x25 + "    night-light-temperature "@;
    lemma_contains_suffix(x26, dec(q.night_light_temperature as nat), e);
    let x27 = x26 + dec(q.night_light_temperature as nat);
    lemma_contains_suffix(x27, "\n}\n"@, e);
    let x28 = x27 + "\n}\n"@;
    assert(shell_text(cfg) == x28);
}

proof fn lemma_written_font_mono(cfg: ShellConfig)
    ensures
        crate::persist::contains_text(shell_text(cfg), "    font-mono \""@ + escape_kdl(cfg.theme.font_mono@) + "\"\n"@),
{
    let t = cfg.theme;
    let b = cfg.behaviour;
    let q = cfg.quick_settings;
    reveal_strlit("    font-mono \"");
    reveal_strlit("    ");
    reveal_strlit("font-mono");
    reveal_strlit(" \"");
    reveal_strlit("\n");
    reveal_strlit("\"\n");
    let p = Seq::empty() + "// niri-shell preferences. Safe to edit while the shell is running.\n\ntheme {\n"@ + str_entry("accent"@, t.accent@) + str_entry("surface"@, t.surface@) + str_entry(
        "text"@,
        t.text@,
    ) + str_entry("muted"@, t.muted@) + str_entry("success"@, t.success@) + str_entry(
        "warning"@,
        t.warning@,
    ) + str_entry("danger"@, t.danger@) + str_entry("purple"@, t.purple@) + str_entry(
        "font-ui"@,
        t.font_ui@,
    );
    let e = str_entry("font-mono"@, t.font_mono@);
    assert(e =~= "    font-mono \""@ + escape_kdl(t.font_mono@) + "\"\n"@);
    lemma_occurs_end(p, e);
    let x0 = p + e;
    lemma_contains_suffix(x0, "    radius "@, e);
    let x12 = x0 + "    radius "@;
    lemma_contains_suffix(x12, dec(t.radius as nat), e);
    let x13 = x12 + dec(t.radius as nat);
    lemma_contains_suffix(x13, "\n    panel-opacity "@, e);
    let x14 = x13 + "\n    panel-opacity "@;
    lemma_contains_suffix(x14, fixed_text(t.panel_opacity as int, 2), e);
    let x15 = x14 + fixed_text(t.panel_opacity as int, 2);
    lemma_contains_suffix(x15, "\n}\n\nbehaviour {\n"@, e);
    let x16 = x15 + "\n}\n\nbehaviour {\n"@;
    lemma_contains_suffix(x16, bool_entry("dock-autohide"@, b.dock_autohide), e);
    let x17 = x16 + bool_entry("dock-autohide"@, b.dock_autohide);
    lemma_contains_suffix(x17, bool_entry(
        "show-workspace-indicator"@,
        b.show_workspace_indicator,
    ), e);
    let x18 = x17 + bool_entry(
        "show-workspace-indicator"@,
        b.show_workspace_indicator,
    );
    lemma_contains_suffix(x18, bool_entry("show-media-controls"@, b.show_media_controls), e);
    let x19 = x18 + bool_entry("show-media-controls"@, b.show_media_controls);
    lemma_contains_suffix(x19, bool_entry(
        "show-network-speeds"@,
        b.show_network_speeds,
    ), e);
    let x20 = x19 + bool_entry(
        "show-network-speeds"@,
        b.show_network_speeds,
    );
    lemma_contains_suffix(x20, bool_entry("launcher-recent-files"@, b.launcher_recent_files), e);
    let x21 = x20 + bool_entry("launcher-recent-files"@, b.launcher_recent_files);
    lemma_contains_suffix(x21, bool_entry(
        "notification-sounds"@,
        b.notification_sounds,
    ), e);
    let x22 = x21 + bool_entry(
        "notification-sounds"@,
        b.notification_sounds,
    );
    lemma_contains_suffix(x22, "}\n\nquick-settings {\n"@, e);
    let x23 = x22 + "}\n\nquick-settings {\n"@;
    lemma_contains_suffix(x23, bool_entry("do-not-disturb"@, q.dnd), e);
    let x24 = x23 + bool_entry("do-not-disturb"@, q.dnd);
    lemma_contains_suffix(x24, bool_entry(
        "night-light"@,
        q.night_light,
    ), e);
    let x25 = x24 + bool_entry(
        "night-light"@,
        q.night_light,
    );
    lemma_contains_suffix(x25, "    night-light-temperature "@, e);
    let x26 = x25 + "    night-light-temperature "@;
    lemma_contains_suffix(x26, dec(q.night_light_temperature as nat), e);
    let x27 = x26 + dec(q.night_light_temperature as nat);
    lemma_contains_suffix(x27, "\n}\n"@, e);
    let x28 = x27 + "\n}\n"@;
    assert(shell_text(cfg) == x28);
}

proof fn lemma_written_dock_autohide(cfg: ShellConfig)
    ensures
        crate::persist::contains_text(shell_text(cfg), "    dock-autohide "@ + (if cfg.behaviour.dock_autohide { "true"@ } else { "false"@ }) + "\n"@),
{
    let t = cfg.theme;
    let b = cfg.behaviour;
    let q = cfg.quick_settings;
    reveal_strlit("    dock-autohide ");
    reveal_strlit("    ");
    reveal_strlit("dock-autohide");
    reveal_strlit(" ");
    reveal_strlit("\n");
    reveal_strlit("\"\n");
    let p = Seq::empty() + "// niri-shell preferences. Safe to edit while the shell is running.\n\ntheme {\n"@ + str_entry("accent"@, t.accent@) + str_entry("surface"@, t.surface@) + str_entry(
        "text"@,
        t.text@,
    ) + str_entry("muted"@, t.muted@) + str_entry("success"@, t.success@) + str_entry(
        "warning"@,
        t.warning@,
    ) + str_entry("danger"@, t.danger@) + str_entry("purple"@, t.purple@) + str_entry(
        "font-ui"@,
        t.font_ui@,
    ) + str_entry("font-mono"@, t.font_mono@) + "    radius "@ + dec(t.radius as nat) + "\n    panel-opacity "@ + fixed_text(t.panel_opacity as int, 2) + "\n}\n\nbehaviour {\n"@;
    let e = bool_entry("dock-autohide"@, b.dock_autohide);
    assert(e =~= "    dock-autohide "@ + (if b.dock_autohide { "true"@ } else { "false"@ }) + "\n"@);
    lemma_occurs_end(p, e);
    let x0 = p + e;
    lemma_contains_suffix(x0, bool_entry(
        "show-workspace-indicator"@,
        b.show_workspace_indicator,
    ), e);
    let x18 = x0 + bool_entry(
        "show-workspace-indicator"@,
        b.show_workspace_indicator,
    );
    lemma_contains_suffix(x18, bool_entry("show-media-controls"@, b.show_media_controls), e);
    let x19 = x18 + bool_entry("show-media-controls"@, b.show_media_controls);
    lemma_contains_suffix(x19, bool_entry(
        "show-network-speeds"@,
        b.show_network_speeds,
    ), e);
    let x20 = x19 + bool_entry(
        "show-network-speeds"@,
        b.show_network_speeds,
    );
    lemma_contains_suffix(x20, bool_entry("launcher-recent-files"@, b.launcher_recent_files), e);
    let x21 = x20 + bool_entry("launcher-recent-files"@, b.launcher_recent_files);
    lemma_contains_suffix(x21, bool_entry(
        "notification-sounds"@,
        b.notification_sounds,
    ), e);
    let x22 = x21 + bool_entry(
        "notification-sounds"@,
        b.notification_sounds,
    );
    lemma_contains_suffix(x22, "}\n\nquick-settings {\n"@, e);
    let x23 = x22 + "}\n\nquick-settings {\n"@;
    lemma_contains_suffix(x23, bool_entry("do-not-disturb"@, q.dnd), e);
    let x24 = x23 + bool_entry("do-not-disturb"@, q.dnd);
    lemma_contains_suffix(x24, bool_entry(
        "night-light"@,
        q.night_light,
    ), e);
    let x25 = x24 + bool_entry(
        "night-light"@,
        q.night_light,
    );
    lemma_contains_suffix(x25, "    night-light-temperature "@, e);
    let x26 = x25 + "    night-light-temperature "@;
    lemma_contains_suffix(x26, dec(q.night_light_temperature as nat), e);
    let x27 = x26 + dec(q.night_light_temperature as nat);
    lemma_contains_suffix(x27, "\n}\n"@, e);
    let x28 = x27 + "\n}\n"@;
    assert(shell_text(cfg) == x28);
}

proof fn lemma_written_show_workspace_indicator(cfg: ShellConfig)
    ensures
        crate::persist::contains_text(shell_text(cfg), "    show-workspace-indicator "@ + (if cfg.behaviour.show_workspace_indicator { "true"@ } else { "false"@ }) + "\n"@),
{
    let t = cfg.theme;
    let b = cfg.behaviour;
    let q = cfg.quick_settings;
    reveal_strlit("    show-workspace-indicator ");
    reveal_strlit("    ");
    reveal_strlit("show-workspace-indicator");
    reveal_strlit(" ");
    reveal_strlit("\n");
    reveal_strlit("\"\n");
    let p = Seq::empty() + "// niri-shell preferences. Safe to edit while the shell is running.\n\ntheme {\n"@ + str_entry("accent"@, t.accent@) + str_entry("surface"@, t.surface@) + str_entry(
        "text"@,
        t.text@,
    ) + str_entry("muted"@, t.muted@) + str_entry("success"@, t.success@) + str_entry(
        "warning"@,
        t.warning@,
    ) + str_entry("danger"@, t.danger@) + str_entry("purple"@, t.purple@) + str_entry(
        "font-ui"@,
        t.font_ui@,
    ) + str_entry("font-mono"@, t.font_mono@) + "    radius "@ + dec(t.radius as nat) + "\n    panel-opacity "@ + fixed_text(t.panel_opacity as int, 2) + "\n}\n\nbehaviour {\n"@ + bool_entry("dock-autohide"@, b.dock_autohide);
    let e = bool_entry(
        "show-workspace-indicator"@,
        b.show_workspace_indicator,
    );
    assert(e =~= "    show-workspace-indicator "@ + (if b.show_workspace_indicator { "true"@ } else { "false"@ }) + "\n"@);
    lemma_occurs_end(p, e);
    let x0 = p + e;
    lemma_contains_suffix(x0, bool_entry("show-media-controls"@, b.show_media_controls), e);
    let x19 = x0 + bool_entry("show-media-controls"@, b.show_media_controls);
    lemma_contains_suffix(x19, bool_entry(
        "show-network-speeds"@,
        b.show_network_speeds,
    ), e);
    let x20 = x19 + bool_entry(
        "show-network-speeds"@,
        b.show_network_speeds,
    );
    lemma_contains_suffix(x20, bool_entry("launcher-recent-files"@, b.launcher_recent_files), e);
    let x21 = x20 + bool_entry("launcher-recent-files"@, b.launcher_recent_files);
    lemma_contains_suffix(x21, bool_entry(
        "notification-sounds"@,
        b.notification_sounds,
    ), e);
    let x22 = x21 + bool_entry(
        "notification-sounds"@,
        b.notification_sounds,
    );
    lemma_contains_suffix(x22, "}\n\nquick-settings {\n"@, e);
    let x23 = x22 + "}\n\nquick-settings {\n"@;
    lemma_contains_suffix(x23, bool_entry("do-not-disturb"@, q.dnd), e);
    let x24 = x23 + bool_entry("do-not-disturb"@, q.dnd);
    lemma_contains_suffix(x24, bool_entry(
        "night-light"@,
        q.night_light,
    ), e);
    let x25 = x24 + bool_entry(
        "night-light"@,
        q.night_light,
    );
    lemma_contains_suffix(x25, "    night-light-temperature "@, e);
    let x26 = x25 + "    night-light-temperature "@;
    lemma_contains_suffix(x26, dec(q.night_light_temperature as nat), e);
    let x27 = x26 + dec(q.night_light_temperature as nat);
    lemma_contains_suffix(x27, "\n}\n"@, e);
    let x28 = x27 + "\n}\n"@;
    assert(shell_text(cfg) == x28);
}

proof fn lemma_written_show_media_controls(cfg: ShellConfig)
    ensures
        crate::persist::contains_text(shell_text(cfg), "    show-media-controls "@ + (if cfg.behaviour.show_media_controls { "true"@ } else { "false"@ }) + "\n"@),
{
    let t = cfg.theme;
    let b = cfg.behaviour;
    let q = cfg.quick_settings;
    reveal_strlit("    show-media-controls ");
    reveal_strlit("    ");
    reveal_strlit("show-media-controls");
    reveal_strlit(" ");
    reveal_strlit("\n");
    reveal_strlit("\"\n");
    let p = Seq::empty() + "// niri-shell preferences. Safe to edit while the shell is running.\n\ntheme {\n"@ + str_entry("accent"@, t.accent@) + str_entry("surface"@, t.surface@) + str_entry(
        "text"@,
        t.text@,
    ) + str_entry("muted"@, t.muted@) + str_entry("success"@, t.success@) + str_entry(
        "warning"@,
        t.warning@,
    ) + str_entry("danger"@, t.danger@) + str_entry("purple"@, t.purple@) + str_entry(
        "font-ui"@,
        t.font_ui@,
    ) + str_entry("font-mono"@, t.font_mono@) + "    radius "@ + dec(t.radius as nat) + "\n    panel-opacity "@ + fixed_text(t.panel_opacity as int, 2) + "\n}\n\nbehaviour {\n"@ + bool_entry("dock-autohide"@, b.dock_autohide) + bool_entry(
        "show-workspace-indicator"@,
        b.show_workspace_indicator,
    );
    let e = bool_entry("show-media-controls"@, b.show_media_controls);
    assert(e =~= "    show-media-controls "@ + (if b.show_media_controls { "true"@ } else { "false"@ }) + "\n"@);
    lemma_occurs_end(p, e);
    let x0 = p + e;
    lemma_contains_suffix(x0, bool_entry(
        "show-network-speeds"@,
        b.show_network_speeds,
    ), e);
    let x20 = x0 + bool_entry(
        "show-network-speeds"@,
        b.show_network_speeds,
    );
    lemma_contains_suffix(x20, bool_entry("launcher-recent-files"@, b.launcher_recent_files), e);
    let x21 = x20 + bool_entry("launcher-recent-files"@, b.launcher_recent_files);
    lemma_contains_suffix(x21, bool_entry(
        "notification-sounds"@,
        b.notification_sounds,
    ), e);
    let x22 = x21 + bool_entry(
        "notification-sounds"@,
        b.notification_sounds,
    );
    lemma_contains_suffix(x22, "}\n\nquick-settings {\n"@, e);
    let x23 = x22 + "}\n\nquick-settings {\n"@;
    lemma_contains_suffix(x23, bool_entry("do-not-disturb"@, q.dnd), e);
    let x24 = x23 + bool_entry("do-not-disturb"@, q.dnd);
    lemma_contains_suffix(x24, bool_entry(
        "night-light"@,
        q.night_light,
    ), e);
    let x25 = x24 + bool_entry(
        "night-light"@,
        q.night_light,
    );
    lemma_contains_suffix(x25, "    night-light-temperature "@, e);
    let x26 = x25 + "    night-light-temperature "@;
    lemma_contains_suffix(x26, dec(q.night_light_temperature as nat), e);
    let x27 = x26 + dec(q.night_light_temperature as nat);
    lemma_contains_suffix(x27, "\n}\n"@, e);
    let x28 = x27 + "\n}\n"@;
    assert(shell_text(cfg) == x28);
}

proof fn lemma_written_show_network_speeds(cfg: ShellConfig)
    ensures
        crate::persist::contains_text(shell_text(cfg), "    show-network-speeds "@ + (if cfg.behaviour.show_network_speeds { "true"@ } else { "false"@ }) + "\n"@),
{
    let t = cfg.theme;
    let b = cfg.behaviour;
    let q = cfg.quick_settings;
    reveal_strlit("    show-network-speeds ");
    reveal_strlit("    ");
    reveal_strlit("show-network-speeds");
    reveal_strlit(" ");
    reveal_strlit("\n");
    reveal_strlit("\"\n");
    let p = Seq::empty() + "// niri-shell preferences. Safe to edit while the shell is running.\n\ntheme {\n"@ + str_entry("accent"@, t.accent@) + str_entry("surface"@, t.surface@) + str_entry(
        "text"@,
        t.text@,
    ) + str_entry("muted"@, t.muted@) + str_entry("success"@, t.success@) + str_entry(
        "warning"@,
        t.warning@,
    ) + str_entry("danger"@, t.danger@) + str_entry("purple"@, t.purple@) + str_entry(
        "font-ui"@,
        t.font_ui@,
    ) + str_entry("font-mono"@, t.font_mono@) + "    radius "@ + dec(t.radius as nat) + "\n    panel-opacity "@ + fixed_text(t.panel_opacity as int, 2) + "\n}\n\nbehaviour {\n"@ + bool_entry("dock-autohide"@, b.dock_autohide) + bool_entry(
        "show-workspace-indicator"@,
        b.show_workspace_indicator,
    ) + bool_entry("show-media-controls"@, b.show_media_controls);
    let e = bool_entry(
        "show-network-speeds"@,
        b.show_network_speeds,
    );
    assert(e =~= "    show-network-speeds "@ + (if b.show_network_speeds { "true"@ } else { "false"@ }) + "\n"@);
    lemma_occurs_end(p, e);
    let x0 = p + e;
    lemma_contains_suffix(x0, bool_entry("launcher-recent-files"@, b.launcher_recent_files), e);
    let x21 = x0 + bool_entry("launcher-recent-files"@, b.launcher_recent_files);
    lemma_contains_suffix(x21, bool_entry(
        "notification-sounds"@,
        b.notification_sounds,
    ), e);
    let x22 = x21 + bool_entry(
        "notification-sounds"@,
        b.notification_sounds,
    );
    lemma_contains_suffix(x22, "}\n\nquick-settings {\n"@, e);
    let x23 = x22 + "}\n\nquick-settings {\n"@;
    lemma_contains_suffix(x23, bool_entry("do-not-disturb"@, q.dnd), e);
    let x24 = x23 + bool_entry("do-not-disturb"@, q.dnd);
    lemma_contains_suffix(x24, bool_entry(
        "night-light"@,
        q.night_light,
    ), e);
    let x25 = x24 + bool_entry(
        "night-light"@,
        q.night_light,
    );
    lemma_contains_suffix(x25, "    night-light-temperature "@, e);
    let x26 = x25 + "    night-light-temperature "@;
    lemma_contains_suffix(x26, dec(q.night_light_temperature as nat), e);
    let x27 = x26 + dec(q.night_light_temperature as nat);
    lemma_contains_suffix(x27, "\n}\n"@, e);
    let x28 = x27 + "\n}\n"@;
    assert(shell_text(cfg) == x28);
}

proof fn lemma_written_launcher_recent_files(cfg: ShellConfig)
    ensures
        crate::persist::contains_text(shell_text(cfg), "    launcher-recent-files "@ + (if cfg.behaviour.launcher_recent_files { "true"@ } else { "false"@ }) + "\n"@),
{
    let t = cfg.theme;
    let b = cfg.behaviour;
    let q = cfg.quick_settings;
    reveal_strlit("    launcher-recent-files ");
    reveal_strlit("    ");
    reveal_strlit("launcher-recent-files");
    reveal_strlit(" ");
    reveal_strlit("\n");
    reveal_strlit("\"\n");
    let p = Seq::empty() + "// niri-shell preferences. Safe to edit while the shell is running.\n\ntheme {\n"@ + str_entry("accent"@, t.accent@) + str_entry("surface"@, t.surface@) + str_entry(
        "text"@,
        t.text@,
    ) + str_entry("muted"@, t.muted@) + str_entry("success"@, t.success@) + str_entry(
        "warning"@,
        t.warning@,
    ) + str_entry("danger"@, t.danger@) + str_entry("purple"@, t.purple@) + str_entry(
        "font-ui"@,
        t.font_ui@,
    ) + str_entry("font-mono"@, t.font_mono@) + "    radius "@ + dec(t.radius as nat) + "\n    panel-opacity "@ + fixed_text(t.panel_opacity as int, 2) + "\n}\n\nbehaviour {\n"@ + bool_entry("dock-autohide"@, b.dock_autohide) + bool_entry(
        "show-workspace-indicator"@,
        b.show_workspace_indicator,
    ) + bool_entry("show-media-controls"@, b.show_media_controls) + bool_entry(
        "show-network-speeds"@,
        b.show_network_speeds,
    );
    let e = bool_entry("launcher-recent-files"@, b.launcher_recent_files);
    assert(e =~= "    launcher-recent-files "@ + (if b.launcher_recent_files { "true"@ } else { "false"@ }) + "\n"@);
    lemma_occurs_end(p, e);
    let x0 = p + e;
    lemma_contains_suffix(x0, bool_entry(
        "notification-sounds"@,
        b.notification_sounds,
    ), e);
    let x22 = x0 + bool_entry(
        "notification-sounds"@,
        b.notification_sounds,
    );
    lemma_contains_suffix(x22, "}\n\nquick-settings {\n"@, e);
    let x23 = x22 + "}\n\nquick-settings {\n"@;
    lemma_contains_suffix(x23, bool_entry("do-not-disturb"@, q.dnd), e);
    let x24 = x23 + bool_entry("do-not-disturb"@, q.dnd);
    lemma_contains_suffix(x24, bool_entry(
        "night-light"@,
        q.night_light,
    ), e);
    let x25 = x24 + bool_entry(
        "night-light"@,
        q.night_light,
    );
    lemma_contains_suffix(x25, "    night-light-temperature "@, e);
    let x26 = x25 + "    night-light-temperature "@;
    lemma_contains_suffix(x26, dec(q.night_light_temperature as nat), e);
    let x27 = x26 + dec(q.night_light_temperature as nat);
    lemma_contains_suffix(x27, "\n}\n"@, e);
    let x28 = x27 + "\n}\n"@;
    assert(shell_text(cfg) == x28);
}

proof fn lemma_written_notification_sounds(cfg: ShellConfig)
    ensures
        crate::persist::contains_text(shell_text(cfg), "    notification-sounds "@ + (if cfg.behaviour.notification_sounds { "true"@ } else { "false"@ }) + "\n"@),
{
    let t = cfg.theme;
    let b = cfg.behaviour;
    let q = cfg.quick_settings;
    reveal_strlit("    notification-sounds ");
    reveal_strlit("    ");
    reveal_strlit("notification-sounds");
    reveal_strlit(" ");
    reveal_strlit("\n");
    reveal_strlit("\"\n");
    let p = Seq::empty() + "// niri-shell preferences. Safe to edit while the shell is running.\n\ntheme {\n"@ + str_entry("accent"@, t.accent@) + str_entry("surface"@, t.surface@) + str_entry(
        "text"@,
        t.text@,
    ) + str_entry("muted"@, t.muted@) + str_entry("success"@, t.success@) + str_entry(
        "warning"@,
        t.warning@,
    ) + str_entry("danger"@, t.danger@) + str_entry("purple"@, t.purple@) + str_entry(
        "font-ui"@,
        t.font_ui@,
    ) + str_entry("font-mono"@, t.font_mono@) + "    radius "@ + dec(t.radius as nat) + "\n    panel-opacity "@ + fixed_text(t.panel_opacity as int, 2) + "\n}\n\nbehaviour {\n"@ + bool_entry("dock-autohide"@, b.dock_autohide) + bool_entry(
        "show-workspace-indicator"@,
        b.show_workspace_indicator,
    ) + bool_entry("show-media-controls"@, b.show_media_controls) + bool_entry(
        "show-network-speeds"@,
        b.show_network_speeds,
    ) + bool_entry("launcher-recent-files"@, b.launcher_recent_files);
    let e = bool_entry(
        "notification-sounds"@,
        b.notification_sounds,
    );
    assert(e =~= "    notification-sounds "@ + (if b.notification_sounds { "true"@ } else { "false"@ }) + "\n"@);
    lemma_occurs_end(p, e);
    let x0 = p + e;
    lemma_contains_suffix(x0, "}\n\nquick-settings {\n"@, e);
    let x23 = x0 + "}\n\nquick-settings {\n"@;
    lemma_contains_suffix(x23, bool_entry("do-not-disturb"@, q.dnd), e);
    let x24 = x23 + bool_entry("do-not-disturb"@, q.dnd);
    lemma_contains_suffix(x24, bool_entry(
        "night-light"@,
        q.night_light,
    ), e);
    let x25 = x24 + bool_entry(
        "night-light"@,
        q.night_light,
    );
    lemma_contains_suffix(x25, "    night-light-temperature "@, e);
    let x26 = x25 + "    night-light-temperature "@;
    lemma_contains_suffix(x26, dec(q.night_light_temperature as nat), e);
    let x27 = x26 + dec(q.night_light_temperature as nat);
    lemma_contains_suffix(x27, "\n}\n"@, e);
    let x28 = x27 + "\n}\n"@;
    assert(shell_text(cfg) == x28);
}

proof fn lemma_written_do_not_disturb(cfg: ShellConfig)
    ensures
        crate::persist::contains_text(shell_text(cfg), "    do-not-disturb "@ + (if cfg.quick_settings.dnd { "true"@ } else { "false"@ }) + "\n"@),
{
    let t = cfg.theme;
    let b = cfg.behaviour;
    let q = cfg.quick_settings;
    reveal_strlit("    do-not-disturb ");
    reveal_strlit("    ");
    reveal_strlit("do-not-disturb");
    reveal_strlit(" ");
    reveal_strlit("\n");
    reveal_strlit("\"\n");
    let p = Seq::empty() + "// niri-shell preferences. Safe to edit while the shell is running.\n\ntheme {\n"@ + str_entry("accent"@, t.accent@) + str_entry("surface"@, t.surface@) + str_entry(
        "text"@,
        t.text@,
    ) + str_entry("muted"@, t.muted@) + str_entry("success"@, t.success@) + str_entry(
        "warning"@,
        t.warning@,
    ) + str_entry("danger"@, t.danger@) + str_entry("purple"@, t.purple@) + str_entry(
        "font-ui"@,
        t.font_ui@,
    ) + str_entry("font-mono"@, t.font_mono@) + "    radius "@ + dec(t.radius as nat) + "\n    panel-opacity "@ + fixed_text(t.panel_opacity as int, 2) + "\n}\n\nbehaviour {\n"@ + bool_entry("dock-autohide"@, b.dock_autohide) + bool_entry(
        "show-workspace-indicator"@,
        b.show_workspace_indicator,
    ) + bool_entry("show-media-controls"@, b.show_media_controls) + bool_entry(
        "show-network-speeds"@,
        b.show_network_speeds,
    ) + bool_entry("launcher-recent-files"@, b.launcher_recent_files) + bool_entry(
        "notification-sounds"@,
        b.notification_sounds,
    ) + "}\n\nquick-settings {\n"@;
    let e = bool_entry("do-not-disturb"@, q.dnd);
    assert(e =~= "    do-not-disturb "@ + (if q.dnd { "true"@ } else { "false"@ }) + "\n"@);
    lemma_occurs_end(p, e);
    let x0 = p + e;
    lemma_contains_suffix(x0, bool_entry(
        "night-light"@,
        q.night_light,
    ), e);
    let x25 = x0 + bool_entry(
        "night-light"@,
        q.night_light,
    );
    lemma_contains_suffix(x25, "    night-light-temperature "@, e);
    let x26 = x25 + "    night-light-temperature "@;
    lemma_contains_suffix(x26, dec(q.night_light_temperature as nat), e);
    let x27 = x26 + dec(q.night_light_temperature as nat);
    lemma_contains_suffix(x27, "\n}\n"@, e);
    let x28 = x27 + "\n}\n"@;
    assert(shell_text(cfg) == x28);
}

proof fn lemma_written_night_light(cfg: ShellConfig)
    ensures
        crate::persist::contains_text(shell_text(cfg), "    night-light "@ + (if cfg.quick_settings.night_light { "true"@ } else { "false"@ }) + "\n"@),
{
    let t = cfg.theme;
    let b = cfg.behaviour;
    let q = cfg.quick_settings;
    reveal_strlit("    night-light ");
    reveal_strlit("    ");
    reveal_strlit("night-light");
    reveal_strlit(" ");
    reveal_strlit("\n");
    reveal_strlit("\"\n");
    let p = Seq::empty() + "// niri-shell preferences. Safe to edit while the shell is running.\n\ntheme {\n"@ + str_entry("accent"@, t.accent@) + str_entry("surface"@, t.surface@) + str_entry(
        "text"@,
        t.text@,
    ) + str_entry("muted"@, t.muted@) + str_entry("success"@, t.success@) + str_entry(
        "warning"@,
        t.warning@,
    ) + str_entry("danger"@, t.danger@) + str_entry("purple"@, t.purple@) + str_entry(
        "font-ui"@,
        t.font_ui@,
    ) + str_entry("font-mono"@, t.font_mono@) + "    radius "@ + dec(t.radius as nat) + "\n    panel-opacity "@ + fixed_text(t.panel_opacity as int, 2) + "\n}\n\nbehaviour {\n"@ + bool_entry("dock-autohide"@, b.dock_autohide) + bool_entry(
        "show-workspace-indicator"@,
        b.show_workspace_indicator,
    ) + bool_entry("show-media-controls"@, b.show_media_controls) + bool_entry(
        "show-network-speeds"@,
        b.show_network_speeds,
    ) + bool_entry("launcher-recent-files"@, b.launcher_recent_files) + bool_entry(
        "notification-sounds"@,
        b.notification_sounds,
    ) + "}\n\nquick-settings {\n"@ + bool_entry("do-not-disturb"@, q.dnd);
    let e = bool_entry(
        "night-light"@,
        q.night_light,
    );
    assert(e =~= "    night-light "@ + (if q.night_light { "true"@ } else { "false"@ }) + "\n"@);
    lemma_occurs_end(p, e);
    let x0 = p + e;
    lemma_contains_suffix(x0, "    night-light-temperature "@, e);
    let x26 = x0 + "    night-light-temperature "@;
    lemma_contains_suffix(x26, dec(q.night_light_temperature as nat), e);
    let x27 = x26 + dec(q.night_light_temperature as nat);
    lemma_contains_suffix(x27, "\n}\n"@, e);
    let x28 = x27 + "\n}\n"@;
    assert(shell_text(cfg) == x28);
}

/// Every theme token and behaviour flag is written under its own key: the
/// preferences text holds each token's key with its (escaped) value and
/// each flag's key with its value.
pub proof fn law_preferences_written(cfg: ShellConfig)
    ensures
        crate::persist::contains_text(shell_text(cfg), "    accent \""@ + escape_kdl(cfg.theme.accent@) + "\"\n"@),
        crate::persist::contains_text(shell_text(cfg), "    surface \""@ + escape_kdl(cfg.theme.surface@) + "\"\n"@),
        crate::persist::contains_text(shell_text(cfg), "    text \""@ + escape_kdl(cfg.theme.text@) + "\"\n"@),
        crate::persist::contains_text(shell_text(cfg), "    muted \""@ + escape_kdl(cfg.theme.muted@) + "\"\n"@),
        crate::persist::contains_text(shell_text(cfg), "    success \""@ + escape_kdl(cfg.theme.success@) + "\"\n"@),
        crate::persist::contains_text(shell_text(cfg), "    warning \""@ + escape_kdl(cfg.theme.warning@) + "\"\n"@),
        crate::persist::contains_text(shell_text(cfg), "    danger \""@ + escape_kdl(cfg.theme.danger@) + "\"\n"@),
        crate::persist::contains_text(shell_text(cfg), "    purple \""@ + escape_kdl(cfg.theme.purple@) + "\"\n"@),
        crate::persist::contains_text(shell_text(cfg), "    font-ui \""@ + escape_kdl(cfg.theme.font_ui@) + "\"\n"@),
        crate::persist::contains_text(shell_text(cfg), "    font-mono \""@ + escape_kdl(cfg.theme.font_mono@) + "\"\n"@),
        crate::persist::contains_text(shell_text(cfg), "    dock-autohide "@ + (if cfg.behaviour.dock_autohide { "true"@ } else { "false"@ }) + "\n"@),
        crate::persist::contains_text(shell_text(cfg), "    show-workspace-indicator "@ + (if cfg.behaviour.show_workspace_indicator { "true"@ } else { "false"@ }) + "\n"@),
        crate::persist::contains_text(shell_text(cfg), "    show-media-controls "@ + (if cfg.behaviour.show_media_controls { "true"@ } else { "false"@ }) + "\n"@),
        crate::persist::contains_text(shell_text(cfg), "    show-network-speeds "@ + (if cfg.behaviour.show_network_speeds { "true"@ } else { "false"@ }) + "\n"@),
        crate::persist::contains_text(shell_text(cfg), "    launcher-recent-files "@ + (if cfg.behaviour.launcher_recent_files { "true"@ } else { "false"@ }) + "\n"@),
        crate::persist::contains_text(shell_text(cfg), "    notification-sounds "@ + (if cfg.behaviour.notification_sounds { "true"@ } else { "false"@ }) + "\n"@),
        crate::persist::contains_text(shell_text(cfg), "    do-not-disturb "@ + (if cfg.quick_settings.dnd { "true"@ } else { "false"@ }) + "\n"@),
        crate::persist::contains_text(shell_text(cfg), "    night-light "@ + (if cfg.quick_settings.night_light { "true"@ } else { "false"@ }) + "\n"@),
{
    lemma_written_accent(cfg);
    lemma_written_surface(cfg);
    lemma_written_text(cfg);
    lemma_written_muted(cfg);
    lemma_written_success(cfg);
    lemma_written_warning(cfg);
    lemma_written_danger(cfg);
    lemma_written_purple(cfg);
    lemma_written_font_ui(cfg);
    lemma_written_font_mono(cfg);
    lemma_written_dock_autohide(cfg);
    lemma_written_show_workspace_indicator(cfg);
    lemma_written_show_media_controls(cfg);
    lemma_written_show_network_speeds(cfg);
    lemma_written_launcher_recent_files(cfg);
    lemma_written_notification_sounds(cfg);
    lemma_written_do_not_disturb(cfg);
    lemma_written_night_light(cfg);
}

} // verus!
