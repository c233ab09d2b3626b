use niri_settings::generate::generate_kdl;
use niri_settings::keybinds::{action_args_hint, parse_bind_line};
use niri_settings::overlay::normalize_loaded;
use niri_settings::sanitise::{sanitise_color, sanitise_keybind_key};
use niri_settings::types::{
    BlockOutFrom, CenterFocusedColumn, Keybind, LayerRule, SettingsConfig, TriState, WindowRule,
};

#[test]
fn mod_kdl_contains_gaps() {
    let mut cfg = SettingsConfig::default();
    cfg.layout.gaps = 24;
    let kdl = generate_kdl(&cfg);
    assert!(kdl.contains("gaps 24"), "expected 'gaps 24' in: {kdl}");
}

#[test]
fn mod_kdl_touchpad_tap() {
    let mut cfg = SettingsConfig::default();
    cfg.input.touchpad_tap = true;
    let kdl = generate_kdl(&cfg);
    assert!(kdl.contains("tap"), "expected 'tap' in: {kdl}");
}

#[test]
fn mod_kdl_prefer_no_csd() {
    let mut cfg = SettingsConfig::default();
    cfg.misc.prefer_no_csd = true;
    let kdl = generate_kdl(&cfg);
    assert!(kdl.contains("prefer-no-csd"), "expected prefer-no-csd: {kdl}");
}

#[test]
fn mod_sanitise_color_strips_junk() {
    assert_eq!(sanitise_color("#7fc8ff"), "#7fc8ff");
    assert_eq!(sanitise_color("#fff"), "#fff");
    assert_eq!(sanitise_color("#7fc8ff80"), "#7fc8ff80");
    assert_eq!(sanitise_color("#7fc8ff; DROP TABLE"), "#ffffff");
    assert_eq!(sanitise_color("red"), "#ffffff");
    assert_eq!(sanitise_color(""), "#ffffff");
}

#[test]
fn mod_center_focused_column_variants() {
    assert_eq!(CenterFocusedColumn::Never.as_kdl_str(), "never");
    assert_eq!(CenterFocusedColumn::Always.as_kdl_str(), "always");
    assert_eq!(CenterFocusedColumn::OnOverflow.as_kdl_str(), "on-overflow");
}

#[test]
fn mod_screenshot_path_null_case_insensitive() {
    for variant in &["null", "NULL", "Null", "nUlL"] {
        let mut cfg = SettingsConfig::default();
        cfg.misc.screenshot_path = variant.to_string();
        let kdl = generate_kdl(&cfg);
        assert!(
            kdl.contains("screenshot-path null\n"),
            "'{}' should produce unquoted null but got:\n{kdl}",
            variant,
        );
        assert!(
            !kdl.contains("screenshot-path \""),
            "'{}' must not produce a quoted path: {kdl}",
            variant,
        );
    }
}

#[test]
fn mod_screenshot_path_regular_value() {
    let mut cfg = SettingsConfig::default();
    cfg.misc.screenshot_path = "~/Pictures/Screenshots/%Y-%m-%d.png".to_string();
    let kdl = generate_kdl(&cfg);
    assert!(
        kdl.contains("screenshot-path \"~/Pictures/Screenshots/"),
        "expected quoted path in: {kdl}",
    );
}

#[test]
fn mod_overview_backdrop_invalid_color_skipped() {
    let mut cfg = SettingsConfig::default();
    cfg.misc.overview_backdrop_color = "#26262".to_string();
    let kdl = generate_kdl(&cfg);
    assert!(
        !kdl.contains("backdrop-color"),
        "invalid color should be omitted entirely, got:\n{kdl}",
    );
}

#[test]
fn mod_overview_backdrop_valid_color_written() {
    let mut cfg = SettingsConfig::default();
    cfg.misc.overview_backdrop_color = "#262626".to_string();
    let kdl = generate_kdl(&cfg);
    assert!(
        kdl.contains("backdrop-color \"#262626\""),
        "expected backdrop-color: {kdl}",
    );
}

#[test]
fn mod_overview_zoom_float_normalised_on_load() {
    let mut cfg = SettingsConfig::default();
    let zoom: f64 = 0.300_000_000_000_000_04_f64;
    cfg.misc.overview_zoom = (zoom * 100.0).round() as i64;
    normalize_loaded(&mut cfg);
    let kdl = generate_kdl(&cfg);
    assert!(kdl.contains("zoom 0.30"), "expected zoom 0.30 but got:\n{kdl}",);
}

#[test]
fn mod_cursor_block_only_written_when_non_default() {
    let cfg = SettingsConfig::default();
    let kdl = generate_kdl(&cfg);
    assert!(!kdl.contains("cursor {"), "cursor block should be absent for default config",);
}

#[test]
fn mod_xwayland_off_takes_priority_over_path() {
    let mut cfg = SettingsConfig::default();
    cfg.misc.xwayland_off = true;
    cfg.misc.xwayland_path = "/usr/local/bin/xwayland-satellite".to_string();
    let kdl = generate_kdl(&cfg);
    assert!(kdl.contains("xwayland-satellite {\n    off"), "expected off block: {kdl}",);
    assert!(!kdl.contains("path"), "path should be suppressed when off is set: {kdl}",);
}

#[test]
fn mod_switch_events_written_when_set() {
    let mut cfg = SettingsConfig::default();
    cfg.switch_events.lid_close = vec!["notify-send".into(), "Lid closed".into()];
    cfg.switch_events.tablet_mode_on = vec!["wvkbd-mobintl".into()];
    let kdl = generate_kdl(&cfg);
    assert!(kdl.contains("switch-events {"), "expected switch-events block");
    assert!(kdl.contains(r#"lid-close { spawn "notify-send" "Lid closed"; }"#));
    assert!(kdl.contains(r#"tablet-mode-on { spawn "wvkbd-mobintl"; }"#));
    assert!(!kdl.contains("lid-open"), "lid-open should be absent when empty");
}

#[test]
fn mod_switch_events_absent_for_default() {
    let cfg = SettingsConfig::default();
    let kdl = generate_kdl(&cfg);
    assert!(!kdl.contains("switch-events"), "switch-events absent when all empty");
}

#[test]
fn mod_window_rule_written_with_match_and_dynamic_props() {
    let mut cfg = SettingsConfig::default();
    let mut r = WindowRule::default();
    r.match_app_id = "^firefox$".into();
    r.open_floating = TriState::On;
    r.opacity = 85;
    r.block_out_from = BlockOutFrom::Screencast;
    cfg.window_rules.push(r);
    let kdl = generate_kdl(&cfg);
    assert!(kdl.contains("window-rule {"), "window-rule block expected");
    assert!(kdl.contains(r#"match app-id="^firefox$""#));
    assert!(kdl.contains("open-floating true"));
    assert!(kdl.contains("opacity 0.85"));
    assert!(kdl.contains(r#"block-out-from "screencast""#));
}

#[test]
fn mod_window_rule_size_limits_written() {
    let mut cfg = SettingsConfig::default();
    let mut r = WindowRule::default();
    r.match_app_id = "obs".into();
    r.min_width = 876;
    cfg.window_rules.push(r);
    let kdl = generate_kdl(&cfg);
    assert!(kdl.contains("min-width 876"));
}

#[test]
fn mod_window_rule_empty_when_all_defaults() {
    let mut cfg = SettingsConfig::default();
    cfg.window_rules.push(WindowRule::default());
    let kdl = generate_kdl(&cfg);
    assert!(!kdl.contains("window-rule"), "empty rule should not produce KDL block");
}

#[test]
fn mod_layer_rule_written_with_shadow_and_radius() {
    let mut cfg = SettingsConfig::default();
    let mut r = LayerRule::default();
    r.match_namespace = "^launcher$".into();
    r.shadow = TriState::On;
    r.geometry_corner_radius = 120;
    cfg.layer_rules.push(r);
    let kdl = generate_kdl(&cfg);
    assert!(kdl.contains("layer-rule {"), "layer-rule block expected");
    assert!(kdl.contains(r#"match namespace="^launcher$""#));
    assert!(kdl.contains("shadow {\n        on\n    }"));
    assert!(kdl.contains("geometry-corner-radius 12.0"));
}

#[test]
fn mod_layer_rule_block_out_from_screen_capture() {
    let mut cfg = SettingsConfig::default();
    let mut r = LayerRule::default();
    r.match_namespace = "^notifications$".into();
    r.block_out_from = BlockOutFrom::ScreenCapture;
    cfg.layer_rules.push(r);
    let kdl = generate_kdl(&cfg);
    assert!(kdl.contains(r#"block-out-from "screen-capture""#));
}

#[test]
fn mod_tristate_roundtrip() {
    assert_eq!(TriState::from_index(0), TriState::Default);
    assert_eq!(TriState::from_index(1), TriState::On);
    assert_eq!(TriState::from_index(2), TriState::Off);
    assert_eq!(TriState::On.to_index(), 1);
    assert_eq!(TriState::Off.to_index(), 2);
}

#[test]
fn mod_block_out_from_roundtrip() {
    assert_eq!(BlockOutFrom::from_index(0), BlockOutFrom::Nowhere);
    assert_eq!(BlockOutFrom::from_index(1), BlockOutFrom::Screencast);
    assert_eq!(BlockOutFrom::from_index(2), BlockOutFrom::ScreenCapture);
    assert_eq!(BlockOutFrom::Screencast.as_kdl_str(), "screencast");
    assert_eq!(BlockOutFrom::ScreenCapture.as_kdl_str(), "screen-capture");
}

#[test]
fn mod_keybind_spawn_written_correctly() {
    let mut cfg = SettingsConfig::default();
    let mut b = Keybind::default();
    b.key = "Mod+T".into();
    b.action = "spawn".into();
    b.action_args = "alacritty -e fish".into();
    cfg.binds.push(b);
    let kdl = generate_kdl(&cfg);
    assert!(kdl.contains(r#"Mod+T { spawn "alacritty" "-e" "fish"; }"#), "got:\n{kdl}",);
}

#[test]
fn mod_keybind_spawn_sh_written_correctly() {
    let mut cfg = SettingsConfig::default();
    let mut b = Keybind::default();
    b.key = "Mod+E".into();
    b.action = "spawn-sh".into();
    b.action_args = "notify-send hello world".into();
    cfg.binds.push(b);
    let kdl = generate_kdl(&cfg);
    assert!(kdl.contains(r#"Mod+E { spawn-sh "notify-send hello world"; }"#), "got:\n{kdl}",);
}

#[test]
fn mod_keybind_no_arg_action() {
    let mut cfg = SettingsConfig::default();
    let mut b = Keybind::default();
    b.key = "Mod+Left".into();
    b.action = "focus-column-left".into();
    cfg.binds.push(b);
    let kdl = generate_kdl(&cfg);
    assert!(kdl.contains("Mod+Left { focus-column-left; }"), "got:\n{kdl}",);
}

#[test]
fn mod_keybind_cooldown_and_no_repeat() {
    let mut cfg = SettingsConfig::default();
    let mut b = Keybind::default();
    b.key = "Mod+WheelScrollDown".into();
    b.action = "focus-workspace-down".into();
    b.repeat = false;
    b.cooldown_ms = 150;
    cfg.binds.push(b);
    let kdl = generate_kdl(&cfg);
    assert!(
        kdl.contains("Mod+WheelScrollDown repeat=false cooldown-ms=150 { focus-workspace-down; }"),
        "got:\n{kdl}",
    );
}

#[test]
fn mod_keybind_allow_when_locked() {
    let mut cfg = SettingsConfig::default();
    let mut b = Keybind::default();
    b.key = "XF86AudioMute".into();
    b.action = "spawn".into();
    b.action_args = "wpctl set-mute @DEFAULT_AUDIO_SINK@ toggle".into();
    b.allow_when_locked = true;
    cfg.binds.push(b);
    let kdl = generate_kdl(&cfg);
    assert!(kdl.contains("allow-when-locked=true"), "got:\n{kdl}",);
}

#[test]
fn mod_keybind_empty_key_skipped() {
    let mut cfg = SettingsConfig::default();
    let mut b = Keybind::default();
    b.key = "".into();
    b.action = "close-window".into();
    cfg.binds.push(b);
    let kdl = generate_kdl(&cfg);
    assert!(!kdl.contains("binds {"), "empty-key bind must be skipped: {kdl}",);
}

#[test]
fn mod_keybind_spawn_empty_args_skipped() {
    let mut cfg = SettingsConfig::default();
    let mut b = Keybind::default();
    b.key = "Mod+T".into();
    b.action = "spawn".into();
    b.action_args = "".into();
    cfg.binds.push(b);
    let kdl = generate_kdl(&cfg);
    assert!(!kdl.contains("binds {"), "spawn with no args must be skipped: {kdl}",);
}

#[test]
fn mod_sanitise_keybind_key_strips_injection() {
    assert_eq!(sanitise_keybind_key(r#"Mod+T { evil; }"#), "Mod+Tevil",);
    assert_eq!(sanitise_keybind_key("XF86AudioMute"), "XF86AudioMute",);
    assert_eq!(sanitise_keybind_key("ISO_Level3_Shift"), "ISO_Level3_Shift",);
    assert_eq!(sanitise_keybind_key("Super+Alt+L"), "Super+Alt+L");
}

#[test]
fn mod_action_args_hint_spawn_nonempty() {
    assert!(!action_args_hint("spawn").is_empty());
    assert!(!action_args_hint("spawn-sh").is_empty());
    assert!(action_args_hint("close-window").is_empty());
}

#[test]
fn mod_parse_bind_line_simple_action() {
    let b = parse_bind_line("Mod+Left { focus-column-left; }").unwrap();
    assert_eq!(b.key, "Mod+Left");
    assert_eq!(b.action, "focus-column-left");
    assert!(b.action_args.is_empty());
    assert!(b.repeat);
    assert_eq!(b.cooldown_ms, 0);
    assert!(!b.allow_when_locked);
}

#[test]
fn mod_parse_bind_line_spawn_args() {
    let b = parse_bind_line(r#"Mod+T { spawn "alacritty"; }"#).unwrap();
    assert_eq!(b.key, "Mod+T");
    assert_eq!(b.action, "spawn");
    assert_eq!(b.action_args, "alacritty");
}

#[test]
fn mod_parse_bind_line_spawn_multi_args() {
    let b = parse_bind_line(
        r#"XF86MonBrightnessUp { spawn "brightnessctl" "--class=backlight" "set" "+10%"; }"#,
    )
    .unwrap();
    assert_eq!(b.action, "spawn");
    assert_eq!(b.action_args, "brightnessctl --class=backlight set +10%");
}

#[test]
fn mod_parse_bind_line_spawn_sh() {
    let b = parse_bind_line(
        r#"XF86AudioMute allow-when-locked=true { spawn-sh "wpctl set-mute @DEFAULT_AUDIO_SINK@ toggle"; }"#,
    )
    .unwrap();
    assert_eq!(b.action, "spawn-sh");
    assert_eq!(b.action_args, "wpctl set-mute @DEFAULT_AUDIO_SINK@ toggle");
    assert!(b.allow_when_locked);
}

#[test]
fn mod_parse_bind_line_repeat_false() {
    let b = parse_bind_line("Mod+Q repeat=false { close-window; }").unwrap();
    assert_eq!(b.key, "Mod+Q");
    assert!(!b.repeat);
}

#[test]
fn mod_parse_bind_line_cooldown() {
    let b = parse_bind_line("Mod+WheelScrollDown cooldown-ms=150 { focus-workspace-down; }").unwrap();
    assert_eq!(b.cooldown_ms, 150);
    assert_eq!(b.action, "focus-workspace-down");
}

#[test]
fn mod_parse_bind_line_action_with_index() {
    let b = parse_bind_line("Mod+1 { focus-workspace 1; }").unwrap();
    assert_eq!(b.action, "focus-workspace");
    assert_eq!(b.action_args, "1");
}

#[test]
fn mod_parse_bind_line_comment_returns_none() {
    assert!(parse_bind_line("// Mod+T { spawn \"alacritty\"; }").is_none());
    assert!(parse_bind_line("   // commented out").is_none());
    assert!(parse_bind_line("").is_none());
}

#[test]
fn mod_parse_bind_line_hotkey_overlay_title_ignored() {
    let b = parse_bind_line(
        r#"Mod+T hotkey-overlay-title="Open alacritty" { spawn "alacritty"; }"#,
    )
    .unwrap();
    assert_eq!(b.key, "Mod+T");
    assert_eq!(b.action, "spawn");
    assert_eq!(b.action_args, "alacritty");
}
