use niri_settings::generate::generate_kdl;
use niri_settings::keybinds::{binding_conflicts, normalize_key_combo};
use niri_settings::overlay::{apply_managed_kdl, parse_mode};
use niri_settings::persist::merge_kdl_text;
use niri_settings::rows::{next_row_id, RowIds};
use niri_settings::sanitise::looks_like_balanced_regex;
use niri_settings::shell::{parse, render, valid_color, ShellConfig};
use niri_settings::types::{
    BlockOutFrom, Keybind, LayerRule, OutputConfig, SettingsConfig, TriState, WindowRule,
};

#[test]
fn parse_mode_handles_integer_and_fractional_refresh() {
    let mut out = OutputConfig::new("DP-1");
    parse_mode("2560x1440@144", &mut out);
    assert_eq!((out.mode_width, out.mode_height), (2560, 1440));
    assert_eq!(out.mode_refresh_mhz, 144_000);

    let mut out = OutputConfig::new("DP-2");
    parse_mode("3840x2160@59.94", &mut out);
    assert_eq!((out.mode_width, out.mode_height), (3840, 2160));
    assert_eq!(out.mode_refresh_mhz, 59_940);
}

#[test]
fn parse_mode_rejects_malformed_strings_without_panicking() {
    let mut out = OutputConfig::new("DP-3");
    parse_mode("garbage", &mut out);
    assert_eq!((out.mode_width, out.mode_height), (0, 0));

    let mut out = OutputConfig::new("DP-4");
    parse_mode("axb@60", &mut out);
    assert_eq!((out.mode_width, out.mode_height), (0, 0));
}

#[test]
fn key_combos_normalise_and_conflict() {
    assert_eq!(normalize_key_combo("Shift+Ctrl+T"), "Ctrl+Shift+t");
    let binds = vec![
        Keybind { key: "Ctrl+Shift+T".into(), ..Keybind::default() },
        Keybind { key: "shift+control+t".into(), ..Keybind::default() },
    ];
    let conflicts = binding_conflicts(&binds);
    assert_eq!(conflicts.len(), 1);
    assert_eq!(conflicts[0].1, vec![0, 1]);
}

#[test]
fn managed_kdl_preserves_unknown_nodes() {
    let generated = generate_kdl(&SettingsConfig::default());
    let existing = "// custom data\nfuture-niri-option \"keep-me\"\nlayout {\n    gaps 99\n}\n";
    let merged = merge_kdl_text(&generated, Some(existing)).unwrap();
    assert!(merged.contains("future-niri-option \"keep-me\""));
    assert!(!merged.contains("gaps 99"));
}

#[test]
fn primary_kdl_fields_round_trip_into_model() {
    let mut source = SettingsConfig::default();
    source.binds.push(Keybind {
        key: "Mod+T".into(),
        action: "spawn".into(),
        action_args: "foot".into(),
        ..Keybind::default()
    });
    source.outputs.push(OutputConfig {
        name: "DP-1".into(),
        mode_width: 2560,
        mode_height: 1440,
        mode_refresh_mhz: 144_000,
        scale: 150,
        ..OutputConfig::new("DP-1")
    });
    source.window_rules.push(WindowRule {
        match_app_id: "^firefox$".into(),
        open_on_workspace: "2".into(),
        open_floating: TriState::Off,
        ..WindowRule::default()
    });
    let text = generate_kdl(&source);
    let mut restored = SettingsConfig::default();
    apply_managed_kdl(&mut restored, &text).unwrap();
    assert_eq!(restored.binds[0].key, "Mod+T");
    assert_eq!(restored.outputs[0].mode_refresh_mhz, 144_000);
    assert_eq!(restored.window_rules[0].open_on_workspace, "2");
    assert_eq!(restored.window_rules[0].open_floating, TriState::Off);
}

#[test]
fn window_rule_full_roundtrip() {
    let mut source = SettingsConfig::default();
    source.window_rules.push(WindowRule {
        match_app_id: "^firefox$".into(),
        match_title: "^Library$".into(),
        match_at_startup: TriState::On,
        open_maximized: TriState::On,
        open_fullscreen: TriState::Off,
        open_floating: TriState::On,
        open_focused: TriState::Off,
        open_on_output: "DP-1".into(),
        open_on_workspace: "3".into(),
        opacity: 85,
        block_out_from: BlockOutFrom::ScreenCapture,
        draw_border_with_background: TriState::On,
        geometry_corner_radius: 80,
        clip_to_geometry: TriState::Off,
        variable_refresh_rate: TriState::On,
        min_width: 100,
        max_width: 1920,
        min_height: 200,
        max_height: 1080,
        scroll_factor: 150,
        ..WindowRule::default()
    });
    let text = generate_kdl(&source);
    let mut restored = SettingsConfig::default();
    apply_managed_kdl(&mut restored, &text).unwrap();
    let r = &restored.window_rules[0];
    assert_eq!(r.match_app_id, "^firefox$");
    assert_eq!(r.match_title, "^Library$");
    assert_eq!(r.match_at_startup, TriState::On);
    assert_eq!(r.open_maximized, TriState::On);
    assert_eq!(r.open_fullscreen, TriState::Off);
    assert_eq!(r.open_floating, TriState::On);
    assert_eq!(r.open_focused, TriState::Off);
    assert_eq!(r.open_on_output, "DP-1");
    assert_eq!(r.open_on_workspace, "3");
    assert_eq!(r.opacity, 85);
    assert_eq!(r.block_out_from, BlockOutFrom::ScreenCapture);
    assert_eq!(r.draw_border_with_background, TriState::On);
    assert_eq!(r.geometry_corner_radius, 80);
    assert_eq!(r.clip_to_geometry, TriState::Off);
    assert_eq!(r.variable_refresh_rate, TriState::On);
    assert_eq!(r.min_width, 100);
    assert_eq!(r.max_width, 1920);
    assert_eq!(r.min_height, 200);
    assert_eq!(r.max_height, 1080);
    assert_eq!(r.scroll_factor, 150);
}

#[test]
fn layer_rule_full_roundtrip() {
    let mut source = SettingsConfig::default();
    source.layer_rules.push(LayerRule {
        match_namespace: "^launcher$".into(),
        match_at_startup: TriState::On,
        opacity: 90,
        block_out_from: BlockOutFrom::Screencast,
        shadow: TriState::On,
        geometry_corner_radius: 120,
        place_within_backdrop: TriState::On,
        ..LayerRule::default()
    });
    let text = generate_kdl(&source);
    let mut restored = SettingsConfig::default();
    apply_managed_kdl(&mut restored, &text).unwrap();
    assert_eq!(restored.layer_rules.len(), 1);
    let r = &restored.layer_rules[0];
    assert_eq!(r.match_namespace, "^launcher$");
    assert_eq!(r.match_at_startup, TriState::On);
    assert_eq!(r.opacity, 90);
    assert_eq!(r.block_out_from, BlockOutFrom::Screencast);
    assert_eq!(r.shadow, TriState::On);
    assert_eq!(r.geometry_corner_radius, 120);
    assert_eq!(r.place_within_backdrop, TriState::On);
}

#[test]
fn window_rule_parses_combined_match_line() {
    let text = r#"
window-rule {
    match app-id="firefox" title="Library"
}
"#;
    let mut restored = SettingsConfig::default();
    apply_managed_kdl(&mut restored, text).unwrap();
    assert_eq!(restored.window_rules[0].match_app_id, "firefox");
    assert_eq!(restored.window_rules[0].match_title, "Library");
}

#[test]
fn shell_config_round_trip() {
    let cfg = ShellConfig::default();
    assert_eq!(parse(&render(&cfg)).unwrap(), cfg);
}

#[test]
fn invalid_color_is_rejected() {
    assert!(!valid_color("red; include bad"));
}

#[test]
fn ensure_row_ids_assigns_unique_nonzero_ids() {
    let mut cfg = SettingsConfig {
        window_rules: vec![WindowRule::default(), WindowRule::default(), WindowRule::default()],
        ..Default::default()
    };
    for r in &mut cfg.window_rules {
        r.id = 0;
    }
    let mut ids = RowIds::new();
    cfg.ensure_row_ids(&mut ids);
    let ids: Vec<u64> = cfg.window_rules.iter().map(|r| r.id).collect();
    assert!(ids.iter().all(|&id| id != 0), "no id should remain zero");
    assert_eq!(ids.iter().collect::<std::collections::HashSet<_>>().len(), 3, "ids must be unique");
}

#[test]
fn ensure_row_ids_is_idempotent() {
    let mut ids = RowIds::new();
    let mut cfg = SettingsConfig {
        binds: vec![
            Keybind { id: next_row_id(&mut ids), ..Keybind::default() },
            Keybind { id: next_row_id(&mut ids), ..Keybind::default() },
        ],
        ..Default::default()
    };
    let before: Vec<u64> = cfg.binds.iter().map(|b| b.id).collect();
    cfg.ensure_row_ids(&mut ids);
    let after: Vec<u64> = cfg.binds.iter().map(|b| b.id).collect();
    assert_eq!(before, after, "existing ids must not be reassigned");
}

#[test]
fn removing_middle_row_keeps_id_resolution_correct() {
    let mut row_ids = RowIds::new();
    let mut cfg = SettingsConfig::default();
    for app in ["alpha", "bravo", "charlie", "delta"] {
        cfg.window_rules.push(WindowRule {
            id: next_row_id(&mut row_ids),
            match_app_id: app.to_string(),
            ..Default::default()
        });
    }
    let ids: Vec<u64> = cfg.window_rules.iter().map(|r| r.id).collect();

    cfg.remove_window_rule(ids[1]);
    assert_eq!(cfg.window_rules.len(), 3);

    assert!(cfg.window_rule_mut(ids[1]).is_none());
    assert_eq!(cfg.window_rule_mut(ids[0]).unwrap().match_app_id, "alpha");
    assert_eq!(cfg.window_rule_mut(ids[2]).unwrap().match_app_id, "charlie");
    assert_eq!(cfg.window_rule_mut(ids[3]).unwrap().match_app_id, "delta");

    if let Some(r) = cfg.window_rule_mut(ids[1]) {
        r.match_app_id = "should not happen".into();
    }
    assert!(cfg.window_rules.iter().all(|r| r.match_app_id != "should not happen"));
}

#[test]
fn remove_helpers_are_noops_for_unknown_ids() {
    let mut row_ids = RowIds::new();
    let mut cfg = SettingsConfig::default();
    cfg.binds.push(Keybind { id: next_row_id(&mut row_ids), ..Keybind::default() });
    cfg.layer_rules.push(LayerRule { id: next_row_id(&mut row_ids), ..Default::default() });
    let bind_count = cfg.binds.len();
    let layer_count = cfg.layer_rules.len();
    cfg.remove_bind(u64::MAX);
    cfg.remove_layer_rule(u64::MAX);
    assert_eq!(cfg.binds.len(), bind_count);
    assert_eq!(cfg.layer_rules.len(), layer_count);
}

#[test]
fn balanced_regexes_are_accepted() {
    assert!(looks_like_balanced_regex("^firefox$"));
    assert!(looks_like_balanced_regex("(foo|bar)"));
    assert!(looks_like_balanced_regex("[a-z]+"));
    assert!(looks_like_balanced_regex(""));
    assert!(looks_like_balanced_regex(r"\(literal\)"));
}

#[test]
fn unbalanced_regexes_are_rejected() {
    assert!(!looks_like_balanced_regex("^[invalid("));
    assert!(!looks_like_balanced_regex("foo)"));
    assert!(!looks_like_balanced_regex("[a-z"));
}
