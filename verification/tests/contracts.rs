use niri_settings::errors::{IpcError, SettingsError, ShellError};
use niri_settings::generate::{fixed_string, generate_kdl};
use niri_settings::import::{config_import_items, fallback_binds, ImportItem, IncludeGuard};
use niri_settings::keybinds::{
    action_needs_args, binding_conflicts, niri_actions, normalize_key_combo, parse_bind_line,
};
use niri_settings::overlay::{apply_managed_kdl, normalize_loaded};
use niri_settings::pages::{recorded_combo, requested_page};
use niri_settings::paths::{config_base, json_path, kdl_path, niri_config_path, path};
use niri_settings::persist::{
    include_update, managed_top_level, merge_kdl_text, validation_outcome, validation_root,
    SaveStatus, ValidatorRun,
};
use niri_settings::sanitise::{is_valid_color, sanitise_path, sanitise_regex};
use niri_settings::shell::{parse, render, valid_font, ShellConfig};
use niri_settings::text::parse_fixed;
use niri_settings::types::{
    Keybind, NamedWorkspace, OutputConfig, OutputTransform, SettingsConfig, VrrMode,
};

fn chars(s: &str) -> Vec<char> {
    s.chars().collect()
}

#[test]
fn normalising_twice_changes_nothing() {
    for combo in ["Shift+ctrl+X+Y", "logo+ meta +a", "", "++", "Mod+Super+Alt+Shift+Ctrl+Q"] {
        let once = normalize_key_combo(combo);
        assert_eq!(normalize_key_combo(&once), once, "for {combo:?}");
    }
    assert_eq!(normalize_key_combo("logo+ meta +a"), "Super+a");
    assert_eq!(normalize_key_combo("Mod+Super+Alt+Shift+Ctrl+Q"), "Mod+Super+Ctrl+Alt+Shift+q");
    assert_eq!(normalize_key_combo("++"), "");
}

#[test]
fn conflicts_are_sorted_and_complete() {
    let keys = ["Mod+B", "mod+a", "Mod+A", "", "Mod+b", "Mod+C", ""];
    let binds: Vec<Keybind> =
        keys.iter().map(|k| Keybind { key: (*k).into(), ..Keybind::default() }).collect();
    let conflicts = binding_conflicts(&binds);
    assert_eq!(
        conflicts,
        vec![("Mod+a".to_string(), vec![1, 2]), ("Mod+b".to_string(), vec![0, 4])]
    );
}

#[test]
fn sanitised_strings_are_safe_and_stable() {
    let path = sanitise_path("a\"b\\c\u{7}d");
    assert_eq!(path, "abcd");
    assert_eq!(sanitise_path(&path), path);
    assert_eq!(sanitise_regex("^a\"b\\d$\n"), "^ab\\d$");
    assert!(is_valid_color("  #abc  "));
    assert!(!is_valid_color("#abcd12345"));
}

#[test]
fn bind_lines_that_do_not_parse() {
    assert!(parse_bind_line("Mod+T cooldown-ms=abc { spawn \"x\"; }").is_none());
    assert!(parse_bind_line("\"Mod+T\" { close-window; }").is_none());
    assert!(parse_bind_line("Mod+T close-window; }").is_none());
    assert!(parse_bind_line("Mod+T } close-window; {").is_none());
    assert!(parse_bind_line("Mod+T { ; }").is_none());
    let b = parse_bind_line("  Mod+T cooldown-ms=+20 cooldown-ms=30 { spawn \"a b\" c ;; }  ").unwrap();
    assert_eq!(b.cooldown_ms, 30);
    assert_eq!(b.action_args, "a b c");
    assert_eq!(b.id, 0);
}

#[test]
fn fixed_point_values_print_like_the_floats_they_stand_for() {
    assert_eq!(fixed_string(-5, 1), "-0.5");
    assert_eq!(fixed_string(85, 2), "0.85");
    assert_eq!(fixed_string(7, 2), "0.07");
    assert_eq!(fixed_string(59_940, 3), "59.940");
    assert_eq!(fixed_string(120, 1), "12.0");
    assert_eq!(parse_fixed(&chars("0.855"), 2), Some(86));
    assert_eq!(parse_fixed(&chars("-1.25"), 1), Some(-13));
    assert_eq!(parse_fixed(&chars("12"), 3), Some(12_000));
    assert_eq!(parse_fixed(&chars("1e3"), 2), None);
}

#[test]
fn outputs_are_written_exactly() {
    let mut cfg = SettingsConfig::default();
    cfg.outputs.push(OutputConfig {
        mode_width: 1920,
        mode_height: 1080,
        mode_refresh_mhz: 59_940,
        scale: 125,
        transform: OutputTransform::Flipped90,
        position_set: true,
        position_x: -10,
        position_y: 20,
        vrr: VrrMode::OnDemand,
        ..OutputConfig::new("HDMI-\"A\"")
    });
    cfg.outputs.push(OutputConfig::new(""));
    let kdl = generate_kdl(&cfg);
    assert!(kdl.contains(
        "output \"HDMI-\\\"A\\\"\" {\n    mode \"1920x1080@59.940\"\n    scale 1.25\n    transform \"flipped-90\"\n    position x=-10 y=20\n    variable-refresh-rate on-demand=true\n}\n\n"
    ));
    assert_eq!(kdl.matches("output ").count(), 1);
}

#[test]
fn workspaces_are_quoted() {
    let mut cfg = SettingsConfig::default();
    cfg.workspaces.push(NamedWorkspace { name: "a\"b".into(), open_on_output: String::new() });
    cfg.workspaces.push(NamedWorkspace { name: "c".into(), open_on_output: "DP-1".into() });
    let kdl = generate_kdl(&cfg);
    assert!(kdl.contains("workspace \"a\\\"b\"\nworkspace \"c\" {\n    open-on-output \"DP-1\"\n}\n\n"));
}

#[test]
fn default_fragment_starts_with_header_and_layout() {
    let kdl = generate_kdl(&SettingsConfig::default());
    assert!(kdl.starts_with(
        "// Managed by niri-settings. Manual KDL edits are preserved where possible.\n\nlayout {\n    gaps 16\n    center-focused-column \"never\"\n"
    ));
    assert!(kdl.contains("        active-color \"#7fc8ff\"\n        inactive-color \"#505050\"\n"));
}

#[test]
fn rejected_kdl_is_reported_and_leaves_the_config() {
    let mut cfg = SettingsConfig::default();
    cfg.binds.push(Keybind { key: "Mod+Q".into(), ..Keybind::default() });
    let r = apply_managed_kdl(&mut cfg, "binds { unclosed");
    assert!(matches!(r, Err(SettingsError::Kdl(_))));
    assert_eq!(cfg.binds.len(), 1);
    assert!(matches!(parse("theme {"), Err(SettingsError::Kdl(_))));
    assert!(matches!(merge_kdl_text("a {", None), Err(SettingsError::Kdl(_))));
    assert!(matches!(merge_kdl_text("a 1", Some("b {")), Err(SettingsError::Kdl(_))));
}

#[test]
fn merged_text_matches_the_parser_printing() {
    let generated = generate_kdl(&SettingsConfig::default());
    let own: kdl::KdlDocument = generated.parse().unwrap();
    assert_eq!(merge_kdl_text(&generated, None).unwrap(), own.to_string());
    let gen_text = "input {\n}\n";
    let existing = "keep-a 1\nbinds {\n}\nkeep-b \"x\"\n";
    let merged = merge_kdl_text(gen_text, Some(existing)).unwrap();
    let mut expected: kdl::KdlDocument = gen_text.parse().unwrap();
    let old: kdl::KdlDocument = existing.parse().unwrap();
    for node in old.nodes() {
        if node.name().value() != "binds" {
            expected.nodes_mut().push(node.clone());
        }
    }
    assert_eq!(merged, expected.to_string());
    assert!(merged.contains("keep-a 1") && merged.contains("keep-b \"x\"") && !merged.contains("binds"));
    assert!(managed_top_level("binds"));
    assert!(!managed_top_level("keep-a"));
}

#[test]
fn parsed_documents_carry_node_text() {
    let read = config_import_items("include \"a.kdl\"\nbinds {\n    Mod+T { spawn \"foot\"; }\n}\n");
    assert!(read.has_block);
    let items = read.items;
    assert_eq!(items.len(), 2);
    assert!(matches!(&items[0], ImportItem::Include(p) if p == "a.kdl"));
    match &items[1] {
        ImportItem::Bind(b) => {
            assert_eq!(b.key, "Mod+T");
            assert_eq!(b.action, "spawn");
            assert_eq!(b.action_args, "foot");
        }
        ImportItem::Include(_) => panic!("expected a binding"),
    }
    let unparsable = config_import_items("a {");
    assert!(unparsable.items.is_empty());
    assert!(!unparsable.has_block);
}

#[test]
fn validation_verdicts() {
    assert_eq!(validation_outcome(ValidatorRun::Accepted), Ok(SaveStatus::Validated));
    assert_eq!(validation_outcome(ValidatorRun::Missing), Ok(SaveStatus::SavedWithoutValidation));
    assert_eq!(
        validation_outcome(ValidatorRun::Rejected { stderr: "  \n".into(), stdout: " bad line \n".into() }),
        Err(SettingsError::Validation("bad line".into()))
    );
    assert_eq!(
        validation_outcome(ValidatorRun::Rejected { stderr: " oops ".into(), stdout: "x".into() }),
        Err(SettingsError::Validation("oops".into()))
    );
    assert_eq!(
        validation_outcome(ValidatorRun::Failed("denied".into())),
        Err(SettingsError::Io("denied".into()))
    );
}

#[test]
fn validation_root_replaces_the_fragment_include() {
    let current = "a\r\ninclude \"/c/settings.kdl\"\nb\n";
    let root = validation_root(current, "/c/settings.kdl", "/c/.cand\"x");
    assert_eq!(root, "a\nb\ninclude \"/c/.cand\\\"x\"\n");
}

#[test]
fn include_line_is_added_once() {
    let once = include_update("x 1\ninclude \"~/.config/niri-shell/settings.kdl\"\n  \n", "/h/s.kdl").unwrap();
    assert_eq!(
        once,
        "x 1\n\n// Added by niri-settings — overrides settings above\ninclude \"/h/s.kdl\"\n"
    );
    assert!(include_update(&once, "/h/s.kdl").is_none());
}

#[test]
fn error_messages() {
    assert_eq!(SettingsError::Kdl("x".into()).message(), "invalid managed KDL: x");
    assert_eq!(SettingsError::Io("y".into()).message(), "IO error: y");
    assert_eq!(SettingsError::Json("z".into()).message(), "JSON serialisation error: z");
    assert_eq!(
        SettingsError::Validation("v".into()).message(),
        "niri rejected the configuration:\nv"
    );
    assert_eq!(IpcError::SocketEnvMissing.message(), "$NIRI_SOCKET environment variable not set");
    assert_eq!(IpcError::Parse("p".into()).message(), "IPC JSON parse error: p");
    assert_eq!(
        ShellError::Ipc(IpcError::Send("s".into())).message(),
        "ipc error: IPC send failed: s"
    );
    assert_eq!(ShellError::GtkInit.message(), "gtk failed to initialize");
}

#[test]
fn config_paths() {
    assert_eq!(config_base(Some("/x"), Some("/h")), Ok("/x".to_string()));
    assert_eq!(config_base(Some(""), Some("/h/")), Ok("/h/.config".to_string()));
    assert_eq!(
        config_base(None, Some("")),
        Err(SettingsError::Io("neither XDG_CONFIG_HOME nor HOME is set".into()))
    );
    assert_eq!(kdl_path("/c"), "/c/niri-shell/settings.kdl");
    assert_eq!(json_path("/c"), "/c/niri-shell/settings.json");
    assert_eq!(path("/c"), "/c/niri-shell/shell.kdl");
    assert_eq!(niri_config_path(Some("/n.kdl"), "/c"), "/n.kdl");
    assert_eq!(niri_config_path(Some(""), "/c"), "/c/niri/config.kdl");
}

#[test]
fn shell_values_are_clamped_and_validated() {
    let cfg = parse(
        "theme {\n accent \"nope\"\n text \"#fff\"\n radius 99\n panel-opacity 0.1\n font-ui \"Ünï Sans\"\n font-mono \"bad;font\"\n}\nbehaviour {\n dock-autohide false\n}\nquick-settings {\n night-light-temperature 20000\n}\n",
    )
    .unwrap();
    let d = ShellConfig::default();
    assert_eq!(cfg.theme.accent, d.theme.accent);
    assert_eq!(cfg.theme.text, "#fff");
    assert_eq!(cfg.theme.radius, 32);
    assert_eq!(cfg.theme.panel_opacity, 40);
    assert_eq!(cfg.theme.font_ui, "Ünï Sans");
    assert_eq!(cfg.theme.font_mono, d.theme.font_mono);
    assert!(!cfg.behaviour.dock_autohide);
    assert_eq!(cfg.quick_settings.night_light_temperature, 10_000);
    assert!(valid_font("Ünï Sans"));
    assert!(!valid_font(&"a".repeat(101)));
    assert!(render(&cfg).contains("    panel-opacity 0.40\n"));
}

#[test]
fn pages_and_recorded_combos() {
    let args = |v: &[&str]| v.iter().map(|s| s.to_string()).collect::<Vec<_>>();
    assert_eq!(requested_page(&args(&[])), "keybindings");
    assert_eq!(requested_page(&args(&["--page", "outputs"])), "outputs");
    assert_eq!(requested_page(&args(&["x", "--page=theme"])), "theme");
    assert_eq!(requested_page(&args(&["--page"])), "keybindings");
    assert_eq!(recorded_combo("a", true, true, false, true), Some("Super+Ctrl+Shift+A".to_string()));
    assert_eq!(recorded_combo("Return", false, false, true, false), Some("Alt+Return".to_string()));
    assert_eq!(recorded_combo("Shift_L", false, false, false, true), None);
}

#[test]
fn import_items_follow_file_order() {
    let items = config_import_items(
        "include \"a.kdl\"\nbinds {\n    Mod+T { spawn \"foot\"; }\n    // Mod+X { quit; }\n}\ninclude \"b.kdl\"\n",
    )
    .items;
    // Reading stops with the first `binds` block.
    assert_eq!(items.len(), 2);
    assert!(matches!(&items[0], ImportItem::Include(p) if p == "a.kdl"));
    assert!(matches!(&items[1], ImportItem::Bind(b) if b.key == "Mod+T" && b.action_args == "foot"));
    let broken = "x {\nbinds {\n  Mod+A { close-window; }\n  Mod+B { spawn \"x\" {; }\n}\nMod+C { quit; }\n";
    let found = fallback_binds(broken);
    assert_eq!(found.len(), 3);
    assert_eq!(found[0].key, "Mod+A");
    assert_eq!(found[1].key, "Mod+B");
    assert_eq!(found[2].key, "Mod+C");
    let scanned = config_import_items(broken);
    assert_eq!(scanned.items.len(), 3);
    assert!(scanned.has_block);
    let closed = "binds {\n  Mod+A { close-window; }\n}\nMod+C { quit; }\n{\n";
    assert_eq!(fallback_binds(closed).len(), 1);
}

#[test]
fn include_guard_admits_each_file_once() {
    let mut g = IncludeGuard::new();
    assert!(g.enter("/a", 0));
    assert!(!g.enter("/a", 1));
    assert!(g.enter("/b", 16));
    assert!(!g.enter("/c", 17));
}

#[test]
fn loaded_zoom_is_rounded_to_a_twentieth() {
    let mut cfg = SettingsConfig::default();
    cfg.misc.overview_zoom = 32;
    normalize_loaded(&mut cfg);
    assert_eq!(cfg.misc.overview_zoom, 30);
    cfg.misc.overview_zoom = 33;
    normalize_loaded(&mut cfg);
    assert_eq!(cfg.misc.overview_zoom, 35);
    cfg.misc.overview_zoom = -7;
    normalize_loaded(&mut cfg);
    assert_eq!(cfg.misc.overview_zoom, -7);
}

#[test]
fn action_catalogue() {
    assert!(action_needs_args("switch-layout"));
    assert!(!action_needs_args("quit"));
    assert_eq!(niri_actions()[0], "spawn");
    assert_eq!(*niri_actions().last().unwrap(), "quit");
}
