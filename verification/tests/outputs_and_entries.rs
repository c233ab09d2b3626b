use niri_settings::generate::generate_kdl;
use niri_settings::import::add_imported_binds;
use niri_settings::ipc::OutputMode;
use niri_settings::keybinds::{niri_actions, parse_bind_line};
use niri_settings::outputs::{
    add_detected_outputs, apply_mode_choice, mode_label, name_order, resolution_label, selected_mode,
};
use niri_settings::shell::{preview_css, ThemeTokens};
use niri_settings::pages::{argv_line, argv_of, entry_fixed, entry_i32, entry_u32, zoom_label};
use niri_settings::types::{
    AccelProfile, CenterFocusedColumn, ClickMethod, DragSetting, Keybind, MouseScrollMethod,
    OutputConfig, SettingsConfig, TapButtonMap, TouchpadScrollMethod, TrackLayout,
};

fn bind(id: u64, key: &str, action: &str) -> Keybind {
    Keybind {
        id,
        key: key.to_owned(),
        action: action.to_owned(),
        ..Keybind::default()
    }
}

fn mode(width: u32, height: u32, refresh_rate: u32) -> OutputMode {
    OutputMode {
        width,
        height,
        refresh_rate,
        is_preferred: false,
    }
}

#[test]
fn import_adds_only_new_keys() {
    let mut binds = vec![bind(1, "Mod+T", "spawn")];
    let imported = vec![
        bind(2, "Mod+T", "quit"),
        bind(3, "Mod+Q", "close-window"),
        bind(4, "Mod+Q", "quit"),
        bind(5, "Mod+F", "fullscreen-window"),
    ];
    let added = add_imported_binds(&mut binds, imported);
    assert_eq!(added, 2);
    let keys: Vec<&str> = binds.iter().map(|b| b.key.as_str()).collect();
    assert_eq!(keys, ["Mod+T", "Mod+Q", "Mod+F"]);
    assert_eq!(binds[0].action, "spawn");
    assert_eq!(binds[1].action, "close-window");
    assert_eq!(binds[2].id, 5);
}

#[test]
fn import_into_empty_list_keeps_first_of_each_key() {
    let mut binds = Vec::new();
    let added = add_imported_binds(&mut binds, vec![bind(1, "", "quit"), bind(2, "", "spawn")]);
    assert_eq!(added, 1);
    assert_eq!(binds[0].action, "quit");
}

#[test]
fn detected_outputs_get_fresh_entries_once() {
    let mut existing = OutputConfig::new("DP-1");
    existing.off = true;
    existing.mode_width = 2560;
    let mut outputs = vec![existing];
    let detected = vec!["HDMI-A-1".to_owned(), "DP-1".to_owned(), "HDMI-A-1".to_owned()];
    add_detected_outputs(&mut outputs, &detected);
    assert_eq!(outputs.len(), 2);
    assert_eq!(outputs[0].name, "DP-1");
    assert!(outputs[0].off);
    assert_eq!(outputs[0].mode_width, 2560);
    assert_eq!(outputs[1].name, "HDMI-A-1");
    assert!(!outputs[1].off);
    assert_eq!(outputs[1].mode_width, 0);
}

#[test]
fn saved_mode_selects_matching_entry() {
    let modes = vec![mode(1920, 1080, 60000), mode(2560, 1440, 59951), mode(2560, 1440, 144000)];
    assert_eq!(selected_mode(&modes, 0, 0, 0), 0);
    assert_eq!(selected_mode(&modes, 2560, 1440, 0), 2);
    assert_eq!(selected_mode(&modes, 2560, 1440, 144000), 3);
    assert_eq!(selected_mode(&modes, 2560, 1440, 75000), 0);
    assert_eq!(selected_mode(&modes, 800, 600, 0), 0);
}

#[test]
fn mode_choice_writes_back() {
    let modes = vec![mode(1920, 1080, 60000), mode(2560, 1440, 144000)];
    let mut out = OutputConfig::new("DP-1");
    out.scale = 150;
    apply_mode_choice(&mut out, &modes, 2);
    assert_eq!((out.mode_width, out.mode_height, out.mode_refresh_mhz), (2560, 1440, 144000));
    apply_mode_choice(&mut out, &modes, 7);
    assert_eq!((out.mode_width, out.mode_height, out.mode_refresh_mhz), (2560, 1440, 144000));
    apply_mode_choice(&mut out, &modes, 0);
    assert_eq!((out.mode_width, out.mode_height, out.mode_refresh_mhz), (0, 0, 0));
    assert_eq!(out.scale, 150);
    assert_eq!(out.name, "DP-1");
}

#[test]
fn whole_number_entries() {
    assert_eq!(entry_u32(""), Some(0));
    assert_eq!(entry_u32("   "), Some(0));
    assert_eq!(entry_u32(" 250 "), Some(250));
    assert_eq!(entry_u32("+7"), Some(7));
    assert_eq!(entry_u32("4294967295"), Some(u32::MAX));
    assert_eq!(entry_u32("4294967296"), None);
    assert_eq!(entry_u32("-1"), None);
    assert_eq!(entry_u32("12ms"), None);
}

#[test]
fn action_catalogue_is_complete() {
    let actions = niri_actions();
    assert_eq!(actions.len(), 113);
    assert_eq!(actions[0], "spawn");
    assert_eq!(actions[1], "spawn-sh");
    assert_eq!(actions[actions.len() - 1], "quit");
    assert!(actions.contains(&"toggle-overview"));
}

#[test]
fn written_bind_lines_read_back() {
    let binds = vec![
        Keybind {
            id: 1,
            key: "Mod+Return".to_owned(),
            action: "spawn".to_owned(),
            action_args: "alacritty -e htop".to_owned(),
            repeat: false,
            cooldown_ms: 250,
            allow_when_locked: true,
        },
        Keybind {
            id: 2,
            key: "Mod+Shift+E".to_owned(),
            action: "spawn-sh".to_owned(),
            action_args: "notify-send  'bye now'".to_owned(),
            ..Keybind::default()
        },
        Keybind {
            id: 3,
            key: "Mod+3".to_owned(),
            action: "focus-workspace".to_owned(),
            action_args: "3".to_owned(),
            ..Keybind::default()
        },
        bind(4, "Mod+Q", "close-window"),
    ];
    let cfg = SettingsConfig {
        binds: binds.clone(),
        ..SettingsConfig::default()
    };
    let text = generate_kdl(&cfg);
    for b in &binds {
        let needle = format!("    {} ", b.key);
        let line = text
            .lines()
            .find(|l| l.starts_with(&needle))
            .unwrap_or_else(|| panic!("no line for {}", b.key));
        let read = parse_bind_line(line).expect("bind line parses");
        assert_eq!(read.key, b.key);
        assert_eq!(read.action, b.action);
        assert_eq!(read.action_args, b.action_args);
        assert_eq!(read.repeat, b.repeat);
        assert_eq!(read.cooldown_ms, b.cooldown_ms);
        assert_eq!(read.allow_when_locked, b.allow_when_locked);
    }
}

#[test]
fn signed_entries() {
    assert_eq!(entry_i32(""), Some(0));
    assert_eq!(entry_i32(" -1920 "), Some(-1920));
    assert_eq!(entry_i32("+15"), Some(15));
    assert_eq!(entry_i32("-2147483648"), Some(i32::MIN));
    assert_eq!(entry_i32("2147483647"), Some(i32::MAX));
    assert_eq!(entry_i32("2147483648"), None);
    assert_eq!(entry_i32("-2147483649"), None);
    assert_eq!(entry_i32("-+1"), None);
    assert_eq!(entry_i32("-"), None);
    assert_eq!(entry_i32("1.5"), None);
}

#[test]
fn decimal_entries() {
    assert_eq!(entry_fixed("", 2), Some(0));
    assert_eq!(entry_fixed(" 0.75 ", 2), Some(75));
    assert_eq!(entry_fixed("1", 2), Some(100));
    assert_eq!(entry_fixed("-0.5", 1), Some(-5));
    assert_eq!(entry_fixed("0.125", 2), Some(13));
    assert_eq!(entry_fixed("abc", 2), None);
}

#[test]
fn zoom_labels() {
    assert_eq!(zoom_label(0), "default");
    assert_eq!(zoom_label(-5), "default");
    assert_eq!(zoom_label(50), "50%");
    assert_eq!(zoom_label(75), "75%");
}

#[test]
fn command_fields_split_and_join() {
    let argv = argv_of("  notify-send   Closed ");
    assert_eq!(argv, ["notify-send", "Closed"]);
    let argv = argv_of("notify-send\tLid  Closed");
    assert_eq!(argv, ["notify-send", "Lid", "Closed"]);
    assert_eq!(argv_line(&argv), "notify-send Lid Closed");
    assert_eq!(argv_of(&argv_line(&argv)), argv);
    assert!(argv_of("   ").is_empty());
    assert_eq!(argv_line(&Vec::new()), "");
}

#[test]
fn mode_labels() {
    let preferred = OutputMode {
        width: 2560,
        height: 1440,
        refresh_rate: 59951,
        is_preferred: true,
    };
    assert_eq!(mode_label(&preferred), "2560×1440  59.951 Hz ✓");
    assert_eq!(mode_label(&mode(1920, 1080, 60000)), "1920×1080  60.000 Hz");
}

#[test]
fn resolution_labels() {
    assert_eq!(resolution_label(3840, 2160), "3840×2160");
    assert_eq!(resolution_label(0, 1080), "automatic");
    assert_eq!(resolution_label(1920, 0), "automatic");
}

#[test]
fn preview_style_sheet() {
    let mut theme = ThemeTokens::default();
    assert_eq!(
        preview_css(&theme),
        ".theme-preview { background: #0d0e17; border-color: #565f89; border-radius: 14px; }\n\
         .theme-preview .preview-dot { color: #7aa2f7; }\n\
         .theme-preview .preview-text, .theme-preview .preview-time { color: #c0caf5; }"
    );
    theme.radius = 32;
    assert!(preview_css(&theme).contains("border-radius: 20px;"));
}

#[test]
fn outputs_listed_by_name() {
    let names: Vec<String> = ["HDMI-A-1", "DP-2", "eDP-1", "DP-10", "DP-2"].iter().map(|s| s.to_string()).collect();
    assert_eq!(name_order(&names), [3, 1, 4, 0, 2]);
    assert!(name_order(&Vec::new()).is_empty());
}

#[test]
fn input_enum_dropdown_positions() {
    assert_eq!(AccelProfile::label_variants(), ["default", "adaptive", "flat"]);
    assert_eq!(AccelProfile::from_index(2), AccelProfile::Flat);
    assert_eq!(AccelProfile::from_index(9), AccelProfile::Default);
    assert_eq!(AccelProfile::Adaptive.to_index(), 1);
    assert_eq!(TrackLayout::from_index(1), TrackLayout::Window);
    assert_eq!(DragSetting::Disabled.to_index(), 2);
    assert_eq!(MouseScrollMethod::from_index(1), MouseScrollMethod::NoScroll);
    assert_eq!(TouchpadScrollMethod::from_index(4), TouchpadScrollMethod::NoScroll);
    assert_eq!(TapButtonMap::LeftMiddleRight.to_index(), 2);
    assert_eq!(ClickMethod::from_index(1), ClickMethod::ButtonAreas);
    assert_eq!(CenterFocusedColumn::label_variants(), ["never", "on overflow", "always"]);
    assert_eq!(CenterFocusedColumn::from_index(1), CenterFocusedColumn::OnOverflow);
    assert_eq!(CenterFocusedColumn::Always.to_index(), 2);
}
