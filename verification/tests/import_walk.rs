use std::collections::HashMap;

use niri_settings::errors::SettingsError;
use niri_settings::import::{include_target, ImportWalk, WalkAction};
use niri_settings::kdl_doc::kdl_admissible_text;
use niri_settings::overlay::apply_managed_kdl;
use niri_settings::persist::merge_kdl_text;
use niri_settings::shell::parse;
use niri_settings::types::{Keybind, SettingsConfig};

/// Runs an import over in-memory files; a path's identity is the path.
fn import(files: &HashMap<&str, &str>, root: &str, home: Option<&str>) -> (Vec<Keybind>, Vec<String>) {
    let mut walk = ImportWalk::new(root, home);
    let mut reads = Vec::new();
    loop {
        match walk.step() {
            WalkAction::Continue => {}
            WalkAction::Read { path, .. } => {
                let content = files.get(path.as_str()).copied();
                reads.push(path.clone());
                walk.opened(&path, content);
            }
            WalkAction::Finish => break,
        }
    }
    (walk.into_binds(), reads)
}

#[test]
fn import_binds_from_niri_config_reads_first_block() {
    let mut files = HashMap::new();
    files.insert(
        "/cfg/config.kdl",
        "binds {\n    Mod+T { spawn \"foot\"; }\n}\nbinds {\n    Mod+Q { close-window; }\n}\n",
    );
    let (binds, _) = import(&files, "/cfg/config.kdl", None);
    assert_eq!(binds.len(), 1);
    assert_eq!(binds[0].key, "Mod+T");
    assert_eq!(binds[0].action, "spawn");
    assert_eq!(binds[0].action_args, "foot");
    assert_eq!(binds[0].id, 0);
}

#[test]
fn includes_are_followed_where_they_stand() {
    let mut files = HashMap::new();
    files.insert("/cfg/config.kdl", "include \"parts/a.kdl\"\nbinds {\n    Mod+T { quit; }\n}\n");
    files.insert("/cfg/parts/a.kdl", "include \"/etc/niri/b.kdl\"\ninput { }\n");
    files.insert("/etc/niri/b.kdl", "binds {\n    Mod+B { spawn \"b\"; }\n}\n");
    let (binds, reads) = import(&files, "/cfg/config.kdl", None);
    assert_eq!(reads, ["/cfg/config.kdl", "/cfg/parts/a.kdl", "/etc/niri/b.kdl"]);
    // The first block reached is the included one; the walk ends there.
    assert_eq!(binds.len(), 1);
    assert_eq!(binds[0].key, "Mod+B");
}

#[test]
fn include_cycles_and_missing_files_are_harmless() {
    let mut files = HashMap::new();
    files.insert("/c/a.kdl", "include \"b.kdl\"\ninclude \"missing.kdl\"\nbinds {\n    Mod+A { quit; }\n}\n");
    files.insert("/c/b.kdl", "include \"a.kdl\"\n");
    let (binds, reads) = import(&files, "/c/a.kdl", None);
    assert_eq!(reads, ["/c/a.kdl", "/c/b.kdl", "/c/a.kdl", "/c/missing.kdl"]);
    assert_eq!(binds.len(), 1);
    assert_eq!(binds[0].key, "Mod+A");
}

#[test]
fn include_nesting_is_bounded() {
    let names: Vec<String> = (0..20).map(|i| format!("/d/{i}.kdl")).collect();
    let texts: Vec<String> = (0..20).map(|i| format!("include \"{}.kdl\"\n", i + 1)).collect();
    let mut files = HashMap::new();
    for i in 0..20 {
        files.insert(names[i].as_str(), texts[i].as_str());
    }
    let (binds, reads) = import(&files, "/d/0.kdl", None);
    assert!(binds.is_empty());
    assert_eq!(reads.len(), 17);
    assert_eq!(reads.last().map(String::as_str), Some("/d/16.kdl"));
}

#[test]
fn include_targets() {
    assert_eq!(include_target("/cfg/niri/config.kdl", "~/x.kdl", Some("/home/u")), "/home/u/x.kdl");
    assert_eq!(include_target("/cfg/niri/config.kdl", "~/x.kdl", Some("/home/u/")), "/home/u/x.kdl");
    assert_eq!(include_target("/cfg/niri/config.kdl", "~/x.kdl", None), "/cfg/niri/~/x.kdl");
    assert_eq!(include_target("/cfg/niri/config.kdl", "/abs/y.kdl", Some("/h")), "/abs/y.kdl");
    assert_eq!(include_target("/cfg/niri/config.kdl", "sub/z.kdl", None), "/cfg/niri/sub/z.kdl");
    assert_eq!(include_target("config.kdl", "z.kdl", None), "z.kdl");
    assert_eq!(include_target("/config.kdl", "z.kdl", None), "/z.kdl");
    assert_eq!(include_target("/", "z.kdl", None), "./z.kdl");
}

#[test]
fn keyword_annotations_are_not_parsed() {
    assert!(!kdl_admissible_text("(null)"));
    assert!(!kdl_admissible_text("node (true)1"));
    assert!(kdl_admissible_text("node (u8)1 true false null"));
    // Inside strings and comments such a word is harmless.
    assert!(kdl_admissible_text("match title=\"(true|false)\" // (null)\n/* (null) */"));
    assert!(!kdl_admissible_text("a \"x\" (null)1"));

    let refusal = "unsupported KDL: a type annotation naming true, false or null, or nesting too deep";
    let mut cfg = SettingsConfig::default();
    cfg.layout.gaps = 12;
    assert_eq!(apply_managed_kdl(&mut cfg, "(null)"), Err(SettingsError::Kdl(refusal.into())));
    assert_eq!(cfg.layout.gaps, 12);
    assert_eq!(parse("(false)theme"), Err(SettingsError::Kdl(refusal.into())));
    assert_eq!(merge_kdl_text("a 1\n", Some("(null)")), Err(SettingsError::Kdl(refusal.into())));
}

#[test]
fn deep_nesting_is_not_parsed() {
    let opens = |n: usize| "a {\n".repeat(n);
    let closes = |n: usize| "}\n".repeat(n);
    assert!(kdl_admissible_text(&(opens(64) + &closes(64))));
    assert!(!kdl_admissible_text(&(opens(65) + &closes(65))));
    // Braces inside strings and comments do not count either way.
    let hidden = format!("x \"}}}}}}}}\" // }}}}\n{}{}", opens(64), closes(64));
    assert!(kdl_admissible_text(&hidden));
    let hidden_deep = format!("x \"}}}}}}}}\" /* }}}} */ r#\"}}}}\"#\n{}{}", opens(65), closes(65));
    assert!(!kdl_admissible_text(&hidden_deep));
    // Block comment weight: delimiters included, at most 128.
    assert!(kdl_admissible_text(&format!("/*{}*/\na 1\n", "*".repeat(124))));
    assert!(!kdl_admissible_text(&format!("/*{}*/\na 1\n", "*".repeat(125))));
    // Chained slashdashes: at most 16 links.
    assert!(kdl_admissible_text(&format!("{}a 1\n", "/- ".repeat(17))));
    assert!(!kdl_admissible_text(&format!("{}a 1\n", "/- ".repeat(18))));
    // Slashdashes on their own lines are no chain.
    assert!(kdl_admissible_text(&"/-a 1\n".repeat(100)));
}

#[test]
fn deepest_admitted_text_parses() {
    let text = format!(
        "{}/*{}*/ b {}{}3\n{}",
        "a {\n".repeat(64),
        "*".repeat(124),
        "/- ".repeat(17),
        "1 ".repeat(17),
        "}\n".repeat(64)
    );
    assert!(kdl_admissible_text(&text));
    let mut cfg = SettingsConfig::default();
    assert!(apply_managed_kdl(&mut cfg, &text).is_ok());
    let stars = format!("{}{}\nbinds {{\n    Mod+T {{ quit; }}\n}}\n", "/*".repeat(32), "*/".repeat(32));
    assert!(kdl_admissible_text(&stars));
    assert!(apply_managed_kdl(&mut cfg, &stars).is_ok());
}
