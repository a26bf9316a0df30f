use pi_coding_agent::keybindings::{
    app_default_keybindings, is_legacy_keybinding_name, load_from_text_with_table,
    merged_definitions, migrate_keybinding_name, migrate_keybindings_config_with_table,
    order_keybindings_config, raw_config_from_text, to_keybindings_config, windows_keybindings,
    KeyDefinition, Platform, RawValue,
};

fn env(pairs: &[(&str, &str)]) -> Vec<(String, String)> {
    pairs.iter().map(|(k, v)| (k.to_string(), v.to_string())).collect()
}

fn def(keys: &[&str], description: &str) -> KeyDefinition {
    KeyDefinition {
        default_keys: keys.iter().map(|k| k.to_string()).collect(),
        description: description.to_string(),
    }
}

fn table(ids: &[&str]) -> Vec<(String, KeyDefinition)> {
    ids.iter().map(|id| (id.to_string(), def(&[], "x"))).collect()
}

#[test]
fn platform_names_round_trip() {
    assert_eq!(Platform::from_name("win32"), Platform::Win32);
    assert_eq!(Platform::from_name("macos"), Platform::Darwin);
    assert_eq!(Platform::from_name("darwin").as_str(), "darwin");
    assert_eq!(Platform::from_name("freebsd"), Platform::Other("freebsd".into()));
    assert!(Platform::Win32.is_windows());
    assert!(!Platform::Linux.is_windows());
}

#[test]
fn wsl_counts_as_windows() {
    assert!(windows_keybindings(&Platform::Win32, &[]));
    assert!(!windows_keybindings(&Platform::Linux, &[]));
    assert!(windows_keybindings(&Platform::Linux, &env(&[("WSL_DISTRO_NAME", "Ubuntu")])));
    assert!(windows_keybindings(&Platform::Linux, &env(&[("WSL_INTEROP", "/run/x")])));
    assert!(!windows_keybindings(&Platform::Linux, &env(&[("WSL_DISTRO_NAME", "")])));
    assert!(!windows_keybindings(&Platform::Darwin, &env(&[("WSL_DISTRO_NAME", "x")])));
}

#[test]
fn app_defaults_fork_on_the_platform() {
    let linux = app_default_keybindings(&Platform::Linux, &[]);
    let windows = app_default_keybindings(&Platform::Win32, &[]);
    let find = |defs: &[(String, KeyDefinition)], id: &str| {
        defs.iter().find(|(k, _)| k == id).map(|(_, d)| d.default_keys.clone())
    };
    assert_eq!(linux.len(), 44);
    assert_eq!(linux[0].0, "app.interrupt");
    assert_eq!(find(&linux, "app.suspend"), Some(vec!["ctrl+z".to_string()]));
    assert_eq!(find(&windows, "app.suspend"), Some(Vec::new()));
    assert_eq!(
        find(&linux, "app.model.cycleBackward"),
        Some(vec!["shift+ctrl+p".to_string()])
    );
    assert_eq!(find(&windows, "app.model.cycleBackward"), Some(vec!["alt+p".to_string()]));
}

#[test]
fn merged_definitions_override_four_tui_defaults() {
    let tui = vec![
        ("tui.editor.undo".to_string(), def(&["ctrl+z"], "Undo")),
        ("tui.other".to_string(), def(&["ctrl+o"], "Other")),
    ];
    let merged = merged_definitions(tui, &Platform::Linux, &[]);
    assert_eq!(merged[0].1.default_keys, vec!["ctrl+-".to_string()]);
    assert_eq!(merged[0].1.description, "Undo");
    assert_eq!(merged[1].1.default_keys, vec!["ctrl+o".to_string()]);
    assert_eq!(merged.len(), 2 + 44);
    assert_eq!(merged[2].0, "app.interrupt");
}

#[test]
fn legacy_names_migrate() {
    assert_eq!(migrate_keybinding_name("cursorUp"), Some("tui.editor.cursorUp"));
    assert_eq!(migrate_keybinding_name("app.exit"), None);
    assert!(is_legacy_keybinding_name("cursorUp"));
    assert!(!is_legacy_keybinding_name("tui.editor.cursorUp"));
}

#[test]
fn order_puts_table_ids_first_then_sorts_the_rest() {
    let config = vec![
        ("zeta".to_string(), RawValue::Other),
        ("app.exit".to_string(), RawValue::String("ctrl+q".into())),
        ("alpha".to_string(), RawValue::Other),
        ("app.interrupt".to_string(), RawValue::String("escape".into())),
    ];
    let ordered = order_keybindings_config(config, &table(&["app.interrupt", "app.exit"]));
    let keys: Vec<&str> = ordered.iter().map(|(k, _)| k.as_str()).collect();
    assert_eq!(keys, vec!["app.interrupt", "app.exit", "alpha", "zeta"]);
}

#[test]
fn migration_renames_and_prefers_the_namespaced_value() {
    let raw = vec![
        ("cursorUp".to_string(), RawValue::String("ctrl+k".into())),
        ("tui.editor.cursorUp".to_string(), RawValue::String("up".into())),
        ("cursorDown".to_string(), RawValue::String("ctrl+j".into())),
    ];
    let (config, migrated) = migrate_keybindings_config_with_table(&raw, &[]);
    assert!(migrated);
    assert_eq!(
        config,
        vec![
            ("tui.editor.cursorDown".to_string(), RawValue::String("ctrl+j".into())),
            ("tui.editor.cursorUp".to_string(), RawValue::String("up".into())),
        ]
    );
    let (_, untouched) = migrate_keybindings_config_with_table(
        &[("app.exit".to_string(), RawValue::Other)],
        &[],
    );
    assert!(!untouched);
}

#[test]
fn only_strings_and_string_arrays_become_bindings() {
    let config = vec![
        ("a".to_string(), RawValue::String("ctrl+a".into())),
        ("b".to_string(), RawValue::Array(vec![Some("x".into()), Some("y".into())])),
        ("c".to_string(), RawValue::Array(vec![Some("x".into()), None])),
        ("d".to_string(), RawValue::Array(Vec::new())),
        ("e".to_string(), RawValue::Other),
    ];
    assert_eq!(
        to_keybindings_config(&config),
        vec![
            ("a".to_string(), vec!["ctrl+a".to_string()]),
            ("b".to_string(), vec!["x".to_string(), "y".to_string()]),
            ("d".to_string(), Vec::new()),
        ]
    );
}

#[test]
fn keybindings_json_is_read_after_its_bom() {
    let text = "\u{feff}{\"cursorUp\": \"ctrl+k\", \"app.exit\": [\"ctrl+q\", 3], \"app.clear\": [\"ctrl+l\"]}";
    let raw = raw_config_from_text(text).expect("an object");
    assert_eq!(raw.len(), 3);
    assert!(raw_config_from_text("[1, 2]").is_none());
    assert!(raw_config_from_text("not json").is_none());
    let bindings = load_from_text_with_table(text, &table(&["app.clear", "app.exit"]));
    assert_eq!(
        bindings,
        vec![
            ("app.clear".to_string(), vec!["ctrl+l".to_string()]),
            ("tui.editor.cursorUp".to_string(), vec!["ctrl+k".to_string()]),
        ]
    );
    assert!(load_from_text_with_table("{", &[]).is_empty());
}
