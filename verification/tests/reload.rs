use pi_coding_agent::reload::{summary_lines, ReloadReport};

fn report() -> ReloadReport {
    ReloadReport {
        keybindings_path: "/tmp/agent/keybindings.json".to_string(),
        keybindings_file_exists: true,
        binding_overrides: 2,
        theme: Some("light".into()),
        theme_error: None,
        copy_on_select: false,
        hide_thinking_block: false,
        autocomplete_max_visible: 5,
        quiet_startup: false,
    }
}

#[test]
fn summary_names_the_file_and_the_override_count() {
    let lines = summary_lines(&report());
    assert!(lines[0].starts_with("/reload: "), "{}", lines[0]);
    assert!(lines[0].contains("2 override(s)"), "{}", lines[0]);
    assert!(
        lines[0].contains("/tmp/agent/keybindings.json"),
        "{}",
        lines[0]
    );
    assert!(lines[0].contains("theme → light"), "{}", lines[0]);
}

#[test]
fn summary_says_so_when_there_is_no_keybindings_file() {
    let mut report = report();
    report.keybindings_file_exists = false;
    report.binding_overrides = 0;
    let lines = summary_lines(&report);
    assert!(lines[0].contains("defaults"), "{}", lines[0]);
    assert!(!lines[0].contains("override(s)"), "{}", lines[0]);
}

#[test]
fn summary_reports_a_theme_that_failed_to_resolve() {
    let mut report = report();
    report.theme = None;
    report.theme_error = Some("no theme named \"neon\"".into());
    let lines = summary_lines(&report);
    assert!(lines[0].contains("not applied"), "{}", lines[0]);
    assert!(lines[0].contains("neon"), "{}", lines[0]);
}

#[test]
fn summary_stays_honest_about_what_is_not_reloaded() {
    let lines = summary_lines(&report());
    let note = &lines[1];
    for scope in ["extensions", "skills", "prompts", "context files"] {
        assert!(note.contains(scope), "{scope} missing from {note:?}");
    }
    assert!(note.contains("not re-read"), "{note:?}");
}

#[test]
fn summary_line_is_exact() {
    let mut report = report();
    report.hide_thinking_block = true;
    report.quiet_startup = true;
    report.autocomplete_max_visible = 12;
    assert_eq!(
        summary_lines(&report)[0],
        "/reload: keybindings → 2 override(s) from /tmp/agent/keybindings.json; theme → light; thinking hidden, autocomplete 12 row(s), quiet startup on (from the next start)"
    );
    report.theme = None;
    assert!(summary_lines(&report)[0].contains("theme → unchanged (settings.json names none)"));
}
