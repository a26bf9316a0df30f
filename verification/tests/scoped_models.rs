use pi_coding_agent::scoped_models::{
    clear_all, enable_all, full_id, is_enabled, move_model, normalize_enabled, sorted_ids, toggle,
    value_to_id, FooterKeys, ScopedModelsPanel,
};

fn catalog(ids: &[(&str, &str)]) -> Vec<(String, String)> {
    ids.iter()
        .map(|(provider, id)| (provider.to_string(), id.to_string()))
        .collect()
}

fn all_ids(ids: &[&str]) -> Vec<String> {
    ids.iter().map(|id| (*id).to_string()).collect()
}

fn footer(panel: &ScopedModelsPanel) -> Vec<String> {
    panel.footer(&FooterKeys::defaults())
}

#[test]
fn is_enabled_treats_none_as_everything() {
    assert!(is_enabled(&None, "anthropic/a"));
    assert!(is_enabled(&Some(all_ids(&["anthropic/a"])), "anthropic/a"));
    assert!(!is_enabled(&Some(all_ids(&["anthropic/a"])), "anthropic/b"));
}

#[test]
fn normalize_collapses_a_complete_list_to_none() {
    let all = all_ids(&["a", "b"]);
    assert_eq!(normalize_enabled(all_ids(&["a", "b"]), &all), None);
    assert_eq!(
        normalize_enabled(all_ids(&["a"]), &all),
        Some(all_ids(&["a"]))
    );
}

#[test]
fn toggle_from_none_disables_exactly_one() {
    let all = all_ids(&["a", "b", "c"]);
    assert_eq!(toggle(&None, &all, "b"), Some(all_ids(&["a", "c"])));
}

#[test]
fn toggle_appends_and_re_collapses() {
    let all = all_ids(&["a", "b"]);
    assert_eq!(
        toggle(&Some(all_ids(&["a"])), &all, "b"),
        None,
        "enabling the last missing model is `all enabled` again"
    );
    assert_eq!(
        toggle(&Some(all_ids(&["a", "c"])), &all, "b"),
        Some(all_ids(&["a", "c", "b"]))
    );
}

#[test]
fn toggle_removes_an_enabled_model() {
    let all = all_ids(&["a", "b"]);
    assert_eq!(
        toggle(&Some(all_ids(&["a", "b"])), &all, "a"),
        Some(all_ids(&["b"]))
    );
}

#[test]
fn enable_all_without_targets_is_none() {
    let all = all_ids(&["a", "b"]);
    let enabled = Some(all_ids(&["a"]));
    assert_eq!(enable_all(&enabled, &all, Some(&all)), None);
    assert_eq!(enable_all(&None, &all, Some(&all)), None);
}

#[test]
fn enable_all_targets_only_the_filtered_subset() {
    let all = all_ids(&["a", "b", "c"]);
    let enabled = Some(all_ids(&["a"]));
    let targets = all_ids(&["b"]);
    assert_eq!(
        enable_all(&enabled, &all, Some(&targets)),
        Some(all_ids(&["a", "b"]))
    );
}

#[test]
fn clear_all_from_none_keeps_everything_but_the_targets() {
    let all = all_ids(&["a", "b", "c"]);
    let targets = all_ids(&["b"]);
    assert_eq!(
        clear_all(&None, &all, Some(&targets)),
        Some(all_ids(&["a", "c"]))
    );
    assert_eq!(clear_all(&None, &all, None), Some(Vec::new()));
}

#[test]
fn clear_all_from_a_list_removes_the_targets() {
    let all = all_ids(&["a", "b", "c"]);
    let enabled = Some(all_ids(&["a", "b"]));
    assert_eq!(
        clear_all(&enabled, &all, Some(&all_ids(&["b"]))),
        Some(all_ids(&["a"]))
    );
    assert_eq!(clear_all(&enabled, &all, None), Some(Vec::new()));
}

#[test]
fn move_swaps_neighbours_and_clamps() {
    let enabled = Some(all_ids(&["a", "b", "c"]));
    assert_eq!(
        move_model(&enabled, "b", -1),
        Some(all_ids(&["b", "a", "c"]))
    );
    assert_eq!(
        move_model(&enabled, "a", -1),
        enabled,
        "moving the first item up is a no-op"
    );
    assert_eq!(
        move_model(&enabled, "c", 1),
        enabled,
        "moving the last item down is a no-op"
    );
    assert_eq!(move_model(&None, "a", -1), None);
    assert_eq!(
        move_model(&Some(Vec::new()), "a", -1),
        Some(Vec::new()),
        "an id that is not in the list leaves it unchanged"
    );
}

#[test]
fn sorted_ids_puts_enabled_models_first_in_their_own_order() {
    let all = all_ids(&["a", "b", "c"]);
    assert_eq!(sorted_ids(&None, &all), all);
    assert_eq!(
        sorted_ids(&Some(all_ids(&["c", "a"])), &all),
        all_ids(&["c", "a", "b"])
    );
}

#[test]
fn panel_items_mark_enabled_rows_and_keep_unavailable_ones() {
    let catalog = catalog(&[("anthropic", "a"), ("openai", "b")]);
    let panel = ScopedModelsPanel::new(&catalog, Some(&all_ids(&["anthropic/a", "ghost/x"])));
    let items = panel.items();
    assert_eq!(items[0].value, "scoped:anthropic/a");
    assert_eq!(items[0].label, "✓ anthropic/a");
    assert_eq!(items[0].description, "anthropic");
    assert_eq!(items[1].value, "scoped:ghost/x");
    assert_eq!(items[1].label, "✓ ghost/x");
    assert_eq!(items[1].description, "unavailable");
    assert_eq!(items[2].value, "scoped:openai/b");
    assert_eq!(items[2].label, "openai/b");
}

#[test]
fn panel_footer_reports_the_count_and_dirty_state() {
    let catalog = catalog(&[("anthropic", "a"), ("openai", "b")]);
    let mut panel = ScopedModelsPanel::new(&catalog, None);
    assert!(footer(&panel)[3].contains("all enabled"));
    assert!(!footer(&panel)[3].contains("(unsaved)"));
    assert!(panel.toggle("anthropic/a"));
    assert!(panel.dirty());
    assert!(footer(&panel)[3].contains("1/2 enabled"));
    assert!(footer(&panel)[3].contains("(unsaved)"));
    assert!(footer(&panel)[1].contains("save"));
    assert!(
        footer(&panel).iter().all(|line| line.chars().count() < 80),
        "every footer line must survive an 80-column terminal: {:?}",
        footer(&panel)
    );
    panel.mark_saved("Model selection saved to settings");
    assert!(!panel.dirty());
    assert!(panel.status().is_some());
}

#[test]
fn panel_toggle_provider_flips_every_model_of_that_provider() {
    let catalog = catalog(&[("anthropic", "a"), ("anthropic", "b"), ("openai", "c")]);
    let mut panel = ScopedModelsPanel::new(&catalog, None);
    assert!(panel.toggle_provider("anthropic/a"));
    assert_eq!(panel.enabled(), &Some(all_ids(&["openai/c"])));
    assert!(panel.toggle_provider("anthropic/b"));
    assert_eq!(panel.enabled(), &None);
    let mut panel = ScopedModelsPanel::new(&catalog, Some(&all_ids(&["ghost/x"])));
    assert!(!panel.toggle_provider("ghost/x"));
}

#[test]
fn panel_reorder_only_moves_enabled_rows() {
    let catalog = catalog(&[("anthropic", "a"), ("anthropic", "b")]);
    let mut panel = ScopedModelsPanel::new(&catalog, None);
    assert!(!panel.reorder("anthropic/a", 1));
    panel.toggle("anthropic/a");
    assert_eq!(panel.enabled(), &Some(all_ids(&["anthropic/b"])));
    assert!(!panel.reorder("anthropic/a", 1), "a is not enabled");
    assert!(!panel.reorder("anthropic/b", 0), "delta 0 cannot move");
}

#[test]
fn panel_reorder_moves_within_the_enabled_list() {
    let catalog = catalog(&[("anthropic", "a"), ("anthropic", "b"), ("openai", "c")]);
    let mut panel = ScopedModelsPanel::new(&catalog, None);
    panel.toggle("anthropic/a");
    assert_eq!(
        panel.enabled(),
        &Some(all_ids(&["anthropic/b", "openai/c"]))
    );
    assert!(panel.reorder("openai/c", -1));
    assert_eq!(
        panel.enabled(),
        &Some(all_ids(&["openai/c", "anthropic/b"]))
    );
    assert_eq!(
        panel.visible_ids(),
        all_ids(&["openai/c", "anthropic/b", "anthropic/a"]),
        "the moved row is first in the rendered order"
    );
}

#[test]
fn panel_commit_reports_no_change_for_a_no_op() {
    let catalog = catalog(&[("anthropic", "a")]);
    let mut panel = ScopedModelsPanel::new(&catalog, None);
    assert!(panel.toggle("anthropic/a"), "disables the only model");
    panel.mark_saved("saved");
    assert!(!panel.toggle_provider("ghost/x"));
    assert!(!panel.dirty(), "a rejected change is not an edit");
}

#[test]
fn panel_toggling_an_unavailable_id_adds_it_to_the_scope() {
    let catalog = catalog(&[("anthropic", "a")]);
    let mut panel = ScopedModelsPanel::new(&catalog, Some(&all_ids(&["ghost/x"])));
    assert!(panel.toggle("ghost/x"));
    assert_eq!(panel.enabled(), &Some(Vec::new()));
}

#[test]
fn cycle_scope_matches_upstreams_three_none_cases() {
    let catalog = catalog(&[("anthropic", "a"), ("anthropic", "b"), ("openai", "c")]);
    let panel = ScopedModelsPanel::new(&catalog, None);
    assert_eq!(panel.cycle_scope(), None);
    let panel = ScopedModelsPanel::new(&catalog, Some(&[]));
    assert_eq!(panel.cycle_scope(), None);
    let panel = ScopedModelsPanel::new(
        &catalog,
        Some(&all_ids(&["anthropic/a", "anthropic/b", "openai/c"])),
    );
    assert_eq!(panel.cycle_scope(), None);
    let panel = ScopedModelsPanel::new(&catalog, Some(&all_ids(&["ghost/x"])));
    assert_eq!(panel.cycle_scope(), None);
    let panel = ScopedModelsPanel::new(&catalog, Some(&all_ids(&["openai/c", "anthropic/b"])));
    assert_eq!(
        panel.cycle_scope(),
        Some(all_ids(&["openai/c", "anthropic/b"]))
    );
}

#[test]
fn update_catalog_keeps_the_scope() {
    let first = catalog(&[("anthropic", "a")]);
    let mut panel = ScopedModelsPanel::new(&first, Some(&all_ids(&["anthropic/a"])));
    panel.update_catalog(&catalog(&[("anthropic", "a"), ("openai", "b")]));
    assert_eq!(panel.enabled(), &Some(all_ids(&["anthropic/a"])));
    assert_eq!(panel.visible_ids().len(), 2);
}

#[test]
fn value_round_trips_through_the_prefix() {
    assert_eq!(value_to_id("scoped:openai/gpt"), Some("openai/gpt"));
    assert_eq!(value_to_id("model:gpt"), None);
}

#[test]
fn full_id_joins_provider_and_model() {
    assert_eq!(
        full_id("anthropic", "sonnet-4"),
        "anthropic/sonnet-4"
    );
}

#[test]
fn footer_lists_unavailable_ids_and_the_status_line() {
    let catalog = catalog(&[("anthropic", "a"), ("openai", "b")]);
    let mut panel = ScopedModelsPanel::new(&catalog, Some(&all_ids(&["anthropic/a", "ghost/x"])));
    let lines = footer(&panel);
    assert_eq!(lines.len(), 4);
    assert_eq!(lines[3], "  1/2 enabled · 1 unavailable");
    assert_eq!(
        lines[0],
        "  enter toggle · ctrl+a enable all · ctrl+x clear all"
    );
    assert_eq!(
        lines[1],
        "  ctrl+p toggle provider · alt+up / alt+down reorder · ctrl+s save"
    );
    assert_eq!(lines[2], "  Session-only. ctrl+s to save to settings.");
    panel.mark_saved("saved");
    let lines = footer(&panel);
    assert_eq!(lines.len(), 5);
    assert_eq!(lines[4], "  saved");
}

#[test]
fn toggling_twice_restores_the_scope_membership() {
    let all = all_ids(&["a", "b", "c"]);
    let once = toggle(&None, &all, "b");
    assert!(!is_enabled(&once, "b"));
    let twice = toggle(&once, &all, "b");
    assert!(is_enabled(&twice, "b"));
    assert_eq!(twice, None);
}

#[test]
fn moving_back_and_forth_is_the_identity() {
    let enabled = Some(all_ids(&["a", "b", "c"]));
    let moved = move_model(&enabled, "a", 2);
    assert_eq!(moved, Some(all_ids(&["c", "b", "a"])));
    assert_eq!(move_model(&moved, "a", -2), enabled);
}

#[test]
fn enable_all_then_clear_all_with_the_same_targets() {
    let all = all_ids(&["a", "b", "c"]);
    let targets = all_ids(&["b", "c"]);
    let enabled = Some(all_ids(&["a"]));
    let on = enable_all(&enabled, &all, Some(&targets));
    assert_eq!(on, None);
    let off = clear_all(&on, &all, Some(&targets));
    assert_eq!(off, Some(all_ids(&["a"])));
    assert!(!is_enabled(&off, "b") && !is_enabled(&off, "c"));
}
