use pi_coding_agent::interactive::{
    global_action, global_chords, next_tree_filter, picker_action, GlobalAction, GlobalChord,
    PickerAction, PickerChord, PickerKind, TreeFilterMode,
};
use pi_coding_agent::interactive::PickerChord::{
    Cancel, Confirm, ModelsClearAll, ModelsEnableAll, ModelsReorderDown, ModelsReorderUp, ModelsSave, ModelsToggleProvider, SessionDelete, SessionDeleteNoninvasive, SessionRename, SessionToggleNamedFilter, SessionTogglePath, SessionToggleSort, TreeEditLabel, TreeFilterAll, TreeFilterCycleBackward, TreeFilterCycleForward, TreeFilterUserOnly, TreeFoldOrUp, TreeToggleLabelTimestamp, TreeUnfoldOrDown,
};

fn act(kind: PickerKind, matched: &[PickerChord], pending: bool, query_empty: bool) -> PickerAction {
    picker_action(kind, matched, pending, query_empty, TreeFilterMode::Default, true)
}

#[test]
fn chords_carry_their_binding_ids_and_stand_in_keys() {
    assert_eq!(PickerChord::Confirm.binding(), ("tui.select.confirm", vec!["enter"]));
    assert_eq!(
        PickerChord::TreeFoldOrUp.binding(),
        ("app.tree.foldOrUp", vec!["ctrl+left", "alt+left"])
    );
    assert_eq!(
        PickerChord::SessionDeleteNoninvasive.binding(),
        ("app.session.deleteNoninvasive", vec!["ctrl+backspace"])
    );
    assert_eq!(PickerChord::ModelsSave.binding(), ("app.models.save", vec!["ctrl+s"]));
}

#[test]
fn a_pending_delete_takes_every_key() {
    assert_eq!(act(PickerKind::Session, &[Confirm], true, true), PickerAction::ConfirmDelete);
    assert_eq!(act(PickerKind::Session, &[Cancel], true, true), PickerAction::CancelDelete);
    assert_eq!(act(PickerKind::Session, &[SessionToggleSort], true, true), PickerAction::Swallow);
    assert_eq!(act(PickerKind::Session, &[], true, false), PickerAction::Swallow);
}

#[test]
fn session_chords_are_tried_in_order() {
    assert_eq!(act(PickerKind::Session, &[SessionToggleSort], false, true), PickerAction::ToggleSort);
    assert_eq!(
        act(PickerKind::Session, &[SessionTogglePath, SessionToggleNamedFilter], false, true),
        PickerAction::ToggleNamedFilter
    );
    assert_eq!(act(PickerKind::Session, &[SessionRename], false, true), PickerAction::Rename);
    assert_eq!(act(PickerKind::Session, &[SessionDelete], false, false), PickerAction::BeginDelete);
    assert_eq!(act(PickerKind::Session, &[Confirm], false, true), PickerAction::PassThrough);
}

#[test]
fn the_noninvasive_delete_yields_to_a_typed_query() {
    assert_eq!(
        act(PickerKind::Session, &[SessionDeleteNoninvasive], false, true),
        PickerAction::BeginDelete
    );
    assert_eq!(
        act(PickerKind::Session, &[SessionDeleteNoninvasive], false, false),
        PickerAction::PassThrough
    );
}

#[test]
fn tree_filter_chords_toggle_back_to_default() {
    assert_eq!(next_tree_filter(TreeFilterMode::Default, TreeFilterMode::NoTools), TreeFilterMode::NoTools);
    assert_eq!(next_tree_filter(TreeFilterMode::NoTools, TreeFilterMode::NoTools), TreeFilterMode::Default);
    assert_eq!(next_tree_filter(TreeFilterMode::All, TreeFilterMode::Default), TreeFilterMode::Default);
    assert_eq!(next_tree_filter(TreeFilterMode::Default, TreeFilterMode::Default), TreeFilterMode::Default);
    assert_eq!(
        picker_action(PickerKind::Tree, &[TreeFilterUserOnly], false, true, TreeFilterMode::UserOnly, false),
        PickerAction::SetTreeFilter(TreeFilterMode::Default)
    );
    assert_eq!(
        picker_action(PickerKind::Tree, &[TreeFilterAll], false, true, TreeFilterMode::NoTools, false),
        PickerAction::SetTreeFilter(TreeFilterMode::All)
    );
}

#[test]
fn tree_chords() {
    assert_eq!(act(PickerKind::Tree, &[TreeEditLabel], false, true), PickerAction::EditLabel);
    assert_eq!(act(PickerKind::Tree, &[TreeFoldOrUp], false, true), PickerAction::PassThrough);
    assert_eq!(act(PickerKind::Tree, &[TreeUnfoldOrDown, TreeToggleLabelTimestamp], false, true), PickerAction::PassThrough);
    assert_eq!(act(PickerKind::Tree, &[TreeToggleLabelTimestamp], false, true), PickerAction::ToggleLabelTimestamps);
    assert_eq!(act(PickerKind::Tree, &[TreeFilterCycleForward], false, true), PickerAction::CycleTreeFilterForward);
    assert_eq!(act(PickerKind::Tree, &[TreeFilterCycleBackward], false, true), PickerAction::CycleTreeFilterBackward);
}

#[test]
fn scoped_model_chords_need_a_highlighted_row() {
    assert_eq!(act(PickerKind::ScopedModels, &[Confirm], false, true), PickerAction::ToggleModel);
    assert_eq!(act(PickerKind::ScopedModels, &[ModelsReorderUp], false, true), PickerAction::ReorderModel(-1));
    assert_eq!(act(PickerKind::ScopedModels, &[ModelsReorderDown], false, true), PickerAction::ReorderModel(1));
    assert_eq!(act(PickerKind::ScopedModels, &[ModelsEnableAll], false, true), PickerAction::EnableAllModels);
    assert_eq!(act(PickerKind::ScopedModels, &[ModelsClearAll], false, true), PickerAction::ClearAllModels);
    assert_eq!(act(PickerKind::ScopedModels, &[ModelsToggleProvider], false, true), PickerAction::ToggleProvider);
    assert_eq!(act(PickerKind::ScopedModels, &[ModelsSave], false, true), PickerAction::SaveModels);
    assert_eq!(
        picker_action(PickerKind::ScopedModels, &[Confirm], false, true, TreeFilterMode::Default, false),
        PickerAction::PassThrough
    );
    assert_eq!(act(PickerKind::Other, &[Confirm, ModelsSave], false, true), PickerAction::PassThrough);
}

#[test]
fn the_global_table_lists_its_chords_in_order() {
    let table = global_chords();
    assert_eq!(table.len(), 13);
    assert_eq!(table[0], (GlobalChord::ModelCycleForward, "app.model.cycleForward", vec!["ctrl+p"]));
    assert_eq!(table[9], (GlobalChord::SessionFork, "app.session.fork", Vec::<&str>::new()));
    assert_eq!(table[12], (GlobalChord::Suspend, "app.suspend", vec!["ctrl+z"]));
}

#[test]
fn global_chords_yield_to_modals_and_extensions() {
    let matched = [GlobalChord::ModelSelect];
    assert_eq!(global_action(true, false, &matched, false), None);
    assert_eq!(global_action(false, true, &matched, false), Some(GlobalAction::Extension));
    assert_eq!(
        global_action(false, false, &matched, false),
        Some(GlobalAction::Chord(GlobalChord::ModelSelect))
    );
    assert_eq!(global_action(false, false, &[], false), None);
}

#[test]
fn the_first_matching_global_chord_wins() {
    let matched = [GlobalChord::SessionResume, GlobalChord::ThinkingCycle];
    assert_eq!(
        global_action(false, false, &matched, false),
        Some(GlobalAction::Chord(GlobalChord::ThinkingCycle))
    );
}

#[test]
fn suspend_never_fires_on_windows() {
    let matched = [GlobalChord::Suspend];
    assert_eq!(
        global_action(false, false, &matched, false),
        Some(GlobalAction::Chord(GlobalChord::Suspend))
    );
    assert_eq!(global_action(false, false, &matched, true), None);
}
