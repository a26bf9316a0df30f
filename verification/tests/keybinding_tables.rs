use pi_coding_agent::keybindings::{
    app_default_keybindings, app_keybinding_ids, keybinding_name_migrations,
    migrate_keybinding_name, Platform,
};

#[test]
fn app_ids_follow_the_default_table() {
    let ids = app_keybinding_ids();
    assert_eq!(ids.len(), 44);
    assert_eq!(ids[0], "app.interrupt");
    assert_eq!(ids[43], "app.tree.filter.cycleBackward");
    let defs = app_default_keybindings(&Platform::Linux, &[]);
    let table: Vec<&str> = defs.iter().map(|(id, _)| id.as_str()).collect();
    assert_eq!(ids, table);
}

#[test]
fn every_legacy_name_migrates_as_its_table_row_says() {
    let table = keybinding_name_migrations();
    assert_eq!(table.len(), 59);
    assert_eq!(table[0], ("cursorUp", "tui.editor.cursorUp"));
    assert!(table.contains(&("interrupt", "app.interrupt")));
    for (legacy, id) in table {
        assert_eq!(migrate_keybinding_name(legacy), Some(id));
    }
    assert_eq!(migrate_keybinding_name("app.interrupt"), None);
}
