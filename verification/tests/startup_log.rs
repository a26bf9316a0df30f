use pi_coding_agent::startup_log::{detect_mode_target, mirror_for, CommandKind, ModeTarget, StartupLog};

#[test]
fn mirror_flag_toggles_independently_of_log_file() {
    let mut log = StartupLog::new();
    let original = log.mirror_to_stderr();
    log.set_mirror_to_stderr(false);
    assert!(!log.mirror_to_stderr());
    log.set_mirror_to_stderr(true);
    assert!(log.mirror_to_stderr());
    log.set_mirror_to_stderr(original);
}

#[test]
fn notices_are_stamped_and_mirrored_by_the_flag() {
    let mut log = StartupLog::new();
    assert_eq!(
        log.log_message(1700000000, "loaded 2 extensions"),
        ("[1700000000] loaded 2 extensions\n".to_string(), true)
    );
    log.set_mirror_to_stderr(false);
    assert_eq!(log.log_message(0, "x"), ("[0] x\n".to_string(), false));
}

#[test]
fn subcommands_decide_the_mode() {
    assert_eq!(detect_mode_target(Some(CommandKind::Print), false, false), ModeTarget::Print);
    assert_eq!(detect_mode_target(Some(CommandKind::Rpc), false, false), ModeTarget::Rpc);
    assert_eq!(detect_mode_target(Some(CommandKind::Session), true, true), ModeTarget::Session);
    for kind in [
        CommandKind::Version,
        CommandKind::Install,
        CommandKind::Remove,
        CommandKind::List,
        CommandKind::UpdateModels,
        CommandKind::ListModels,
    ] {
        assert_eq!(detect_mode_target(Some(kind), true, false), ModeTarget::Packages);
    }
}

#[test]
fn flags_decide_without_a_subcommand() {
    assert_eq!(detect_mode_target(None, true, true), ModeTarget::Print);
    assert_eq!(detect_mode_target(None, false, true), ModeTarget::Rpc);
    assert_eq!(detect_mode_target(None, false, false), ModeTarget::Interactive);
    assert_eq!(detect_mode_target(Some(CommandKind::Other), false, true), ModeTarget::Rpc);
}

#[test]
fn only_the_interactive_mode_silences_stderr() {
    assert!(!mirror_for(ModeTarget::Interactive));
    assert!(mirror_for(ModeTarget::Print));
    assert!(mirror_for(ModeTarget::Packages));
}

#[test]
fn subcommand_names_are_recognised() {
    assert_eq!(CommandKind::from_name("list-models"), Some(CommandKind::ListModels));
    assert_eq!(CommandKind::from_name("install"), Some(CommandKind::Install));
    assert_eq!(CommandKind::from_name("update-models"), Some(CommandKind::UpdateModels));
    assert_eq!(CommandKind::from_name("frobnicate"), None);
}
