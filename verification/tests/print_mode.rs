use pi_coding_agent::print_mode::{explicit_session_plan, should_migrate_legacy, sqlite_sibling, ProbeAnswer, SessionPlan, SessionProbe};
use pi_coding_agent::print_mode::{
    check_prompt, default_session_dir, extension_command_invocation, new_session_id,
    OutputFormat, PrintModeError, RunState,
};

#[test]
fn extension_command_invocation_parses_name_and_args() {
    assert_eq!(
        extension_command_invocation("/echo"),
        Some(("echo".to_string(), "".to_string()))
    );
    assert_eq!(
        extension_command_invocation("  /echo  hello world  "),
        Some(("echo".to_string(), "hello world".to_string()))
    );
    assert_eq!(
        extension_command_invocation("/echo\targ"),
        Some(("echo".to_string(), "arg".to_string()))
    );
}

#[test]
fn extension_command_invocation_ignores_non_commands() {
    for prompt in ["hello", "/", "/usr/bin/ls", "//echo"] {
        assert_eq!(extension_command_invocation(prompt), None, "{prompt}");
    }
}

#[test]
fn output_format_display_matches_value_enum() {
    assert_eq!(OutputFormat::Text.to_string(), "text");
    assert_eq!(OutputFormat::Json.to_string(), "json");
    assert_eq!(OutputFormat::JsonEvents.to_string(), "json-events");
}

#[test]
fn print_mode_error_exit_codes_follow_sysexits() {
    assert_eq!(
        PrintModeError::File {
            message: "file not found: /missing".to_string(),
            exit_code: 64
        }
        .exit_code(),
        64
    );
    assert_eq!(PrintModeError::AgentSetup("x".into()).exit_code(), 78);
    assert_eq!(PrintModeError::Agent("x".into()).exit_code(), 70);
    assert_eq!(PrintModeError::Interrupted.exit_code(), 130);
    assert_eq!(PrintModeError::Terminated.exit_code(), 143);
    assert_eq!(PrintModeError::MaxTurnsExceeded { max: 2 }.exit_code(), 1);
    assert_eq!(PrintModeError::Stdout("broken pipe".into()).exit_code(), 74);
}

#[test]
fn max_turns_exceeded_triggers_after_increment() {
    let mut state = RunState::new(OutputFormat::Json, 2);
    assert!(!state.max_turns_exceeded());
    state.turn_ended();
    state.turn_ended();
    assert!(state.max_turns_exceeded());
    let mut unlimited = RunState::new(OutputFormat::Json, 0);
    unlimited.turn_ended();
    assert!(!unlimited.max_turns_exceeded());
}

#[test]
fn text_output_ends_with_exactly_one_newline() {
    let mut state = RunState::new(OutputFormat::Text, 0);
    assert!(!state.finish_text(), "nothing streamed, nothing to add");
    state.text_streamed("hello");
    assert!(state.finish_text());
    state.text_streamed("done\n");
    assert!(!state.finish_text());
}

#[test]
fn error_messages_and_session_names() {
    assert_eq!(
        PrintModeError::MaxTurnsExceeded { max: 3 }.message(),
        "max turns exceeded (3)"
    );
    assert_eq!(PrintModeError::Agent("boom".into()).message(), "agent error: boom");
    assert_eq!(new_session_id(255), "session-ff");
    assert_eq!(new_session_id(0), "session-0");
    assert_eq!(default_session_dir(Some("/home/me")), "/home/me/.pi/sessions");
    assert_eq!(default_session_dir(None), "./.pi/sessions");
    assert!(check_prompt("  \n ").is_err());
    assert!(check_prompt("hi").is_ok());
}

#[test]
fn explicit_sqlite_and_jsonl_paths_are_used_directly() {
    assert_eq!(
        explicit_session_plan("/s", "/tmp/a.sqlite", &[]),
        SessionPlan::Probe(SessionProbe::IsFile("/tmp/a.sqlite".into()))
    );
    assert_eq!(
        explicit_session_plan("/s", "/tmp/a.sqlite", &[ProbeAnswer::IsFile(true)]),
        SessionPlan::Latest {
            database: "/tmp/a.sqlite".into()
        }
    );
    assert_eq!(
        explicit_session_plan("/s", "/tmp/old.jsonl", &[ProbeAnswer::IsFile(true)]),
        SessionPlan::MigrateThenLatest {
            legacy: "/tmp/old.jsonl".into(),
            database: "/tmp/old.sqlite".into()
        }
    );
}

#[test]
fn session_ids_are_looked_up_then_created() {
    let mut answers = vec![ProbeAnswer::IsFile(false)];
    assert_eq!(
        explicit_session_plan("/s", "abc", &answers),
        SessionPlan::Probe(SessionProbe::FindId {
            directory: "/s".into(),
            id: "abc".into()
        })
    );
    let found = vec![
        ProbeAnswer::IsFile(false),
        ProbeAnswer::Found(Some(("/s/x.sqlite".into(), "abc".into()))),
    ];
    assert_eq!(
        explicit_session_plan("/s", "abc", &found),
        SessionPlan::Bind {
            database: "/s/x.sqlite".into(),
            id: "abc".into()
        }
    );
    answers.push(ProbeAnswer::Found(None));
    assert_eq!(
        explicit_session_plan("/s", "abc", &answers),
        SessionPlan::Probe(SessionProbe::IsFile("/s/abc.jsonl".into()))
    );
    let mut legacy = answers.clone();
    legacy.push(ProbeAnswer::IsFile(true));
    assert_eq!(
        explicit_session_plan("/s", "abc", &legacy),
        SessionPlan::MigrateThenBind {
            legacy: "/s/abc.jsonl".into(),
            database: "/s/abc.sqlite".into(),
            id: "abc".into()
        }
    );
    answers.push(ProbeAnswer::IsFile(false));
    assert_eq!(
        explicit_session_plan("/s", "abc", &answers),
        SessionPlan::Bind {
            database: "/s/abc.sqlite".into(),
            id: "abc".into()
        }
    );
}

#[test]
fn legacy_logs_are_migrated_once() {
    assert!(should_migrate_legacy("/s/a.jsonl", false, 10));
    assert!(!should_migrate_legacy("/s/a.jsonl", true, 10));
    assert!(!should_migrate_legacy("/s/a.jsonl", false, 0));
    assert!(!should_migrate_legacy("/s/a.sqlite", false, 10));
    assert_eq!(sqlite_sibling("/s/a.jsonl"), "/s/a.sqlite");
    assert_eq!(sqlite_sibling("/s/a.b.jsonl"), "/s/a.b.sqlite");
}

#[test]
fn output_formats_parse_their_names() {
    assert_eq!(OutputFormat::from_name("json-events"), Some(OutputFormat::JsonEvents));
    assert_eq!(OutputFormat::from_name("text"), Some(OutputFormat::Text));
    assert_eq!(OutputFormat::from_name("json"), Some(OutputFormat::Json));
    assert_eq!(OutputFormat::from_name("yaml"), None);
}
