use pi_coding_agent::print_mode::{
    agent_error_report, end_outcome, tick_outcome, ErrorReport, OutputFormat, PrintModeError, RunState,
};

#[test]
fn a_second_interrupt_beats_the_turn_cap() {
    let mut state = RunState::new(OutputFormat::Text, 1);
    assert_eq!(tick_outcome(false, &state), None);
    state.turn_ended();
    assert_eq!(tick_outcome(false, &state), Some(PrintModeError::MaxTurnsExceeded { max: 1 }));
    assert_eq!(tick_outcome(true, &state), Some(PrintModeError::Interrupted));
    let unlimited = RunState::new(OutputFormat::Text, 0);
    assert_eq!(tick_outcome(false, &unlimited), None);
}

#[test]
fn interrupts_win_over_terminations_and_agent_errors() {
    assert_eq!(end_outcome(true, true, Some("boom".into())), Err(PrintModeError::Interrupted));
    assert_eq!(end_outcome(false, true, Some("boom".into())), Err(PrintModeError::Terminated));
    assert_eq!(
        end_outcome(false, false, Some("boom".into())),
        Err(PrintModeError::Agent("boom".into()))
    );
    assert_eq!(end_outcome(false, false, None), Ok(()));
    assert_eq!(PrintModeError::Interrupted.exit_code(), 130);
    assert_eq!(PrintModeError::Terminated.exit_code(), 143);
    assert_eq!(PrintModeError::Agent("x".into()).exit_code(), 70);
}

#[test]
fn agent_errors_go_to_stdout_as_json_or_to_stderr() {
    let report = agent_error_report(OutputFormat::Json, "boom \"quoted\"\n");
    let expected: serde_json::Value =
        serde_json::from_str(r#"{"error":{"type":"agent","message":"boom \"quoted\"\n"}}"#).unwrap();
    assert_eq!(report, ErrorReport::Stdout(expected.to_string()));
    assert_eq!(
        report,
        ErrorReport::Stdout(r#"{"error":{"message":"boom \"quoted\"\n","type":"agent"}}"#.to_string())
    );
    assert_eq!(
        agent_error_report(OutputFormat::Text, "boom"),
        ErrorReport::Stderr("pi: agent error: boom".to_string())
    );
    assert_eq!(
        agent_error_report(OutputFormat::JsonEvents, "boom"),
        ErrorReport::Stderr("pi: agent error: boom".to_string())
    );
}

#[test]
fn agent_error_messages_are_escaped_as_serde_json_escapes_them() {
    let message = "q\" b\\ \u{8}\u{c}\n\r\t \u{1}\u{1f} é\u{7f}";
    let report = agent_error_report(OutputFormat::Json, message);
    assert_eq!(
        report,
        ErrorReport::Stdout(
            "{\"error\":{\"message\":\"q\\\" b\\\\ \\b\\f\\n\\r\\t \\u0001\\u001f é\u{7f}\",\"type\":\"agent\"}}"
                .to_string()
        )
    );
    let expected: serde_json::Value = serde_json::from_str(match &report {
        ErrorReport::Stdout(line) => line,
        ErrorReport::Stderr(line) => line,
    })
    .unwrap();
    assert_eq!(expected["error"]["message"], message);
}
