use pi_coding_agent::prompt_templates::{PromptTemplate, PromptTemplateSource};
use pi_coding_agent::rpc::codes;
use pi_coding_agent::rpc::server::{
    method_of, set_model_target, AbortStep, DoneStep, Method, PromptStep, ServerState, TurnReport,
};
use pi_coding_agent::rpc::SetModelParams;
use serde_json::Value;

fn template(name: &str, content: &str) -> PromptTemplate {
    PromptTemplate {
        name: name.to_string(),
        description: String::new(),
        argument_hint: None,
        content: content.to_string(),
        file_path: format!("/prompts/{name}.md"),
        source: PromptTemplateSource::User,
    }
}

fn report(generation: u64, turn: u32, error: Option<&str>) -> TurnReport {
    TurnReport {
        generation,
        turn,
        stop_reason: "end_turn".to_string(),
        error: error.map(|e| e.to_string()),
    }
}

fn start(state: &mut ServerState, id: Option<Value>, text: &str) -> PromptStep {
    state.begin_prompt(id, Ok(text.to_string()), &[])
}

#[test]
fn methods_dispatch_by_name() {
    assert_eq!(method_of("prompt"), Method::Prompt);
    assert_eq!(method_of("abort"), Method::Abort);
    assert_eq!(method_of("getState"), Method::GetState);
    assert_eq!(method_of("get_state"), Method::GetState);
    assert_eq!(method_of("setModel"), Method::SetModel);
    assert_eq!(method_of("set_model"), Method::SetModel);
    assert_eq!(method_of("Prompt"), Method::Unknown);
    assert_eq!(method_of("bogus"), Method::Unknown);
}

#[test]
fn blank_lines_are_not_counted() {
    let mut state = ServerState::new();
    assert!(!state.count_line("   "));
    assert!(!state.count_line(""));
    assert!(state.count_line(" {} "));
    assert_eq!(state.requests, 1);
}

#[test]
fn abort_without_a_turn_is_idempotent() {
    let mut state = ServerState::new();
    assert_eq!(state.abort(), AbortStep::Idle);
    assert!(state.current.is_none());
    assert_eq!(state, ServerState::new());
}

#[test]
fn a_second_prompt_is_refused_as_busy() {
    let mut state = ServerState::new();
    match start(&mut state, Some(Value::from(1)), "hello") {
        PromptStep::Started { generation, text } => {
            assert_eq!(generation, 1);
            assert_eq!(text, "hello");
        }
        other => panic!("expected a start, got {other:?}"),
    }
    let before = state.clone();
    match start(&mut state, Some(Value::from(2)), "again") {
        PromptStep::Refused(e) => {
            assert_eq!(e.code, codes::BUSY);
            assert_eq!(e.message, "a turn is already in flight; wait for turn_end or send abort");
        }
        other => panic!("expected busy, got {other:?}"),
    }
    assert_eq!(state, before);
}

#[test]
fn undecodable_and_blank_prompts_are_invalid_params() {
    let mut state = ServerState::new();
    match state.begin_prompt(None, Err("missing field `text`".to_string()), &[]) {
        PromptStep::Refused(e) => {
            assert_eq!(e.code, codes::INVALID_PARAMS);
            assert_eq!(e.message, "prompt: missing field `text`");
        }
        other => panic!("unexpected {other:?}"),
    }
    match start(&mut state, None, "  \n ") {
        PromptStep::Refused(e) => {
            assert_eq!(e.code, codes::INVALID_PARAMS);
            assert_eq!(e.message, "prompt: \"text\" must be non-empty");
        }
        other => panic!("unexpected {other:?}"),
    }
    assert_eq!(state, ServerState::new());
}

#[test]
fn prompts_expand_templates() {
    let mut state = ServerState::new();
    let templates = vec![template("greet", "Hello $1 from $2!")];
    match state.begin_prompt(None, Ok("/greet alice bob".to_string()), &templates) {
        PromptStep::Started { text, .. } => assert_eq!(text, "Hello alice from bob!"),
        other => panic!("unexpected {other:?}"),
    }
}

#[test]
fn abort_abandons_the_turn_and_its_report_is_ignored() {
    let mut state = ServerState::new();
    start(&mut state, Some(Value::from(7)), "work");
    assert_eq!(state.abort(), AbortStep::Aborted { turn: 1 });
    assert_eq!(state.turns, 1);
    assert!(state.current.is_none());
    assert_eq!(state.abort(), AbortStep::Idle);

    start(&mut state, Some(Value::from(8)), "more work");
    assert_eq!(state.in_flight(), Some(2));
    let before = state.clone();
    assert_eq!(state.finish_turn(Some(report(1, 1, None))), DoneStep::Ignored);
    assert_eq!(state, before);
}

#[test]
fn a_finished_turn_answers_its_request() {
    let mut state = ServerState::new();
    start(&mut state, Some(Value::from("req-1")), "work");
    assert_eq!(state.record_turn_end(), 1);
    let step = state.finish_turn(Some(report(1, 1, None)));
    assert_eq!(
        step,
        DoneStep::Reply { id: Value::from("req-1"), outcome: Ok((1, "end_turn".to_string())) }
    );
    assert_eq!(state.in_flight(), None);
    match start(&mut state, None, "next") {
        PromptStep::Started { generation, .. } => assert_eq!(generation, 2),
        other => panic!("unexpected {other:?}"),
    }
}

#[test]
fn a_failed_turn_answers_with_an_internal_error() {
    let mut state = ServerState::new();
    start(&mut state, Some(Value::from(3)), "work");
    match state.finish_turn(Some(report(1, 0, Some("boom")))) {
        DoneStep::Reply { id, outcome: Err(e) } => {
            assert_eq!(id, Value::from(3));
            assert_eq!(e.code, codes::INTERNAL_ERROR);
            assert_eq!(e.message, "boom");
        }
        other => panic!("unexpected {other:?}"),
    }
}

#[test]
fn notifications_and_vanished_tasks_only_free_the_slot() {
    let mut state = ServerState::new();
    start(&mut state, None, "work");
    assert_eq!(state.finish_turn(Some(report(1, 1, None))), DoneStep::Released);
    start(&mut state, Some(Value::from(1)), "work");
    assert_eq!(state.finish_turn(None), DoneStep::Released);
    assert!(state.current.is_none());
}

fn params(model: Option<&str>, provider: Option<&str>, model_id: Option<&str>) -> SetModelParams {
    SetModelParams {
        model: model.map(|s| s.to_string()),
        provider: provider.map(|s| s.to_string()),
        model_id: model_id.map(|s| s.to_string()),
    }
}

#[test]
fn set_model_targets_and_refusals() {
    let catalog = vec![
        ("faux".to_string(), "faux-model".to_string()),
        ("anthropic".to_string(), "sonnet-4-5".to_string()),
    ];
    assert_eq!(
        set_model_target(&catalog, Ok(params(Some("anthropic/sonnet-4-5"), None, None))),
        Ok(1)
    );
    let e = set_model_target(&catalog, Ok(params(Some("nope/nope"), None, None))).unwrap_err();
    assert_eq!(e.code, codes::INVALID_PARAMS);
    assert_eq!(e.message, "setModel: unknown model (nope/nope)");
    let e = set_model_target(&catalog, Ok(params(None, Some("faux"), None))).unwrap_err();
    assert_eq!(e.message, "setModel: unknown model (faux/?)");
    let e = set_model_target(&catalog, Err("invalid type: string".to_string())).unwrap_err();
    assert_eq!(e.code, codes::INVALID_PARAMS);
    assert_eq!(e.message, "setModel: invalid type: string");
}

#[test]
fn the_outcome_counts_lines_and_turns() {
    let mut state = ServerState::new();
    assert!(state.count_line("{}"));
    start(&mut state, None, "work");
    state.abort();
    let outcome = state.outcome();
    assert_eq!(outcome.requests, 1);
    assert_eq!(outcome.turns, 1);
}
