use pi_coding_agent::rpc::events::{event_payloads, AgentEventModel, JsonField, JsonLeaf};
use serde_json::Value;

fn s(text: &str) -> String {
    text.to_string()
}

#[test]
fn turn_start_uses_stage8_shape() {
    let payloads = event_payloads(AgentEventModel::TurnStart, 0);
    assert_eq!(payloads, vec![vec![(s("type"), JsonField::Str(s("turn_start")))]]);
}

#[test]
fn text_delta_wraps_in_message_update() {
    let payloads = event_payloads(AgentEventModel::TextDelta { delta: s("hi") }, 1);
    assert_eq!(
        payloads,
        vec![vec![
            (s("type"), JsonField::Str(s("message_update"))),
            (
                s("assistantMessageEvent"),
                JsonField::Object(vec![
                    (s("type"), JsonLeaf::Str(s("text_delta"))),
                    (s("delta"), JsonLeaf::Str(s("hi"))),
                ])
            ),
        ]]
    );
}

#[test]
fn turn_end_carries_the_supplied_turn_number() {
    let event = AgentEventModel::TurnEnd {
        usage: Value::Null,
        stop_reason: Value::from("stop"),
        tool_results: 0,
    };
    let payloads = event_payloads(event, 3);
    assert_eq!(payloads.len(), 1);
    assert_eq!(payloads[0][0], (s("type"), JsonField::Str(s("turn_end"))));
    assert_eq!(payloads[0][1], (s("turn"), JsonField::Num(3)));
    assert_eq!(payloads[0][4], (s("tool_results"), JsonField::Num(0)));
}

#[test]
fn tool_execution_end_with_details_emits_two_objects() {
    let event = AgentEventModel::ToolExecutionEnd {
        tool_call_id: s("call-1"),
        is_error: false,
        duration_ms: 12,
        details: Some(Value::from(3)),
    };
    let payloads = event_payloads(event, 0);
    assert_eq!(payloads.len(), 2);
    assert_eq!(payloads[0][0], (s("type"), JsonField::Str(s("tool_execution_end"))));
    assert_eq!(payloads[0][3], (s("duration_ms"), JsonField::Num(12)));
    assert_eq!(payloads[1][0], (s("type"), JsonField::Str(s("tool_execution_end_details"))));
    assert_eq!(payloads[1][2], (s("details"), JsonField::Raw(Value::from(3))));
    let without = AgentEventModel::ToolExecutionEnd {
        tool_call_id: s("call-1"),
        is_error: true,
        duration_ms: 1,
        details: None,
    };
    assert_eq!(event_payloads(without, 0).len(), 1);
}

#[test]
fn every_other_event_has_its_type_tag() {
    let cases = vec![
        (AgentEventModel::AgentStart, "agent_start"),
        (AgentEventModel::AgentEnd { messages: 2 }, "agent_end"),
        (AgentEventModel::MessageStart { model: Value::from("m") }, "message_start"),
        (AgentEventModel::ThinkingDelta { delta: s("t") }, "message_update"),
        (
            AgentEventModel::ToolCallDelta {
                index: 0,
                id: Value::Null,
                name: Value::Null,
                arguments_delta: Value::from("{"),
            },
            "message_update",
        ),
        (AgentEventModel::MessageEnd { stop_reason: Value::Null, usage: Value::Null }, "message_end"),
        (
            AgentEventModel::ToolExecutionStart { id: s("c"), name: s("bash"), arguments: Value::Null },
            "tool_execution_start",
        ),
        (
            AgentEventModel::ToolExecutionUpdate { tool_call_id: s("c"), delta: Value::Null },
            "tool_execution_update",
        ),
        (AgentEventModel::UserMessage { message: Value::Null }, "user_message"),
        (AgentEventModel::Error { message: s("boom") }, "error"),
    ];
    for (event, tag) in cases {
        let payloads = event_payloads(event, 0);
        assert_eq!(payloads.len(), 1);
        assert_eq!(payloads[0][0], (s("type"), JsonField::Str(s(tag))));
    }
}
