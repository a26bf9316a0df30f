//! The JSON objects an agent event becomes, shared by the `json-events`
//! print feed and the RPC event notifications, so the two cannot drift
//! apart.
//!
//! Every event maps to one object with a `type` discriminant; a finished
//! tool run whose result carries details maps to a second,
//! `tool_execution_end_details` object. Values the event feed does not
//! look into (usage, stop reasons, models, tool arguments, messages) are
//! carried as JSON already serialised by their owners.
use vstd::prelude::*;

verus! {

/// What the feed reads of one agent event.
#[derive(Debug, PartialEq)]
pub enum AgentEventModel {
    /// The agent loop started.
    AgentStart,
    /// The agent loop ended with this many messages.
    AgentEnd {
        /// Number of messages.
        messages: u64,
    },
    /// A turn started.
    TurnStart,
    /// The assistant message started.
    MessageStart {
        /// The model, serialised.
        model: serde_json::Value,
    },
    /// A text delta of the assistant message.
    TextDelta {
        /// The text.
        delta: String,
    },
    /// A thinking delta of the assistant message.
    ThinkingDelta {
        /// The text.
        delta: String,
    },
    /// A tool-call delta of the assistant message.
    ToolCallDelta {
        /// Index of the tool call in the message.
        index: u64,
        /// Tool-call id, serialised.
        id: serde_json::Value,
        /// Tool name, serialised.
        name: serde_json::Value,
        /// Argument text delta, serialised.
        arguments_delta: serde_json::Value,
    },
    /// The assistant message ended.
    MessageEnd {
        /// Its stop reason, serialised.
        stop_reason: serde_json::Value,
        /// Its usage, serialised.
        usage: serde_json::Value,
    },
    /// A tool started running.
    ToolExecutionStart {
        /// Tool-call id.
        id: String,
        /// Tool name.
        name: String,
        /// Arguments, serialised.
        arguments: serde_json::Value,
    },
    /// A tool reported progress.
    ToolExecutionUpdate {
        /// Tool-call id.
        tool_call_id: String,
        /// The progress delta, serialised.
        delta: serde_json::Value,
    },
    /// A tool finished.
    ToolExecutionEnd {
        /// Tool-call id.
        tool_call_id: String,
        /// Whether the result is an error.
        is_error: bool,
        /// Run time in milliseconds.
        duration_ms: u64,
        /// Structured details of the result, when it has any.
        details: Option<serde_json::Value>,
    },
    /// A turn ended.
    TurnEnd {
        /// Usage of the turn's final message, serialised.
        usage: serde_json::Value,
        /// Its stop reason, serialised.
        stop_reason: serde_json::Value,
        /// Number of tool results the turn produced.
        tool_results: u64,
    },
    /// A user message was added.
    UserMessage {
        /// The message, serialised.
        message: serde_json::Value,
    },
    /// The agent loop failed.
    Error {
        /// What went wrong.
        message: String,
    },
}

/// A value inside the nested `assistantMessageEvent` object.
#[derive(Debug, PartialEq)]
pub enum JsonLeaf {
    /// A string.
    Str(String),
    /// A non-negative integer.
    Num(u64),
    /// A value serialised elsewhere.
    Raw(serde_json::Value),
}

/// A member value of an event object.
#[derive(Debug, PartialEq)]
pub enum JsonField {
    /// A string.
    Str(String),
    /// A non-negative integer.
    Num(u64),
    /// A boolean.
    Bool(bool),
    /// A value serialised elsewhere.
    Raw(serde_json::Value),
    /// A nested object.
    Object(Vec<(String, JsonLeaf)>),
}

/// Model of a [`JsonLeaf`].
pub ghost enum LeafView {
    Str(Seq<char>),
    Num(int),
    Raw(serde_json::Value),
}

/// Model of a [`JsonField`].
pub ghost enum FieldView {
    Str(Seq<char>),
    Num(int),
    Bool(bool),
    Raw(serde_json::Value),
    Object(Seq<(Seq<char>, LeafView)>),
}

/// The model of a leaf.
pub open spec fn leaf_view(l: JsonLeaf) -> LeafView {
    match l {
        JsonLeaf::Str(s) => LeafView::Str(s@),
        JsonLeaf::Num(n) => LeafView::Num(n as int),
        JsonLeaf::Raw(v) => LeafView::Raw(v),
    }
}

/// The model of a member value.
pub open spec fn field_view(f: JsonField) -> FieldView {
    match f {
        JsonField::Str(s) => FieldView::Str(s@),
        JsonField::Num(n) => FieldView::Num(n as int),
        JsonField::Bool(b) => FieldView::Bool(b),
        JsonField::Raw(v) => FieldView::Raw(v),
        JsonField::Object(es) => FieldView::Object(
            es@.map_values(|e: (String, JsonLeaf)| (e.0@, leaf_view(e.1))),
        ),
    }
}

/// The model of an object, member by member.
pub open spec fn object_view(o: Seq<(String, JsonField)>) -> Seq<(Seq<char>, FieldView)> {
    o.map_values(|e: (String, JsonField)| (e.0@, field_view(e.1)))
}

/// The models of a list of objects.
pub open spec fn payloads_view(p: Seq<Vec<(String, JsonField)>>) -> Seq<Seq<(Seq<char>, FieldView)>> {
    p.map_values(|o: Vec<(String, JsonField)>| object_view(o@))
}

/// The `type` member.
pub open spec fn tag(t: Seq<char>) -> (Seq<char>, FieldView) {
    ("type"@, FieldView::Str(t))
}

/// The objects the feed writes for `event`; `turn` is the number of the
/// turn the event belongs to and only `turn_end` carries it.
pub open spec fn event_payloads_spec(event: AgentEventModel, turn: u32) -> Seq<Seq<(Seq<char>, FieldView)>> {
    match event {
        AgentEventModel::AgentStart => seq![seq![tag("agent_start"@)]],
        AgentEventModel::AgentEnd { messages } => seq![
            seq![tag("agent_end"@), ("messages"@, FieldView::Num(messages as int))],
        ],
        AgentEventModel::TurnStart => seq![seq![tag("turn_start"@)]],
        AgentEventModel::MessageStart { model } => seq![
            seq![tag("message_start"@), ("model"@, FieldView::Raw(model))],
        ],
        AgentEventModel::TextDelta { delta } => seq![
            seq![
                tag("message_update"@),
                (
                    "assistantMessageEvent"@,
                    FieldView::Object(seq![("type"@, LeafView::Str("text_delta"@)), ("delta"@, LeafView::Str(delta@))]),
                ),
            ],
        ],
        AgentEventModel::ThinkingDelta { delta } => seq![
            seq![
                tag("message_update"@),
                (
                    "assistantMessageEvent"@,
                    FieldView::Object(seq![("type"@, LeafView::Str("thinking_delta"@)), ("delta"@, LeafView::Str(delta@))]),
                ),
            ],
        ],
        AgentEventModel::ToolCallDelta { index, id, name, arguments_delta } => seq![
            seq![
                tag("message_update"@),
                (
                    "assistantMessageEvent"@,
                    FieldView::Object(
                        seq![
                            ("type"@, LeafView::Str("toolcall_delta"@)),
                            ("index"@, LeafView::Num(index as int)),
                            ("id"@, LeafView::Raw(id)),
                            ("name"@, LeafView::Raw(name)),
                            ("arguments_delta"@, LeafView::Raw(arguments_delta)),
                        ],
                    ),
                ),
            ],
        ],
        AgentEventModel::MessageEnd { stop_reason, usage } => seq![
            seq![tag("message_end"@), ("stop_reason"@, FieldView::Raw(stop_reason)), ("usage"@, FieldView::Raw(usage))],
        ],
        AgentEventModel::ToolExecutionStart { id, name, arguments } => seq![
            seq![
                tag("tool_execution_start"@),
                ("id"@, FieldView::Str(id@)),
                ("name"@, FieldView::Str(name@)),
                ("arguments"@, FieldView::Raw(arguments)),
            ],
        ],
        AgentEventModel::ToolExecutionUpdate { tool_call_id, delta } => seq![
            seq![
                tag("tool_execution_update"@),
                ("tool_call_id"@, FieldView::Str(tool_call_id@)),
                ("delta"@, FieldView::Raw(delta)),
            ],
        ],
        AgentEventModel::ToolExecutionEnd { tool_call_id, is_error, duration_ms, details } => {
            let end = seq![
                tag("tool_execution_end"@),
                ("tool_call_id"@, FieldView::Str(tool_call_id@)),
                ("is_error"@, FieldView::Bool(is_error)),
                ("duration_ms"@, FieldView::Num(duration_ms as int)),
            ];
            match details {
                Some(d) => seq![
                    end,
                    seq![
                        tag("tool_execution_end_details"@),
                        ("tool_call_id"@, FieldView::Str(tool_call_id@)),
                        ("details"@, FieldView::Raw(d)),
                    ],
                ],
                None => seq![end],
            }
        },
        AgentEventModel::TurnEnd { usage, stop_reason, tool_results } => seq![
            seq![
                tag("turn_end"@),
                ("turn"@, FieldView::Num(turn as int)),
                ("usage"@, FieldView::Raw(usage)),
                ("stop_reason"@, FieldView::Raw(stop_reason)),
                ("tool_results"@, FieldView::Num(tool_results as int)),
            ],
        ],
        AgentEventModel::UserMessage { message } => seq![
            seq![tag("user_message"@), ("message"@, FieldView::Raw(message))],
        ],
        AgentEventModel::Error { message } => seq![
            seq![tag("error"@), ("message"@, FieldView::Str(message@))],
        ],
    }
}

/// A member of an object.
fn member(key: &str, value: JsonField) -> (r: (String, JsonField))
    ensures
        r.0@ == key@,
        r.1 == value,
{
    (String::from_str(key), value)
}

/// The `type` member with text `t`.
fn type_member(t: &str) -> (r: (String, JsonField))
    ensures
        (r.0@, field_view(r.1)) == tag(t@),
{
    proof {
        reveal_strlit("type");
    }
    let r = (String::from_str("type"), JsonField::Str(String::from_str(t)));
    assert(r.0@ == "type"@);
    r
}

/// A member of the nested object.
fn leaf(key: &str, value: JsonLeaf) -> (r: (String, JsonLeaf))
    ensures
        r.0@ == key@,
        r.1 == value,
{
    (String::from_str(key), value)
}

/// An object of 1 member(s), in order.
fn object1(m0: (String, JsonField)) -> (r: Vec<(String, JsonField)>)
    ensures
        object_view(r@) == seq![(m0.0@, field_view(m0.1))],
{
    let r = vec![m0];
    assert(object_view(r@) =~~= seq![(m0.0@, field_view(m0.1))]);
    r
}

/// An object of 2 member(s), in order.
fn object2(m0: (String, JsonField), m1: (String, JsonField)) -> (r: Vec<(String, JsonField)>)
    ensures
        object_view(r@) == seq![(m0.0@, field_view(m0.1)), (m1.0@, field_view(m1.1))],
{
    let r = vec![m0, m1];
    assert(object_view(r@) =~~= seq![(m0.0@, field_view(m0.1)), (m1.0@, field_view(m1.1))]);
    r
}

/// An object of 3 member(s), in order.
fn object3(m0: (String, JsonField), m1: (String, JsonField), m2: (String, JsonField)) -> (r: Vec<(String, JsonField)>)
    ensures
        object_view(r@) == seq![(m0.0@, field_view(m0.1)), (m1.0@, field_view(m1.1)), (m2.0@, field_view(m2.1))],
{
    let r = vec![m0, m1, m2];
    assert(object_view(r@) =~~= seq![(m0.0@, field_view(m0.1)), (m1.0@, field_view(m1.1)), (m2.0@, field_view(m2.1))]);
    r
}

/// An object of 4 member(s), in order.
fn object4(m0: (String, JsonField), m1: (String, JsonField), m2: (String, JsonField), m3: (String, JsonField)) -> (r: Vec<(String, JsonField)>)
    ensures
        object_view(r@) == seq![(m0.0@, field_view(m0.1)), (m1.0@, field_view(m1.1)), (m2.0@, field_view(m2.1)), (m3.0@, field_view(m3.1))],
{
    let r = vec![m0, m1, m2, m3];
    assert(object_view(r@) =~~= seq![(m0.0@, field_view(m0.1)), (m1.0@, field_view(m1.1)), (m2.0@, field_view(m2.1)), (m3.0@, field_view(m3.1))]);
    r
}

/// An object of 5 member(s), in order.
fn object5(m0: (String, JsonField), m1: (String, JsonField), m2: (String, JsonField), m3: (String, JsonField), m4: (String, JsonField)) -> (r: Vec<(String, JsonField)>)
    ensures
        object_view(r@) == seq![(m0.0@, field_view(m0.1)), (m1.0@, field_view(m1.1)), (m2.0@, field_view(m2.1)), (m3.0@, field_view(m3.1)), (m4.0@, field_view(m4.1))],
{
    let r = vec![m0, m1, m2, m3, m4];
    assert(object_view(r@) =~~= seq![(m0.0@, field_view(m0.1)), (m1.0@, field_view(m1.1)), (m2.0@, field_view(m2.1)), (m3.0@, field_view(m3.1)), (m4.0@, field_view(m4.1))]);
    r
}

/// A nested object of 2 members, in order.
fn nested2(m0: (String, JsonLeaf), m1: (String, JsonLeaf)) -> (r: JsonField)
    ensures
        field_view(r) == FieldView::Object(seq![(m0.0@, leaf_view(m0.1)), (m1.0@, leaf_view(m1.1))]),
{
    let v = vec![m0, m1];
    let r = JsonField::Object(v);
    assert(field_view(r)->Object_0 =~~= seq![(m0.0@, leaf_view(m0.1)), (m1.0@, leaf_view(m1.1))]);
    r
}

/// A nested object of 5 members, in order.
fn nested5(m0: (String, JsonLeaf), m1: (String, JsonLeaf), m2: (String, JsonLeaf), m3: (String, JsonLeaf), m4: (String, JsonLeaf)) -> (r: JsonField)
    ensures
        field_view(r) == FieldView::Object(seq![(m0.0@, leaf_view(m0.1)), (m1.0@, leaf_view(m1.1)), (m2.0@, leaf_view(m2.1)), (m3.0@, leaf_view(m3.1)), (m4.0@, leaf_view(m4.1))]),
{
    let v = vec![m0, m1, m2, m3, m4];
    let r = JsonField::Object(v);
    assert(field_view(r)->Object_0 =~~= seq![(m0.0@, leaf_view(m0.1)), (m1.0@, leaf_view(m1.1)), (m2.0@, leaf_view(m2.1)), (m3.0@, leaf_view(m3.1)), (m4.0@, leaf_view(m4.1))]);
    r
}

/// One object.
fn one(o: Vec<(String, JsonField)>) -> (r: Vec<Vec<(String, JsonField)>>)
    ensures
        payloads_view(r@) == seq![object_view(o@)],
{
    let ghost ov = object_view(o@);
    let r = vec![o];
    assert(payloads_view(r@) =~= seq![ov]);
    r
}

/// Two objects, in order.
fn two(a: Vec<(String, JsonField)>, b: Vec<(String, JsonField)>) -> (r: Vec<Vec<(String, JsonField)>>)
    ensures
        payloads_view(r@) == seq![object_view(a@), object_view(b@)],
{
    let ghost av = object_view(a@);
    let ghost bv = object_view(b@);
    let r = vec![a, b];
    assert(payloads_view(r@) =~= seq![av, bv]);
    r
}

/// The JSON objects the `json-events` feed and the RPC event
/// notifications write for `event` (see [`event_payloads_spec`]).
pub fn event_payloads(event: AgentEventModel, turn: u32) -> (r: Vec<Vec<(String, JsonField)>>)
    ensures
        payloads_view(r@) == event_payloads_spec(event, turn),
{
    match event {
        AgentEventModel::AgentStart => one(object1(type_member("agent_start"))),
        AgentEventModel::AgentEnd { messages } => one(
            object2(type_member("agent_end"), member("messages", JsonField::Num(messages))),
        ),
        AgentEventModel::TurnStart => one(object1(type_member("turn_start"))),
        AgentEventModel::MessageStart { model } => one(
            object2(type_member("message_start"), member("model", JsonField::Raw(model))),
        ),
        AgentEventModel::TextDelta { delta } => one(
            object2(
                type_member("message_update"),
                member(
                    "assistantMessageEvent",
                    nested2(leaf("type", JsonLeaf::Str(String::from_str("text_delta"))), leaf("delta", JsonLeaf::Str(delta))),
                ),
            ),
        ),
        AgentEventModel::ThinkingDelta { delta } => one(
            object2(
                type_member("message_update"),
                member(
                    "assistantMessageEvent",
                    nested2(leaf("type", JsonLeaf::Str(String::from_str("thinking_delta"))), leaf("delta", JsonLeaf::Str(delta))),
                ),
            ),
        ),
        AgentEventModel::ToolCallDelta { index, id, name, arguments_delta } => one(
            object2(
                type_member("message_update"),
                member(
                    "assistantMessageEvent",
                    nested5(
                        leaf("type", JsonLeaf::Str(String::from_str("toolcall_delta"))),
                        leaf("index", JsonLeaf::Num(index)),
                        leaf("id", JsonLeaf::Raw(id)),
                        leaf("name", JsonLeaf::Raw(name)),
                        leaf("arguments_delta", JsonLeaf::Raw(arguments_delta)),
                    ),
                ),
            ),
        ),
        AgentEventModel::MessageEnd { stop_reason, usage } => one(
            object3(
                type_member("message_end"),
                member("stop_reason", JsonField::Raw(stop_reason)),
                member("usage", JsonField::Raw(usage)),
            ),
        ),
        AgentEventModel::ToolExecutionStart { id, name, arguments } => one(
            object4(
                type_member("tool_execution_start"),
                member("id", JsonField::Str(id)),
                member("name", JsonField::Str(name)),
                member("arguments", JsonField::Raw(arguments)),
            ),
        ),
        AgentEventModel::ToolExecutionUpdate { tool_call_id, delta } => one(
            object3(
                type_member("tool_execution_update"),
                member("tool_call_id", JsonField::Str(tool_call_id)),
                member("delta", JsonField::Raw(delta)),
            ),
        ),
        AgentEventModel::ToolExecutionEnd { tool_call_id, is_error, duration_ms, details } => {
            let end = object4(
                type_member("tool_execution_end"),
                member("tool_call_id", JsonField::Str(tool_call_id.clone())),
                member("is_error", JsonField::Bool(is_error)),
                member("duration_ms", JsonField::Num(duration_ms)),
            );
            match details {
                Some(d) => two(
                    end,
                    object3(
                        type_member("tool_execution_end_details"),
                        member("tool_call_id", JsonField::Str(tool_call_id)),
                        member("details", JsonField::Raw(d)),
                    ),
                ),
                None => one(end),
            }
        },
        AgentEventModel::TurnEnd { usage, stop_reason, tool_results } => one(
            object5(
                type_member("turn_end"),
                member("turn", JsonField::Num(turn as u64)),
                member("usage", JsonField::Raw(usage)),
                member("stop_reason", JsonField::Raw(stop_reason)),
                member("tool_results", JsonField::Num(tool_results)),
            ),
        ),
        AgentEventModel::UserMessage { message } => one(
            object2(type_member("user_message"), member("message", JsonField::Raw(message))),
        ),
        AgentEventModel::Error { message } => one(
            object2(type_member("error"), member("message", JsonField::Str(message))),
        ),
    }
}

} // verus!
