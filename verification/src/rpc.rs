//! RPC mode — JSON-RPC 2.0 over stdio: the error payloads and their codes,
//! the validation of an incoming frame and the request / notification it
//! becomes, the `setModel` reference and its resolution against the
//! catalog, and the client and server error surfaces.
//!
//! Reading stdin, decoding each line as JSON and writing stdout is the
//! caller's job; it hands this module the decoded values.
use vstd::prelude::*;

use crate::text::{chars_of, find_char_exec, find_char, push_str, string_of, equals_lit};

pub mod codes;
pub mod server;
pub mod events;

verus! {

/// A JSON value carried through untouched (the optional `data` of an
/// error).
#[verifier::external_type_specification]
#[verifier::external_body]
pub struct ExJsonValue(serde_json::Value);

/// JSON-RPC error object: `{ "code", "message", "data" }`, `data` omitted
/// when absent.
#[derive(Debug, Clone, PartialEq)]
pub struct JsonRpcError {
    /// Numeric error code (see [`codes`]).
    pub code: i64,
    /// Human-readable message.
    pub message: String,
    /// Optional structured detail.
    pub data: Option<serde_json::Value>,
}

impl JsonRpcError {
    /// An error with an explicit code.
    pub fn new(code: i64, message: String) -> (r: Self)
        ensures
            r.code == code,
            r.message@ == message@,
            r.data is None,
    {
        JsonRpcError { code, message, data: None }
    }

    /// `-32700` — the line was not valid JSON.
    pub fn parse_error(message: String) -> (r: Self)
        ensures
            r.code == codes::PARSE_ERROR,
            r.message@ == message@,
            r.data is None,
    {
        Self::new(codes::PARSE_ERROR, message)
    }

    /// `-32600` — valid JSON, malformed JSON-RPC frame.
    pub fn invalid_request(message: String) -> (r: Self)
        ensures
            r.code == codes::INVALID_REQUEST,
            r.message@ == message@,
            r.data is None,
    {
        Self::new(codes::INVALID_REQUEST, message)
    }

    /// `-32601` — unknown method.
    pub fn method_not_found(method: &str) -> (r: Self)
        ensures
            r.code == codes::METHOD_NOT_FOUND,
            r.message@ == "method not found: "@ + method@,
            r.data is None,
    {
        let mut m = String::from_str("method not found: ");
        m.append(method);
        Self::new(codes::METHOD_NOT_FOUND, m)
    }

    /// `-32602` — params did not match the method's schema.
    pub fn invalid_params(message: String) -> (r: Self)
        ensures
            r.code == codes::INVALID_PARAMS,
            r.message@ == message@,
            r.data is None,
    {
        Self::new(codes::INVALID_PARAMS, message)
    }

    /// `-32603` — internal failure (agent error, provider error, ...).
    pub fn internal(message: String) -> (r: Self)
        ensures
            r.code == codes::INTERNAL_ERROR,
            r.message@ == message@,
            r.data is None,
    {
        Self::new(codes::INTERNAL_ERROR, message)
    }

    /// `-32000` — a turn is already running.
    pub fn busy() -> (r: Self)
        ensures
            r.code == codes::BUSY,
            r.message@ == "a turn is already in flight; wait for turn_end or send abort"@,
            r.data is None,
    {
        Self::new(codes::BUSY, String::from_str("a turn is already in flight; wait for turn_end or send abort"))
    }

    /// Attach structured detail to the error.
    pub fn with_data(self, data: serde_json::Value) -> (r: Self)
        ensures
            r.code == self.code,
            r.message == self.message,
            r.data == Some(data),
    {
        JsonRpcError { code: self.code, message: self.message, data: Some(data) }
    }
}

/// Outcome of a completed RPC session.
#[derive(Debug, Clone, Default, PartialEq, Eq)]
pub struct RpcOutcome {
    /// Number of non-empty stdin lines the server processed.
    pub requests: u64,
    /// Completed turns (including turns ended by `abort`).
    pub turns: u32,
}

/// How the child's stdin is wired up.
#[derive(Debug, Clone, Copy, PartialEq, Eq)]
pub enum StdinMode {
    /// A pipe the client writes JSON-RPC requests to (the default).
    Piped,
    /// `/dev/null` — immediate EOF, nothing can be written.
    Null,
}

// ---------------------------------------------------------------------------
// Incoming frames
// ---------------------------------------------------------------------------

/// The JSON type of a member, with the text of a string.
#[derive(Debug, Clone, PartialEq, Eq)]
pub enum JsonKind {
    /// `null`.
    Null,
    /// `true` / `false`.
    Bool,
    /// A number.
    Number,
    /// A string.
    Str(String),
    /// An array.
    Array,
    /// An object.
    Object,
}

/// What validation reads of a decoded frame: whether it is an object, and
/// the JSON type of each member it looks at (`None` when absent).
#[derive(Debug, Clone, PartialEq, Eq)]
pub struct FrameShape {
    /// The frame is a JSON object.
    pub is_object: bool,
    /// The `jsonrpc` member.
    pub jsonrpc: Option<JsonKind>,
    /// The `method` member.
    pub method: Option<JsonKind>,
    /// The `id` member.
    pub id: Option<JsonKind>,
    /// The `params` member.
    pub params: Option<JsonKind>,
}

/// The protocol version every frame must name.
pub const JSONRPC_VERSION: &'static str = "2.0";

/// The reason a frame is not a JSON-RPC 2.0 request or notification, in
/// the order the checks run; `None` when it is one.
pub open spec fn frame_problem(f: FrameShape) -> Option<Seq<char>> {
    if !f.is_object {
        Some("message must be a JSON object"@)
    } else if !(f.jsonrpc matches Some(JsonKind::Str(v)) && v@ == JSONRPC_VERSION@) && (f.jsonrpc matches Some(JsonKind::Str(_))) {
        match f.jsonrpc {
            Some(JsonKind::Str(v)) => Some("unsupported jsonrpc version: "@ + v@),
            _ => None,
        }
    } else if !(f.jsonrpc matches Some(JsonKind::Str(_))) {
        Some("missing \"jsonrpc\": \"2.0\" member"@)
    } else if f.method is None {
        Some("missing \"method\" member"@)
    } else if !(f.method matches Some(JsonKind::Str(m)) && m@.len() > 0) {
        Some("\"method\" must be a non-empty string"@)
    } else if f.id is Some && !(f.id matches Some(JsonKind::Str(_)) || f.id == Some(JsonKind::Number)
        || f.id == Some(JsonKind::Null)) {
        Some("\"id\" must be a string, number, or null"@)
    } else if f.params is Some && !(f.params == Some(JsonKind::Object) || f.params == Some(
        JsonKind::Array,
    )) {
        Some("\"params\" must be an object or array when present"@)
    } else {
        None
    }
}

/// Validate a decoded frame as a JSON-RPC request or notification.
///
/// On success, says whether the frame is a request (it has an `id`) or a
/// notification; otherwise returns the `-32600` error to answer with.
pub fn validate_frame(frame: &FrameShape) -> (r: Result<bool, JsonRpcError>)
    ensures
        match r {
            Ok(is_request) => frame_problem(*frame) is None && is_request == frame.id is Some,
            Err(e) => frame_problem(*frame) == Some(e.message@) && e.code == codes::INVALID_REQUEST
                && e.data is None,
        },
{
    if !frame.is_object {
        return Err(JsonRpcError::invalid_request(String::from_str("message must be a JSON object")));
    }
    match &frame.jsonrpc {
        Some(JsonKind::Str(v)) => {
            if !equals_lit(&chars_of(v.as_str()), JSONRPC_VERSION) {
                let mut m = String::from_str("unsupported jsonrpc version: ");
                m.append(v.as_str());
                return Err(JsonRpcError::invalid_request(m));
            }
        },
        _ => {
            return Err(JsonRpcError::invalid_request(String::from_str("missing \"jsonrpc\": \"2.0\" member")));
        },
    }
    match &frame.method {
        None => {
            return Err(JsonRpcError::invalid_request(String::from_str("missing \"method\" member")));
        },
        Some(JsonKind::Str(m)) if m.unicode_len() > 0 => {},
        Some(_) => {
            return Err(JsonRpcError::invalid_request(String::from_str("\"method\" must be a non-empty string")));
        },
    }
    match &frame.id {
        Some(JsonKind::Str(_)) | Some(JsonKind::Number) | Some(JsonKind::Null) | None => {},
        Some(_) => {
            return Err(JsonRpcError::invalid_request(String::from_str("\"id\" must be a string, number, or null")));
        },
    }
    match &frame.params {
        Some(JsonKind::Object) | Some(JsonKind::Array) | None => {},
        Some(_) => {
            return Err(JsonRpcError::invalid_request(String::from_str("\"params\" must be an object or array when present")));
        },
    }
    Ok(frame.id.is_some())
}

// ---------------------------------------------------------------------------
// Decoded frames
// ---------------------------------------------------------------------------

/// The JSON type of a value, with the text of a string, as the variant
/// of `serde_json::Value` it is.
pub uninterp spec fn json_kind_of(v: serde_json::Value) -> JsonKind;

/// The member `key` of a value, as `serde_json::Value::get` finds it.
pub uninterp spec fn json_member_of(v: serde_json::Value, key: Seq<char>) -> Option<serde_json::Value>;

/// The JSON type of `v`, with the text of a string.
///
/// Tells the variants of `serde_json::Value` apart, one arm each, copying
/// the text of a string; the result is named [`json_kind_of`], a function
/// of the value alone.
#[verifier::external_body]
fn json_kind(v: &serde_json::Value) -> (r: JsonKind)
    ensures
        r == json_kind_of(*v),
{
    match v {
        serde_json::Value::Null => JsonKind::Null,
        serde_json::Value::Bool(_) => JsonKind::Bool,
        serde_json::Value::Number(_) => JsonKind::Number,
        serde_json::Value::String(s) => JsonKind::Str(s.clone()),
        serde_json::Value::Array(_) => JsonKind::Array,
        serde_json::Value::Object(_) => JsonKind::Object,
    }
}

/// A copy of the member `key` of `v` (`None` when `v` is no object or has
/// no such member).
///
/// Calls `serde_json::Value::get` and clones what it finds; the result is
/// named [`json_member_of`], a function of the value and the key alone.
#[verifier::external_body]
fn json_member(v: &serde_json::Value, key: &str) -> (r: Option<serde_json::Value>)
    ensures
        r == json_member_of(*v, key@),
{
    v.get(key).cloned()
}

/// The JSON type of member `key` of `v`, `None` when absent.
pub open spec fn member_kind_spec(v: serde_json::Value, key: Seq<char>) -> Option<JsonKind> {
    match json_member_of(v, key) {
        Some(m) => Some(json_kind_of(m)),
        None => None,
    }
}

/// The JSON type of a member, `None` when absent.
fn member_kind(v: &serde_json::Value, key: &str) -> (r: Option<JsonKind>)
    ensures
        r == member_kind_spec(*v, key@),
{
    match json_member(v, key) {
        Some(m) => Some(json_kind(&m)),
        None => None,
    }
}

/// What validation reads of a decoded frame.
pub open spec fn frame_shape_spec(v: serde_json::Value) -> FrameShape {
    FrameShape {
        is_object: json_kind_of(v) == JsonKind::Object,
        jsonrpc: member_kind_spec(v, "jsonrpc"@),
        method: member_kind_spec(v, "method"@),
        id: member_kind_spec(v, "id"@),
        params: member_kind_spec(v, "params"@),
    }
}

/// Member `key` of `v` as an optional field: absent and `null` both give
/// `None`.
pub open spec fn optional_member_spec(v: serde_json::Value, key: Seq<char>) -> Option<serde_json::Value> {
    match json_member_of(v, key) {
        Some(m) => if json_kind_of(m) == JsonKind::Null {
            None
        } else {
            Some(m)
        },
        None => None,
    }
}

/// The id an invalid frame is answered with: its `id` member when that is
/// a string, a number or `null`.
pub open spec fn reply_id_spec(v: serde_json::Value) -> Option<serde_json::Value> {
    match json_member_of(v, "id"@) {
        Some(id) => match json_kind_of(id) {
            JsonKind::Str(_) | JsonKind::Number | JsonKind::Null => Some(id),
            _ => None,
        },
        None => None,
    }
}

/// A JSON-RPC request (expects a response).
#[derive(Debug, Clone, PartialEq)]
pub struct Request {
    /// Protocol version — always `"2.0"`.
    pub jsonrpc: String,
    /// Correlation id, reused verbatim in the response; `None` for a
    /// `null` id.
    pub id: Option<serde_json::Value>,
    /// Method name.
    pub method: String,
    /// Method parameters.
    pub params: Option<serde_json::Value>,
}

/// A JSON-RPC notification (no id, no response).
#[derive(Debug, Clone, PartialEq)]
pub struct Notification {
    /// Protocol version — always `"2.0"`.
    pub jsonrpc: String,
    /// Method name.
    pub method: String,
    /// Method parameters.
    pub params: Option<serde_json::Value>,
}

/// A parsed inbound message.
#[derive(Debug, Clone, PartialEq)]
pub enum Incoming {
    /// Request with an `id` — the server must reply.
    Request(Request),
    /// Notification without an `id` — the server must not reply.
    Notification(Notification),
}

impl Incoming {
    /// Correlation id, if this message expects a response.
    pub fn id(&self) -> (r: Option<&serde_json::Value>)
        ensures
            match *self {
                Incoming::Request(q) => r == match q.id {
                    Some(v) => Some(&v),
                    None => None::<&serde_json::Value>,
                },
                Incoming::Notification(_) => r is None,
            },
    {
        match self {
            Incoming::Request(request) => request.id.as_ref(),
            Incoming::Notification(_) => None,
        }
    }

    /// Method name.
    pub fn method(&self) -> (r: &str)
        ensures
            r@ == match *self {
                Incoming::Request(q) => q.method@,
                Incoming::Notification(n) => n.method@,
            },
    {
        match self {
            Incoming::Request(request) => request.method.as_str(),
            Incoming::Notification(notification) => notification.method.as_str(),
        }
    }

    /// Params, if present.
    pub fn params(&self) -> (r: Option<&serde_json::Value>)
        ensures
            r == match *self {
                Incoming::Request(q) => match q.params {
                    Some(v) => Some(&v),
                    None => None::<&serde_json::Value>,
                },
                Incoming::Notification(n) => match n.params {
                    Some(v) => Some(&v),
                    None => None::<&serde_json::Value>,
                },
            },
    {
        match self {
            Incoming::Request(request) => request.params.as_ref(),
            Incoming::Notification(notification) => notification.params.as_ref(),
        }
    }
}

/// A JSON-RPC response; exactly one of `result` / `error` is present.
#[derive(Debug, Clone, PartialEq)]
pub struct Response {
    /// Protocol version — always `"2.0"`.
    pub jsonrpc: String,
    /// Correlation id copied from the request; `None` when the request was
    /// unparseable.
    pub id: Option<serde_json::Value>,
    /// Success payload.
    pub result: Option<serde_json::Value>,
    /// Failure payload.
    pub error: Option<JsonRpcError>,
}

impl Response {
    /// A success response for `id`.
    pub fn success(id: Option<serde_json::Value>, result: serde_json::Value) -> (r: Self)
        ensures
            r.jsonrpc@ == JSONRPC_VERSION@,
            r.id == id,
            r.result == Some(result),
            r.error is None,
    {
        Response { jsonrpc: String::from_str(JSONRPC_VERSION), id, result: Some(result), error: None }
    }

    /// An error response for `id`.
    pub fn error(id: Option<serde_json::Value>, error: JsonRpcError) -> (r: Self)
        ensures
            r.jsonrpc@ == JSONRPC_VERSION@,
            r.id == id,
            r.result is None,
            r.error == Some(error),
    {
        Response { jsonrpc: String::from_str(JSONRPC_VERSION), id, result: None, error: Some(error) }
    }
}

/// The shape validation reads of a decoded frame.
fn frame_shape(value: &serde_json::Value) -> (r: FrameShape)
    ensures
        r == frame_shape_spec(*value),
{
    let is_object = match json_kind(value) {
        JsonKind::Object => true,
        _ => false,
    };
    FrameShape {
        is_object,
        jsonrpc: member_kind(value, "jsonrpc"),
        method: member_kind(value, "method"),
        id: member_kind(value, "id"),
        params: member_kind(value, "params"),
    }
}

/// A member as an optional field: absent and `null` both give `None`.
fn optional_member(value: &serde_json::Value, key: &str) -> (r: Option<serde_json::Value>)
    ensures
        r == optional_member_spec(*value, key@),
{
    match json_member(value, key) {
        Some(m) => match json_kind(&m) {
            JsonKind::Null => None,
            _ => Some(m),
        },
        None => None,
    }
}

/// Validate a decoded JSON value as a JSON-RPC request or notification.
///
/// A frame that is not one (no object, wrong or missing version, missing
/// or empty method, an `id` that is no string, number or null, `params`
/// that are no object or array) is answered with `-32600`, its reason
/// being [`frame_problem`] of the frame's shape. A frame with an `id`
/// member is a request.
pub fn parse_incoming(value: serde_json::Value) -> (r: Result<Incoming, JsonRpcError>)
    ensures
        ({
            let shape = frame_shape_spec(value);
            match frame_problem(shape) {
                Some(msg) => (r matches Err(e) && e.code == codes::INVALID_REQUEST && e.message@ == msg
                    && e.data is None),
                None => (shape.method matches Some(JsonKind::Str(m)) && match r {
                    Ok(Incoming::Request(q)) => {
                        &&& shape.id is Some
                        &&& q.jsonrpc@ == JSONRPC_VERSION@
                        &&& q.method == m
                        &&& q.id == optional_member_spec(value, "id"@)
                        &&& q.params == optional_member_spec(value, "params"@)
                    },
                    Ok(Incoming::Notification(n)) => {
                        &&& shape.id is None
                        &&& n.jsonrpc@ == JSONRPC_VERSION@
                        &&& n.method == m
                        &&& n.params == optional_member_spec(value, "params"@)
                    },
                    Err(_) => false,
                }),
            }
        }),
{
    let shape = frame_shape(&value);
    let is_request = match validate_frame(&shape) {
        Ok(is_request) => is_request,
        Err(e) => {
            return Err(e);
        },
    };
    let method = match &shape.method {
        Some(JsonKind::Str(m)) => m.clone(),
        _ => {
            assert(false);
            String::new()
        },
    };
    let params = optional_member(&value, "params");
    if is_request {
        Ok(
            Incoming::Request(
                Request {
                    jsonrpc: String::from_str(JSONRPC_VERSION),
                    id: optional_member(&value, "id"),
                    method,
                    params,
                },
            ),
        )
    } else {
        Ok(
            Incoming::Notification(
                Notification { jsonrpc: String::from_str(JSONRPC_VERSION), method, params },
            ),
        )
    }
}

/// The id an invalid frame is answered with: its `id` member when that is
/// a string, a number or `null`.
pub fn reply_id(value: &serde_json::Value) -> (r: Option<serde_json::Value>)
    ensures
        r == reply_id_spec(*value),
{
    match json_member(value, "id") {
        Some(id) => match json_kind(&id) {
            JsonKind::Str(_) | JsonKind::Number | JsonKind::Null => Some(id),
            _ => None,
        },
        None => None,
    }
}

// ---------------------------------------------------------------------------
// setModel
// ---------------------------------------------------------------------------

/// `setModel` params: `{ "model": "provider/id" | "id" }` or the
/// `{ "provider", "modelId" }` pair.
#[derive(Debug, Clone, PartialEq, Eq)]
pub struct SetModelParams {
    /// `model`.
    pub model: Option<String>,
    /// `provider` (or `providerId`).
    pub provider: Option<String>,
    /// `modelId`.
    pub model_id: Option<String>,
}

/// How a `setModel` request names its model.
#[derive(Debug, Clone, PartialEq, Eq)]
pub enum ModelRef {
    /// A provider and a model id in that provider's catalog.
    Qualified {
        /// The provider.
        provider: String,
        /// The model id.
        id: String,
    },
    /// A bare model id, looked up across every provider.
    Bare(String),
}

/// The rendering used in error messages.
pub open spec fn describe_spec(p: SetModelParams) -> Seq<char> {
    match p.model {
        Some(m) => m@,
        None => (match p.provider {
            Some(x) => x@,
            None => "?"@,
        }) + "/"@ + (match p.model_id {
            Some(x) => x@,
            None => "?"@,
        }),
    }
}

/// The model a `setModel` request names: `model` wins, split at its first
/// `/` into provider and id, or taken as a bare id; otherwise the pair,
/// when both halves are there.
pub open spec fn model_ref_spec(p: SetModelParams) -> Option<(Option<Seq<char>>, Seq<char>)> {
    match p.model {
        Some(raw) => match find_char(raw@, '/') {
            Some(k) => Some((Some(raw@.subrange(0, k)), raw@.subrange(k + 1, raw@.len() as int))),
            None => Some((None, raw@)),
        },
        None => match (p.provider, p.model_id) {
            (Some(a), Some(b)) => Some((Some(a@), b@)),
            _ => None,
        },
    }
}

impl SetModelParams {
    /// Human-readable rendering used in error messages.
    pub fn describe(&self) -> (r: String)
        ensures
            r@ == describe_spec(*self),
    {
        match &self.model {
            Some(m) => m.clone(),
            None => {
                let mut out = match &self.provider {
                    Some(x) => x.clone(),
                    None => String::from_str("?"),
                };
                push_str(&mut out, "/");
                match &self.model_id {
                    Some(x) => out.append(x.as_str()),
                    None => push_str(&mut out, "?"),
                }
                out
            },
        }
    }

    /// The model reference to resolve against the catalog.
    pub fn model_ref(&self) -> (r: Option<ModelRef>)
        ensures
            match r {
                Some(ModelRef::Qualified { provider, id }) => model_ref_spec(*self) == Some(
                    (Some(provider@), id@),
                ),
                Some(ModelRef::Bare(id)) => model_ref_spec(*self) == Some((None::<Seq<char>>, id@)),
                None => model_ref_spec(*self) is None,
            },
    {
        match &self.model {
            Some(raw) => {
                let v = chars_of(raw.as_str());
                match find_char_exec(&v, '/') {
                    Some(k) => Some(
                        ModelRef::Qualified {
                            provider: string_of(&v, 0, k),
                            id: string_of(&v, k + 1, v.len()),
                        },
                    ),
                    None => Some(ModelRef::Bare(raw.clone())),
                }
            },
            None => match (&self.provider, &self.model_id) {
                (Some(a), Some(b)) => Some(ModelRef::Qualified { provider: a.clone(), id: b.clone() }),
                _ => None,
            },
        }
    }
}

/// Whether catalog entry `(provider, id)` is the model a reference names.
pub open spec fn names_model(r: (Option<Seq<char>>, Seq<char>), entry: (String, String)) -> bool {
    match r.0 {
        Some(p) => entry.0@ == p && entry.1@ == r.1,
        None => entry.1@ == r.1,
    }
}

/// Resolve a `setModel` reference against a catalog of `(provider, model
/// id)` entries: the first entry it names, if any.
pub fn resolve_model(models: &[(String, String)], params: &SetModelParams) -> (r: Option<usize>)
    ensures
        match model_ref_spec(*params) {
            None => r is None,
            Some(mr) => match r {
                Some(i) => i < models.len() && names_model(mr, models@[i as int]) && forall|j: int|
                    0 <= j < i ==> !names_model(mr, #[trigger] models@[j]),
                None => forall|j: int| 0 <= j < models.len() ==> !names_model(mr, #[trigger] models@[j]),
            },
        },
{
    let mref = match params.model_ref() {
        Some(m) => m,
        None => {
            return None;
        },
    };
    let ghost mr = model_ref_spec(*params)->Some_0;
    let mut i: usize = 0;
    while i < models.len()
        invariant
            i <= models.len(),
            model_ref_spec(*params) == Some(mr),
            match mref {
                ModelRef::Qualified { provider, id } => mr == (Some(provider@), id@),
                ModelRef::Bare(id) => mr == (None::<Seq<char>>, id@),
            },
            forall|j: int| 0 <= j < i ==> !names_model(mr, #[trigger] models@[j]),
        decreases models.len() - i,
    {
        let hit = match &mref {
            ModelRef::Qualified { provider, id } => models[i].0 == *provider && models[i].1 == *id,
            ModelRef::Bare(id) => models[i].1 == *id,
        };
        if hit {
            return Some(i);
        }
        i += 1;
    }
    None
}

// ---------------------------------------------------------------------------
// Error surfaces
// ---------------------------------------------------------------------------

/// Errors produced by the RPC client.
#[derive(Debug, Clone, PartialEq)]
pub enum RpcClientError {
    /// Spawning the child or writing its stdin failed; the error's text.
    Io(String),
    /// The child's stdin was never piped (or was already dropped).
    StdinClosed,
    /// No matching response arrived within the timeout.
    Timeout {
        /// What the client was waiting for.
        awaiting: String,
        /// Everything the child wrote to stderr so far.
        stderr: String,
    },
    /// stdout closed before the awaited response arrived.
    Disconnected {
        /// What the client was waiting for.
        awaiting: String,
        /// `", exit status: 1"` — empty while the child is still alive.
        detail: String,
        /// Everything the child wrote to stderr.
        stderr: String,
    },
    /// A stdout line was not valid JSON.
    NonJsonLine {
        /// The offending line.
        line: String,
        /// Everything the child wrote to stderr.
        stderr: String,
    },
    /// The frame did not match the method's expected shape.
    Protocol {
        /// What was wrong.
        message: String,
    },
    /// The server answered with a JSON-RPC error object.
    JsonRpc(JsonRpcError),
}

impl RpcClientError {
    /// The JSON-RPC error code, when the failure was a server-side error.
    pub fn json_rpc_code(&self) -> (r: Option<i64>)
        ensures
            match *self {
                RpcClientError::JsonRpc(e) => r == Some(e.code),
                _ => r is None,
            },
    {
        match self {
            RpcClientError::JsonRpc(error) => Some(error.code),
            _ => None,
        }
    }
}

/// How a write to stdout failed.
#[derive(Debug, Clone, PartialEq, Eq)]
pub enum WriteFailure {
    /// The reader went away (`EPIPE`).
    BrokenPipe,
    /// The connection was reset.
    ConnectionReset,
    /// The connection was aborted.
    ConnectionAborted,
    /// Anything else; the error's text.
    Other(String),
}

/// Errors that terminate the RPC server.
#[derive(Debug, Clone, PartialEq, Eq)]
pub enum RpcServerError {
    /// An I/O operation failed for a reason other than the consumer going
    /// away; the error's text.
    Io(String),
    /// stdout was closed by the consumer — a clean shutdown.
    Disconnected,
}

impl RpcServerError {
    /// Classify a stdout write failure: the consumer going away is a
    /// disconnect, anything else an I/O error.
    pub fn from_stdout(failure: WriteFailure) -> (r: Self)
        ensures
            match failure {
                WriteFailure::Other(m) => r == RpcServerError::Io(m),
                _ => r == RpcServerError::Disconnected,
            },
    {
        match failure {
            WriteFailure::Other(m) => RpcServerError::Io(m),
            _ => RpcServerError::Disconnected,
        }
    }
}

} // verus!
