use pi_coding_agent::rpc::codes;
use pi_coding_agent::rpc::{
    parse_incoming, reply_id, Incoming, Response,
    resolve_model, validate_frame, FrameShape, JsonKind, JsonRpcError, ModelRef, RpcClientError,
    RpcServerError, SetModelParams, WriteFailure,
};

#[test]
fn codes_match_the_jsonrpc_spec() {
    assert_eq!(codes::PARSE_ERROR, -32700);
    assert_eq!(codes::INVALID_REQUEST, -32600);
    assert_eq!(codes::METHOD_NOT_FOUND, -32601);
    assert_eq!(codes::INVALID_PARAMS, -32602);
    assert_eq!(codes::INTERNAL_ERROR, -32603);
    assert_eq!(codes::BUSY, -32000);
}

#[test]
fn errors_without_data_have_none() {
    let busy = JsonRpcError::busy();
    assert_eq!(busy.code, -32000);
    assert!(busy.data.is_none());
    assert_eq!(
        busy.message,
        "a turn is already in flight; wait for turn_end or send abort"
    );
    let missing = JsonRpcError::method_not_found("nope");
    assert_eq!(missing.code, -32601);
    assert_eq!(missing.message, "method not found: nope");
}

#[test]
fn with_data_round_trips() {
    let data: serde_json::Value = serde_json::from_str(r#"{"model":"nope"}"#).unwrap();
    let err = JsonRpcError::invalid_params("bad model".to_string()).with_data(data.clone());
    assert_eq!(err.code, codes::INVALID_PARAMS);
    assert_eq!(err.message, "bad model");
    assert_eq!(err.data, Some(data));
}

fn shape(jsonrpc: Option<JsonKind>, method: Option<JsonKind>, id: Option<JsonKind>, params: Option<JsonKind>) -> FrameShape {
    FrameShape {
        is_object: true,
        jsonrpc,
        method,
        id,
        params,
    }
}

fn s(text: &str) -> Option<JsonKind> {
    Some(JsonKind::Str(text.to_string()))
}

#[test]
fn frame_with_numeric_id_is_a_request() {
    let frame = shape(s("2.0"), s("getState"), Some(JsonKind::Number), None);
    assert_eq!(validate_frame(&frame), Ok(true));
}

#[test]
fn frame_without_id_is_a_notification() {
    let frame = shape(s("2.0"), s("abort"), None, None);
    assert_eq!(validate_frame(&frame), Ok(false));
}

#[test]
fn frame_without_version_is_refused() {
    let err = validate_frame(&shape(None, s("getState"), Some(JsonKind::Number), None)).unwrap_err();
    assert_eq!(err.code, codes::INVALID_REQUEST);
    assert_eq!(err.message, "missing \"jsonrpc\": \"2.0\" member");
}

#[test]
fn frame_with_wrong_version_is_refused() {
    let err = validate_frame(&shape(s("1.0"), s("x"), Some(JsonKind::Number), None)).unwrap_err();
    assert_eq!(err.code, codes::INVALID_REQUEST);
    assert_eq!(err.message, "unsupported jsonrpc version: 1.0");
}

#[test]
fn frame_with_string_params_is_refused() {
    let err = validate_frame(&shape(
        s("2.0"),
        s("prompt"),
        Some(JsonKind::Number),
        s("nope"),
    ))
    .unwrap_err();
    assert_eq!(err.code, codes::INVALID_REQUEST);
    assert_eq!(err.message, "\"params\" must be an object or array when present");
}

#[test]
fn rejects_bad_methods_ids_and_non_objects() {
    let not_object = FrameShape {
        is_object: false,
        jsonrpc: None,
        method: None,
        id: None,
        params: None,
    };
    assert_eq!(
        validate_frame(&not_object).unwrap_err().message,
        "message must be a JSON object"
    );
    assert_eq!(
        validate_frame(&shape(s("2.0"), None, None, None)).unwrap_err().message,
        "missing \"method\" member"
    );
    assert_eq!(
        validate_frame(&shape(s("2.0"), s(""), None, None)).unwrap_err().message,
        "\"method\" must be a non-empty string"
    );
    assert_eq!(
        validate_frame(&shape(s("2.0"), s("m"), Some(JsonKind::Bool), None))
            .unwrap_err()
            .message,
        "\"id\" must be a string, number, or null"
    );
    assert_eq!(
        validate_frame(&shape(s("2.0"), s("m"), Some(JsonKind::Null), Some(JsonKind::Array))),
        Ok(true)
    );
}

fn catalog() -> Vec<(String, String)> {
    vec![
        ("faux".to_string(), "faux-model".to_string()),
        ("anthropic".to_string(), "sonnet-4-5".to_string()),
    ]
}

fn params(model: Option<&str>, provider: Option<&str>, model_id: Option<&str>) -> SetModelParams {
    SetModelParams {
        model: model.map(str::to_string),
        provider: provider.map(str::to_string),
        model_id: model_id.map(str::to_string),
    }
}

#[test]
fn resolves_provider_qualified_model_ids() {
    let p = params(Some("anthropic/sonnet-4-5"), None, None);
    assert_eq!(resolve_model(&catalog(), &p), Some(1));
    assert_eq!(
        p.model_ref(),
        Some(ModelRef::Qualified {
            provider: "anthropic".into(),
            id: "sonnet-4-5".into()
        })
    );
}

#[test]
fn resolves_bare_model_ids() {
    assert_eq!(resolve_model(&catalog(), &params(Some("faux-model"), None, None)), Some(0));
}

#[test]
fn resolves_upstream_provider_model_id_pair() {
    let p = params(None, Some("anthropic"), Some("sonnet-4-5"));
    assert_eq!(resolve_model(&catalog(), &p), Some(1));
    assert_eq!(p.describe(), "anthropic/sonnet-4-5");
}

#[test]
fn unknown_models_do_not_resolve() {
    assert_eq!(resolve_model(&catalog(), &params(Some("nope/nope"), None, None)), None);
    assert_eq!(resolve_model(&catalog(), &params(None, Some("faux"), None)), None);
    assert_eq!(params(None, None, Some("x")).describe(), "?/x");
}

#[test]
fn agent_errors_map_to_internal_error() {
    let mapped = JsonRpcError::internal("boom".to_string());
    assert_eq!(mapped.code, codes::INTERNAL_ERROR);
}

#[test]
fn client_and_server_errors() {
    assert_eq!(
        RpcClientError::JsonRpc(JsonRpcError::busy()).json_rpc_code(),
        Some(codes::BUSY)
    );
    assert_eq!(RpcClientError::StdinClosed.json_rpc_code(), None);
    assert_eq!(
        RpcServerError::from_stdout(WriteFailure::BrokenPipe),
        RpcServerError::Disconnected
    );
    assert_eq!(
        RpcServerError::from_stdout(WriteFailure::Other("disk".into())),
        RpcServerError::Io("disk".into())
    );
}

fn json(text: &str) -> serde_json::Value {
    serde_json::from_str(text).unwrap()
}

#[test]
fn parses_a_request_with_numeric_id() {
    let incoming = parse_incoming(json(r#"{"jsonrpc":"2.0","id":1,"method":"getState"}"#))
        .expect("valid request");
    let Incoming::Request(request) = incoming else {
        panic!("expected a request");
    };
    assert_eq!(request.method, "getState");
    assert_eq!(request.id, Some(json("1")));
    assert_eq!(request.params, None);
}

#[test]
fn parses_a_request_with_string_id_and_params() {
    let incoming = parse_incoming(json(
        r#"{"jsonrpc":"2.0","id":"abc","method":"prompt","params":{"text":"hi"}}"#,
    ))
    .expect("valid request");
    assert_eq!(incoming.id(), Some(&json(r#""abc""#)));
    assert_eq!(incoming.method(), "prompt");
    assert_eq!(incoming.params(), Some(&json(r#"{"text":"hi"}"#)));
}

#[test]
fn parses_a_notification() {
    let incoming = parse_incoming(json(r#"{"jsonrpc":"2.0","method":"abort"}"#))
        .expect("valid notification");
    assert!(matches!(incoming, Incoming::Notification(_)));
    assert!(incoming.id().is_none());
}

#[test]
fn rejects_missing_version() {
    let err = parse_incoming(json(r#"{"id":1,"method":"getState"}"#)).unwrap_err();
    assert_eq!(err.code, codes::INVALID_REQUEST);
}

#[test]
fn rejects_wrong_version() {
    let err = parse_incoming(json(r#"{"jsonrpc":"1.0","id":1,"method":"x"}"#)).unwrap_err();
    assert_eq!(err.code, codes::INVALID_REQUEST);
    assert_eq!(err.message, "unsupported jsonrpc version: 1.0");
}

#[test]
fn rejects_non_structured_params() {
    let err = parse_incoming(json(
        r#"{"jsonrpc":"2.0","id":1,"method":"prompt","params":"nope"}"#,
    ))
    .unwrap_err();
    assert_eq!(err.code, codes::INVALID_REQUEST);
}

#[test]
fn a_null_id_is_still_a_request() {
    let incoming = parse_incoming(json(r#"{"jsonrpc":"2.0","id":null,"method":"abort"}"#)).unwrap();
    assert!(matches!(incoming, Incoming::Request(ref q) if q.id.is_none()));
    assert!(parse_incoming(json("[1,2]")).is_err());
}

#[test]
fn invalid_frames_are_answered_with_their_usable_id() {
    assert_eq!(reply_id(&json(r#"{"id":7,"method":1}"#)), Some(json("7")));
    assert_eq!(reply_id(&json(r#"{"id":null}"#)), Some(json("null")));
    assert_eq!(reply_id(&json(r#"{"id":[1]}"#)), None);
    assert_eq!(reply_id(&json(r#"{"method":"x"}"#)), None);
}

#[test]
fn response_carries_only_one_of_result_or_error() {
    let ok = Response::success(Some(json("7")), json(r#"{"turn":1}"#));
    assert_eq!(ok.jsonrpc, "2.0");
    assert_eq!(ok.result, Some(json(r#"{"turn":1}"#)));
    assert!(ok.error.is_none());
    let err = Response::error(Some(json("7")), JsonRpcError::method_not_found("nope"));
    assert!(err.result.is_none());
    assert_eq!(err.error.map(|e| e.code), Some(-32601));
}
