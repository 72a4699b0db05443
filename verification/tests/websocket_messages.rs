use a2a_bindings::error_code;
use a2a_bindings::json_value::{JsonNum, JsonValue};
use a2a_bindings::methods;
use a2a_bindings::params::ServiceParams;
use a2a_bindings::protocol::{id_key, A2AError, JsonRpcError, JsonRpcId};
use a2a_bindings::text_map::TextMap;
use a2a_bindings::websocket::auth::{
    AuthContext, AuthError, AuthenticateParams, User, DEFAULT_REAUTH_GRACE_MS,
};
use a2a_bindings::websocket::common::{
    service_params_from_envelope, service_params_to_envelope, WsRequestEnvelope, WsResponseEnvelope,
    CONTROL_REAUTH_REQUIRED,
};
use a2a_bindings::websocket::error_types;
use a2a_bindings::websocket::errors::{
    a2a_error_to_jsonrpc, close_code_for_fatal, close_code_for_read_error, jsonrpc_error_to_a2a,
    ReadFault, MESSAGE_TOO_BIG, PROTOCOL_ERROR, VERSION_NOT_SUPPORTED,
};

fn lib(v: &serde_json::Value) -> JsonValue {
    match v {
        serde_json::Value::Null => JsonValue::Null,
        serde_json::Value::Bool(b) => JsonValue::Bool(*b),
        serde_json::Value::Number(n) => JsonValue::Num(match (n.as_i64(), n.as_u64()) {
            (Some(i), _) => JsonNum::Int(i),
            (None, Some(u)) => JsonNum::UInt(u),
            (None, None) => JsonNum::Float(n.clone()),
        }),
        serde_json::Value::String(s) => JsonValue::Text(s.clone()),
        serde_json::Value::Array(a) => JsonValue::Array(a.iter().map(lib).collect()),
        serde_json::Value::Object(m) => {
            JsonValue::Object(m.iter().map(|(k, v)| (k.clone(), lib(v))).collect())
        }
    }
}

fn plain(v: &JsonValue) -> serde_json::Value {
    match v {
        JsonValue::Null => serde_json::Value::Null,
        JsonValue::Bool(b) => serde_json::Value::from(*b),
        JsonValue::Num(JsonNum::Int(i)) => serde_json::Value::from(*i),
        JsonValue::Num(JsonNum::UInt(u)) => serde_json::Value::from(*u),
        JsonValue::Num(JsonNum::Float(n)) => serde_json::Value::Number(n.clone()),
        JsonValue::Text(s) => serde_json::Value::from(s.as_str()),
        JsonValue::Array(a) => serde_json::Value::Array(a.iter().map(plain).collect()),
        JsonValue::Object(e) => {
            serde_json::Value::Object(e.iter().map(|(k, v)| (k.clone(), plain(v))).collect())
        }
    }
}

fn json(text: &str) -> serde_json::Value {
    serde_json::from_str(text).unwrap()
}

fn text_id(s: &str) -> JsonRpcId {
    JsonRpcId::Text(s.into())
}

#[test]
fn auth_error_status_codes() {
    assert_eq!(AuthError::unauthorized("no creds").status, 401);
    assert_eq!(AuthError::forbidden("nope").status, 403);
    assert_eq!(AuthError::forbidden("nope").message, "nope");
}

#[test]
fn auth_context_for_user_sets_user() {
    let ctx = AuthContext::for_user(User::authenticated("alice"));
    assert_eq!(ctx.user.as_ref().unwrap().name, "alice");
    assert!(ctx.service_params.is_empty());
}

#[test]
fn auth_context_with_param_lowercases_the_key() {
    let ctx = AuthContext::for_user(User::authenticated("alice")).with_param("X-Tenant", "acme");
    assert_eq!(ctx.service_params.get("x-tenant").unwrap(), &vec!["acme".to_string()]);
}

#[test]
fn authenticate_params_round_trip() {
    let params = AuthenticateParams { scheme: "Bearer".into(), credentials: "tok".into() };
    let text = plain(&params.to_value()).to_string();
    let back = AuthenticateParams::from_value(&lib(&json(&text))).unwrap();
    assert_eq!(back.scheme, "Bearer");
    assert_eq!(back.credentials, "tok");
    assert!(AuthenticateParams::from_value(&lib(&json("{\"scheme\":\"Bearer\"}"))).is_none());
}

#[test]
fn the_grace_is_five_seconds() {
    assert_eq!(DEFAULT_REAUTH_GRACE_MS, 5_000);
}

#[test]
fn methods_is_streaming_distinguishes_streaming_calls() {
    assert!(methods::is_streaming(methods::SEND_STREAMING_MESSAGE));
    assert!(methods::is_streaming(methods::SUBSCRIBE_TO_TASK));
    assert!(!methods::is_streaming(methods::SEND_MESSAGE));
    assert!(!methods::is_streaming(methods::GET_TASK));
    assert!(!methods::is_streaming("unknown"));
}

#[test]
fn methods_is_known_recognises_all_inventory_methods() {
    for m in [
        methods::SEND_MESSAGE,
        methods::SEND_STREAMING_MESSAGE,
        methods::GET_TASK,
        methods::LIST_TASKS,
        methods::CANCEL_TASK,
        methods::SUBSCRIBE_TO_TASK,
        methods::CREATE_PUSH_CONFIG,
        methods::GET_PUSH_CONFIG,
        methods::LIST_PUSH_CONFIGS,
        methods::DELETE_PUSH_CONFIG,
        methods::GET_EXTENDED_AGENT_CARD,
    ] {
        assert!(methods::is_known(m), "{m} should be known");
    }
    assert!(!methods::is_known(methods::AUTHENTICATE));
    assert!(!methods::is_known("MessageSend"));
    assert!(!methods::is_known(""));
}

#[test]
fn request_envelope_serializes_as_jsonrpc_with_extensions() {
    let mut carried = TextMap::new();
    carried.insert("a2a-version".to_string(), "1.0".to_string());
    let req = WsRequestEnvelope {
        id: Some(text_id("req-1")),
        method: Some(methods::SEND_MESSAGE.into()),
        params: Some(lib(&json(r#"{"message":{"messageId":"m1"}}"#))),
        service_params: Some(carried),
        ..WsRequestEnvelope::default()
    };
    let value = plain(&req.to_value());
    assert_eq!(value["jsonrpc"], "2.0");
    assert_eq!(value["id"], "req-1");
    assert_eq!(value["method"], "SendMessage");
    assert_eq!(value["serviceParams"]["a2a-version"], "1.0");
    assert!(value.get("cancelStream").is_none());
}

#[test]
fn request_envelope_accepts_numeric_id() {
    let raw = br#"{"jsonrpc":"2.0","id":42,"method":"GetTask","params":{"id":"t1"}}"#;
    let req = WsRequestEnvelope::from_slice(raw).unwrap();
    assert_eq!(req.id, Some(JsonRpcId::Int(42)));
    assert_eq!(id_key(req.id.as_ref().unwrap()), "n:42");
}

#[test]
fn request_envelope_defaults_jsonrpc_when_absent() {
    let raw = br#"{"id":"x","method":"GetTask"}"#;
    let req = WsRequestEnvelope::from_slice(raw).unwrap();
    assert_eq!(req.jsonrpc, "2.0");
}

#[test]
fn request_envelope_with_cancel_stream_only_omits_method() {
    let req = WsRequestEnvelope {
        id: Some(text_id("req-2")),
        cancel_stream: Some(true),
        ..WsRequestEnvelope::default()
    };
    let value = plain(&req.to_value());
    assert_eq!(value["cancelStream"], true);
    assert!(value.get("method").is_none());
    assert!(value.get("params").is_none());
}

#[test]
fn response_envelope_result_omits_other_fields() {
    let resp = WsResponseEnvelope::result(text_id("req-1"), lib(&json("{\"ok\":true}")));
    let value = plain(&resp.to_value());
    assert_eq!(value["jsonrpc"], "2.0");
    assert_eq!(value["id"], "req-1");
    assert_eq!(value["result"]["ok"], true);
    assert!(value.get("error").is_none());
    assert!(value.get("streamEnd").is_none());
}

#[test]
fn response_envelope_stream_chunk_and_end_serialize_correctly() {
    let chunk = WsResponseEnvelope::stream_chunk(text_id("req-2"), lib(&json("{\"task\":{}}")));
    let value = plain(&chunk.to_value());
    assert_eq!(value["id"], "req-2");
    assert!(value["result"].is_object());

    let end = WsResponseEnvelope::stream_end(text_id("req-2"));
    let value = plain(&end.to_value());
    assert_eq!(value["streamEnd"], true);
}

#[test]
fn response_envelope_error_with_null_id_serializes_id_field() {
    let resp = WsResponseEnvelope::error(
        Some(JsonRpcId::Null),
        JsonRpcError {
            code: error_code::PARSE_ERROR,
            message: "bad json".to_string(),
            data: None,
        },
    );
    let value = plain(&resp.to_value());
    assert!(value["id"].is_null());
    assert!(value.as_object().unwrap().contains_key("id"));
    assert_eq!(value["error"]["code"], error_code::PARSE_ERROR);
}

#[test]
fn reauth_required_control_frame_has_no_id() {
    let frame = WsResponseEnvelope::reauth_required("Token expiring soon".into(), 0);
    let value = plain(&frame.to_value());
    assert_eq!(value["jsonrpc"], "2.0");
    assert_eq!(value["control"], CONTROL_REAUTH_REQUIRED);
    assert_eq!(value["reason"], "Token expiring soon");
    assert_eq!(value["retryAfterMs"], 0);
    assert!(value.get("id").is_none());
}

#[test]
fn envelopes_read_back_from_their_frames() {
    let req = WsRequestEnvelope {
        id: Some(JsonRpcId::Int(-7)),
        method: Some("GetTask".into()),
        params: Some(lib(&json("[1,{\"a\":[true,null]}]"))),
        ..WsRequestEnvelope::default()
    };
    assert_eq!(WsRequestEnvelope::from_slice(&req.to_vec().unwrap()).unwrap(), req);
    let resp = WsResponseEnvelope::reauth_required("why \"so\"\n".into(), u64::MAX);
    let back = WsResponseEnvelope::from_slice(&resp.to_vec().unwrap()).unwrap();
    assert_eq!(back, resp);
}

#[test]
fn envelopes_of_another_shape_are_refused() {
    assert!(WsRequestEnvelope::from_slice(b"{\"id\":[]}").is_err());
    assert!(WsRequestEnvelope::from_slice(b"{\"cancelStream\":\"yes\"}").is_err());
    assert!(WsResponseEnvelope::from_slice(b"{\"retryAfterMs\":-1}").is_err());
    assert!(WsResponseEnvelope::from_slice(b"7").is_err());
    let reason = serde_json::from_slice::<serde_json::Value>(b"{").unwrap_err().to_string();
    assert_eq!(WsRequestEnvelope::from_slice(b"{").unwrap_err(), reason);
}

#[test]
fn service_params_envelope_round_trip_preserves_key_value_pairs() {
    let mut map = ServiceParams::new();
    map.insert("a2a-version".to_string(), vec!["1.0".to_string()]);
    map.insert("x-multi".to_string(), vec!["a".to_string(), "b".to_string()]);

    let envelope = service_params_to_envelope(&map).unwrap();
    assert_eq!(envelope.get("a2a-version"), Some(&"1.0".to_string()));
    assert_eq!(envelope.get("x-multi"), Some(&"a, b".to_string()));

    let restored = service_params_from_envelope(&envelope);
    assert_eq!(restored.get("a2a-version"), Some(&vec!["1.0".to_string()]));
    assert_eq!(restored.get("x-multi"), Some(&vec!["a, b".to_string()]));
}

#[test]
fn service_params_to_envelope_returns_none_for_empty_map() {
    assert!(service_params_to_envelope(&ServiceParams::new()).is_none());
}

#[test]
fn id_key_distinguishes_string_and_number() {
    assert_eq!(id_key(&text_id("1")), "s:1");
    assert_eq!(id_key(&JsonRpcId::Int(1)), "n:1");
    assert_ne!(id_key(&text_id("1")), id_key(&JsonRpcId::Int(1)));
}

#[test]
fn a2a_error_round_trips_through_jsonrpc() {
    let original = A2AError::new(error_code::TASK_NOT_FOUND, "missing task".into());
    let jsonrpc = a2a_error_to_jsonrpc(&original);
    assert_eq!(jsonrpc.code, error_code::TASK_NOT_FOUND);
    assert_eq!(jsonrpc.message, "missing task");

    let back = jsonrpc_error_to_a2a(&jsonrpc);
    assert_eq!(back.code, error_code::TASK_NOT_FOUND);
    assert_eq!(back.message, "missing task");
}

#[test]
fn unknown_code_is_preserved_verbatim() {
    let jsonrpc = JsonRpcError { code: 99999, message: "boom".to_string(), data: None };
    let back = jsonrpc_error_to_a2a(&jsonrpc);
    assert_eq!(back.code, 99999);
    assert_eq!(back.message, "boom");
}

#[test]
fn an_error_is_reported_with_its_details_and_its_reason() {
    let detail = JsonValue::Text("look here".into());
    let details = Some(JsonValue::Array(vec![detail]));
    let error = A2AError { details, ..code(error_code::TASK_NOT_FOUND) };
    match a2a_error_to_jsonrpc(&error).data {
        Some(JsonValue::Array(data)) => {
            assert_eq!(data.len(), 2);
            assert_eq!(data[0].as_str(), Some("look here"));
            assert_eq!(data[1].get("reason").unwrap().as_str(), Some("TASK_NOT_FOUND"));
        }
        other => panic!("expected a list of details, got {other:?}"),
    }
    assert!(a2a_error_to_jsonrpc(&code(99999)).data.is_none());
}

#[test]
fn close_frame_reasons_fit_the_rfc_6455_control_frame_limit() {
    for err in [
        fastwebsockets::WebSocketError::FrameTooLarge,
        fastwebsockets::WebSocketError::InvalidUTF8,
        fastwebsockets::WebSocketError::PingFrameTooLarge,
    ] {
        assert!(err.to_string().len() <= 123, "reason too long for {err}");
    }
}

fn code(c: i32) -> A2AError {
    A2AError::new(c, "x".into())
}

#[test]
fn close_code_for_fatal_only_set_for_known_fatal_errors() {
    assert_eq!(close_code_for_fatal(&code(error_code::PARSE_ERROR)), Some(PROTOCOL_ERROR));
    assert_eq!(
        close_code_for_fatal(&code(error_code::VERSION_NOT_SUPPORTED)),
        Some(VERSION_NOT_SUPPORTED)
    );
    assert_eq!(close_code_for_fatal(&code(error_code::TASK_NOT_FOUND)), None);
    assert_eq!(close_code_for_fatal(&code(error_code::INTERNAL_ERROR)), None);
}

#[test]
fn oversize_frame_maps_to_message_too_big() {
    assert_eq!(close_code_for_read_error(&ReadFault::FrameTooLarge), Some(MESSAGE_TOO_BIG));
}

#[test]
fn framing_violations_map_to_protocol_error() {
    for err in [
        ReadFault::InvalidFragment,
        ReadFault::InvalidUtf8,
        ReadFault::InvalidContinuationFrame,
        ReadFault::InvalidCloseFrame,
        ReadFault::InvalidCloseCode,
        ReadFault::ReservedBitsNotZero,
        ReadFault::ControlFrameFragmented,
        ReadFault::PingFrameTooLarge,
    ] {
        assert_eq!(
            close_code_for_read_error(&err),
            Some(PROTOCOL_ERROR),
            "{err:?} should close with 1002"
        );
    }
}

#[test]
fn broken_transport_errors_have_no_close_code() {
    assert_eq!(close_code_for_read_error(&ReadFault::ConnectionClosed), None);
    assert_eq!(close_code_for_read_error(&ReadFault::UnexpectedEof), None);
    assert_eq!(close_code_for_read_error(&ReadFault::Broken), None);
}

#[test]
fn the_names_of_parameters_lose_their_capitals() {
    let mut map = ServiceParams::new();
    map.insert("X-Trace".into(), vec!["a".into(), "b".into()]);
    map.insert("plain".into(), vec!["c".into()]);
    let restored = service_params_from_envelope(&service_params_to_envelope(&map).unwrap());
    assert_eq!(restored.len(), 2);
    assert_eq!(restored.get("x-trace"), Some(&vec!["a, b".to_string()]));
    assert_eq!(restored.get("plain"), Some(&vec!["c".to_string()]));
    assert_eq!(restored.get("X-Trace"), None);
}

#[test]
fn a_null_identifier_is_written() {
    let response = WsResponseEnvelope::error(
        Some(JsonRpcId::Null),
        JsonRpcError { code: -32600, message: "m".into(), data: None },
    );
    assert_eq!(
        serde_json::from_slice::<serde_json::Value>(&response.to_vec().unwrap()).unwrap(),
        json("{\"jsonrpc\":\"2.0\",\"id\":null,\"error\":{\"code\":-32600,\"message\":\"m\"}}")
    );
}

#[test]
fn kinds_of_errors_have_names() {
    assert_eq!(error_types::JSON_PARSE, "JSONParseError");
    assert_eq!(error_types::TASK_NOT_FOUND, "TaskNotFoundError");
    assert_eq!(
        error_types::EXTENDED_CARD_NOT_CONFIGURED,
        "ExtendedAgentCardNotConfiguredError"
    );
    assert_eq!(error_types::VERSION_NOT_SUPPORTED, "VersionNotSupportedError");
}
