use a2a_bindings::client_socket::{
    answer_lost, call_envelope, check_client_url, encode, invalid_url, not_writable, read_answer,
    request_payload, Route, SocketEvent, WebSocketConnection, WebSocketTransportFactory,
};
use a2a_bindings::dispatch::{dispatch_streaming, dispatch_unary, Handled, Operation};
use a2a_bindings::envelope::{
    WebSocketRequestEnvelope, WebSocketResponseEnvelope, WebSocketServiceParams,
};
use a2a_bindings::error_code;
use a2a_bindings::json_value::{JsonNum, JsonValue};
use a2a_bindings::methods;
use a2a_bindings::params::ServiceParams;
use a2a_bindings::protocol::{A2AError, JsonRpcError, JsonRpcId};
use a2a_bindings::server_socket::{
    encode_response, finish_unary, handle_text_frame, output_closed, read_push_config, serve_step,
    stream_step, unary_response, FrameKind, SocketAction, SocketStep, SocketStreamEvent,
};
use a2a_bindings::websocket::common::TRANSPORT_PROTOCOL_WEBSOCKET;

fn lib(v: &serde_json::Value) -> JsonValue {
    match v {
        serde_json::Value::Null => JsonValue::Null,
        serde_json::Value::Bool(b) => JsonValue::Bool(*b),
        serde_json::Value::Number(n) => JsonValue::Num(match (n.as_i64(), n.as_u64()) {
            (Some(i), _) => JsonNum::Int(i),
            (None, Some(u)) => JsonNum::UInt(u),
            (None, None) => JsonNum::Float(n.clone()),
        }),
        serde_json::Value::String(s) => JsonValue::Text(s.clone()),
        serde_json::Value::Array(a) => JsonValue::Array(a.iter().map(lib).collect()),
        serde_json::Value::Object(m) => {
            JsonValue::Object(m.iter().map(|(k, v)| (k.clone(), lib(v))).collect())
        }
    }
}

fn plain(v: &JsonValue) -> serde_json::Value {
    match v {
        JsonValue::Null => serde_json::Value::Null,
        JsonValue::Bool(b) => serde_json::Value::from(*b),
        JsonValue::Num(JsonNum::Int(i)) => serde_json::Value::from(*i),
        JsonValue::Num(JsonNum::UInt(u)) => serde_json::Value::from(*u),
        JsonValue::Num(JsonNum::Float(n)) => serde_json::Value::Number(n.clone()),
        JsonValue::Text(s) => serde_json::Value::from(s.as_str()),
        JsonValue::Array(a) => serde_json::Value::Array(a.iter().map(plain).collect()),
        JsonValue::Object(e) => {
            serde_json::Value::Object(e.iter().map(|(k, v)| (k.clone(), plain(v))).collect())
        }
    }
}

fn json(text: &str) -> serde_json::Value {
    serde_json::from_str(text).unwrap()
}

fn text_id(s: &str) -> JsonRpcId {
    JsonRpcId::Text(s.into())
}

fn error(code: i32, message: &str) -> JsonRpcError {
    JsonRpcError { code, message: message.to_string(), data: None }
}

fn again(envelope: &WebSocketResponseEnvelope) -> WebSocketResponseEnvelope {
    WebSocketResponseEnvelope::from_slice(&envelope.to_vec().unwrap()).unwrap()
}

#[test]
fn test_websocket_request_envelope_serialization() {
    let envelope = WebSocketRequestEnvelope::new(
        text_id("test-id"),
        "test_method",
        Some(lib(&json("{\"key\":\"value\"}"))),
        None,
    );
    let parsed = WebSocketRequestEnvelope::from_slice(&envelope.to_vec().unwrap()).unwrap();
    assert_eq!(parsed.jsonrpc, "2.0");
    assert_eq!(parsed.id, text_id("test-id"));
    assert_eq!(parsed.method, "test_method");
    assert_eq!(parsed, envelope);
}

#[test]
fn test_websocket_request_envelope_with_service_params() {
    let mut params = WebSocketServiceParams::new();
    params.insert("x-custom".to_string(), vec!["value".to_string()]);
    let envelope = WebSocketRequestEnvelope::new(text_id("id"), "method", None, Some(params));
    let parsed = WebSocketRequestEnvelope::from_slice(&envelope.to_vec().unwrap()).unwrap();
    assert!(parsed.service_params.is_some());
    assert_eq!(plain(&envelope.to_value())["serviceParams"], json("{\"x-custom\":[\"value\"]}"));
}

#[test]
fn test_websocket_response_envelope_success() {
    let envelope =
        WebSocketResponseEnvelope::success(text_id("id"), lib(&json("{\"result\":\"ok\"}")));
    let parsed = again(&envelope);
    assert!(parsed.result.is_some());
    assert!(parsed.error.is_none());
}

#[test]
fn test_websocket_response_envelope_error() {
    let envelope = WebSocketResponseEnvelope::error(text_id("id"), error(-32700, "Parse error"));
    let parsed = again(&envelope);
    assert!(parsed.error.is_some());
    assert!(parsed.result.is_none());
}

#[test]
fn test_websocket_response_envelope_stream_event() {
    let envelope =
        WebSocketResponseEnvelope::stream_event(text_id("id"), lib(&json("{\"event\":\"data\"}")));
    let parsed = again(&envelope);
    assert!(parsed.stream_event.is_some());
    assert!(parsed.stream_error.is_none());
}

#[test]
fn test_websocket_response_envelope_stream_error() {
    let envelope =
        WebSocketResponseEnvelope::stream_error(text_id("id"), error(-32000, "Stream error"));
    assert!(again(&envelope).stream_error.is_some());
}

#[test]
fn test_websocket_response_envelope_stream_end() {
    let envelope = WebSocketResponseEnvelope::stream_end(text_id("id"));
    assert_eq!(again(&envelope).stream_end, Some(true));
}

#[test]
fn test_factory_protocol() {
    let factory = WebSocketTransportFactory::new();
    assert_eq!(factory.protocol(), TRANSPORT_PROTOCOL_WEBSOCKET);
}

#[test]
fn test_factory_default() {
    let factory = WebSocketTransportFactory::default();
    assert_eq!(factory.protocol(), TRANSPORT_PROTOCOL_WEBSOCKET);
}

#[test]
fn a_factory_takes_websocket_urls_alone() {
    let factory = WebSocketTransportFactory::new();
    assert!(factory.check_url("ws://h").is_ok());
    assert!(factory.check_url("wss://h").is_ok());
    let err = factory.check_url("http://h").unwrap_err();
    assert_eq!(err.code, error_code::INVALID_REQUEST);
    assert_eq!(
        err.message,
        "websocket transport requires ws:// or wss:// URL, got 'http://h'"
    );
}

#[test]
fn test_connection_send_writes_text_frame() {
    let envelope = WebSocketRequestEnvelope::new(
        text_id("id"),
        methods::GET_TASK,
        Some(lib(&json("{\"id\":\"task-1\"}"))),
        None,
    );
    let value: serde_json::Value = serde_json::from_slice(&encode(&envelope).unwrap()).unwrap();
    assert_eq!(value["jsonrpc"], "2.0");
    assert_eq!(value["id"], "id");
    assert_eq!(value["method"], methods::GET_TASK);
}

#[test]
fn test_connection_send_closed_writer() {
    assert_eq!(not_writable().code, error_code::UNSUPPORTED_OPERATION);
    assert_eq!(answer_lost().code, error_code::UNSUPPORTED_OPERATION);
}

#[test]
fn test_call_unary_value_sends_service_params_and_receives_result() {
    let mut connection = WebSocketConnection::new();
    let mut params = ServiceParams::new();
    params.insert("x-test".to_string(), vec!["value".to_string()]);
    let (id, frame) =
        connection.start_unary(methods::GET_TASK, &params, lib(&json("{\"id\":\"task-1\"}")));
    let value: serde_json::Value = serde_json::from_slice(&frame.unwrap()).unwrap();
    assert_eq!(value["id"], id.as_str());
    assert_eq!(value["serviceParams"]["x-test"][0], "value");

    let response =
        WebSocketResponseEnvelope::success(text_id(&id), lib(&json("{\"id\":\"task-1\"}")));
    match connection.route_incoming_frame(&response.to_vec().unwrap()) {
        Route::Answer { id: to, result } => {
            assert_eq!(to, id);
            assert_eq!(plain(&result.unwrap())["id"], "task-1");
        }
        other => panic!("expected an answer, got {other:?}"),
    }
    assert!(!connection.has_unary(&id));
}

#[test]
fn test_call_unary_value_removes_pending_on_send_error() {
    let mut connection = WebSocketConnection::new();
    let (id, _) =
        connection.start_unary(methods::GET_TASK, &ServiceParams::new(), lib(&json("{}")));
    assert!(connection.has_unary(&id));
    let err = connection.unary_sent(&id, false).unwrap_err();
    assert_eq!(err.code, error_code::UNSUPPORTED_OPERATION);
    assert_eq!(err.message, "websocket connection is not writable");
    assert!(!connection.has_unary(&id));
}

#[test]
fn test_call_stream_sends_frame_and_stream_end_removes_pending() {
    let mut connection = WebSocketConnection::new();
    let (id, frame) = connection.start_stream(
        methods::SUBSCRIBE_TO_TASK,
        &ServiceParams::new(),
        lib(&json("{\"id\":\"task-1\"}")),
    );
    let value: serde_json::Value = serde_json::from_slice(&frame.unwrap()).unwrap();
    assert_eq!(value["method"], methods::SUBSCRIBE_TO_TASK);
    assert!(value.get("serviceParams").is_none());
    assert!(connection.has_stream(&id));

    let response = WebSocketResponseEnvelope::stream_end(text_id(&id));
    connection.route_incoming_frame(&response.to_vec().unwrap());
    assert!(!connection.has_stream(&id));
}

#[test]
fn test_call_stream_removes_pending_on_send_error() {
    let mut connection = WebSocketConnection::new();
    let (id, _) = connection.start_stream(
        methods::SUBSCRIBE_TO_TASK,
        &ServiceParams::new(),
        lib(&json("{}")),
    );
    assert!(connection.has_stream(&id));
    let err = connection.stream_sent(&id, false).unwrap_err();
    assert_eq!(err.code, error_code::UNSUPPORTED_OPERATION);
    assert_eq!(err.message, "websocket connection is not writable");
    assert!(!connection.has_stream(&id));
}

fn routed(connection: &mut WebSocketConnection, response: WebSocketResponseEnvelope) -> Route {
    connection.route_incoming_frame(&response.to_vec().unwrap())
}

#[test]
fn test_route_incoming_frame_success() {
    let mut connection = WebSocketConnection::new();
    connection.register_unary("test-id");
    let response =
        WebSocketResponseEnvelope::success(text_id("test-id"), lib(&json("{\"result\":\"ok\"}")));
    match routed(&mut connection, response) {
        Route::Answer { result, .. } => {
            assert_eq!(plain(&result.unwrap()), json("{\"result\":\"ok\"}"))
        }
        other => panic!("expected an answer, got {other:?}"),
    }
}

#[test]
fn test_route_incoming_frame_error() {
    let mut connection = WebSocketConnection::new();
    connection.register_unary("test-id");
    let response =
        WebSocketResponseEnvelope::error(text_id("test-id"), error(-32600, "Invalid request"));
    match routed(&mut connection, response) {
        Route::Answer { result, .. } => assert_eq!(result.unwrap_err().code, -32600),
        other => panic!("expected an answer, got {other:?}"),
    }
}

fn failed(route: Route) -> A2AError {
    match route {
        Route::FailAll(e) => e,
        other => panic!("expected a failure, got {other:?}"),
    }
}

#[test]
fn test_route_incoming_frame_invalid_json() {
    let mut connection = WebSocketConnection::new();
    let err = failed(connection.route_incoming_frame(b"invalid json"));
    assert_eq!(err.code, error_code::PARSE_ERROR);
}

#[test]
fn test_route_incoming_frame_non_string_id() {
    let mut connection = WebSocketConnection::new();
    let response = WebSocketResponseEnvelope::success(JsonRpcId::Int(123), lib(&json("{}")));
    assert_eq!(failed(routed(&mut connection, response)).code, error_code::INVALID_REQUEST);
}

#[test]
fn test_fail_all_pending() {
    let mut connection = WebSocketConnection::new();
    connection.register_unary("id1");
    connection.register_unary("id2");
    connection.register_stream("stream-id");
    let err = failed(connection.fail_all_pending(A2AError::internal("test error")));
    assert_eq!(err.code, error_code::INTERNAL_ERROR);
    assert!(!connection.has_unary("id1") && !connection.has_unary("id2"));
    assert!(!connection.has_stream("stream-id"));
}

#[test]
fn test_route_incoming_frame_stream_end() {
    let mut connection = WebSocketConnection::new();
    connection.register_stream("test-id");
    routed(&mut connection, WebSocketResponseEnvelope::stream_end(text_id("test-id")));
    assert!(!connection.has_stream("test-id"));
}

#[test]
fn test_route_incoming_frame_stream_error() {
    let mut connection = WebSocketConnection::new();
    connection.register_stream("test-id");
    let response = WebSocketResponseEnvelope::stream_error(
        text_id("test-id"),
        error(error_code::INTERNAL_ERROR, "stream failed"),
    );
    match routed(&mut connection, response) {
        Route::StreamError { error, .. } => assert_eq!(error.code, error_code::INTERNAL_ERROR),
        other => panic!("expected an error, got {other:?}"),
    }
    assert!(!connection.has_stream("test-id"));
}

#[test]
fn test_route_incoming_frame_stream_event_drops_closed_sender() {
    let mut connection = WebSocketConnection::new();
    connection.register_stream("test-id");
    let response =
        WebSocketResponseEnvelope::stream_event(text_id("test-id"), lib(&json("{\"task\":{}}")));
    match routed(&mut connection, response) {
        Route::Event { id, waiting, .. } => {
            assert!(waiting);
            connection.unregister_stream(&id);
        }
        other => panic!("expected an event, got {other:?}"),
    }
    assert!(!connection.has_stream("test-id"));
}

#[test]
fn a_connection_that_ends_fails_everyone() {
    let mut connection = WebSocketConnection::new();
    connection.register_unary("a");
    assert!(matches!(connection.on_event(SocketEvent::Other), Route::Ignore));
    let err = failed(connection.on_event(SocketEvent::Closed));
    assert_eq!(err.message, "websocket connection closed");
    assert_eq!(err.code, error_code::UNSUPPORTED_OPERATION);
    let err = failed(connection.on_event(SocketEvent::ReadFailed("reset".into())));
    assert_eq!(err.message, "websocket read error: reset");
    let err = failed(connection.unreadable_event("bad"));
    assert_eq!(err.message, "failed to parse stream event: bad");
}

#[test]
fn payloads_and_answers_may_fail() {
    assert_eq!(request_payload(Ok(JsonValue::Null)).unwrap(), JsonValue::Null);
    assert_eq!(
        request_payload(Err("e".into())).unwrap_err().message,
        "failed to serialize request as ProtoJSON: e"
    );
    assert_eq!(read_answer(Ok(Ok(1))).unwrap(), 1);
    assert_eq!(
        read_answer::<i32>(Ok(Err("e".into()))).unwrap_err().message,
        "failed to deserialize result: e"
    );
    assert_eq!(read_answer::<i32>(Err(A2AError::internal("x"))).unwrap_err().message, "x");
}

fn answered(response: &WebSocketResponseEnvelope) -> serde_json::Value {
    serde_json::from_slice(&encode_response(response).unwrap()).unwrap()
}

/// A handler that knows every task but `missing`.
fn serve(frame: &[u8]) -> serde_json::Value {
    let call = match handle_text_frame(frame, &ServiceParams::new()) {
        SocketStep::Respond(r) => return answered(&r),
        SocketStep::Unary(call) => call,
        SocketStep::Stream(_) => panic!("expected a call that answers once"),
    };
    let wanted = call.payload.get("id").and_then(|v| v.as_str()).unwrap_or("").to_string();
    let handled = match dispatch_unary(&call.method) {
        Err(e) => Handled::Failed(e),
        Ok(Operation::DeletePushConfig) => Handled::Done,
        Ok(_) if wanted == "missing" => Handled::Failed(A2AError::new(
            error_code::TASK_NOT_FOUND,
            format!("task not found: {wanted}"),
        )),
        Ok(_) => Handled::Value(lib(&json("{\"id\":\"t1\"}"))),
    };
    answered(&unary_response(call.id, finish_unary(&call.method, handled)))
}

fn request(method: &str, id: &str) -> Vec<u8> {
    format!("{{\"jsonrpc\":\"2.0\",\"id\":\"x\",\"method\":\"{method}\",\"params\":{{\"id\":\"{id}\"}}}}")
        .into_bytes()
}

#[test]
fn test_send_response_ok() {
    let resp = WebSocketResponseEnvelope::success(text_id("id"), lib(&json("{}")));
    assert!(encode_response(&resp).is_ok());
}

#[test]
fn test_send_response_closed_channel() {
    assert_eq!(output_closed().code, error_code::UNSUPPORTED_OPERATION);
    assert_eq!(output_closed().message, "websocket output channel is closed");
}

#[test]
fn test_parse_error() {
    let value = serve(b"bad input");
    assert_eq!(value["error"]["code"], error_code::PARSE_ERROR);
    let reason = serde_json::from_str::<serde_json::Value>("bad input").unwrap_err();
    assert_eq!(value["error"]["message"], format!("invalid websocket frame: {reason}"));
    assert!(value["id"].is_null());
}

#[test]
fn test_invalid_params_error() {
    let error = finish_unary(methods::GET_TASK, Handled::Unreadable("bad param".into())).unwrap_err();
    assert_eq!(error.code, error_code::INVALID_PARAMS);
    assert!(error.message.contains("bad param"));
}

#[test]
fn test_handle_unary_unknown_method() {
    let value = serve(&request("tasks/unknown", "t1"));
    assert_eq!(value["error"]["code"], error_code::METHOD_NOT_FOUND);
    assert_eq!(
        dispatch_unary("").unwrap_err().code,
        error_code::INVALID_REQUEST,
        "a method is required"
    );
    assert_eq!(dispatch_streaming("GetTask").unwrap_err().code, error_code::METHOD_NOT_FOUND);
}

#[test]
fn test_handle_unary_push_config_crud() {
    for method in [
        methods::CREATE_PUSH_CONFIG,
        methods::GET_PUSH_CONFIG,
        methods::LIST_PUSH_CONFIGS,
    ] {
        assert!(serve(&request(method, "t1"))["result"].is_object(), "{method}");
    }
    let deleted = serve(&request(methods::DELETE_PUSH_CONFIG, "t1"));
    assert!(deleted.as_object().unwrap().contains_key("result") && deleted["result"].is_null());
}

#[test]
fn a_push_config_may_be_in_either_form() {
    let no = |s: &str| Err::<i32, String>(s.to_string());
    assert_eq!(read_push_config(Ok(1), no("b")), Ok(1));
    assert_eq!(read_push_config(no("a"), Ok(2)), Ok(2));
    assert_eq!(
        read_push_config(no("a"), no("b")).unwrap_err(),
        "a; nested request parse failed: b"
    );
}

#[test]
fn test_handle_text_frame_invalid_version_sends_error() {
    let frame = br#"{"jsonrpc":"1.0","id":"x","method":"GetTask","params":{"id":"t1"}}"#;
    let value = serve(frame);
    assert_eq!(value["error"]["code"], error_code::INVALID_REQUEST);
    assert_eq!(value["id"], "x");
}

#[test]
fn test_handle_text_frame_parse_error() {
    assert_eq!(serve(b"not-json")["error"]["code"], error_code::PARSE_ERROR);
}

#[test]
fn test_handle_text_frame_unary_ok() {
    assert!(serve(&request("GetTask", "t1"))["result"].is_object());
}

#[test]
fn test_handle_text_frame_unary_error() {
    let value = serve(&request("GetTask", "missing"));
    assert_eq!(value["error"]["code"], error_code::TASK_NOT_FOUND);
}

#[test]
fn test_spawn_streaming_call_ok() {
    let frame = request(methods::SEND_STREAMING_MESSAGE, "t1");
    let id = match handle_text_frame(&frame, &ServiceParams::new()) {
        SocketStep::Stream(call) => call.id,
        other => panic!("expected a stream, got {other:?}"),
    };
    let (first, more) = stream_step(&id, SocketStreamEvent::Item(lib(&json("{\"task\":{}}"))));
    assert!(more && answered(&first).get("streamEvent").is_some());
    let (last, more) = stream_step(&id, SocketStreamEvent::Ended);
    assert!(!more);
    assert_eq!(answered(&last)["streamEnd"], true);
}

#[test]
fn test_spawn_streaming_call_error() {
    let refused = SocketStreamEvent::Refused(A2AError::internal("stream-fail"));
    let (out, more) = stream_step(&text_id("s2"), refused);
    assert!(!more && answered(&out)["error"].is_object());
    let (out, more) =
        stream_step(&text_id("s2"), SocketStreamEvent::Failed(A2AError::internal("late")));
    assert!(!more && answered(&out)["streamError"].is_object());
    let (out, more) = stream_step(&text_id("s2"), SocketStreamEvent::Unwritable("e".into()));
    assert!(!more);
    assert_eq!(
        answered(&out)["streamError"]["message"],
        "failed to serialize ProtoJSON stream payload: e"
    );
}

#[test]
fn the_params_of_a_message_win_over_those_of_its_connection() {
    let mut connection = ServiceParams::new();
    connection.insert("x-a".into(), vec!["1".into()]);
    connection.insert("x-b".into(), vec!["2".into()]);
    let frame = br#"{"jsonrpc":"2.0","id":1,"method":"GetTask","serviceParams":{"x-b":["3","4"]}}"#;
    match handle_text_frame(frame, &connection) {
        SocketStep::Unary(call) => {
            assert_eq!(call.params.get("x-a").unwrap(), &vec!["1"]);
            assert_eq!(call.params.get("x-b").unwrap(), &vec!["3", "4"]);
            assert_eq!(call.payload, JsonValue::Null);
        }
        other => panic!("expected a call, got {other:?}"),
    }
}

#[test]
fn binary_frames_end_a_connection() {
    match serve_step(FrameKind::Binary) {
        SocketAction::Stop(Some((code, reason))) => {
            assert_eq!(code, 1003);
            assert_eq!(reason, "binary websocket frames are not supported");
        }
        other => panic!("expected a close, got {other:?}"),
    }
    assert!(matches!(serve_step(FrameKind::Text), SocketAction::Handle));
    assert!(matches!(serve_step(FrameKind::Other), SocketAction::Ignore));
    assert!(matches!(serve_step(FrameKind::Close), SocketAction::Stop(None)));
    assert!(matches!(serve_step(FrameKind::Broken), SocketAction::Stop(None)));
}

#[test]
fn a_call_without_params_carries_none() {
    let bare = call_envelope("i", "GetTask", &ServiceParams::new(), JsonValue::Null);
    assert!(bare.service_params.is_none());
    assert_eq!(bare.id, text_id("i"));
}

#[test]
fn a_call_whose_frame_was_handed_on_still_waits() {
    let mut connection = WebSocketConnection::new();
    let (id, _) =
        connection.start_unary(methods::GET_TASK, &ServiceParams::new(), lib(&json("{}")));
    assert!(connection.unary_sent(&id, true).is_ok());
    assert!(connection.has_unary(&id));
    let (id, _) = connection.start_stream(
        methods::SUBSCRIBE_TO_TASK,
        &ServiceParams::new(),
        lib(&json("{}")),
    );
    assert!(connection.stream_sent(&id, true).is_ok());
    assert!(connection.has_stream(&id));
}

#[test]
fn an_address_must_have_a_host() {
    assert!(check_client_url("ws://127.0.0.1:9000/ws").is_ok());
    assert!(check_client_url("wss://agent.example/path?x=1").is_ok());
    let err = check_client_url("ws://").unwrap_err();
    assert_eq!(err.code, error_code::INVALID_REQUEST);
    assert!(err.message.starts_with("invalid websocket URL 'ws://': "), "{}", err.message);
    let err = check_client_url("ws://a b/").unwrap_err();
    assert!(err.message.starts_with("invalid websocket URL 'ws://a b/': "), "{}", err.message);
    let err = check_client_url("/only/a/path").unwrap_err();
    assert_eq!(
        err.message,
        "invalid websocket URL '/only/a/path': URL error: No host name in the URL"
    );
    assert_eq!(invalid_url("u", "why").message, "invalid websocket URL 'u': why");
}

#[test]
fn what_goes_over_a_plain_socket_is_made_ready() {
    let raw = r#"{"timestamp":"2026-01-02T03:04:05+00:00"}"#;
    let ready = r#"{"timestamp":"2026-01-02T03:04:05Z"}"#;
    let sent = |method: &str| plain(&finish_unary(method, Handled::Value(lib(&json(raw)))).unwrap());
    assert_eq!(sent(methods::GET_TASK), json(ready));
    let mut page = json(ready);
    page["nextPageToken"] = serde_json::Value::from("");
    assert_eq!(sent(methods::LIST_TASKS), page);
    for own in [methods::CREATE_PUSH_CONFIG, methods::GET_PUSH_CONFIG, methods::LIST_PUSH_CONFIGS] {
        assert_eq!(sent(own), json(raw), "{own}");
    }
    let (item, _) = stream_step(&text_id("s"), SocketStreamEvent::Item(lib(&json(raw))));
    assert_eq!(answered(&item)["streamEvent"], json(ready));

    let mut connection = WebSocketConnection::new();
    let mut asked = |method: &str| -> serde_json::Value {
        let (_, frame) = connection.start_unary(method, &ServiceParams::new(), lib(&json(raw)));
        serde_json::from_slice(&frame.unwrap()).unwrap()
    };
    assert_eq!(asked(methods::LIST_TASKS)["params"], json(ready));
    assert_eq!(asked(methods::CREATE_PUSH_CONFIG)["params"], json(raw));
}
