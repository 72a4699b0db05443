use a2a_bindings::dispatch::{Handled, StreamEvent};
use a2a_bindings::error_code;
use a2a_bindings::json_value::{JsonNum, JsonValue};
use a2a_bindings::methods;
use a2a_bindings::params::ServiceParams;
use a2a_bindings::protocol::{A2AError, JsonRpcId};
use a2a_bindings::text_map::TextMap;
use a2a_bindings::websocket::auth::{AuthContext, AuthError, AuthStatus, User};
use a2a_bindings::websocket::common::{
    WsRequestEnvelope, WsResponseEnvelope, CONTROL_REAUTH_REQUIRED, DEFAULT_MAX_FRAME_BYTES,
    SERVER_ERROR_CODE,
};
use a2a_bindings::websocket::errors::{
    ReadFault, AUTHENTICATION_REQUIRED, MESSAGE_TOO_BIG, POLICY_VIOLATION, PROTOCOL_ERROR,
    UNSUPPORTED_DATA,
};
use a2a_bindings::websocket::handshake::{
    accepted_headers, auth_refusal, capture_connection_params, check_upgrade, header_text,
    origin_allowed, service_params_from_headers, subprotocol_is_negotiated, Header,
};
use a2a_bindings::websocket::server::{
    combine_service_params, error_frame, finish_unary, flush_outbound, handle_text_frame,
    rate_limited, run_connection_step, serialize_response, stream_step, unary_answer, ConnAction,
    ConnAuth, ConnEvent, ConnectionParams, Dispatch, FrameStep, Outbound, StreamRegistry, WsCall,
    WebSocketConfig,
};

fn lib(v: &serde_json::Value) -> JsonValue {
    match v {
        serde_json::Value::Null => JsonValue::Null,
        serde_json::Value::Bool(b) => JsonValue::Bool(*b),
        serde_json::Value::Number(n) => JsonValue::Num(match (n.as_i64(), n.as_u64()) {
            (Some(i), _) => JsonNum::Int(i),
            (None, Some(u)) => JsonNum::UInt(u),
            (None, None) => JsonNum::Float(n.clone()),
        }),
        serde_json::Value::String(s) => JsonValue::Text(s.clone()),
        serde_json::Value::Array(a) => JsonValue::Array(a.iter().map(lib).collect()),
        serde_json::Value::Object(m) => {
            JsonValue::Object(m.iter().map(|(k, v)| (k.clone(), lib(v))).collect())
        }
    }
}

fn plain(v: &JsonValue) -> serde_json::Value {
    match v {
        JsonValue::Null => serde_json::Value::Null,
        JsonValue::Bool(b) => serde_json::Value::from(*b),
        JsonValue::Num(JsonNum::Int(i)) => serde_json::Value::from(*i),
        JsonValue::Num(JsonNum::UInt(u)) => serde_json::Value::from(*u),
        JsonValue::Num(JsonNum::Float(n)) => serde_json::Value::Number(n.clone()),
        JsonValue::Text(s) => serde_json::Value::from(s.as_str()),
        JsonValue::Array(a) => serde_json::Value::Array(a.iter().map(plain).collect()),
        JsonValue::Object(e) => {
            serde_json::Value::Object(e.iter().map(|(k, v)| (k.clone(), plain(v))).collect())
        }
    }
}

fn json(text: &str) -> serde_json::Value {
    serde_json::from_str(text).unwrap()
}

fn text_id(s: &str) -> JsonRpcId {
    JsonRpcId::Text(s.into())
}

fn header(name: &str, value: &str) -> Header {
    Header { name: name.into(), value: value.as_bytes().to_vec() }
}

fn raw(out: &Outbound) -> serde_json::Value {
    match out {
        Outbound::Frame(bytes) => serde_json::from_slice(bytes).unwrap(),
        Outbound::Close { .. } => panic!("expected frame"),
    }
}

fn frame_payload(out: &Outbound) -> WsResponseEnvelope {
    match out {
        Outbound::Frame(bytes) => WsResponseEnvelope::from_slice(bytes).unwrap(),
        Outbound::Close { .. } => panic!("expected frame"),
    }
}

fn close_code(out: &Outbound) -> u16 {
    match out {
        Outbound::Close { code, .. } => *code,
        Outbound::Frame(_) => panic!("expected close frame"),
    }
}

fn refused(step: FrameStep) -> (Vec<Outbound>, bool) {
    match step {
        FrameStep::Refuse { out, fatal } => (out, fatal),
        other => panic!("expected a refusal, got {other:?}"),
    }
}

fn auth(refreshable: bool) -> ConnAuth {
    ConnAuth::new(refreshable, AuthContext::default(), &vec![])
}

#[test]
fn subprotocol_is_negotiated_accepts_exact_match() {
    assert!(subprotocol_is_negotiated(&vec![header("sec-websocket-protocol", "a2a.v1")]));
    assert!(subprotocol_is_negotiated(&vec![header("Sec-WebSocket-Protocol", "chat, A2A.V1 ")]));
}

#[test]
fn subprotocol_is_negotiated_rejects_unknown_name() {
    assert!(!subprotocol_is_negotiated(&vec![header("sec-websocket-protocol", "a2a.jsonrpc.v1")]));
}

#[test]
fn origin_allowed_matches_allowlist() {
    let headers = vec![header("origin", "https://ok.test")];
    assert!(origin_allowed(&headers, &vec!["https://ok.test".to_string()]));
    assert!(!origin_allowed(&headers, &vec!["https://other.test".to_string()]));
    assert!(!origin_allowed(&vec![], &vec!["https://ok.test".to_string()]));
}

#[test]
fn capture_connection_params_lowercases_keys_and_filters_internal_headers() {
    let params = capture_connection_params(&vec![
        header("A2A-Version", "1.0"),
        header("Authorization", "Bearer t"),
        header("Host", "agent.example.com"),
    ]);
    assert_eq!(params.get("a2a-version").unwrap(), &vec!["1.0".to_string()]);
    assert_eq!(params.get("authorization").unwrap(), &vec!["Bearer t".to_string()]);
    assert!(!params.contains_key("host"));
}

#[test]
fn test_service_params_from_headers() {
    let params = service_params_from_headers(&vec![
        header("x-custom", "value1"),
        header("x-multi", "value2"),
        header("x-multi", "value3"),
    ]);
    assert_eq!(params.get("x-custom"), Some(&vec!["value1".to_string()]));
    assert_eq!(params.get("x-multi"), Some(&vec!["value2".to_string(), "value3".to_string()]));
}

#[test]
fn test_service_params_from_headers_empty() {
    assert!(service_params_from_headers(&vec![]).is_empty());
}

#[test]
fn test_service_params_from_headers_invalid_utf8() {
    let params = service_params_from_headers(&vec![
        header("x-valid", "value"),
        Header { name: "x-invalid".into(), value: vec![0xFF, 0xFE] },
    ]);
    assert_eq!(params.get("x-valid"), Some(&vec!["value".to_string()]));
    assert!(params.get("x-invalid").is_none());
}

#[test]
fn header_values_read_as_the_http_crate_reads_them() {
    for byte in 0u8..=255 {
        let Ok(value) = http::HeaderValue::from_bytes(&[b'a', byte]) else { continue };
        assert_eq!(
            header_text(&[b'a', byte]),
            value.to_str().ok().map(|s| s.to_string()),
            "byte {byte}"
        );
    }
}

fn ctx(pairs: &[(&str, &str)]) -> AuthContext {
    let mut service_params = ServiceParams::new();
    for (k, v) in pairs {
        service_params.insert(k.to_string(), vec![v.to_string()]);
    }
    AuthContext { service_params, ..AuthContext::default() }
}

fn envelope_with_params(pairs: &[(&str, &str)]) -> WsRequestEnvelope {
    let mut carried = TextMap::new();
    for (k, v) in pairs {
        carried.insert(k.to_string(), v.to_string());
    }
    WsRequestEnvelope {
        id: Some(text_id("req")),
        method: Some(methods::SEND_MESSAGE.into()),
        service_params: Some(carried),
        ..WsRequestEnvelope::default()
    }
}

#[test]
fn combine_service_params_per_request_overrides_connection_scope() {
    let connection = ConnectionParams::new(
        &vec![header("a2a-version", "1.0"), header("x-keep", "preserve")],
        &AuthContext::default(),
    );
    let envelope = envelope_with_params(&[("a2a-version", "1.5"), ("x-extra", "added")]);
    let combined = combine_service_params(&connection, &envelope);
    assert_eq!(combined.get("a2a-version").unwrap(), &vec!["1.5".to_string()]);
    assert_eq!(combined.get("x-keep").unwrap(), &vec!["preserve".to_string()]);
    assert_eq!(combined.get("x-extra").unwrap(), &vec!["added".to_string()]);
}

#[test]
fn combine_service_params_refuses_to_override_authenticated_params() {
    let connection = ConnectionParams::new(&vec![], &ctx(&[("x-tenant", "acme")]));
    let combined =
        combine_service_params(&connection, &envelope_with_params(&[("x-tenant", "evil-corp")]));
    assert_eq!(combined.get("x-tenant").unwrap(), &vec!["acme".to_string()]);
}

#[test]
fn combine_service_params_matches_authenticated_keys_case_insensitively() {
    let connection = ConnectionParams::new(&vec![], &ctx(&[("X-Tenant", "acme")]));
    let combined =
        combine_service_params(&connection, &envelope_with_params(&[("X-TENANT", "evil-corp")]));
    assert_eq!(combined.get("x-tenant").unwrap(), &vec!["acme".to_string()]);
    assert!(!combined.contains_key("X-TENANT"));
}

#[test]
fn connection_params_let_the_authenticator_override_a_handshake_header() {
    let connection = ConnectionParams::new(
        &vec![header("x-tenant", "claimed-by-client")],
        &ctx(&[("x-tenant", "acme")]),
    );
    assert_eq!(connection.combine(&None).get("x-tenant").unwrap(), &vec!["acme".to_string()]);
}

#[test]
fn a_new_login_replaces_what_the_old_one_vouched_for() {
    let connection = ConnectionParams::new(
        &vec![header("x-tenant", "claimed"), header("x-keep", "k")],
        &ctx(&[("x-tenant", "acme")]),
    );
    let again = connection.reauthenticated(&ctx(&[("x-user", "bob")])).combine(&None);
    assert_eq!(again.get("x-tenant").unwrap(), &vec!["claimed".to_string()]);
    assert_eq!(again.get("x-user").unwrap(), &vec!["bob".to_string()]);
    assert_eq!(again.get("x-keep").unwrap(), &vec!["k".to_string()]);
}

#[test]
fn serialize_response_emits_jsonrpc_stream_end() {
    let bytes = serialize_response(&WsResponseEnvelope::stream_end(text_id("req-1")));
    let value: serde_json::Value = serde_json::from_slice(&bytes).unwrap();
    assert_eq!(value["jsonrpc"], "2.0");
    assert_eq!(value["id"], "req-1");
    assert_eq!(value["streamEnd"], true);
}

#[test]
fn handle_text_frame_invalid_json_sends_error_and_close() {
    let (out, fatal) = refused(handle_text_frame(b"{not json"));
    assert!(fatal);
    let value = raw(&out[0]);
    assert!(value["id"].is_null());
    assert!(value.as_object().unwrap().contains_key("id"));
    assert_eq!(value["error"]["code"], error_code::PARSE_ERROR);
    assert_eq!(close_code(&out[1]), PROTOCOL_ERROR);
}

#[test]
fn handle_text_frame_bad_jsonrpc_version_is_invalid_request() {
    let (out, fatal) =
        refused(handle_text_frame(br#"{"jsonrpc":"1.0","id":"r","method":"GetTask"}"#));
    assert!(!fatal);
    assert_eq!(frame_payload(&out[0]).error.unwrap().code, error_code::INVALID_REQUEST);
}

fn sent(envelope: WsRequestEnvelope) -> FrameStep {
    handle_text_frame(&envelope.to_vec().unwrap())
}

#[test]
fn handle_text_frame_missing_method_sends_invalid_request() {
    let (out, fatal) = refused(sent(WsRequestEnvelope {
        id: Some(text_id("req-1")),
        ..WsRequestEnvelope::default()
    }));
    assert!(!fatal);
    let response = frame_payload(&out[0]);
    assert_eq!(response.id, Some(text_id("req-1")));
    assert_eq!(response.error.unwrap().code, error_code::INVALID_REQUEST);
}

#[test]
fn a_request_needs_an_id() {
    for (body, words) in [
        (&br#"{"jsonrpc":"2.0","method":"GetTask"}"#[..], "request id is required"),
        (&br#"{"jsonrpc":"2.0","id":null,"method":"GetTask"}"#[..], "request id is required"),
    ] {
        let (out, _) = refused(handle_text_frame(body));
        let error = frame_payload(&out[0]).error.unwrap();
        assert_eq!(error.code, error_code::INVALID_REQUEST);
        assert_eq!(error.message, words);
    }
}

fn dispatched(conn: &ConnAuth, envelope: WsRequestEnvelope) -> Dispatch {
    match sent(envelope) {
        FrameStep::Request(call) => conn.dispatch(call),
        other => panic!("expected a request, got {other:?}"),
    }
}

fn request(method: &str) -> WsRequestEnvelope {
    WsRequestEnvelope {
        id: Some(text_id("req-1")),
        method: Some(method.into()),
        ..WsRequestEnvelope::default()
    }
}

#[test]
fn handle_text_frame_unknown_method_sends_method_not_found() {
    match dispatched(&auth(false), request("Bogus")) {
        Dispatch::Refuse(out) => {
            assert_eq!(frame_payload(&out).error.unwrap().code, error_code::METHOD_NOT_FOUND)
        }
        other => panic!("expected a refusal, got {other:?}"),
    }
}

#[test]
fn calls_are_told_from_streams() {
    assert!(matches!(
        dispatched(&auth(false), request(methods::SEND_STREAMING_MESSAGE)),
        Dispatch::Stream(_)
    ));
    match dispatched(&auth(false), request(methods::GET_TASK)) {
        Dispatch::Unary(call) => {
            assert_eq!(call.method, methods::GET_TASK);
            assert_eq!(call.payload, JsonValue::Null);
        }
        other => panic!("expected a call, got {other:?}"),
    }
    match sent(request(methods::AUTHENTICATE)) {
        FrameStep::Authenticate { id, .. } => assert_eq!(id, text_id("req-1")),
        other => panic!("expected a login, got {other:?}"),
    }
}

#[test]
fn handle_text_frame_cancel_stream_removes_registered_stream() {
    let mut streams = StreamRegistry::new();
    streams.start(&text_id("stream-1"));
    match sent(WsRequestEnvelope {
        id: Some(text_id("stream-1")),
        cancel_stream: Some(true),
        ..WsRequestEnvelope::default()
    }) {
        FrameStep::Cancel { id } => assert!(streams.remove(&id)),
        other => panic!("expected a cancellation, got {other:?}"),
    }
    assert!(streams.is_empty());
    assert!(!streams.remove(&text_id("stream-1")));
}

#[test]
fn run_unary_request_emits_close_for_fatal_error() {
    let error = A2AError::new(error_code::PARSE_ERROR, "fatal parse".into());
    let out = unary_answer(text_id("req-fatal"), finish_unary(methods::GET_TASK, Handled::Failed(error)));
    assert_eq!(frame_payload(&out[0]).error.unwrap().code, error_code::PARSE_ERROR);
    assert_eq!(close_code(&out[1]), PROTOCOL_ERROR);
    assert_eq!(out.len(), 2);
}

#[test]
fn an_ordinary_error_does_not_close_the_connection() {
    let out = unary_answer(
        text_id("r"),
        finish_unary(methods::GET_TASK, Handled::Unreadable("ProtoJSON error: missing field".into())),
    );
    assert_eq!(out.len(), 1);
    let error = frame_payload(&out[0]).error.unwrap();
    assert_eq!(error.code, error_code::INVALID_PARAMS);
    assert_eq!(error.message, "ProtoJSON error: missing field");
    let out = unary_answer(text_id("r"), finish_unary(methods::GET_TASK, Handled::Unwritable("x".into())));
    assert_eq!(
        frame_payload(&out[0]).error.unwrap().message,
        "failed to serialize ProtoJSON payload: x"
    );
}

#[test]
fn run_streaming_request_emits_result_chunk_and_stream_end() {
    let id = text_id("stream-1");
    let event = lib(&json(r#"{"statusUpdate":{"taskId":"stream"}}"#));
    let (chunk, more) = stream_step(&id, StreamEvent::Item(event));
    assert!(more);
    let chunk = frame_payload(&chunk);
    assert_eq!(chunk.id, Some(text_id("stream-1")));
    assert!(chunk.result.is_some(), "streaming chunk must use `result`");
    let (end, more) = stream_step(&id, StreamEvent::Ended);
    assert!(!more);
    assert_eq!(frame_payload(&end).stream_end, Some(true));
}

#[test]
fn run_streaming_request_emits_stream_end_after_cancellation() {
    let (end, more) = stream_step(&text_id("stream-cancel"), StreamEvent::Cancelled);
    assert_eq!(frame_payload(&end).stream_end, Some(true));
    assert!(!more);
}

fn credentials(value: &str) -> JsonValue {
    lib(&json(&format!("{{\"scheme\":\"Bearer\",\"credentials\":\"{value}\"}}")))
}

#[test]
fn authenticate_unsupported_returns_unsupported_operation() {
    let out = auth(false).begin_refresh(&text_id("auth-1"), &credentials("x")).unwrap_err();
    assert_eq!(frame_payload(&out).error.unwrap().code, error_code::UNSUPPORTED_OPERATION);
}

#[test]
fn authenticate_needs_credentials() {
    let out = auth(true).begin_refresh(&text_id("auth-1"), &JsonValue::Null).unwrap_err();
    assert_eq!(frame_payload(&out).error.unwrap().code, error_code::INVALID_PARAMS);
}

#[test]
fn authenticate_success_returns_empty_result() {
    let mut conn = auth(true);
    let given = conn.begin_refresh(&text_id("auth-1"), &credentials("new")).unwrap();
    assert_eq!((given.scheme.as_str(), given.credentials.as_str()), ("Bearer", "new"));
    let resp = frame_payload(&conn.finish_refresh(text_id("auth-1"), Ok(ctx(&[("x", "1")]))));
    assert_eq!(resp.id, Some(text_id("auth-1")));
    assert_eq!(plain(&resp.result.unwrap()), json("{}"));
    assert_eq!(conn.context().service_params.get("x").unwrap(), &vec!["1".to_string()]);
}

#[test]
fn authenticate_failure_returns_server_error_code() {
    let mut conn = auth(true);
    let refreshed = Err(AuthError::unauthorized("bad token"));
    let resp = frame_payload(&conn.finish_refresh(text_id("auth-1"), refreshed));
    assert_eq!(resp.error.unwrap().code, SERVER_ERROR_CODE);
}

#[test]
fn check_connection_auth_expired_sends_error_and_close() {
    let check =
        auth(false).check(Some(AuthStatus::Expired { reason: "revoked".into() }), &text_id("r"));
    assert!(!check.proceed);
    assert_eq!(frame_payload(&check.out[0]).error.unwrap().code, SERVER_ERROR_CODE);
    assert_eq!(close_code(&check.out[1]), AUTHENTICATION_REQUIRED);
}

#[test]
fn check_connection_auth_reauth_required_emits_control_frame() {
    let mut conn = auth(false);
    let status = || AuthStatus::ReauthRequired { reason: "expiring".into(), retry_after_ms: 0 };
    let check = conn.check(Some(status()), &text_id("r"));
    assert!(check.proceed && check.close_later);
    let resp = frame_payload(&check.out[0]);
    assert_eq!(resp.control.as_deref(), Some(CONTROL_REAUTH_REQUIRED));
    assert!(resp.id.is_none(), "control frames carry no id");

    let again = conn.check(Some(status()), &text_id("r2"));
    assert!(again.proceed && !again.close_later);
    assert!(again.out.is_empty(), "the second request brings no second control frame");
    assert_eq!(close_code(&conn.grace_over().unwrap()), AUTHENTICATION_REQUIRED);
}

#[test]
fn get_extended_agent_card_unsupported_reason_is_carried_in_error_data() {
    let error = A2AError::unsupported_operation("GetExtendedAgentCard not implemented");
    let out = unary_answer(text_id("req"), finish_unary(methods::GET_TASK, Handled::Failed(error)));
    let resp = frame_payload(&out[0]);
    let error = resp.error.unwrap();
    assert_eq!(error.code, error_code::UNSUPPORTED_OPERATION);
    match error.data {
        Some(JsonValue::Array(details)) => {
            let reason = details.last().unwrap().get("reason").unwrap();
            assert_eq!(reason.as_str(), Some("UNSUPPORTED_OPERATION"));
        }
        other => panic!("expected a list of details, got {other:?}"),
    }
}

#[test]
fn a_request_is_looked_at_after_its_credentials() {
    let call = |method: &str| WsCall {
        id: text_id("r"),
        method: method.into(),
        params: JsonValue::Null,
        service_params: None,
    };
    let expired = Some(AuthStatus::Expired { reason: "revoked".into() });
    let step = auth(false).on_request(call(methods::GET_TASK), expired);
    assert!(step.next.is_none() && !step.check.proceed);

    let step = auth(false).on_request(call(methods::GET_TASK), Some(AuthStatus::Valid));
    assert!(step.check.out.is_empty());
    match step.next {
        Some(Dispatch::Unary(call)) => assert_eq!(call.method, methods::GET_TASK),
        other => panic!("expected a call, got {other:?}"),
    }
    let step = auth(false).on_request(call(methods::SUBSCRIBE_TO_TASK), None);
    assert!(matches!(step.next, Some(Dispatch::Stream(_))));
}

#[test]
fn a_refresh_in_time_calls_the_close_off() {
    let mut conn = auth(true);
    let status = AuthStatus::ReauthRequired { reason: "expiring".into(), retry_after_ms: 0 };
    conn.check(Some(status), &text_id("r"));
    conn.finish_refresh(text_id("a"), Ok(AuthContext::for_user(User::authenticated("bob"))));
    assert!(conn.grace_over().is_none());
}

#[test]
fn websocket_router_rejects_requests_without_subprotocol() {
    assert_eq!(check_upgrade(&vec![], &None).unwrap().status, 400);
    let good = vec![header("sec-websocket-protocol", "a2a.v1"), header("origin", "https://ok")];
    assert!(check_upgrade(&good, &None).is_none());
    assert_eq!(check_upgrade(&good, &Some(vec!["https://no".into()])).unwrap().status, 403);
    assert_eq!(auth_refusal(&AuthError::unauthorized("who?")).status, 401);
}

#[test]
fn a_connection_ends_where_it_must() {
    match run_connection_step(ConnEvent::Text { admitted: false, payload: b"{}".to_vec() }) {
        ConnAction::FlushAndStop(out) => {
            assert_eq!(frame_payload(&out[0]).error.unwrap().code, SERVER_ERROR_CODE);
            assert_eq!(close_code(&out[1]), POLICY_VIOLATION);
            assert_eq!(out.len(), rate_limited().len());
        }
        other => panic!("expected a close, got {other:?}"),
    }
    match run_connection_step(ConnEvent::Binary) {
        ConnAction::WriteAndStop(out) => assert_eq!(close_code(&out), UNSUPPORTED_DATA),
        other => panic!("expected a close, got {other:?}"),
    }
    match run_connection_step(ConnEvent::ReadFailed {
        fault: ReadFault::FrameTooLarge,
        text: "Frame too large".into(),
    }) {
        ConnAction::WriteAndStop(out) => assert_eq!(close_code(&out), MESSAGE_TOO_BIG),
        other => panic!("expected a close, got {other:?}"),
    }
    assert!(matches!(
        run_connection_step(ConnEvent::ReadFailed {
            fault: ReadFault::UnexpectedEof,
            text: "eof".into()
        }),
        ConnAction::Stop
    ));
    assert!(matches!(run_connection_step(ConnEvent::Close), ConnAction::Stop));
    assert!(matches!(run_connection_step(ConnEvent::QueueClosed), ConnAction::Stop));
    assert!(matches!(run_connection_step(ConnEvent::Other), ConnAction::Ignore));
}

#[test]
fn nothing_is_sent_after_a_close() {
    let queue = vec![
        error_frame(Some(text_id("a")), &A2AError::internal("x")),
        Outbound::Close { code: 1000, reason: "bye".into() },
        error_frame(Some(text_id("b")), &A2AError::internal("y")),
    ];
    let sent = flush_outbound(queue);
    assert_eq!(sent.len(), 2);
    assert_eq!(close_code(&sent[1]), 1000);
}

#[test]
fn frames_have_a_usual_size() {
    assert_eq!(WebSocketConfig::default().max_frame_bytes(), DEFAULT_MAX_FRAME_BYTES);
    let small = WebSocketConfig { max_frame_bytes: Some(64), ..WebSocketConfig::default() };
    assert_eq!(small.max_frame_bytes(), 64);
}

#[test]
fn a_refusal_without_an_identifier_has_a_null_one() {
    for body in [
        &br#"{"jsonrpc":"1.0","method":"GetTask"}"#[..],
        &br#"{"jsonrpc":"1.0","id":null,"method":"GetTask"}"#[..],
        &br#"{"jsonrpc":"2.0","method":"GetTask"}"#[..],
    ] {
        let (out, fatal) = refused(handle_text_frame(body));
        assert!(!fatal);
        let value = raw(&out[0]);
        assert!(value.as_object().unwrap().contains_key("id"));
        assert!(value["id"].is_null());
        assert_eq!(value["error"]["code"], error_code::INVALID_REQUEST);
    }
}

#[test]
fn a_connection_that_ends_closes_its_streams() {
    let mut streams = StreamRegistry::new();
    streams.start(&text_id("1"));
    streams.start(&JsonRpcId::Int(1));
    streams.start(&JsonRpcId::Int(2));
    assert!(streams.remove(&JsonRpcId::Int(2)));
    let ids = streams.drain();
    assert_eq!(ids.len(), 2);
    assert!(ids.contains(&text_id("1")));
    assert!(ids.contains(&JsonRpcId::Int(1)));
    assert!(streams.is_empty());
    assert!(streams.drain().is_empty());
}

#[test]
fn a_granted_connection_names_the_subprotocol() {
    let headers = accepted_headers();
    assert_eq!(headers.len(), 1);
    assert_eq!(headers[0].name, "sec-websocket-protocol");
    assert_eq!(headers[0].value, b"a2a.v1".to_vec());
    assert!(subprotocol_is_negotiated(&headers));
}

#[test]
fn what_is_sent_has_its_times_and_its_page_token() {
    let raw = r#"{"timestamp":"2026-01-02T03:04:05+00:00"}"#;
    let sent = |method: &str| {
        let result = finish_unary(method, Handled::Value(lib(&json(raw))));
        raw_result(&unary_answer(text_id("r"), result)[0])
    };
    assert_eq!(sent(methods::GET_TASK), json(r#"{"timestamp":"2026-01-02T03:04:05Z"}"#));
    assert_eq!(
        sent(methods::LIST_TASKS),
        json(r#"{"timestamp":"2026-01-02T03:04:05Z","nextPageToken":""}"#)
    );
    let (item, more) = stream_step(&text_id("r"), StreamEvent::Item(lib(&json(raw))));
    assert!(more);
    assert_eq!(raw_result(&item), json(r#"{"timestamp":"2026-01-02T03:04:05Z"}"#));
    let done = finish_unary(methods::DELETE_PUSH_CONFIG, Handled::Done);
    assert_eq!(raw_result(&unary_answer(text_id("r"), done)[0]), json("{}"));
}

fn raw_result(out: &Outbound) -> serde_json::Value {
    raw(out)["result"].clone()
}
