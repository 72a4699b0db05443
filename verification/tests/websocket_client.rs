use a2a_bindings::error_code;
use a2a_bindings::json_value::{JsonNum, JsonValue};
use a2a_bindings::methods;
use a2a_bindings::params::ServiceParams;
use a2a_bindings::protocol::{A2AError, JsonRpcError, JsonRpcId};
use a2a_bindings::websocket::auth::AuthenticateParams;
use a2a_bindings::websocket::client::{
    call_envelope, cancel_envelope, check_response, check_upgrade_request, close_error_for,
    connect_failed, connect_timed_out, envelope_frame, handle_reauth_required, id_key_of,
    new_upgrade_request, unreadable_chunk, upgrade_request, upgrade_unbuilt, ClientEvent,
    ClientStep, ConnectOptions, Pending, ReauthAction, ReauthPolicy, ReauthRequired, Routed,
    StreamingResponse, TlsOptions, UpgradeRequest, WebSocketTransportFactory,
};
use a2a_bindings::websocket::common::{
    WsRequestEnvelope, WsResponseEnvelope, SERVER_ERROR_CODE, SUBPROTOCOL,
    TRANSPORT_PROTOCOL_WEBSOCKET,
};
use a2a_bindings::websocket::endpoint::{
    default_port, host_header, parse_endpoint, uses_default_port, ParsedEndpoint,
};
use a2a_bindings::websocket::errors::{
    AUTHENTICATION_REQUIRED, NORMAL_CLOSURE, POLICY_VIOLATION, UNSUPPORTED_DATA,
};
use a2a_bindings::websocket::handshake::Header;
use a2a_bindings::websocket::tls::{check_server_name, parse_pem_certs, trust, Trust};

fn lib(v: &serde_json::Value) -> JsonValue {
    match v {
        serde_json::Value::Null => JsonValue::Null,
        serde_json::Value::Bool(b) => JsonValue::Bool(*b),
        serde_json::Value::Number(n) => JsonValue::Num(match (n.as_i64(), n.as_u64()) {
            (Some(i), _) => JsonNum::Int(i),
            (None, Some(u)) => JsonNum::UInt(u),
            (None, None) => JsonNum::Float(n.clone()),
        }),
        serde_json::Value::String(s) => JsonValue::Text(s.clone()),
        serde_json::Value::Array(a) => JsonValue::Array(a.iter().map(lib).collect()),
        serde_json::Value::Object(m) => {
            JsonValue::Object(m.iter().map(|(k, v)| (k.clone(), lib(v))).collect())
        }
    }
}

fn plain(v: &JsonValue) -> serde_json::Value {
    match v {
        JsonValue::Null => serde_json::Value::Null,
        JsonValue::Bool(b) => serde_json::Value::from(*b),
        JsonValue::Num(JsonNum::Int(i)) => serde_json::Value::from(*i),
        JsonValue::Num(JsonNum::UInt(u)) => serde_json::Value::from(*u),
        JsonValue::Num(JsonNum::Float(n)) => serde_json::Value::Number(n.clone()),
        JsonValue::Text(s) => serde_json::Value::from(s.as_str()),
        JsonValue::Array(a) => serde_json::Value::Array(a.iter().map(plain).collect()),
        JsonValue::Object(e) => {
            serde_json::Value::Object(e.iter().map(|(k, v)| (k.clone(), plain(v))).collect())
        }
    }
}

fn json(text: &str) -> serde_json::Value {
    serde_json::from_str(text).unwrap()
}

fn text_id(s: &str) -> JsonRpcId {
    JsonRpcId::Text(s.into())
}

fn dispatch(envelope: &WsResponseEnvelope, pending: &mut Pending) -> Routed {
    pending.handle_incoming_text(&envelope.to_vec().unwrap())
}

#[test]
fn parse_endpoint_accepts_ws_with_explicit_port_and_path() {
    let parsed = parse_endpoint("ws://example.com:9000/a2a/ws").unwrap();
    assert_eq!(
        parsed,
        ParsedEndpoint {
            scheme: "ws".into(),
            host: "example.com".into(),
            port: 9000,
            path: "/a2a/ws".into(),
        }
    );
}

#[test]
fn parse_endpoint_uses_default_path_and_port_when_missing() {
    let parsed = parse_endpoint("ws://example.com").unwrap();
    assert_eq!(parsed.port, 80);
    assert_eq!(parsed.path, "/");
}

#[test]
fn parse_endpoint_normalizes_bare_host_port() {
    let parsed = parse_endpoint("127.0.0.1:8080/path").unwrap();
    assert_eq!(parsed.scheme, "ws");
    assert_eq!(parsed.host, "127.0.0.1");
    assert_eq!(parsed.port, 8080);
    assert_eq!(parsed.path, "/path");
}

#[test]
fn parse_endpoint_accepts_wss_with_default_port() {
    let parsed = parse_endpoint("wss://example.com/a2a/ws").unwrap();
    assert_eq!(parsed.scheme, "wss");
    assert_eq!(parsed.host, "example.com");
    assert_eq!(parsed.port, 443);
    assert_eq!(parsed.path, "/a2a/ws");
}

#[test]
fn parse_endpoint_rejects_unknown_scheme_and_empty_host() {
    assert!(parse_endpoint("http://example.com").unwrap_err().message.contains("unsupported scheme"));
    assert!(parse_endpoint("ws:///path").unwrap_err().message.contains("missing a host"));
}

#[test]
fn parse_endpoint_tells_why_a_port_is_none() {
    for port in ["", "70000", "x", "-1"] {
        let reason = port.parse::<u16>().unwrap_err().to_string();
        let err = parse_endpoint(&format!("ws://h:{port}/")).unwrap_err();
        assert!(err.message.contains(&reason), "{} lacks {reason}", err.message);
        assert_eq!(err.code, error_code::INTERNAL_ERROR);
    }
    assert_eq!(parse_endpoint("ws://h:65535").unwrap().port, 65535);
}

#[test]
fn the_host_header_leaves_out_usual_ports() {
    assert_eq!(default_port("wss"), 443);
    assert_eq!(default_port("ws"), 80);
    assert!(uses_default_port("wss", 443));
    assert!(!uses_default_port("ws", 443));
    assert_eq!(host_header(&parse_endpoint("ws://h").unwrap()), "h");
    assert_eq!(host_header(&parse_endpoint("ws://h:81").unwrap()), "h:81");
}

#[test]
fn connect_options_bearer_token_builds_authorization_header() {
    let opts = ConnectOptions::with_bearer_token("tok-123");
    assert_eq!(opts.headers.len(), 1);
    assert_eq!(opts.headers[0].0, "Authorization");
    assert_eq!(opts.headers[0].1, "Bearer tok-123");
}

#[test]
fn connect_options_add_up() {
    let opts = ConnectOptions::default()
        .header("X-A", "1")
        .with_tls(TlsOptions::default().trust_pem(b"pem".to_vec()).danger_accept_invalid_certs())
        .on_reauth_required();
    assert_eq!(opts.headers, vec![("X-A".to_string(), "1".to_string())]);
    assert_eq!(opts.tls.extra_root_certs_pem, vec![b"pem".to_vec()]);
    assert!(opts.tls.danger_accept_invalid_certs);
    assert_eq!(opts.reauth, Some(ReauthPolicy::Notify));
    assert_eq!(opts.with_credential_provider().reauth, Some(ReauthPolicy::RefreshInBand));
}

#[test]
fn the_upgrade_request_carries_the_headers_of_its_options() {
    let endpoint = parse_endpoint("ws://h:81/p").unwrap();
    let request =
        upgrade_request(&endpoint, "a-key".into(), &ConnectOptions::default().header("X-A", "1"));
    assert_eq!(request.path, "/p");
    let has = |n: &str, v: &str| request.headers.iter().any(|(a, b)| a == n && b == v);
    assert!(has("host", "h:81"));
    assert!(has("Sec-WebSocket-Key", "a-key"));
    assert!(has("Sec-WebSocket-Protocol", SUBPROTOCOL));
    assert!(has("X-A", "1"));
}

#[test]
fn each_upgrade_request_has_its_own_key() {
    let endpoint = parse_endpoint("ws://h/p").unwrap();
    let key = |r: UpgradeRequest| {
        r.headers.into_iter().find(|(n, _)| n == "Sec-WebSocket-Key").unwrap().1
    };
    let a = key(new_upgrade_request(&endpoint, &ConnectOptions::default()));
    let b = key(new_upgrade_request(&endpoint, &ConnectOptions::default()));
    assert_eq!(a.len(), 24);
    assert_ne!(a, b);
}

#[test]
fn a_started_call_waits_for_its_answer() {
    let mut pending = Pending::new();
    let call = pending
        .start_unary(methods::GET_TASK, &ServiceParams::new(), JsonValue::Object(vec![]))
        .unwrap();
    assert!(pending.has_unary(&call.key));
    assert!(uuid::Uuid::parse_str(&call.id).is_ok());
    let sent = WsRequestEnvelope::from_slice(&call.frame).unwrap();
    assert_eq!(sent.id, Some(text_id(&call.id)));
    assert!(sent.service_params.is_none());
    let stream = pending
        .start_streaming(methods::SUBSCRIBE_TO_TASK, &ServiceParams::new(), JsonValue::Null)
        .unwrap();
    assert!(pending.has_streaming(&stream.key));
    assert_ne!(stream.id, call.id);
    pending.fail_all(A2AError::internal("gone"));
    let late = pending.start_unary("GetTask", &ServiceParams::new(), JsonValue::Null);
    assert_eq!(late.unwrap_err().message, "gone");
}

const CERT: &str = "-----BEGIN CERTIFICATE-----\nAQIDBA==\n-----END CERTIFICATE-----\n";

#[test]
fn certificates_are_read_from_their_texts() {
    let two = format!("{CERT}{CERT}").into_bytes();
    let certs = parse_pem_certs(&vec![two, b"nothing here".to_vec()]).unwrap();
    assert_eq!(certs, vec![vec![1, 2, 3, 4], vec![1, 2, 3, 4]]);
    let broken = b"-----BEGIN CERTIFICATE-----\n!!\n-----END CERTIFICATE-----\n".to_vec();
    let err = parse_pem_certs(&vec![CERT.as_bytes().to_vec(), broken]).unwrap_err();
    assert!(err.message.starts_with("failed to parse PEM certificate: "), "{}", err.message);
    assert_eq!(err.code, error_code::INTERNAL_ERROR);
}

#[test]
fn trust_falls_back_to_the_bundled_roots() {
    let extra = TlsOptions::default().trust_pem(CERT.as_bytes().to_vec());
    match trust(&extra, 0).unwrap() {
        Trust::Roots { bundled, extra } => {
            assert!(bundled);
            assert_eq!(extra.len(), 1);
        }
        other => panic!("expected roots, got {other:?}"),
    }
    assert!(matches!(
        trust(&TlsOptions::default(), 3).unwrap(),
        Trust::Roots { bundled: false, .. }
    ));
    let anyone = TlsOptions::default().danger_accept_invalid_certs();
    assert!(matches!(trust(&anyone, 3).unwrap(), Trust::Anyone));
}

#[test]
fn response_subprotocol_matches_recognises_negotiated_protocol() {
    let named = vec![Header {
        name: "sec-websocket-protocol".into(),
        value: SUBPROTOCOL.as_bytes().to_vec(),
    }];
    assert!(check_response(&named).is_ok());
    assert!(check_response(&vec![]).is_err());
}

#[test]
fn websocket_transport_factory_protocol_string_is_websocket() {
    let f = WebSocketTransportFactory;
    assert_eq!(f.protocol(), TRANSPORT_PROTOCOL_WEBSOCKET);
    assert_eq!(f.protocol(), "WEBSOCKET");
}

#[test]
fn connection_failures_name_the_peer() {
    let failed = connect_failed("h", 81, "refused").message;
    assert!(failed.contains("h:81") && failed.contains("refused"), "{failed}");
    let late = connect_timed_out("h", 81, "10s").message;
    assert!(late.contains("h:81") && late.contains("10s"), "{late}");
}

#[test]
fn pending_fail_all_propagates_error_to_unary_and_streaming_sinks() {
    let mut pending = Pending::new();
    pending.register_unary("u").unwrap();
    pending.register_streaming("s").unwrap();
    pending.fail_all(A2AError::internal("closed"));
    assert!(!pending.has_unary("u") && !pending.has_streaming("s"));
    assert!(pending.is_closed());
    assert_eq!(pending.closed_error().message, "closed");
    assert_eq!(pending.register_unary("late").unwrap_err().message, "closed");
    assert_eq!(pending.register_streaming("late").unwrap_err().message, "closed");
}

#[test]
fn call_unary_raw_sends_jsonrpc_envelope_and_routes_result() {
    let mut params = ServiceParams::new();
    params.insert("x-trace".to_string(), vec!["a".to_string(), "b".to_string()]);
    let sent = call_envelope("req-9", methods::GET_TASK, &params, lib(&json("{\"id\":\"t1\"}")));
    let envelope = WsRequestEnvelope::from_slice(&envelope_frame(&sent).unwrap()).unwrap();
    assert_eq!(envelope.jsonrpc, "2.0");
    assert_eq!(envelope.method.as_deref(), Some(methods::GET_TASK));
    assert_eq!(envelope.service_params.unwrap().get("x-trace").unwrap(), "a, b");

    let mut pending = Pending::new();
    pending.register_unary(&id_key_of("req-9")).unwrap();
    let response = WsResponseEnvelope::result(text_id("req-9"), lib(&json("{\"ok\":true}")));
    match dispatch(&response, &mut pending) {
        Routed::Unary { key, result } => {
            assert_eq!(key, id_key_of("req-9"));
            assert_eq!(plain(&result.unwrap())["ok"], true);
        }
        other => panic!("expected an answer, got {other:?}"),
    }
}

#[test]
fn handle_incoming_text_dispatches_unary_result_and_error() {
    let mut pending = Pending::new();
    let key = id_key_of("req-1");
    pending.register_unary(&key).unwrap();
    let response = WsResponseEnvelope::result(text_id("req-1"), lib(&json("{\"ok\":1}")));
    match dispatch(&response, &mut pending) {
        Routed::Unary { result, .. } => assert_eq!(plain(&result.unwrap())["ok"], 1),
        other => panic!("expected an answer, got {other:?}"),
    }

    pending.register_unary(&key).unwrap();
    let err_resp = WsResponseEnvelope::error(
        Some(text_id("req-1")),
        JsonRpcError { code: error_code::TASK_NOT_FOUND, message: "missing".into(), data: None },
    );
    match dispatch(&err_resp, &mut pending) {
        Routed::Unary { result, .. } => {
            assert_eq!(result.unwrap_err().code, error_code::TASK_NOT_FOUND)
        }
        other => panic!("expected an answer, got {other:?}"),
    }
    assert!(matches!(dispatch(&response, &mut pending), Routed::Ignore));
}

#[test]
fn handle_incoming_text_routes_stream_result_chunk() {
    let mut pending = Pending::new();
    let key = id_key_of("req-2");
    pending.register_streaming(&key).unwrap();
    let event = r#"{"statusUpdate":{"taskId":"task-1","contextId":"ctx-1","status":{"state":"TASK_STATE_WORKING"}}}"#;
    let response = WsResponseEnvelope::stream_chunk(text_id("req-2"), lib(&json(event)));
    match dispatch(&response, &mut pending) {
        Routed::Chunk { value, .. } => assert_eq!(plain(&value), json(event)),
        other => panic!("expected a chunk, got {other:?}"),
    }
    assert!(pending.has_streaming(&key));

    let end = WsResponseEnvelope::stream_end(text_id("req-2"));
    assert!(matches!(dispatch(&end, &mut pending), Routed::End { .. }));
    assert!(!pending.has_streaming(&key));
}

#[test]
fn an_error_ends_a_stream() {
    let mut pending = Pending::new();
    let key = id_key_of("req-3");
    pending.register_streaming(&key).unwrap();
    let error = A2AError::internal("boom").to_jsonrpc_error();
    let response = WsResponseEnvelope::error(Some(text_id("req-3")), error);
    match dispatch(&response, &mut pending) {
        Routed::StreamError { error, .. } => assert_eq!(error.message, "boom"),
        other => panic!("expected an error, got {other:?}"),
    }
    assert!(!pending.has_streaming(&key));
    assert_eq!(unreadable_chunk("why").code, error_code::INTERNAL_ERROR);
}

#[test]
fn reauth_control_frame_without_a_policy_is_ignored() {
    let mut pending = Pending::new();
    pending.register_unary("u").unwrap();
    dispatch(&WsResponseEnvelope::reauth_required("expiring".into(), 0), &mut pending);
    assert!(pending.has_unary("u"));
    assert!(ConnectOptions::default().reauth.is_none());
}

#[test]
fn reauth_control_frame_invokes_the_notify_callback() {
    let mut pending = Pending::new();
    let frame = WsResponseEnvelope::reauth_required("token expiring".into(), 5_000);
    match dispatch(&frame, &mut pending) {
        Routed::Reauth(request) => {
            assert_eq!(request.reason.as_deref(), Some("token expiring"));
            assert_eq!(request.retry_after_ms, Some(5_000));
        }
        other => panic!("expected a request for credentials, got {other:?}"),
    }
}

#[test]
fn a_request_for_credentials_goes_by_the_policy() {
    let request = || ReauthRequired { reason: Some("expiring".into()), retry_after_ms: Some(7) };
    match handle_reauth_required(Some(ReauthPolicy::Notify), request()) {
        ReauthAction::Notify(told) => assert_eq!(told.retry_after_ms, Some(7)),
        other => panic!("expected a notice, got {other:?}"),
    }
    let refresh = handle_reauth_required(Some(ReauthPolicy::RefreshInBand), request());
    assert!(matches!(refresh, ReauthAction::Refresh));
    match handle_reauth_required(None, request()) {
        ReauthAction::Report(reason) => assert_eq!(reason.as_deref(), Some("expiring")),
        other => panic!("expected a report, got {other:?}"),
    }
}

#[test]
fn credentials_are_sent_as_a_call() {
    let mut pending = Pending::new();
    let given = AuthenticateParams { scheme: "Bearer".into(), credentials: "t".into() };
    let call = pending.authenticate(&given).unwrap();
    assert!(pending.has_unary(&call.key));
    let sent = WsRequestEnvelope::from_slice(&call.frame).unwrap();
    assert_eq!(sent.method.as_deref(), Some(methods::AUTHENTICATE));
    assert_eq!(AuthenticateParams::from_value(&sent.params.unwrap()), Some(given));
    assert!(sent.service_params.is_none());
}

#[test]
fn close_error_distinguishes_reauth_from_an_ordinary_disconnect() {
    let reauth = close_error_for(&AUTHENTICATION_REQUIRED.to_be_bytes());
    assert_eq!(reauth.code, SERVER_ERROR_CODE);
    assert!(
        reauth.message.contains("4001"),
        "the close code should be visible to the caller: {}",
        reauth.message
    );

    let rate_limited = close_error_for(&POLICY_VIOLATION.to_be_bytes());
    assert!(rate_limited.message.contains("1008"));

    assert_eq!(
        close_error_for(&NORMAL_CLOSURE.to_be_bytes()).message,
        close_error_for(&[]).message
    );
}

#[test]
fn streaming_response_drop_sends_cancel_when_not_terminated() {
    let mut pending = Pending::new();
    let key = id_key_of("s1");
    pending.register_streaming(&key).unwrap();
    let mut stream = StreamingResponse::new();
    assert!(stream.leave(), "an open stream is cancelled");
    pending.deregister_streaming(&key);
    assert!(!pending.has_streaming(&key));
    let frame = envelope_frame(&cancel_envelope("s1")).unwrap();
    let envelope = WsRequestEnvelope::from_slice(&frame).unwrap();
    assert_eq!(envelope.id, Some(text_id("s1")));
    assert_eq!(envelope.cancel_stream, Some(true));
    assert!(!stream.leave(), "and it is cancelled once");
}

#[test]
fn a_stream_that_ended_needs_no_cancelling() {
    let mut stream = StreamingResponse::new();
    assert_eq!(stream.poll(Some(1)), Some(1));
    assert_eq!(stream.poll::<i32>(None), None);
    assert!(!stream.leave());
}

#[test]
fn a_connection_goes_on_until_it_is_told_to_stop() {
    let mut pending = Pending::new();
    assert!(matches!(pending.step(ClientEvent::Other), ClientStep::Ignore));
    match pending.step(ClientEvent::Queued(b"x".to_vec())) {
        ClientStep::Write(b) => assert_eq!(b, b"x"),
        other => panic!("expected a write, got {other:?}"),
    }
    pending.register_unary("u").unwrap();
    match pending.step(ClientEvent::Binary) {
        ClientStep::Stop(Some((code, _))) => assert_eq!(code, UNSUPPORTED_DATA),
        other => panic!("expected a close, got {other:?}"),
    }
    let mut pending = Pending::new();
    pending.register_unary("u").unwrap();
    assert!(matches!(
        pending.step(ClientEvent::Close(AUTHENTICATION_REQUIRED.to_be_bytes().to_vec())),
        ClientStep::Stop(_)
    ));
    assert!(pending.is_closed() && !pending.has_unary("u"));
    assert_eq!(pending.closed_error().code, SERVER_ERROR_CODE);
}

#[test]
fn an_upgrade_request_needs_headers_that_can_be_sent() {
    let endpoint = parse_endpoint("ws://h:81/p").unwrap();
    let options = ConnectOptions::default().header("X-A", "1");
    assert!(check_upgrade_request(&new_upgrade_request(&endpoint, &options)).is_ok());
    for (name, value) in [("not a name", "1"), ("x-a", "line\nbreak")] {
        let options = ConnectOptions::default().header(name, value);
        let err = check_upgrade_request(&new_upgrade_request(&endpoint, &options)).unwrap_err();
        assert_eq!(err.code, error_code::INTERNAL_ERROR);
        assert!(err.message.starts_with("failed to build upgrade request: "), "{}", err.message);
    }
    let options = ConnectOptions::default().header("not a name", "1");
    let err = check_upgrade_request(&new_upgrade_request(&endpoint, &options)).unwrap_err();
    assert_eq!(err.message, "failed to build upgrade request: invalid HTTP header name");
    assert_eq!(upgrade_unbuilt("why").message, "failed to build upgrade request: why");
}

#[test]
fn an_encrypted_connection_needs_the_name_of_a_server() {
    assert!(check_server_name("agent.example").is_ok());
    assert!(check_server_name("127.0.0.1").is_ok());
    let err = check_server_name("not a host").unwrap_err();
    assert_eq!(err.code, error_code::INTERNAL_ERROR);
    assert_eq!(err.message, "invalid TLS server name: not a host");
}

#[test]
fn payloads_are_made_ready_but_for_credentials() {
    let raw = r#"{"statusTimestampAfter":"2026-01-02T03:04:05+00:00"}"#;
    let ready = json(r#"{"statusTimestampAfter":"2026-01-02T03:04:05Z"}"#);
    let mut pending = Pending::new();
    let params = ServiceParams::new();
    let read = |frame: &[u8]| serde_json::from_slice::<serde_json::Value>(frame).unwrap();
    let call = pending.start_unary(methods::LIST_TASKS, &params, lib(&json(raw))).unwrap();
    assert_eq!(read(&call.frame)["params"], ready);
    let call =
        pending.start_streaming(methods::SUBSCRIBE_TO_TASK, &params, lib(&json(raw))).unwrap();
    assert_eq!(read(&call.frame)["params"], ready);
    let given = AuthenticateParams { scheme: "timestamp".into(), credentials: "+00:00".into() };
    let call = pending.authenticate(&given).unwrap();
    assert_eq!(
        read(&call.frame)["params"],
        json(r#"{"scheme":"timestamp","credentials":"+00:00"}"#)
    );
}
