use a2a_bindings::dispatch::{
    dispatch_streaming, dispatch_unary, finish_unary, Handled, Operation, StreamEvent,
    StreamOperation,
};
use a2a_bindings::error_code;
use a2a_bindings::json_value::{JsonNum, JsonValue};
use a2a_bindings::methods;
use a2a_bindings::params::{copy_params, ServiceParams};
use a2a_bindings::protocol::{A2AError, JsonRpcError, JsonRpcId};
use a2a_bindings::stdio::codec::{
    StdioCodec, StdioCodecError, DEFAULT_MAX_FRAME_SIZE, DEFAULT_MAX_HEADER_SIZE,
};
use a2a_bindings::stdio::json::{ServerMessage, SYSTEM_SHUTDOWN};
use a2a_bindings::stdio::metadata::{SessionBinding, BINDING_URI};
use a2a_bindings::stdio::server::{
    encode_control, encode_message, error_message, greeting, merge_service_params, open,
    session_binding, stream_step, unary_answer, Opening, ReadEvent, ServerAction, ServerConfig,
    ServerSession, Startup, BINDING_ERROR,
};
use a2a_bindings::stdio::session::ExitCode;
use a2a_bindings::stdio::wire::{ControlFrame, Handshake, HandshakeAck, Variant};
use a2a_bindings::text_map::TextMap;
use bytes::BytesMut;

fn lib(v: &serde_json::Value) -> JsonValue {
    match v {
        serde_json::Value::Null => JsonValue::Null,
        serde_json::Value::Bool(b) => JsonValue::Bool(*b),
        serde_json::Value::Number(n) => JsonValue::Num(match (n.as_i64(), n.as_u64()) {
            (Some(i), _) => JsonNum::Int(i),
            (None, Some(u)) => JsonNum::UInt(u),
            (None, None) => JsonNum::Float(n.clone()),
        }),
        serde_json::Value::String(s) => JsonValue::Text(s.clone()),
        serde_json::Value::Array(a) => JsonValue::Array(a.iter().map(lib).collect()),
        serde_json::Value::Object(m) => {
            JsonValue::Object(m.iter().map(|(k, v)| (k.clone(), lib(v))).collect())
        }
    }
}

fn plain(v: &JsonValue) -> serde_json::Value {
    match v {
        JsonValue::Null => serde_json::Value::Null,
        JsonValue::Bool(b) => serde_json::Value::from(*b),
        JsonValue::Num(JsonNum::Int(i)) => serde_json::Value::from(*i),
        JsonValue::Num(JsonNum::UInt(u)) => serde_json::Value::from(*u),
        JsonValue::Num(JsonNum::Float(n)) => serde_json::Value::Number(n.clone()),
        JsonValue::Text(s) => serde_json::Value::from(s.as_str()),
        JsonValue::Array(a) => serde_json::Value::Array(a.iter().map(plain).collect()),
        JsonValue::Object(e) => {
            serde_json::Value::Object(e.iter().map(|(k, v)| (k.clone(), plain(v))).collect())
        }
    }
}

fn json(text: &str) -> serde_json::Value {
    serde_json::from_str(text).unwrap()
}

#[derive(Clone, Copy, PartialEq)]
enum StreamKind {
    Empty,
    Pending,
    Rejected,
    OneTask,
}

fn sample_task() -> serde_json::Value {
    json(r#"{"id":"t-1","contextId":"c-1","status":{"state":"TASK_STATE_COMPLETED"}}"#)
}

fn test_binding() -> JsonValue {
    SessionBinding {
        session_id: "s-1".into(),
        pid: Some(42137),
        variant: Variant::Json,
        launch_digest: None,
    }
    .to_value()
}

fn framed(body: &[u8]) -> Vec<u8> {
    let mut out = format!("Content-Length: {}\r\n\r\n", body.len()).into_bytes();
    out.extend_from_slice(body);
    out
}

fn frames(bodies: &[String]) -> Vec<u8> {
    let mut out = Vec::new();
    for body in bodies {
        out.extend_from_slice(&framed(body.as_bytes()));
    }
    out
}

fn request(id: &str, method: &str) -> String {
    format!("{{\"jsonrpc\":\"2.0\",\"id\":{id},\"method\":\"{method}\",\"params\":{{}}}}")
}

/// A session whose handler answers at once, but for streams that stay open.
struct Run {
    exit: ExitCode,
    out: Vec<ServerMessage>,
    seen: Vec<ServiceParams>,
}

fn handle(method: &str, seen: &mut Vec<ServiceParams>, params: ServiceParams) -> Handled {
    match dispatch_unary(method) {
        Err(e) => Handled::Failed(e),
        Ok(Operation::DeletePushConfig) => {
            seen.push(params);
            Handled::Done
        }
        Ok(Operation::GetTask) => {
            seen.push(params);
            Handled::Value(lib(&sample_task()))
        }
        Ok(_) => Handled::Failed(A2AError::internal("not exercised by these tests")),
    }
}

fn run_with(limit: usize, stream: StreamKind, session_params: ServiceParams, input: &[u8]) -> Run {
    let mut codec = StdioCodec::new(limit, DEFAULT_MAX_HEADER_SIZE);
    let mut buffer = BytesMut::from(input);
    let mut session = ServerSession::new(session_params);
    let mut out = Vec::new();
    let mut seen = Vec::new();
    loop {
        let event = match codec.decode(&mut buffer) {
            Ok(Some(frame)) => ReadEvent::Body(frame.body),
            Ok(None) => ReadEvent::Closed,
            Err(e) => ReadEvent::Fault(e),
        };
        match session.on_event(event) {
            ServerAction::Ignore => {}
            ServerAction::Send(m) => out.push(m),
            ServerAction::SendAndExit(m, exit) => {
                out.push(m);
                return Run { exit, out, seen };
            }
            ServerAction::Exit(exit) => return Run { exit, out, seen },
            ServerAction::CancelStream(id) => {
                let (m, more) = stream_step(&id, StreamEvent::Cancelled, &test_binding());
                assert!(!more);
                out.push(m);
                session.stream_finished(&id);
            }
            ServerAction::StartUnary(call) => {
                let handled = handle(&call.method, &mut seen, call.params);
                let result = finish_unary(&call.method, handled);
                out.push(unary_answer(call.id, result, &test_binding()));
            }
            ServerAction::StartStream(call) => {
                assert_eq!(
                    dispatch_streaming(&call.method).unwrap(),
                    StreamOperation::SubscribeToTask
                );
                seen.push(call.params);
                let events = match stream {
                    StreamKind::Pending => vec![],
                    StreamKind::Empty => vec![StreamEvent::Ended],
                    StreamKind::Rejected => {
                        vec![StreamEvent::Refused(A2AError::internal("stream refused"))]
                    }
                    StreamKind::OneTask => vec![
                        StreamEvent::Item(JsonValue::Object(vec![(
                            "task".into(),
                            lib(&sample_task()),
                        )])),
                        StreamEvent::Ended,
                    ],
                };
                for event in events {
                    let (m, more) = stream_step(&call.id, event, &test_binding());
                    out.push(m);
                    if !more {
                        session.stream_finished(&call.id);
                    }
                }
            }
        }
    }
}

fn run(stream: StreamKind, input: &[u8]) -> Run {
    run_with(DEFAULT_MAX_FRAME_SIZE, stream, ServiceParams::new(), input)
}

fn run_plain(input: &[u8]) -> (ExitCode, Vec<ServerMessage>) {
    let r = run(StreamKind::Empty, input);
    (r.exit, r.out)
}

fn error_of(msg: &ServerMessage) -> &JsonRpcError {
    match msg {
        ServerMessage::Error { error, .. } => error,
        other => panic!("expected an error, got {other:?}"),
    }
}

fn text_id(s: &str) -> JsonRpcId {
    JsonRpcId::Text(s.into())
}

#[test]
fn unary_request_is_answered_once_and_eof_is_clean() {
    let (exit, out) = run_plain(&frames(&[request("\"d-1\"", methods::DELETE_PUSH_CONFIG)]));
    assert_eq!(exit, ExitCode::Success, "the end of the input is a clean exit");
    assert_eq!(out.len(), 1, "got {out:?}");
    assert_eq!(out[0], ServerMessage::Result { id: text_id("d-1"), result: JsonValue::Null });
}

#[test]
fn unknown_method_is_answered_without_ending_the_session() {
    let (exit, out) = run_plain(&frames(&[
        request("1", "NoSuchMethod"),
        request("2", methods::DELETE_PUSH_CONFIG),
    ]));
    assert_eq!(exit, ExitCode::Success);
    assert_eq!(out.len(), 2, "the second request must still be served");
    assert_eq!(error_of(&out[0]).code, error_code::METHOD_NOT_FOUND);
}

#[test]
fn requests_are_not_serialized_behind_each_other() {
    let mut session = ServerSession::new(ServiceParams::new());
    for id in ["a", "b", "c"] {
        let body = request(&format!("\"{id}\""), methods::DELETE_PUSH_CONFIG).into_bytes();
        match session.on_event(ReadEvent::Body(body)) {
            ServerAction::StartUnary(call) => assert_eq!(call.id, text_id(id)),
            other => panic!("expected a call, got {other:?}"),
        }
    }
}

#[test]
fn malformed_json_is_fatal_and_answered_with_a_null_id() {
    let (exit, out) = run_plain(&framed(b"{not json"));
    assert_eq!(exit, ExitCode::ProtocolError);
    assert_eq!(out.len(), 1);
    assert_eq!(error_of(&out[0]).code, error_code::PARSE_ERROR);
    match &out[0] {
        ServerMessage::Error { id, .. } => assert_eq!(*id, JsonRpcId::Null),
        other => panic!("expected error, got {other:?}"),
    }
}

#[test]
fn unclassifiable_frame_is_answered_against_its_own_id() {
    let (exit, out) = run_plain(&frames(&[
        "{\"jsonrpc\":\"2.0\",\"id\":\"req-7\"}".to_string(),
        request("\"after\"", methods::DELETE_PUSH_CONFIG),
    ]));
    assert_eq!(exit, ExitCode::Success, "a bad shape is not fatal");
    assert_eq!(out.len(), 2);
    assert_eq!(error_of(&out[0]).code, error_code::INVALID_REQUEST);
    match &out[0] {
        ServerMessage::Error { id, .. } => assert_eq!(*id, text_id("req-7")),
        other => panic!("expected error, got {other:?}"),
    }
}

#[test]
fn oversize_frame_is_refused_and_ends_the_session() {
    let body = format!("{{\"jsonrpc\":\"2.0\",\"id\":1,\"pad\":\"{}\"}}", "x".repeat(64));
    let r = run_with(16, StreamKind::Empty, ServiceParams::new(), &framed(body.as_bytes()));
    assert_eq!(r.exit, ExitCode::ProtocolError);
    assert_eq!(error_of(&r.out[0]).code, BINDING_ERROR);
}

#[test]
fn heartbeat_is_accepted_and_answered_with_nothing() {
    let (exit, out) = run_plain(&frames(&[
        "{\"type\":\"heartbeat\",\"sessionId\":\"s-1\",\"ts\":1700000000000}".to_string(),
    ]));
    assert_eq!(exit, ExitCode::Success);
    assert!(out.is_empty(), "a heartbeat carries no reply: {out:?}");
}

#[test]
fn a_second_handshake_is_a_protocol_violation() {
    let (exit, _) = run_plain(&frames(&[
        "{\"type\":\"handshakeAck\",\"sessionId\":\"s-1\",\"selectVariant\":\"stdio-json\",\"accept\":true}".to_string(),
    ]));
    assert_eq!(exit, ExitCode::ProtocolError, "there is one handshake");
}

fn subscribe(id: &str) -> String {
    request(&format!("\"{id}\""), methods::SUBSCRIBE_TO_TASK)
}

#[test]
fn empty_stream_is_closed_with_stream_end() {
    let r = run(StreamKind::Empty, &frames(&[subscribe("s-1")]));
    assert_eq!(r.exit, ExitCode::Success);
    assert_eq!(r.out, vec![ServerMessage::StreamEnd { id: text_id("s-1") }]);
}

#[test]
fn a_failed_stream_ends_with_an_error_and_no_stream_end() {
    let r = run(StreamKind::Rejected, &frames(&[subscribe("s-1")]));
    assert_eq!(r.out.len(), 1, "the error is the termination: {:?}", r.out);
    assert!(matches!(r.out[0], ServerMessage::Error { .. }), "got {:?}", r.out);
}

#[test]
fn cancel_stream_terminates_an_open_stream_with_stream_end() {
    let r = run(
        StreamKind::Pending,
        &frames(&[
            subscribe("s-1"),
            "{\"jsonrpc\":\"2.0\",\"id\":\"s-1\",\"cancelStream\":true}".to_string(),
        ]),
    );
    assert_eq!(r.exit, ExitCode::Success);
    assert_eq!(r.out, vec![ServerMessage::StreamEnd { id: text_id("s-1") }]);
}

#[test]
fn cancelling_an_unknown_id_is_ignored() {
    let (exit, out) = run_plain(&frames(&[
        "{\"jsonrpc\":\"2.0\",\"id\":\"ghost\",\"cancelStream\":true}".to_string(),
    ]));
    assert_eq!(exit, ExitCode::Success);
    assert!(out.is_empty(), "got {out:?}");
}

#[test]
fn a_reused_streaming_id_is_refused_while_the_first_is_open() {
    let r = run(StreamKind::Pending, &frames(&[subscribe("dup"), subscribe("dup")]));
    assert_eq!(r.exit, ExitCode::Success);
    assert_eq!(r.out.len(), 1, "only the refusal is emitted: {:?}", r.out);
    assert_eq!(error_of(&r.out[0]).code, error_code::INVALID_REQUEST);
}

#[test]
fn a_finished_stream_frees_its_id() {
    let r = run(StreamKind::Empty, &frames(&[subscribe("dup"), subscribe("dup")]));
    assert_eq!(
        r.out,
        vec![
            ServerMessage::StreamEnd { id: text_id("dup") },
            ServerMessage::StreamEnd { id: text_id("dup") },
        ]
    );
}

fn result_of(msg: &ServerMessage) -> serde_json::Value {
    match msg {
        ServerMessage::Result { result, .. } => plain(result),
        other => panic!("expected a result, got {other:?}"),
    }
}

#[test]
fn a_unary_task_carries_the_session_binding() {
    let r = run(StreamKind::Empty, &frames(&[request("\"g-1\"", methods::GET_TASK)]));
    assert_eq!(r.out.len(), 1, "got {:?}", r.out);
    let v = result_of(&r.out[0]);
    let binding = &v["metadata"][BINDING_URI];
    assert_eq!(binding["sessionId"], "s-1");
    assert_eq!(binding["pid"], 42137);
    assert_eq!(binding["variant"], "stdio-json");
}

#[test]
fn each_stream_item_carries_the_session_binding() {
    let r = run(StreamKind::OneTask, &frames(&[subscribe("s-1")]));
    assert_eq!(r.out.len(), 2, "one result then streamEnd: {:?}", r.out);
    let v = result_of(&r.out[0]);
    assert_eq!(v["task"]["metadata"][BINDING_URI]["sessionId"], "s-1");
    assert!(matches!(r.out[1], ServerMessage::StreamEnd { .. }), "got {:?}", r.out);
}

#[test]
fn system_shutdown_is_answered_then_ends_the_loop() {
    let (exit, out) = run_plain(&frames(&[
        format!("{{\"jsonrpc\":\"2.0\",\"id\":9,\"method\":\"{SYSTEM_SHUTDOWN}\"}}"),
        request("10", methods::DELETE_PUSH_CONFIG),
    ]));
    assert_eq!(exit, ExitCode::Success);
    assert_eq!(
        out,
        vec![ServerMessage::Result {
            id: JsonRpcId::Int(9),
            result: JsonValue::Object(vec![]),
        }],
        "nothing after the shutdown is served"
    );
}

fn params(pairs: &[(&str, &str)]) -> ServiceParams {
    let mut out = ServiceParams::new();
    for (k, v) in pairs {
        out.insert(k.to_string(), vec![v.to_string()]);
    }
    out
}

#[test]
fn session_params_are_visible_to_the_handler_and_overridable() {
    let session = params(&[("a2a-version", "1.0"), ("x-tenant", "acme")]);
    let body = format!(
        "{{\"jsonrpc\":\"2.0\",\"id\":1,\"method\":\"{}\",\"params\":{{}},\"serviceParams\":{{\"x-tenant\":\"override\"}}}}",
        methods::DELETE_PUSH_CONFIG
    );
    let r = run_with(DEFAULT_MAX_FRAME_SIZE, StreamKind::Empty, session, &frames(&[body]));
    assert_eq!(r.seen.len(), 1);
    assert_eq!(r.seen[0].get("a2a-version").unwrap(), &vec!["1.0"]);
    assert_eq!(
        r.seen[0].get("x-tenant").unwrap(),
        &vec!["override"],
        "the request wins over the session"
    );
}

#[test]
fn merged_params_keep_what_a_request_leaves_alone() {
    let session = params(&[("a", "1"), ("b", "2")]);
    let mut own = TextMap::new();
    own.insert("B".to_string(), "x, y".to_string());
    let merged = merge_service_params(&session, &Some(own));
    assert_eq!(merged.get("a").unwrap(), &vec!["1"]);
    assert_eq!(merged.get("b").unwrap(), &vec!["x", "y"]);
    assert_eq!(merge_service_params(&session, &None), copy_params(&session));
}

fn offered() -> Handshake {
    greeting("s-1".into(), vec!["streaming".into()], 42137)
}

fn ack(session: &str, accept: bool) -> Vec<u8> {
    ControlFrame::HandshakeAck(HandshakeAck {
        session_id: session.into(),
        select_variant: Variant::Json,
        accept,
    })
    .to_vec()
    .unwrap()
}

#[test]
fn the_greeting_offers_what_is_served() {
    let hs = offered();
    assert_eq!(hs.protocol, "a2a-stdio");
    assert_eq!(hs.supported_variants, vec![Variant::Json]);
    assert_eq!(hs.features, vec!["streaming"]);
    assert_eq!(hs.pid, Some(42137));
}

#[test]
fn a_session_opens_on_an_accepting_ack_alone() {
    let hs = offered();
    let first = |e: ReadEvent| open(&hs, e);
    assert_eq!(first(ReadEvent::Body(ack("s-1", true))), Opening::Serve(Variant::Json));
    assert_eq!(first(ReadEvent::Body(ack("s-1", false))), Opening::Exit(ExitCode::Success));
    assert_eq!(first(ReadEvent::Body(ack("s-2", true))), Opening::Exit(ExitCode::ProtocolError));
    assert_eq!(
        first(ReadEvent::Body(request("1", "GetTask").into_bytes())),
        Opening::Exit(ExitCode::ProtocolError)
    );
    assert_eq!(first(ReadEvent::Body(b"nonsense".to_vec())), Opening::Exit(ExitCode::ProtocolError));
    assert_eq!(
        first(ReadEvent::Fault(StdioCodecError::MissingContentLength)),
        Opening::Exit(ExitCode::ProtocolError)
    );
}

#[test]
fn startup_reads_the_environment() {
    let vars = vec![("A2A_SP_X_TENANT".to_string(), "acme".to_string())];
    let s = Startup::from_env(|_| Some("s-9".into()), &vars).unwrap();
    assert_eq!(s.session_id, "s-9");
    assert_eq!(s.session_params.get("x-tenant").unwrap(), &vec!["acme"]);
    assert!(matches!(Startup::from_env(|_| None, &vars), Err(ExitCode::StartupDenied)));
}

#[test]
fn the_binding_says_which_session_it_was() {
    let b = session_binding(&offered(), Variant::Json, &Some("sha256:x".to_string()));
    assert_eq!(
        plain(&b),
        json(r#"{"sessionId":"s-1","pid":42137,"variant":"stdio-json","launchDigest":"sha256:x"}"#)
    );
}

#[test]
fn frames_of_messages_have_no_headers_of_their_own() {
    let control = encode_control(&ControlFrame::Handshake(offered())).unwrap();
    assert!(control.headers.content_type.is_none() && control.headers.a2a_id.is_none());
    let message = encode_message(&error_message(JsonRpcId::Int(4), BINDING_ERROR, "why")).unwrap();
    assert_eq!(
        serde_json::from_slice::<serde_json::Value>(&message.body).unwrap(),
        json(r#"{"jsonrpc":"2.0","id":4,"error":{"code":-32000,"message":"why"}}"#)
    );
}

#[test]
fn the_usual_limits_are_those_of_the_codec() {
    let c = ServerConfig::default();
    assert_eq!(c.max_frame_size, DEFAULT_MAX_FRAME_SIZE);
    assert_eq!(c.max_header_size, DEFAULT_MAX_HEADER_SIZE);
    assert!(c.launch_digest.is_none());
}

#[test]
fn a_session_that_ends_closes_its_streams() {
    let mut session = ServerSession::new(ServiceParams::new());
    for id in ["1", "\"1\"", "2"] {
        let body = request(id, methods::SUBSCRIBE_TO_TASK).into_bytes();
        assert!(matches!(
            session.on_event(ReadEvent::Body(body)),
            ServerAction::StartStream(_)
        ));
    }
    session.stream_finished(&JsonRpcId::Int(2));
    let ids = session.drain();
    assert_eq!(ids.len(), 2);
    assert!(ids.contains(&JsonRpcId::Int(1)));
    assert!(ids.contains(&JsonRpcId::Text("1".into())));
    assert!(session.drain().is_empty());
}

#[test]
fn results_and_items_are_made_ready_to_be_sent() {
    let raw = r#"{"tasks":[{"status":{"timestamp":"2026-01-02T03:04:05+00:00"}}],"text":"+00:00"}"#;
    let ready = r#"{"tasks":[{"status":{"timestamp":"2026-01-02T03:04:05Z"}}],"text":"+00:00"}"#;
    let given = || lib(&json(raw));
    let got = finish_unary(methods::GET_TASK, Handled::Value(given())).unwrap();
    assert_eq!(plain(&got), json(ready));
    let page = finish_unary(methods::LIST_TASKS, Handled::Value(given())).unwrap();
    let mut expected = json(ready);
    expected["nextPageToken"] = serde_json::Value::from("");
    assert_eq!(plain(&page), expected);

    let binding = test_binding();
    match stream_step(&JsonRpcId::Int(1), StreamEvent::Item(given()), &binding) {
        (ServerMessage::Result { result, .. }, true) => assert_eq!(plain(&result), json(ready)),
        other => panic!("expected an item, got {other:?}"),
    }
    let kept = finish_unary(methods::DELETE_PUSH_CONFIG, Handled::Done).unwrap();
    assert_eq!(kept, JsonValue::Null);
}
