use a2a_bindings::error_code;
use a2a_bindings::json_value::{JsonNum, JsonValue};
use a2a_bindings::methods;
use a2a_bindings::params::ServiceParams;
use a2a_bindings::protocol::{A2AError, JsonRpcError, JsonRpcId};
use a2a_bindings::stdio::client::{
    client_open, encode_cancel, encode_request, encode_shutdown, from_jsonrpc, negotiation_failed,
    read_answer, reap, ChildEnd, ClientAction, ClientConfig, ClientOpening, ClientSession, Launch,
    LaunchPlan, PendingKind, Reap, StreamHandle,
};
use a2a_bindings::stdio::codec::StdioCodecError;
use a2a_bindings::stdio::json::{
    parse_from_client, ClientMessage, ServerInbound, ServerMessage, StdioRequest, SYSTEM_SHUTDOWN,
};
use a2a_bindings::stdio::server::ReadEvent;
use a2a_bindings::stdio::session::{
    service_params_from_env, NegotiationError, ENV_LOG_LEVEL, ENV_PROTOCOL_VERSION, ENV_SESSION_ID,
    FEATURE_STREAMING, PROTOCOL_NAME, PROTOCOL_VERSION,
};
use a2a_bindings::stdio::wire::{ControlFrame, Handshake, HandshakeAck, Variant};

fn lib(v: &serde_json::Value) -> JsonValue {
    match v {
        serde_json::Value::Null => JsonValue::Null,
        serde_json::Value::Bool(b) => JsonValue::Bool(*b),
        serde_json::Value::Number(n) => JsonValue::Num(match (n.as_i64(), n.as_u64()) {
            (Some(i), _) => JsonNum::Int(i),
            (None, Some(u)) => JsonNum::UInt(u),
            (None, None) => JsonNum::Float(n.clone()),
        }),
        serde_json::Value::String(s) => JsonValue::Text(s.clone()),
        serde_json::Value::Array(a) => JsonValue::Array(a.iter().map(lib).collect()),
        serde_json::Value::Object(m) => {
            JsonValue::Object(m.iter().map(|(k, v)| (k.clone(), lib(v))).collect())
        }
    }
}

fn plain(v: &JsonValue) -> serde_json::Value {
    match v {
        JsonValue::Null => serde_json::Value::Null,
        JsonValue::Bool(b) => serde_json::Value::from(*b),
        JsonValue::Num(JsonNum::Int(i)) => serde_json::Value::from(*i),
        JsonValue::Num(JsonNum::UInt(u)) => serde_json::Value::from(*u),
        JsonValue::Num(JsonNum::Float(n)) => serde_json::Value::Number(n.clone()),
        JsonValue::Text(s) => serde_json::Value::from(s.as_str()),
        JsonValue::Array(a) => serde_json::Value::Array(a.iter().map(plain).collect()),
        JsonValue::Object(e) => {
            serde_json::Value::Object(e.iter().map(|(k, v)| (k.clone(), plain(v))).collect())
        }
    }
}

fn json(text: &str) -> serde_json::Value {
    serde_json::from_str(text).unwrap()
}

fn offer(session_id: &str, version: &str, variants: Vec<Variant>) -> ReadEvent {
    let hs = Handshake {
        protocol: PROTOCOL_NAME.into(),
        protocol_version: version.into(),
        session_id: session_id.into(),
        supported_variants: variants,
        features: vec![FEATURE_STREAMING.into()],
        pid: Some(1),
    };
    ReadEvent::Body(ControlFrame::Handshake(hs).to_vec().unwrap())
}

fn refused(o: ClientOpening) -> (HandshakeAck, A2AError) {
    match o {
        ClientOpening::Refuse { ack, error } => (ack, error),
        other => panic!("expected a refusal, got {other:?}"),
    }
}

fn task(id: &str) -> JsonValue {
    JsonValue::Object(vec![("id".into(), JsonValue::Text(id.into()))])
}

fn result(id: &JsonRpcId, value: JsonValue) -> ReadEvent {
    ReadEvent::Body(ServerMessage::Result { id: id.clone(), result: value }.to_vec().unwrap())
}

fn failure(id: &JsonRpcId, error: JsonRpcError) -> ReadEvent {
    ReadEvent::Body(ServerMessage::Error { id: id.clone(), error }.to_vec().unwrap())
}

fn stream_end(id: &JsonRpcId) -> ReadEvent {
    ReadEvent::Body(ServerMessage::StreamEnd { id: id.clone() }.to_vec().unwrap())
}

/// A session with one caller that waits.
fn waiting(kind: PendingKind) -> (ClientSession, JsonRpcId) {
    let mut s = ClientSession::new();
    let id = s.next_id();
    s.register(&id, kind);
    (s, id)
}

fn delivered(a: ClientAction) -> (JsonRpcId, Result<JsonValue, A2AError>, bool) {
    match a {
        ClientAction::Deliver { id, item, done } => (id, item, done),
        other => panic!("expected a delivery, got {other:?}"),
    }
}

fn sent_request(body: &[u8]) -> StdioRequest {
    match parse_from_client(body).unwrap() {
        ServerInbound::Message(ClientMessage::Request(r)) => r,
        other => panic!("expected a request, got {other:?}"),
    }
}

#[test]
fn the_handshake_is_acked_with_the_negotiated_variant() {
    match client_open("s-1", offer("s-1", PROTOCOL_VERSION, vec![Variant::Json])) {
        ClientOpening::Accept { ack, variant, features } => {
            assert!(ack.accept);
            assert_eq!(ack.select_variant, Variant::Json);
            assert_eq!(ack.session_id, "s-1");
            assert_eq!(variant, Variant::Json);
            assert_eq!(features, [FEATURE_STREAMING]);
        }
        other => panic!("expected acceptance, got {other:?}"),
    }
}

#[test]
fn a_foreign_session_id_is_rejected() {
    let (_, err) =
        refused(client_open("s-1", offer("someone-else", PROTOCOL_VERSION, vec![Variant::Json])));
    assert!(err.message.contains("session id mismatch"), "{}", err.message);
}

#[test]
fn no_common_variant_is_declined_rather_than_dropped() {
    let (ack, err) =
        refused(client_open("s-1", offer("s-1", PROTOCOL_VERSION, vec![Variant::Proto])));
    assert!(err.message.contains("no serialization variant"), "{}", err.message);
    assert!(!ack.accept);
}

#[test]
fn an_incompatible_version_keeps_its_own_error_code() {
    let (_, err) = refused(client_open("s-1", offer("s-1", "2.0", vec![Variant::Json])));
    assert_eq!(err.code, error_code::VERSION_NOT_SUPPORTED);
}

#[test]
fn a_method_frame_before_the_handshake_is_refused() {
    match client_open("s-1", result(&JsonRpcId::Int(1), task("t-1"))) {
        ClientOpening::Fail(err) => {
            assert!(err.message.contains("first frame"), "{}", err.message)
        }
        other => panic!("expected a failure, got {other:?}"),
    }
}

#[test]
fn a_session_that_does_not_open_says_why() {
    for (event, words) in [
        (ReadEvent::Closed, "agent closed STDOUT before sending a handshake"),
        (
            ReadEvent::Fault(StdioCodecError::MissingContentLength),
            "framing error during handshake: missing content length",
        ),
        (ReadEvent::Body(b"[]".to_vec()), "malformed handshake: message is not a JSON object"),
    ] {
        match client_open("s-1", event) {
            ClientOpening::Fail(err) => {
                assert_eq!(err.message, words);
                assert_eq!(err.code, error_code::INTERNAL_ERROR);
            }
            other => panic!("expected a failure, got {other:?}"),
        }
    }
    assert_eq!(
        negotiation_failed(&NegotiationError::VersionNotSupported("9".into())).code,
        error_code::VERSION_NOT_SUPPORTED
    );
    assert_eq!(
        negotiation_failed(&NegotiationError::NoCommonVariant).code,
        error_code::INTERNAL_ERROR
    );
}

#[test]
fn a_unary_call_round_trips() {
    let (mut s, id) = waiting(PendingKind::Unary);
    let frame = encode_request(&id, methods::GET_TASK, task("t-1"), &ServiceParams::new()).unwrap();
    let req = sent_request(&frame.body);
    assert_eq!(req.method, methods::GET_TASK);
    assert_eq!(plain(&req.params.unwrap())["id"], "t-1");
    let (to, item, done) = delivered(s.on_event(result(&req.id, task("t-1"))));
    assert_eq!(to, id);
    assert_eq!(item.unwrap(), task("t-1"));
    assert!(done);
}

#[test]
fn concurrent_calls_are_correlated_by_id() {
    let mut s = ClientSession::new();
    let a = s.next_id();
    let b = s.next_id();
    assert_ne!(a, b, "each request needs its own id");
    s.register(&a, PendingKind::Unary);
    s.register(&b, PendingKind::Unary);
    let (to_b, item_b, _) = delivered(s.on_event(result(&b, task("t-b"))));
    let (to_a, item_a, _) = delivered(s.on_event(result(&a, task("t-a"))));
    assert_eq!((to_a, item_a.unwrap()), (a, task("t-a")));
    assert_eq!((to_b, item_b.unwrap()), (b, task("t-b")));
}

#[test]
fn a_second_answer_reaches_nobody() {
    let (mut s, id) = waiting(PendingKind::Unary);
    delivered(s.on_event(result(&id, task("t-1"))));
    assert!(matches!(s.on_event(result(&id, task("t-1"))), ClientAction::Ignore));
}

#[test]
fn service_params_travel_in_the_request_body() {
    let mut params = ServiceParams::new();
    params.insert("a2a-extensions".into(), vec!["a".into(), "b".into()]);
    let frame =
        encode_request(&JsonRpcId::Int(1), methods::GET_TASK, task("t-1"), &params).unwrap();
    let req = sent_request(&frame.body);
    assert_eq!(req.service_params.unwrap().get("a2a-extensions").unwrap(), "a,b");
    assert!(frame.headers.service_params.is_empty());
}

#[test]
fn an_error_frame_keeps_its_a2a_code() {
    let (mut s, id) = waiting(PendingKind::Unary);
    let error = A2AError::new(error_code::TASK_NOT_FOUND, "task not found: t-1".into());
    let (_, item, done) = delivered(s.on_event(failure(&id, error.to_jsonrpc_error())));
    let err = item.unwrap_err();
    assert_eq!(err.code, error_code::TASK_NOT_FOUND);
    assert!(err.message.contains("t-1"), "{}", err.message);
    assert!(done);
}

#[test]
fn a_null_result_satisfies_the_one_method_without_a_body() {
    let (mut s, id) = waiting(PendingKind::Unary);
    let (_, item, _) = delivered(s.on_event(result(&id, JsonValue::Null)));
    assert_eq!(item.unwrap(), JsonValue::Null);
}

#[test]
fn an_unreadable_frame_fails_one_call_and_not_the_session() {
    let (mut s, first) = waiting(PendingKind::Unary);
    let body = b"{\"jsonrpc\":\"2.0\",\"id\":1}".to_vec();
    let (to, item, _) = delivered(s.on_event(ReadEvent::Body(body)));
    assert_eq!(to, first);
    let err = item.unwrap_err();
    assert!(err.message.contains("cannot read"), "{}", err.message);

    let second = s.next_id();
    s.register(&second, PendingKind::Unary);
    let (_, item, _) = delivered(s.on_event(result(&second, task("t-2"))));
    assert_eq!(item.unwrap(), task("t-2"), "one bad frame must not end the session");
}

#[test]
fn an_unreadable_frame_without_an_id_is_only_logged() {
    let (mut s, id) = waiting(PendingKind::Unary);
    let body = b"[\"not\",\"an\",\"object\"]".to_vec();
    assert!(matches!(s.on_event(ReadEvent::Body(body)), ClientAction::Ignore));
    let (_, item, _) = delivered(s.on_event(result(&id, task("t-1"))));
    item.unwrap();
}

#[test]
fn a_stream_yields_items_until_stream_end() {
    let (mut s, id) = waiting(PendingKind::Stream);
    let mut handle = StreamHandle::new();
    for _ in 0..2 {
        let (_, item, done) = delivered(s.on_event(result(&id, task("t-1"))));
        assert!(!done);
        assert!(matches!(handle.poll(Some(item)), Some(Ok(_))));
    }
    assert!(matches!(s.on_event(stream_end(&id)), ClientAction::End { .. }));
    assert!(handle.poll(None).is_none(), "streamEnd must end the stream");
}

#[test]
fn an_error_terminates_a_stream_without_a_stream_end() {
    let (mut s, id) = waiting(PendingKind::Stream);
    let mut handle = StreamHandle::new();
    let (_, item, _) = delivered(s.on_event(result(&id, task("t-1"))));
    assert!(matches!(handle.poll(Some(item)), Some(Ok(_))));
    let boom = A2AError::internal("boom").to_jsonrpc_error();
    let (_, item, done) = delivered(s.on_event(failure(&id, boom)));
    assert!(done);
    let err = handle.poll(Some(item)).expect("error item").unwrap_err();
    assert_eq!(err.code, error_code::INTERNAL_ERROR);
    assert!(handle.poll(Some(Ok(task("late")))).is_none());
}

#[test]
fn dropping_a_stream_early_cancels_it() {
    let (_, id) = waiting(PendingKind::Stream);
    let handle = StreamHandle::new();
    assert!(handle.needs_cancel());
    let frame = encode_cancel(&id).unwrap();
    match parse_from_client(&frame.body).unwrap() {
        ServerInbound::Message(ClientMessage::CancelStream { id: cancelled }) => {
            assert_eq!(cancelled, id);
        }
        other => panic!("expected cancelStream, got {other:?}"),
    }
}

#[test]
fn a_stream_that_ended_is_not_cancelled() {
    let mut handle = StreamHandle::new();
    assert!(handle.poll(None).is_none());
    assert!(!handle.needs_cancel());
    let mut left = StreamHandle::new();
    left.abandon();
    assert!(!left.needs_cancel());
}

#[test]
fn losing_the_agent_fails_a_waiting_call() {
    let (mut s, id) = waiting(PendingKind::Unary);
    match s.on_event(ReadEvent::Closed) {
        ClientAction::FailAll(err) => {
            assert!(err.message.contains("closed STDOUT"), "{}", err.message)
        }
        other => panic!("expected the end, got {other:?}"),
    }
    assert!(matches!(s.on_event(result(&id, task("t-1"))), ClientAction::Ignore));
    assert_eq!(s.ready().unwrap_err().message, "stdio session ended");
}

#[test]
fn losing_the_agent_ends_an_open_stream() {
    let (mut s, _) = waiting(PendingKind::Stream);
    let mut handle = StreamHandle::new();
    match s.on_event(ReadEvent::Closed) {
        ClientAction::FailAll(err) => {
            let err = handle.poll(Some(Err(err))).expect("an ending reason").unwrap_err();
            assert!(err.message.contains("closed STDOUT"), "{}", err.message);
        }
        other => panic!("expected the end, got {other:?}"),
    }
    assert!(handle.poll(None).is_none());
}

#[test]
fn a_broken_stream_ends_the_session() {
    let (mut s, _) = waiting(PendingKind::Unary);
    match s.on_event(ReadEvent::Fault(StdioCodecError::UnexpectedEndOfInput)) {
        ClientAction::FailAll(err) => {
            assert_eq!(err.message, "stdio framing error: unexpected end of input")
        }
        other => panic!("expected the end, got {other:?}"),
    }
    let (mut s, _) = waiting(PendingKind::Unary);
    match s.on_event(offer("s-1", "1.0", vec![Variant::Json])) {
        ClientAction::FailAll(err) => {
            assert_eq!(err.message, "agent repeated the handshake mid-session")
        }
        other => panic!("expected the end, got {other:?}"),
    }
}

#[test]
fn destroy_asks_politely_then_closes_stdin() {
    let mut s = ClientSession::new();
    let frame = s.begin_shutdown(ClientConfig::default().send_shutdown_request).unwrap();
    assert_eq!(sent_request(&frame.body).method, SYSTEM_SHUTDOWN);
    assert!(s.ready().is_err(), "STDIN should be closed");
    assert!(s.begin_shutdown(true).is_none(), "nothing follows");

    let frame = encode_shutdown(&JsonRpcId::Int(7)).unwrap();
    assert_eq!(sent_request(&frame.body).id, JsonRpcId::Int(7));
}

#[test]
fn calls_have_their_own_identifiers() {
    let mut s = ClientSession::new();
    let mut ids: Vec<JsonRpcId> = Vec::new();
    for i in 0..5 {
        let kind = if i % 2 == 0 { PendingKind::Unary } else { PendingKind::Stream };
        let (id, frame) = s
            .start_call(kind, methods::GET_TASK, task("t-1"), &ServiceParams::new())
            .unwrap();
        assert_eq!(sent_request(&frame.body).id, id);
        assert!(!ids.contains(&id), "{id:?}");
        ids.push(id);
    }
    let asked = s.begin_shutdown(true).unwrap();
    assert!(!ids.contains(&sent_request(&asked.body).id));
}

#[test]
fn calls_after_destroy_fail_instead_of_hanging() {
    let mut s = ClientSession::new();
    assert!(s.ready().is_ok());
    s.close();
    let err = s.ready().unwrap_err();
    assert!(err.message.contains("closed"), "{}", err.message);
}

#[test]
fn a_stream_that_ends_for_a_unary_call_is_an_error() {
    let (mut s, id) = waiting(PendingKind::Unary);
    let (_, item, done) = delivered(s.on_event(stream_end(&id)));
    assert_eq!(item.unwrap_err().message, "agent ended a stream for a unary request");
    assert!(done);
}

#[test]
fn a_started_call_waits_unless_the_session_is_over() {
    let mut s = ClientSession::new();
    let (id, frame) = s
        .start_call(PendingKind::Unary, methods::GET_TASK, task("t-1"), &ServiceParams::new())
        .unwrap();
    assert_eq!(sent_request(&frame.body).id, id);
    delivered(s.on_event(result(&id, task("t-1"))));
    assert!(s.begin_shutdown(true).is_some());
    assert!(s.begin_shutdown(true).is_none(), "nothing is sent once the input is closed");
    let err = s
        .start_call(PendingKind::Unary, methods::GET_TASK, task("t-1"), &ServiceParams::new())
        .unwrap_err();
    assert_eq!(err.message, "stdio session is closed");
}

#[test]
fn destroy_can_skip_the_shutdown_request() {
    let mut s = ClientSession::new();
    assert!(s.begin_shutdown(false).is_none());
    assert!(s.ready().is_err());
}

#[test]
fn a_process_that_does_not_end_is_killed() {
    assert!(matches!(reap(ChildEnd::Attached), Reap::Done));
    assert!(matches!(reap(ChildEnd::Exited), Reap::Done));
    assert!(matches!(reap(ChildEnd::TimedOut), Reap::Kill));
    match reap(ChildEnd::WaitFailed("no child".into())) {
        Reap::Fail(e) => assert_eq!(e.message, "cannot reap agent: no child"),
        other => panic!("expected an error, got {other:?}"),
    }
}

#[test]
fn an_answer_that_cannot_be_read_is_an_error() {
    assert_eq!(read_answer(Ok(Ok(7))).unwrap(), 7);
    let e = read_answer::<i32>(Ok(Err("no id".into()))).unwrap_err();
    assert_eq!(e.message, "invalid response payload: no id");
    assert_eq!(read_answer::<i32>(Err(A2AError::internal("x"))).unwrap_err().message, "x");
}

#[test]
fn error_data_is_kept_where_it_is_a_list() {
    let list = lib(&json("[{\"k\":1}]"));
    let e = JsonRpcError { code: -32001, message: "m".into(), data: Some(list) };
    assert_eq!(plain(&from_jsonrpc(e).details.unwrap()), json("[{\"k\":1}]"));
    let e = JsonRpcError { code: -32001, message: "m".into(), data: Some(JsonValue::Bool(true)) };
    assert!(from_jsonrpc(e).details.is_none());
}

fn env<'a>(plan: &'a LaunchPlan, key: &str) -> Option<&'a str> {
    plan.envs.iter().rev().find(|(k, _)| k == key).map(|(_, v)| v.as_str())
}

#[test]
fn launch_keeps_arguments_as_a_vector() {
    let plan = Launch::new("/usr/local/bin/agent").arg("--serve").arg("; rm -rf /").build();
    assert_eq!(plan.program, "/usr/local/bin/agent");
    assert_eq!(plan.args, ["--serve", "; rm -rf /"]);
}

#[test]
fn launch_always_passes_a_session_id() {
    let plan = Launch::new("/bin/agent").build();
    let id = env(&plan, ENV_SESSION_ID).expect("A2A_SESSION_ID missing");
    assert!(uuid::Uuid::parse_str(id).is_ok(), "not a uuid: {id}");
}

#[test]
fn launch_exports_service_params_the_agent_can_read_back() {
    let mut params = ServiceParams::new();
    params.insert("a2a-extensions".into(), vec!["a".into(), "b".into()]);
    params.insert("a2a-version".into(), vec!["1.0".into()]);

    let plan = Launch::new("/bin/agent").service_params(&params).build();
    let parsed = service_params_from_env(&plan.envs);
    assert_eq!(parsed.get("a2a-extensions").unwrap(), &vec!["a", "b"]);
    assert_eq!(parsed.get("a2a-version").unwrap(), &vec!["1.0"]);
}

#[test]
fn launch_sets_the_optional_startup_context() {
    let plan = Launch::new("/bin/agent").protocol_version("1.0").log_level("debug").build();
    assert!(plan.envs.contains(&(ENV_PROTOCOL_VERSION.into(), "1.0".into())));
    assert!(plan.envs.contains(&(ENV_LOG_LEVEL.into(), "debug".into())));
}

#[test]
fn each_launch_gets_its_own_session_id() {
    let a = Launch::new("/bin/agent").session_id("fixed");
    assert_eq!(a.session_id, "fixed");
    assert_ne!(Launch::new("/bin/agent").session_id, Launch::new("/bin/agent").session_id);
}

#[test]
fn a_launch_can_be_kept_apart_from_the_environment() {
    let plan = Launch::new("agent")
        .args(&vec!["a".to_string(), "b".to_string()])
        .env("K", "V")
        .current_dir("/srv")
        .inherit_env(false)
        .build();
    assert!(plan.clear_env);
    assert_eq!(plan.args, ["a", "b"]);
    assert_eq!(env(&plan, "K"), Some("V"));
    assert_eq!(plan.current_dir.as_deref(), Some("/srv"));
}

#[test]
fn the_payload_of_a_call_is_made_ready_to_be_sent() {
    let raw = r#"{"statusTimestampAfter":"2026-01-02T03:04:05+00:00"}"#;
    let mut s = ClientSession::new();
    let (_, frame) = s
        .start_call(
            PendingKind::Unary,
            methods::LIST_TASKS,
            lib(&json(raw)),
            &ServiceParams::new(),
        )
        .unwrap();
    assert_eq!(
        plain(&sent_request(&frame.body).params.unwrap()),
        json(r#"{"statusTimestampAfter":"2026-01-02T03:04:05Z"}"#)
    );
}
