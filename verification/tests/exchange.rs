use a2a_bindings::client_socket::{Route, SocketEvent, WebSocketConnection};
use a2a_bindings::dispatch::StreamEvent;
use a2a_bindings::error_code;
use a2a_bindings::json_value::JsonValue;
use a2a_bindings::methods;
use a2a_bindings::params::ServiceParams;
use a2a_bindings::protocol::{A2AError, JsonRpcId};
use a2a_bindings::server_socket::{
    self, encode_response, unary_response, SocketStep, SocketStreamEvent,
};
use a2a_bindings::stdio::client::{ClientAction, ClientSession, PendingKind};
use a2a_bindings::stdio::server::{
    self, encode_message, unary_answer, ReadEvent, ServerAction, ServerSession,
};
use a2a_bindings::stdio::session::ExitCode;
use a2a_bindings::websocket::auth::{AuthContext, AuthStatus, AuthenticateParams, User};
use a2a_bindings::websocket::client::{cancel_envelope, envelope_frame, Pending, Routed};
use a2a_bindings::websocket::server::{
    handle_text_frame, stream_step, unary_answer as ws_answer, ConnAuth, Dispatch, FrameStep,
    Outbound,
};

fn text(s: &str) -> JsonValue {
    JsonValue::Text(s.into())
}

fn payload() -> JsonValue {
    JsonValue::Object(vec![("id".into(), text("t-1"))])
}

fn params() -> ServiceParams {
    let mut params = ServiceParams::new();
    params.insert("x-trace".into(), vec!["a".into(), "b".into()]);
    params
}

fn frame(out: &Outbound) -> Vec<u8> {
    match out {
        Outbound::Frame(bytes) => bytes.clone(),
        other => panic!("expected a frame, got {other:?}"),
    }
}

fn connection() -> ConnAuth {
    ConnAuth::new(true, AuthContext::for_user(User::authenticated("alice")), &vec![])
}

#[test]
fn a_websocket_call_and_its_answer_arrive() {
    let mut client = Pending::new();
    let mut server = connection();
    let call = client.start_unary(methods::GET_TASK, &params(), payload()).unwrap();

    let request = match handle_text_frame(&call.frame) {
        FrameStep::Request(request) => request,
        other => panic!("expected a request, got {other:?}"),
    };
    let step = server.on_request(request, Some(AuthStatus::Valid));
    let made = match step.next {
        Some(Dispatch::Unary(made)) => made,
        other => panic!("expected a call, got {other:?}"),
    };
    assert_eq!(made.id, JsonRpcId::Text(call.id.clone()));
    assert_eq!(made.method, methods::GET_TASK);
    assert_eq!(made.payload, payload());
    assert_eq!(made.params.get("x-trace").unwrap(), &vec!["a, b".to_string()]);

    let out = ws_answer(made.id, Ok(text("done")));
    match client.handle_incoming_text(&frame(&out[0])) {
        Routed::Unary { key, result } => {
            assert_eq!(key, call.key);
            assert_eq!(result.unwrap(), text("done"));
        }
        other => panic!("expected an answer, got {other:?}"),
    }
    assert!(!client.has_unary(&call.key));
}

#[test]
fn a_websocket_error_arrives_without_its_details() {
    let mut client = Pending::new();
    let call = client.start_unary(methods::GET_TASK, &params(), payload()).unwrap();
    let error = A2AError::new(error_code::TASK_NOT_FOUND, "no such task".into());
    let out = ws_answer(JsonRpcId::Text(call.id), Err(error.clone()));
    match client.handle_incoming_text(&frame(&out[0])) {
        Routed::Unary { result, .. } => assert_eq!(result.unwrap_err(), error),
        other => panic!("expected an answer, got {other:?}"),
    }
}

#[test]
fn websocket_credentials_and_cancellations_arrive() {
    let mut client = Pending::new();
    let mut server = connection();
    let given = AuthenticateParams { scheme: "Bearer".into(), credentials: "t".into() };
    let call = client.authenticate(&given).unwrap();
    let (id, sent) = match handle_text_frame(&call.frame) {
        FrameStep::Authenticate { id, params } => (id, params),
        other => panic!("expected credentials, got {other:?}"),
    };
    assert_eq!(server.begin_refresh(&id, &sent).unwrap(), given);
    let answer = server.finish_refresh(id, Ok(AuthContext::default()));
    assert!(matches!(client.handle_incoming_text(&frame(&answer)), Routed::Unary { .. }));

    let cancel = envelope_frame(&cancel_envelope("s-1")).unwrap();
    match handle_text_frame(&cancel) {
        FrameStep::Cancel { id } => assert_eq!(id, JsonRpcId::Text("s-1".into())),
        other => panic!("expected a cancellation, got {other:?}"),
    }
}

#[test]
fn a_websocket_stream_arrives() {
    let mut client = Pending::new();
    let call = client.start_streaming(methods::SUBSCRIBE_TO_TASK, &params(), payload()).unwrap();
    let id = JsonRpcId::Text(call.id);
    let (item, more) = stream_step(&id, StreamEvent::Item(text("one")));
    assert!(more);
    match client.handle_incoming_text(&frame(&item)) {
        Routed::Chunk { value, .. } => assert_eq!(value, text("one")),
        other => panic!("expected an item, got {other:?}"),
    }
    let (end, more) = stream_step(&id, StreamEvent::Ended);
    assert!(!more);
    assert!(matches!(client.handle_incoming_text(&frame(&end)), Routed::End { .. }));
    assert!(!client.has_streaming(&call.key));
}

#[test]
fn a_websocket_request_for_credentials_arrives() {
    let mut client = Pending::new();
    let status = AuthStatus::ReauthRequired { reason: "expiring".into(), retry_after_ms: 9 };
    let check = connection().check(Some(status), &JsonRpcId::Int(1));
    match client.handle_incoming_text(&frame(&check.out[0])) {
        Routed::Reauth(request) => {
            assert_eq!(request.reason.as_deref(), Some("expiring"));
            assert_eq!(request.retry_after_ms, Some(9));
        }
        other => panic!("expected a request for credentials, got {other:?}"),
    }
}

#[test]
fn a_stdio_call_and_its_answer_arrive() {
    let mut client = ClientSession::new();
    let mut server = ServerSession::new(ServiceParams::new());
    let (id, request) =
        client.start_call(PendingKind::Unary, methods::GET_TASK, payload(), &params()).unwrap();

    let call = match server.on_event(ReadEvent::Body(request.body)) {
        ServerAction::StartUnary(call) => call,
        other => panic!("expected a call, got {other:?}"),
    };
    assert_eq!(call.id, id);
    assert_eq!(call.payload, payload());
    assert_eq!(call.params.get("x-trace").unwrap(), &vec!["a".to_string(), "b".to_string()]);

    let answer = unary_answer(call.id, Ok(text("done")), &JsonValue::Null);
    let body = encode_message(&answer).unwrap().body;
    match client.on_event(ReadEvent::Body(body)) {
        ClientAction::Deliver { id: to, item, done } => {
            assert_eq!(to, id);
            assert_eq!(item.unwrap(), text("done"));
            assert!(done);
        }
        other => panic!("expected an answer, got {other:?}"),
    }
}

#[test]
fn a_stdio_stream_arrives() {
    let mut client = ClientSession::new();
    let (id, _) = client
        .start_call(PendingKind::Stream, methods::SUBSCRIBE_TO_TASK, payload(), &params())
        .unwrap();
    let (item, more) = server::stream_step(&id, StreamEvent::Item(text("one")), &JsonValue::Null);
    assert!(more);
    match client.on_event(ReadEvent::Body(encode_message(&item).unwrap().body)) {
        ClientAction::Deliver { item, done, .. } => {
            assert_eq!(item.unwrap(), text("one"));
            assert!(!done);
        }
        other => panic!("expected an item, got {other:?}"),
    }
    let (end, more) = server::stream_step(&id, StreamEvent::Cancelled, &JsonValue::Null);
    assert!(!more);
    let ended = client.on_event(ReadEvent::Body(encode_message(&end).unwrap().body));
    assert!(matches!(ended, ClientAction::End { .. }));
}

#[test]
fn a_stdio_shutdown_arrives() {
    let asked = ClientSession::new().begin_shutdown(true).unwrap();
    let mut server = ServerSession::new(ServiceParams::new());
    let action = server.on_event(ReadEvent::Body(asked.body));
    assert!(matches!(action, ServerAction::SendAndExit(_, ExitCode::Success)));
}

#[test]
fn a_plain_socket_call_and_its_answer_arrive() {
    let mut client = WebSocketConnection::new();
    let (id, request) = client.start_unary(methods::GET_TASK, &params(), payload());
    let step = server_socket::handle_text_frame(&request.unwrap(), &ServiceParams::new());
    let call = match step {
        SocketStep::Unary(call) => call,
        other => panic!("expected a call, got {other:?}"),
    };
    assert_eq!(call.payload, payload());
    assert_eq!(call.params.get("x-trace").unwrap(), &vec!["a".to_string(), "b".to_string()]);

    let answer = encode_response(&unary_response(call.id, Ok(text("done")))).unwrap();
    match client.on_event(SocketEvent::Text(answer)) {
        Route::Answer { id: to, result } => {
            assert_eq!(to, id);
            assert_eq!(result.unwrap(), text("done"));
        }
        other => panic!("expected an answer, got {other:?}"),
    }
}

#[test]
fn a_plain_socket_stream_arrives() {
    let mut client = WebSocketConnection::new();
    let (id, _) = client.start_stream(methods::SUBSCRIBE_TO_TASK, &params(), payload());
    let call_id = JsonRpcId::Text(id.clone());
    let item = SocketStreamEvent::Item(text("one"));
    let (event, more) = server_socket::stream_step(&call_id, item);
    assert!(more);
    match client.on_event(SocketEvent::Text(encode_response(&event).unwrap())) {
        Route::Event { event, waiting, .. } => {
            assert_eq!(event, text("one"));
            assert!(waiting);
        }
        other => panic!("expected an item, got {other:?}"),
    }
    let (end, _) = server_socket::stream_step(&call_id, SocketStreamEvent::Ended);
    let ended = client.on_event(SocketEvent::Text(encode_response(&end).unwrap()));
    assert!(matches!(ended, Route::End { .. }));
    assert!(!client.has_stream(&id));
}

#[test]
fn parameters_arrive_over_those_of_the_other_side() {
    let mut own = ServiceParams::new();
    own.insert("x-trace".into(), vec!["theirs".into()]);
    own.insert("x-kept".into(), vec!["here".into()]);
    let trace = vec!["a".to_string(), "b".to_string()];

    let mut client = WebSocketConnection::new();
    let (_, request) = client.start_unary(methods::GET_TASK, &params(), payload());
    match server_socket::handle_text_frame(&request.unwrap(), &own) {
        SocketStep::Unary(call) => {
            assert_eq!(call.params.get("x-trace").unwrap(), &trace);
            assert_eq!(call.params.get("x-kept").unwrap(), &vec!["here".to_string()]);
        }
        other => panic!("expected a call, got {other:?}"),
    }

    let mut client = ClientSession::new();
    let (_, request) = client
        .start_call(PendingKind::Unary, methods::GET_TASK, payload(), &params())
        .unwrap();
    match ServerSession::new(own).on_event(ReadEvent::Body(request.body)) {
        ServerAction::StartUnary(call) => {
            assert_eq!(call.params.get("x-trace").unwrap(), &trace);
            assert_eq!(call.params.get("x-kept").unwrap(), &vec!["here".to_string()]);
        }
        other => panic!("expected a call, got {other:?}"),
    }
}
