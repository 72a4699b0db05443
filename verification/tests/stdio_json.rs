use a2a_bindings::json_value::{JsonNum, JsonValue};
use a2a_bindings::protocol::JsonRpcId;
use a2a_bindings::stdio::json::{
    parse_from_client, parse_from_server, peek_id, service_params_to_wire, wire_to_service_params,
    ClientInbound, ClientMessage, ServerInbound, ServerMessage, StdioRequest,
};
use a2a_bindings::stdio::wire::{
    ControlFrame, Handshake, HandshakeAck, Heartbeat, Variant, WireError,
};
use a2a_bindings::text_map::TextMap;

fn plain(v: &JsonValue) -> serde_json::Value {
    match v {
        JsonValue::Null => serde_json::Value::Null,
        JsonValue::Bool(b) => serde_json::Value::from(*b),
        JsonValue::Num(JsonNum::Int(i)) => serde_json::Value::from(*i),
        JsonValue::Num(JsonNum::UInt(u)) => serde_json::Value::from(*u),
        JsonValue::Num(JsonNum::Float(n)) => serde_json::Value::Number(n.clone()),
        JsonValue::Text(s) => serde_json::Value::from(s.as_str()),
        JsonValue::Array(a) => serde_json::Value::Array(a.iter().map(plain).collect()),
        JsonValue::Object(e) => {
            serde_json::Value::Object(e.iter().map(|(k, v)| (k.clone(), plain(v))).collect())
        }
    }
}

fn json(text: &str) -> serde_json::Value {
    serde_json::from_str(text).unwrap()
}

fn id(s: &str) -> JsonRpcId {
    JsonRpcId::Text(s.to_string())
}

fn sent(req: StdioRequest) -> serde_json::Value {
    plain(&ClientMessage::Request(req).to_value())
}

#[test]
fn unknown_members_are_ignored() {
    let body = br#"{"jsonrpc":"2.0","id":"req-1","method":"SendMessage","futureExtension":{"anything":true}}"#;
    match parse_from_client(body).unwrap() {
        ServerInbound::Message(ClientMessage::Request(r)) => {
            assert_eq!(r.method, "SendMessage");
        }
        other => panic!("expected request, got {other:?}"),
    }
}

#[test]
fn absent_service_params_are_not_serialized() {
    let req = StdioRequest::new(JsonRpcId::Int(1), "GetTask", None);
    let s = String::from_utf8(ClientMessage::Request(req).to_vec().unwrap()).unwrap();
    assert!(!s.contains("serviceParams"), "got {s}");
    assert!(!s.contains("params"), "got {s}");
}

#[test]
fn service_params_use_camel_case_on_the_wire() {
    let mut sp = TextMap::new();
    sp.insert("a2a-version".to_string(), vec!["1.0".to_string()]);
    let req = StdioRequest::new(JsonRpcId::Int(1), "GetTask", None).with_service_params(&sp);
    let v = sent(req);
    assert_eq!(v["serviceParams"]["a2a-version"], json("\"1.0\""));
}

#[test]
fn variant_uses_hyphenated_names() {
    assert_eq!(Variant::Json.as_str(), "stdio-json");
    assert_eq!(Variant::Proto.as_str(), "stdio-proto");
}

fn handshake() -> Handshake {
    Handshake {
        protocol: "a2a-stdio".into(),
        protocol_version: "1.0".into(),
        session_id: "s-1".into(),
        supported_variants: vec![Variant::Json, Variant::Proto],
        features: vec!["streaming".into()],
        pid: Some(42137),
    }
}

#[test]
fn handshake_round_trips_with_camel_case_keys() {
    let frame = ControlFrame::Handshake(handshake());
    let v = plain(&frame.to_value());
    assert_eq!(v["type"], json("\"handshake\""));
    assert_eq!(v["protocolVersion"], json("\"1.0\""));
    assert_eq!(v["sessionId"], json("\"s-1\""));
    assert_eq!(v["supportedVariants"], json(r#"["stdio-json","stdio-proto"]"#));

    let body = serde_json::to_vec(&v).unwrap();
    match parse_from_server(&body).unwrap() {
        ClientInbound::Control(ControlFrame::Handshake(back)) => assert_eq!(back, handshake()),
        other => panic!("expected handshake, got {other:?}"),
    }
}

#[test]
fn other_control_frames_round_trip() {
    let ack = ControlFrame::HandshakeAck(HandshakeAck {
        session_id: "s-1".into(),
        select_variant: Variant::Proto,
        accept: true,
    });
    let beat = ControlFrame::Heartbeat(Heartbeat { session_id: "s-1".into(), ts: u64::MAX });
    for frame in [ack, beat] {
        let body = frame.to_vec().unwrap();
        match parse_from_client(&body).unwrap() {
            ServerInbound::Control(back) => assert_eq!(back, frame),
            other => panic!("expected a control frame, got {other:?}"),
        }
    }
}

#[test]
fn stream_end_is_not_read_as_a_result() {
    let body = br#"{"jsonrpc":"2.0","id":"req-1","streamEnd":true}"#;
    match parse_from_server(body).unwrap() {
        ClientInbound::Message(ServerMessage::StreamEnd { id: got }) => {
            assert_eq!(got, id("req-1"));
        }
        other => panic!("expected streamEnd, got {other:?}"),
    }
}

#[test]
fn error_wins_over_result() {
    let body = br#"{"jsonrpc":"2.0","id":7,"result":{"ignored":true},"error":{"code":-32603,"message":"boom"}}"#;
    match parse_from_server(body).unwrap() {
        ClientInbound::Message(ServerMessage::Error { error, .. }) => {
            assert_eq!(error.code, -32603);
        }
        other => panic!("expected error, got {other:?}"),
    }
}

#[test]
fn cancel_stream_round_trips() {
    let msg = ClientMessage::CancelStream { id: id("req-1") };
    let v = plain(&msg.to_value());
    assert_eq!(v["cancelStream"], json("true"));

    let body = serde_json::to_vec(&v).unwrap();
    match parse_from_client(&body).unwrap() {
        ServerInbound::Message(ClientMessage::CancelStream { id: got }) => {
            assert_eq!(got, id("req-1"));
        }
        other => panic!("expected cancelStream, got {other:?}"),
    }
}

#[test]
fn empty_object_is_an_error_not_a_panic() {
    let err = parse_from_client(b"{}").unwrap_err();
    assert!(matches!(err, WireError::BadVersion(_)), "got {err:?}");
}

#[test]
fn non_object_bodies_are_rejected() {
    assert!(matches!(parse_from_client(b"[1,2,3]").unwrap_err(), WireError::NotAnObject));
}

#[test]
fn unknown_control_frame_type_is_rejected() {
    let body = br#"{"type":"somethingElse","sessionId":"s-1"}"#;
    assert!(matches!(parse_from_client(body).unwrap_err(), WireError::Json(_)));
}

#[test]
fn wrong_jsonrpc_version_is_rejected() {
    let body = br#"{"jsonrpc":"1.0","id":1,"method":"GetTask"}"#;
    match parse_from_client(body).unwrap_err() {
        WireError::BadVersion(v) => assert_eq!(v, "1.0"),
        other => panic!("expected BadVersion, got {other:?}"),
    }
}

#[test]
fn well_formed_but_unclassifiable_message_is_rejected() {
    let body = br#"{"jsonrpc":"2.0","id":1}"#;
    assert!(matches!(parse_from_client(body).unwrap_err(), WireError::UnrecognizedMessage));
}

#[test]
fn malformed_json_keeps_the_reason() {
    let expected = serde_json::from_slice::<serde_json::Value>(b"{not json").unwrap_err();
    match parse_from_client(b"{not json").unwrap_err() {
        WireError::Json(reason) => assert_eq!(reason, expected.to_string()),
        other => panic!("expected Json, got {other:?}"),
    }
}

#[test]
fn every_message_round_trips() {
    let request = StdioRequest::new(
        id("a"),
        "SendMessage",
        Some(JsonValue::Object(vec![("n".into(), JsonValue::Num(JsonNum::Int(-3)))])),
    );
    let body = ClientMessage::Request(request).to_vec().unwrap();
    match parse_from_client(&body).unwrap() {
        ServerInbound::Message(ClientMessage::Request(r)) => {
            assert_eq!(r.id, id("a"));
            assert_eq!(plain(&r.params.unwrap()), json(r#"{"n":-3}"#));
            assert!(r.service_params.is_none());
        }
        other => panic!("expected request, got {other:?}"),
    }
    let result = ServerMessage::Result { id: JsonRpcId::Int(5), result: JsonValue::Bool(true) };
    match parse_from_server(&result.to_vec().unwrap()).unwrap() {
        ClientInbound::Message(m) => assert_eq!(m, result),
        other => panic!("expected result, got {other:?}"),
    }
}

#[test]
fn a_null_result_is_a_result() {
    match parse_from_server(br#"{"jsonrpc":"2.0","id":3,"result":null}"#).unwrap() {
        ClientInbound::Message(ServerMessage::Result { id, result }) => {
            assert_eq!(id, JsonRpcId::Int(3));
            assert_eq!(result, JsonValue::Null);
        }
        other => panic!("expected result, got {other:?}"),
    }
}

#[test]
fn identifiers_are_peeked_at() {
    assert_eq!(peek_id(br#"{"jsonrpc":"2.0","id":"req-7"}"#), id("req-7"));
    assert_eq!(peek_id(br#"{"id":12}"#), JsonRpcId::Int(12));
    assert_eq!(peek_id(b"{not json"), JsonRpcId::Null);
    assert_eq!(peek_id(b"[1]"), JsonRpcId::Null);
}

#[test]
fn wire_errors_have_words() {
    assert_eq!(WireError::Json("why".into()).message(), "invalid JSON: why");
    assert_eq!(WireError::NotAnObject.message(), "message is not a JSON object");
    assert_eq!(
        WireError::BadVersion("1.0".into()).message(),
        "bad or missing jsonrpc version: \"1.0\""
    );
    assert_eq!(WireError::UnrecognizedMessage.message(), "unrecognized message shape");
}

fn wire(k: &str, v: &str) -> TextMap<String> {
    let mut wire = TextMap::new();
    wire.insert(k.to_string(), v.to_string());
    wire
}

#[test]
fn service_params_split_and_join_round_trip() {
    let multi = wire_to_service_params(&wire("a2a-extensions", "a, b ,c"));
    assert_eq!(multi.get("a2a-extensions").unwrap(), &vec!["a", "b", "c"]);
    assert_eq!(service_params_to_wire(&multi).get("a2a-extensions").unwrap(), "a,b,c");
}

#[test]
fn service_param_keys_are_lowercased() {
    assert!(wire_to_service_params(&wire("A2A-Version", "1.0")).contains_key("a2a-version"));
}

#[test]
fn empty_service_param_values_are_dropped() {
    assert!(wire_to_service_params(&wire("k", " , ,")).get("k").unwrap().is_empty());
}

#[test]
fn the_end_of_a_stream_wins_over_an_error() {
    let body = br#"{"jsonrpc":"2.0","id":7,"error":{"code":-32603,"message":"boom"},"streamEnd":true}"#;
    match parse_from_server(body).unwrap() {
        ClientInbound::Message(ServerMessage::StreamEnd { id: got }) => {
            assert_eq!(got, JsonRpcId::Int(7));
        }
        other => panic!("expected streamEnd, got {other:?}"),
    }
}
