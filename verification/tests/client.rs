use a2a_bindings::client::{
    agent_card_url, card_outcome, finish_call, A2AClient, CallStage, CardReply, SVC_PARAM_VERSION,
};
use a2a_bindings::json_value::{JsonNum, JsonValue};
use a2a_bindings::protocol::A2AError;
use a2a_bindings::protojson::{
    finish_value, normalize_list_tasks_response, normalize_timestamp_strings, ProtoJsonPayloadError,
};

fn lib(v: &serde_json::Value) -> JsonValue {
    match v {
        serde_json::Value::Null => JsonValue::Null,
        serde_json::Value::Bool(b) => JsonValue::Bool(*b),
        serde_json::Value::Number(n) => JsonValue::Num(match (n.as_i64(), n.as_u64()) {
            (Some(i), _) => JsonNum::Int(i),
            (None, Some(u)) => JsonNum::UInt(u),
            (None, None) => JsonNum::Float(n.clone()),
        }),
        serde_json::Value::String(s) => JsonValue::Text(s.clone()),
        serde_json::Value::Array(a) => JsonValue::Array(a.iter().map(lib).collect()),
        serde_json::Value::Object(m) => {
            JsonValue::Object(m.iter().map(|(k, v)| (k.clone(), lib(v))).collect())
        }
    }
}

fn plain(v: &JsonValue) -> serde_json::Value {
    match v {
        JsonValue::Null => serde_json::Value::Null,
        JsonValue::Bool(b) => serde_json::Value::from(*b),
        JsonValue::Num(JsonNum::Int(i)) => serde_json::Value::from(*i),
        JsonValue::Num(JsonNum::UInt(u)) => serde_json::Value::from(*u),
        JsonValue::Num(JsonNum::Float(n)) => serde_json::Value::Number(n.clone()),
        JsonValue::Text(s) => serde_json::Value::from(s.as_str()),
        JsonValue::Array(a) => serde_json::Value::Array(a.iter().map(plain).collect()),
        JsonValue::Object(e) => {
            serde_json::Value::Object(e.iter().map(|(k, v)| (k.clone(), plain(v))).collect())
        }
    }
}

fn json(text: &str) -> serde_json::Value {
    serde_json::from_str(text).unwrap()
}

fn make_client() -> A2AClient<&'static str, &'static str> {
    A2AClient::new("transport")
}

#[test]
fn test_new_sets_default_params() {
    let client = make_client();
    let params = client.params();
    assert!(params.contains_key(SVC_PARAM_VERSION));
    assert_eq!(params.len(), 1);
}

#[test]
fn test_with_interceptors() {
    let client = make_client().with_interceptors(vec![]);
    assert!(client.interceptors().is_empty());
}

/// Runs a call whose steps go well, but for the one at `fails`.
fn trace(client: &A2AClient<&'static str, &'static str>, fails: Option<CallStage>) -> Vec<String> {
    let mut seen = Vec::new();
    let mut stage = client.start_call();
    while stage != CallStage::Done {
        seen.push(match stage {
            CallStage::Before(i) => format!("before:{}", client.interceptors()[i]),
            CallStage::Send => "send".to_string(),
            CallStage::After(i) => format!("after:{}", client.interceptors()[i]),
            CallStage::Done => unreachable!(),
        });
        stage = client.next_stage(stage, fails != Some(stage));
    }
    seen
}

#[test]
fn test_send_message_applies_interceptors_and_reverses_after_order() {
    let client = make_client().with_interceptors(vec!["first", "second"]);
    assert_eq!(
        trace(&client, None),
        vec!["before:first", "before:second", "send", "after:second", "after:first"]
    );
    assert_eq!(trace(&make_client(), None), vec!["send"]);
}

#[test]
fn an_interceptor_can_stop_a_call() {
    let client = make_client().with_interceptors(vec!["first", "second"]);
    assert_eq!(trace(&client, Some(CallStage::Before(1))), vec!["before:first", "before:second"]);
    assert_eq!(
        trace(&client, Some(CallStage::After(1))),
        vec!["before:first", "before:second", "send", "after:second"]
    );
}

#[test]
fn test_send_message_preserves_transport_error_after_after_hooks() {
    let client = make_client().with_interceptors(vec!["only"]);
    assert_eq!(trace(&client, Some(CallStage::Send)), vec!["before:only", "send", "after:only"]);
    let boom = || Err::<i32, A2AError>(A2AError::internal("boom"));
    assert_eq!(finish_call(boom(), Ok(())).unwrap_err().message, "boom");
    assert_eq!(finish_call(boom(), Err(A2AError::internal("hook"))).unwrap_err().message, "boom");
    assert_eq!(finish_call(Ok(1), Err(A2AError::internal("hook"))).unwrap_err().message, "hook");
    assert_eq!(finish_call(Ok(1), Ok(())).unwrap(), 1);
}

#[test]
fn test_with_tenant_fills_unset_request_tenant_on_all_methods() {
    let client = make_client().with_tenant("acme");
    assert_eq!(client.tenant(), Some("acme"));
    assert_eq!(client.apply_tenant(None).as_deref(), Some("acme"));
}

#[test]
fn test_explicit_request_tenant_is_not_overridden() {
    let client = make_client().with_tenant("acme");
    assert_eq!(client.apply_tenant(Some("other".into())).as_deref(), Some("other"));
    assert_eq!(client.apply_tenant(Some("".into())).as_deref(), Some(""));
}

#[test]
fn test_no_client_tenant_leaves_request_tenant_unset() {
    let client = make_client();
    assert_eq!(client.tenant(), None);
    assert_eq!(client.apply_tenant(None), None);
    assert_eq!(client.apply_tenant(Some("t".into())).as_deref(), Some("t"));
}

#[test]
fn an_agent_card_has_a_well_known_place() {
    for base in ["https://a.test", "https://a.test/", "https://a.test///"] {
        assert_eq!(agent_card_url(base), "https://a.test/.well-known/agent-card.json");
    }
    assert_eq!(agent_card_url(""), "/.well-known/agent-card.json");
}

#[test]
fn an_agent_card_may_not_be_there() {
    let reply = |status: u16, shown: &str, card: Result<i32, &str>| CardReply::Response {
        status,
        shown: shown.into(),
        card: card.map_err(|e| e.to_string()),
    };
    assert_eq!(card_outcome(reply(200, "200 OK", Ok(1))).unwrap(), 1);
    assert_eq!(card_outcome(reply(299, "299", Ok(1))).unwrap(), 1);
    assert_eq!(
        card_outcome(reply(404, "404 Not Found", Ok(1))).unwrap_err().message,
        "agent card fetch returned HTTP 404 Not Found"
    );
    assert_eq!(
        card_outcome(reply(200, "200 OK", Err("eof"))).unwrap_err().message,
        "failed to parse agent card: eof"
    );
    assert_eq!(
        card_outcome::<i32>(CardReply::Unreachable("dns".into())).unwrap_err().message,
        "failed to fetch agent card: dns"
    );
}

fn finished(text: &str, page: bool) -> serde_json::Value {
    let mut v = lib(&json(text));
    finish_value(&mut v, page);
    plain(&v)
}

#[test]
fn test_list_tasks_response_always_includes_next_page_token() {
    let v = finished(r#"{"pageSize":0,"totalSize":0}"#, true);
    assert_eq!(v.get("nextPageToken"), Some(&json("\"\"")));
    assert!(finished("{}", false).get("nextPageToken").is_none());
}

#[test]
fn test_list_tasks_response_keeps_a_non_empty_next_page_token() {
    let v = finished(r#"{"nextPageToken":"page-2"}"#, true);
    assert_eq!(v.get("nextPageToken"), Some(&json("\"page-2\"")));
}

#[test]
fn test_list_tasks_response_normalize_json_ignores_a_non_object_value() {
    let mut not_an_object = JsonValue::Null;
    normalize_list_tasks_response(&mut not_an_object);
    assert_eq!(not_an_object, JsonValue::Null);
}

#[test]
fn test_task_status_timestamp_uses_z_suffix_not_offset() {
    let v = finished(
        r#"{"id":"task-1","contextId":"ctx-1","status":{"state":"TASK_STATE_WORKING","timestamp":"2026-09-23T02:07:57.846477544+00:00"}}"#,
        false,
    );
    let rendered = v["status"]["timestamp"].as_str().unwrap();
    assert_eq!(rendered, "2026-09-23T02:07:57.846477544Z");
    assert!(!rendered.ends_with("+00:00"));
}

#[test]
fn test_normalize_timestamp_strings_recurses_into_nested_tasks() {
    let v = finished(
        r#"{"tasks":[{"status":{"timestamp":"2026-09-23T02:07:57+00:00"}}],"totalSize":1}"#,
        true,
    );
    let rendered = v["tasks"][0]["status"]["timestamp"].as_str().unwrap();
    assert_eq!(rendered, "2026-09-23T02:07:57Z");
}

#[test]
fn test_normalize_timestamp_strings_ignores_unrelated_fields() {
    let text = r#"{"notATimestamp":"ends with +00:00","nested":{"alsoNotATimestamp":"also +00:00"}}"#;
    let mut v = lib(&json(text));
    normalize_timestamp_strings(&mut v);
    let v = plain(&v);
    assert_eq!(v["notATimestamp"], "ends with +00:00");
    assert_eq!(v["nested"]["alsoNotATimestamp"], "also +00:00");
}

#[test]
fn both_time_fields_are_put_right_once() {
    let once = finished(r#"{"statusTimestampAfter":"a+00:00+00:00","timestamp":7}"#, false);
    assert_eq!(once["statusTimestampAfter"], "a+00:00Z");
    assert_eq!(once["timestamp"], 7);
    assert_eq!(finished(&once.to_string(), false), once);
}

#[test]
fn payload_errors_have_words() {
    assert_eq!(ProtoJsonPayloadError::Json("e".into()).message(), "ProtoJSON error: e");
    assert_eq!(ProtoJsonPayloadError::Decode("e".into()).message(), "protobuf transcode error: e");
    assert_eq!(
        ProtoJsonPayloadError::MissingPayload("Task".into()).message(),
        "ProtoJSON payload missing required data for Task"
    );
}

#[test]
fn a_client_knows_what_carries_its_calls() {
    let client = make_client().with_interceptors(vec!["a", "b"]);
    assert_eq!(client.transport(), &"transport");
    assert_eq!(client.interceptors(), &vec!["a", "b"]);
}
