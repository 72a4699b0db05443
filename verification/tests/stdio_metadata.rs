use a2a_bindings::json_value::{JsonNum, JsonValue};
use a2a_bindings::stdio::metadata::{stamp, SessionBinding, BINDING_URI};
use a2a_bindings::stdio::wire::Variant;

fn lib(v: &serde_json::Value) -> JsonValue {
    match v {
        serde_json::Value::Null => JsonValue::Null,
        serde_json::Value::Bool(b) => JsonValue::Bool(*b),
        serde_json::Value::Number(n) => JsonValue::Num(match (n.as_i64(), n.as_u64()) {
            (Some(i), _) => JsonNum::Int(i),
            (None, Some(u)) => JsonNum::UInt(u),
            (None, None) => JsonNum::Float(n.clone()),
        }),
        serde_json::Value::String(s) => JsonValue::Text(s.clone()),
        serde_json::Value::Array(a) => JsonValue::Array(a.iter().map(lib).collect()),
        serde_json::Value::Object(m) => {
            JsonValue::Object(m.iter().map(|(k, v)| (k.clone(), lib(v))).collect())
        }
    }
}

fn plain(v: &JsonValue) -> serde_json::Value {
    match v {
        JsonValue::Null => serde_json::Value::Null,
        JsonValue::Bool(b) => serde_json::Value::from(*b),
        JsonValue::Num(JsonNum::Int(i)) => serde_json::Value::from(*i),
        JsonValue::Num(JsonNum::UInt(u)) => serde_json::Value::from(*u),
        JsonValue::Num(JsonNum::Float(n)) => serde_json::Value::Number(n.clone()),
        JsonValue::Text(s) => serde_json::Value::from(s.as_str()),
        JsonValue::Array(a) => serde_json::Value::Array(a.iter().map(plain).collect()),
        JsonValue::Object(e) => {
            serde_json::Value::Object(e.iter().map(|(k, v)| (k.clone(), plain(v))).collect())
        }
    }
}

fn json(text: &str) -> serde_json::Value {
    serde_json::from_str(text).unwrap()
}

fn binding() -> JsonValue {
    SessionBinding {
        session_id: "s-1".into(),
        pid: Some(42137),
        variant: Variant::Json,
        launch_digest: None,
    }
    .to_value()
}

fn stamped_text(text: &str) -> serde_json::Value {
    let mut v = lib(&json(text));
    stamp(&mut v, &binding());
    plain(&v)
}

fn stamped(value: &serde_json::Value) -> &serde_json::Value {
    &value["metadata"][BINDING_URI]
}

#[test]
fn variant_token_matches_the_serde_rename() {
    for (v, token) in [(Variant::Json, "stdio-json"), (Variant::Proto, "stdio-proto")] {
        assert_eq!(v.as_str(), token);
        let b = SessionBinding {
            session_id: "s-1".into(),
            pid: None,
            variant: v,
            launch_digest: None,
        };
        assert_eq!(plain(&b.to_value())["variant"], token);
    }
}

#[test]
fn binding_omits_absent_optionals() {
    let v = SessionBinding {
        session_id: "s-1".into(),
        pid: None,
        variant: Variant::Proto,
        launch_digest: None,
    }
    .to_value();
    assert_eq!(plain(&v), json(r#"{"sessionId":"s-1","variant":"stdio-proto"}"#));
}

#[test]
fn binding_carries_pid_and_digest_when_known() {
    let v = plain(
        &SessionBinding {
            session_id: "s-1".into(),
            pid: Some(7),
            variant: Variant::Json,
            launch_digest: Some("sha256:abc".into()),
        }
        .to_value(),
    );
    assert_eq!(v["pid"], json("7"));
    assert_eq!(v["launchDigest"], json("\"sha256:abc\""));
}

#[test]
fn a_real_protojson_task_is_stamped_at_every_level() {
    let v = stamped_text(
        r#"{
            "id": "t-1",
            "contextId": "c-1",
            "status": {
                "state": "TASK_STATE_COMPLETED",
                "message": {"messageId": "m-2", "role": "ROLE_AGENT"}
            },
            "artifacts": [{"artifactId": "a-1"}],
            "history": [{"messageId": "m-1", "role": "ROLE_USER"}]
        }"#,
    );
    assert_eq!(stamped(&v)["sessionId"], json("\"s-1\""));
    assert_eq!(stamped(&v)["pid"], json("42137"));
    assert_eq!(stamped(&v["artifacts"][0])["sessionId"], json("\"s-1\""));
    assert_eq!(stamped(&v["history"][0])["sessionId"], json("\"s-1\""));
    assert_eq!(
        stamped(&v["status"]["message"])["sessionId"],
        json("\"s-1\""),
        "the message inside a status is emitted too"
    );
}

#[test]
fn update_events_are_not_mistaken_for_tasks() {
    let v = stamped_text(
        r#"{"taskId":"t-1","contextId":"c-1","status":{"state":"TASK_STATE_WORKING"}}"#,
    );
    assert!(v.get("metadata").is_none(), "got {v}");
}

#[test]
fn an_artifact_inside_an_update_event_is_still_stamped() {
    let v = stamped_text(
        r#"{"taskId":"t-1","contextId":"c-1","artifact":{"artifactId":"a-1","parts":[]}}"#,
    );
    assert_eq!(stamped(&v["artifact"])["sessionId"], json("\"s-1\""));
    assert!(v.get("metadata").is_none(), "the event itself is untouched");
}

#[test]
fn an_existing_binding_is_left_alone() {
    let text = format!(
        "{{\"id\":\"t-1\",\"status\":{{\"state\":\"TASK_STATE_COMPLETED\"}},\"metadata\":{{\"{BINDING_URI}\":{{\"sessionId\":\"s-0\",\"pid\":1}}}}}}"
    );
    let v = stamped_text(&text);
    assert_eq!(*stamped(&v), json(r#"{"sessionId":"s-0","pid":1}"#));
}

#[test]
fn unrelated_metadata_survives() {
    let v = stamped_text(
        r#"{"messageId":"m-1","metadata":{"https://example.com/ext":{"keep":true}}}"#,
    );
    assert_eq!(v["metadata"]["https://example.com/ext"], json(r#"{"keep":true}"#));
    assert_eq!(stamped(&v)["sessionId"], json("\"s-1\""));
}

#[test]
fn null_metadata_is_replaced_with_an_object() {
    let v = stamped_text(r#"{"messageId":"m-1","metadata":null}"#);
    assert_eq!(stamped(&v)["sessionId"], json("\"s-1\""));
}

#[test]
fn agent_cards_and_scalars_are_untouched() {
    let text = r#"{
        "name": "card",
        "skills": [{"id": "s", "name": "n", "description": "d", "tags": []}],
        "count": 3
    }"#;
    assert_eq!(stamped_text(text), json(text));
}

#[test]
fn a_null_body_is_not_a_panic() {
    assert_eq!(stamped_text("null"), serde_json::Value::Null);
}

#[test]
fn stamping_twice_changes_nothing() {
    let text = r#"{"task":{"id":"t","status":{}},"list":[{"artifactId":"a"},2.5]}"#;
    let once = stamped_text(text);
    let again = stamped_text(&once.to_string());
    assert_eq!(once, again);
}

#[test]
fn the_binding_of_a_later_session_changes_nothing() {
    let text = r#"{"task":{"id":"t","contextId":"c","status":{"state":"TASK_STATE_WORKING"},"artifacts":[{"artifactId":"a","parts":[]}]}}"#;
    let mut v = lib(&json(text));
    stamp(&mut v, &binding());
    let first = plain(&v);
    let later = SessionBinding {
        session_id: "s-2".into(),
        pid: None,
        variant: Variant::Json,
        launch_digest: Some("sha256:00".into()),
    };
    stamp(&mut v, &later.to_value());
    assert_eq!(plain(&v), first);
    assert_ne!(first, json(text));
}
