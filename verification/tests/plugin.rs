use a2a_bindings::client::VERSION;
use a2a_bindings::error_code;
use a2a_bindings::params::ServiceParams;
use a2a_bindings::plugin::{
    accept_call, check_token, forward_params, launch_step, launch_token, parse_proto_name,
    EndpointPayload, Handshake, Info, LaunchInput, PluginError, ProtoName, Stage, TOKEN_HEADER,
    TRANSPORT_PROTOCOL_GRPC,
};

fn name(org: &str, namespace: &str, agent: &str) -> ProtoName {
    ProtoName { org: org.into(), namespace: namespace.into(), agent: agent.into() }
}

#[test]
fn test_parse_proto_name_accepts_org_namespace_agent() {
    assert_eq!(
        parse_proto_name("acme/billing/invoicer").unwrap(),
        name("acme", "billing", "invoicer")
    );
}

#[test]
fn test_parse_proto_name_rejects_too_few_segments() {
    assert!(parse_proto_name("acme/billing").is_err());
    assert!(parse_proto_name("acme").is_err());
    assert!(parse_proto_name("").is_err());
}

#[test]
fn test_parse_proto_name_rejects_an_empty_segment() {
    assert!(parse_proto_name("acme//invoicer").is_err());
    assert!(parse_proto_name("/billing/invoicer").is_err());
    match parse_proto_name("acme/billing/").unwrap_err() {
        PluginError::InvalidEndpoint(m) => {
            assert_eq!(m, "app.name 'acme/billing/' must be 'org/namespace/agent'")
        }
        other => panic!("expected InvalidEndpoint, got {other:?}"),
    }
}

#[test]
fn test_parse_proto_name_keeps_a_slash_inside_the_third_segment() {
    assert_eq!(
        parse_proto_name("acme/billing/invoicer/v2").unwrap(),
        name("acme", "billing", "invoicer/v2")
    );
}

fn params(pairs: &[(&str, &str)]) -> ServiceParams {
    let mut out = ServiceParams::new();
    for (k, v) in pairs {
        out.insert(k.to_string(), vec![v.to_string()]);
    }
    out
}

#[test]
fn test_check_token_accepts_the_matching_token() {
    assert!(check_token("secret", &params(&[(TOKEN_HEADER, "secret")])).is_ok());
}

#[test]
fn test_check_token_rejects_a_wrong_token() {
    let err = check_token("secret", &params(&[(TOKEN_HEADER, "wrong")])).unwrap_err();
    assert_eq!(err.code, error_code::INVALID_REQUEST);
}

#[test]
fn test_check_token_rejects_a_missing_header() {
    assert!(check_token("secret", &ServiceParams::new()).is_err());
}

#[test]
fn test_check_token_rejects_a_duplicated_header() {
    let mut p = ServiceParams::new();
    p.insert(TOKEN_HEADER.to_string(), vec!["secret".into(), "secret".into()]);
    assert!(check_token("secret", &p).is_err());
}

#[test]
fn test_forward_params_strips_the_token_header_case_insensitively() {
    let p = params(&[("A2A-Plugin-Token", "secret"), ("x-tenant-id", "acme")]);
    let forwarded = forward_params(&p);
    assert_eq!(forwarded.len(), 1);
    assert_eq!(forwarded.get("x-tenant-id"), Some(&vec!["acme".to_string()]));
}

#[test]
fn test_forward_params_keeps_everything_when_no_token_is_present() {
    let p = params(&[("x-tenant-id", "acme")]);
    assert_eq!(forward_params(&p), p);
}

#[test]
fn test_send_message_rejects_an_invalid_token_without_reaching_the_transport() {
    let err = accept_call("secret", &params(&[(TOKEN_HEADER, "wrong")])).unwrap_err();
    assert_eq!(err.code, error_code::INVALID_REQUEST);
    assert_eq!(err.message, "invalid or missing plugin token");
}

#[test]
fn test_send_message_forwards_stripped_params_and_returns_the_transport_response() {
    let seen =
        accept_call("secret", &params(&[(TOKEN_HEADER, "secret"), ("x-tenant-id", "acme")]))
            .unwrap();
    assert!(!seen.contains_key(TOKEN_HEADER), "token must be stripped");
    assert_eq!(seen.get("x-tenant-id"), Some(&vec!["acme".to_string()]));
}

fn written(hs: &Handshake) -> serde_json::Value {
    serde_json::from_slice(&hs.to_vec().unwrap()).unwrap()
}

#[test]
fn test_handshake_success_omits_error_and_renames_payload_fields() {
    let hs = Handshake {
        success: true,
        error: None,
        endpoint: Some(EndpointPayload {
            address: "127.0.0.1:5555".into(),
            binding: TRANSPORT_PROTOCOL_GRPC.into(),
            protocol: VERSION.into(),
            token: "tok".into(),
            cert_pem: "-----BEGIN CERTIFICATE-----".into(),
        }),
    };
    let json = written(&hs);
    assert_eq!(json.get("error"), None, "error must be omitted, not null");
    assert_eq!(json["payload"]["certPem"], "-----BEGIN CERTIFICATE-----");
    assert_eq!(json["payload"]["token"], "tok");
    let same = Handshake::listening(
        "127.0.0.1:5555".into(),
        "tok".into(),
        "-----BEGIN CERTIFICATE-----".into(),
    );
    assert_eq!(written(&same), json);
}

#[test]
fn test_handshake_failure_omits_the_payload_field() {
    let hs = Handshake {
        success: false,
        error: Some("SLIM gateway connect failed: timed out".into()),
        endpoint: None,
    };
    let json = written(&hs);
    assert_eq!(json.get("payload"), None, "payload must be omitted on failure");
    assert_eq!(json["error"], "SLIM gateway connect failed: timed out");
}

#[test]
fn test_main_prints_info_json_and_exits_zero() {
    let bytes = Info::new("0.1.0").to_vec().unwrap();
    let json: serde_json::Value = serde_json::from_slice(&bytes).unwrap();
    assert_eq!(json["name"], "slimrpc");
    assert_eq!(json["version"], "0.1.0");
    assert_eq!(json["description"], "SLIMRPC transport plugin for a2a-cli");
    assert_eq!(json["binding"], TRANSPORT_PROTOCOL_GRPC);
}

#[test]
fn each_launch_has_its_own_token() {
    assert!(uuid::Uuid::parse_str(&launch_token()).is_ok());
    assert_ne!(launch_token(), launch_token());
}

fn input(app_name: &str) -> LaunchInput {
    LaunchInput {
        config_path: "/etc/plugin.yaml".into(),
        endpoint: "slim://x".into(),
        app_name: app_name.into(),
    }
}

#[test]
fn a_launch_goes_through_every_stage() {
    let mut stage = Stage::FindConfig;
    let mut seen = vec![stage];
    while stage != Stage::Done {
        stage = launch_step(stage, &input("a/b/c"), Ok(())).unwrap();
        seen.push(stage);
    }
    assert_eq!(seen.len(), 13);
    assert_eq!(seen[10], Stage::Announce);
    assert_eq!(
        launch_step(Stage::Serve, &input("a/b/c"), Err("reset".into())).unwrap(),
        Stage::Done
    );
}

fn failure(stage: Stage) -> PluginError {
    launch_step(stage, &input("a/b/c"), Err("why".into())).unwrap_err()
}

#[test]
fn test_run_with_config_rejects_an_invalid_endpoint() {
    match failure(Stage::ParseTarget) {
        PluginError::InvalidEndpoint(m) => assert_eq!(m, "slim://x: why"),
        other => panic!("expected InvalidEndpoint, got {other:?}"),
    }
    assert!(matches!(
        launch_step(Stage::Connect, &input("a/b"), Ok(())).unwrap_err(),
        PluginError::InvalidEndpoint(_)
    ));
}

#[test]
fn test_run_with_config_reports_a_connect_failure_for_an_unreachable_gateway() {
    match failure(Stage::Connect) {
        PluginError::Slim(m) => assert_eq!(m, "SLIM gateway connect failed: why"),
        other => panic!("expected Slim, got {other:?}"),
    }
}

#[test]
fn each_stage_fails_in_its_own_way() {
    assert!(matches!(failure(Stage::FindConfig), PluginError::ConfigEnvMissing));
    assert!(matches!(failure(Stage::ReadConfig), PluginError::ConfigRead { .. }));
    match failure(Stage::ParseConfig) {
        PluginError::ConfigParse { path, reason } => {
            assert_eq!((path.as_str(), reason.as_str()), ("/etc/plugin.yaml", "why"))
        }
        other => panic!("expected ConfigParse, got {other:?}"),
    }
    assert!(matches!(failure(Stage::BuildIdentity), PluginError::Identity(_)));
    assert!(matches!(failure(Stage::NameService), PluginError::Slim(_)));
    match failure(Stage::CreateApp) {
        PluginError::Slim(m) => assert_eq!(m, "create_app failed: why"),
        other => panic!("expected Slim, got {other:?}"),
    }
    assert!(matches!(failure(Stage::MakeTls), PluginError::Tls(_)));
    assert!(matches!(failure(Stage::Bind), PluginError::Bind(_)));
    assert!(matches!(failure(Stage::Announce), PluginError::Handshake(_)));
}
