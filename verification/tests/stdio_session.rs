use a2a_bindings::params::ServiceParams;
use a2a_bindings::stdio::session::{
    accept_ack, build_handshake, decline, respond_to_handshake, service_params_from_env,
    session_id_from_env, AckOutcome, ExitCode, NegotiationError, ENV_SESSION_ID, PROTOCOL_NAME,
    PROTOCOL_VERSION,
};
use a2a_bindings::stdio::wire::{Handshake, HandshakeAck, Variant};

fn offered(supported: Vec<Variant>) -> Handshake {
    build_handshake("s-1".into(), supported, vec![], Some(42137))
}

fn ack(session_id: &str, select_variant: Variant, accept: bool) -> HandshakeAck {
    HandshakeAck { session_id: session_id.into(), select_variant, accept }
}

#[test]
fn handshake_carries_the_binding_identity() {
    let hs = offered(vec![Variant::Json]);
    assert_eq!(hs.protocol, "a2a-stdio");
    assert_eq!(hs.protocol_version, "1.0");
    assert_eq!(hs.session_id, "s-1");
    assert_eq!(hs.pid, Some(42137));
}

#[test]
fn handshake_preserves_preference_order() {
    let hs = offered(vec![Variant::Proto, Variant::Json]);
    assert_eq!(hs.supported_variants, vec![Variant::Proto, Variant::Json]);
}

#[test]
fn accepted_ack_selects_the_variant() {
    let hs = offered(vec![Variant::Json, Variant::Proto]);
    let out = accept_ack(&hs, &ack("s-1", Variant::Proto, true)).unwrap();
    assert_eq!(out, AckOutcome::Accepted(Variant::Proto));
}

#[test]
fn declined_ack_is_a_clean_shutdown_not_an_error() {
    let hs = offered(vec![Variant::Json]);
    let out = accept_ack(&hs, &ack("s-1", Variant::Json, false)).unwrap();
    assert_eq!(out, AckOutcome::Declined);
}

#[test]
fn selecting_an_unoffered_variant_is_a_protocol_error() {
    let hs = offered(vec![Variant::Json]);
    let err = accept_ack(&hs, &ack("s-1", Variant::Proto, true)).unwrap_err();
    assert!(
        matches!(err, NegotiationError::VariantNotOffered(Variant::Proto)),
        "got {err:?}"
    );
    assert_eq!(err.exit_code(), ExitCode::ProtocolError);
}

#[test]
fn mismatched_session_id_is_rejected_even_when_declining() {
    let hs = offered(vec![Variant::Json]);
    let err = accept_ack(&hs, &ack("other", Variant::Json, false)).unwrap_err();
    assert!(
        matches!(err, NegotiationError::SessionIdMismatch { .. }),
        "got {err:?}"
    );
    assert_eq!(err.exit_code(), ExitCode::ProtocolError);
}

#[test]
fn version_failures_use_their_own_exit_code() {
    let err = NegotiationError::VersionNotSupported("9.9".into());
    assert_eq!(err.exit_code(), ExitCode::VersionNotSupported);
    assert_eq!(err.exit_code().as_i32(), 3);
}

#[test]
fn client_honours_the_servers_preference_order() {
    let hs = offered(vec![Variant::Json, Variant::Proto]);
    let (ack, chosen) = respond_to_handshake(&hs, "s-1", &[Variant::Proto, Variant::Json]).unwrap();
    assert_eq!(chosen, Variant::Json);
    assert_eq!(ack.select_variant, Variant::Json);
    assert!(ack.accept);
    assert_eq!(ack.session_id, "s-1");
}

#[test]
fn client_skips_variants_it_cannot_speak() {
    let hs = offered(vec![Variant::Proto, Variant::Json]);
    let (_, chosen) = respond_to_handshake(&hs, "s-1", &[Variant::Json]).unwrap();
    assert_eq!(chosen, Variant::Json);
}

#[test]
fn no_overlap_is_reported_as_no_common_variant() {
    let hs = offered(vec![Variant::Json]);
    let err = respond_to_handshake(&hs, "s-1", &[Variant::Proto]).unwrap_err();
    assert!(matches!(err, NegotiationError::NoCommonVariant), "got {err:?}");
    assert_eq!(err.exit_code(), ExitCode::ProtocolError);
}

#[test]
fn empty_variant_list_does_not_panic() {
    let hs = Handshake {
        protocol: PROTOCOL_NAME.into(),
        protocol_version: PROTOCOL_VERSION.into(),
        session_id: "s-1".into(),
        supported_variants: vec![],
        features: vec![],
        pid: None,
    };
    assert!(matches!(
        respond_to_handshake(&hs, "s-1", &[Variant::Json]).unwrap_err(),
        NegotiationError::NoCommonVariant
    ));
}

#[test]
fn client_rejects_a_foreign_session_id() {
    let hs = offered(vec![Variant::Json]);
    match respond_to_handshake(&hs, "s-2", &[Variant::Json]).unwrap_err() {
        NegotiationError::SessionIdMismatch { expected, actual } => {
            assert_eq!(expected, "s-2");
            assert_eq!(actual, "s-1");
        }
        other => panic!("expected SessionIdMismatch, got {other:?}"),
    }
}

#[test]
fn client_rejects_a_foreign_protocol() {
    let mut hs = offered(vec![Variant::Json]);
    hs.protocol = "not-a2a".into();
    let err = respond_to_handshake(&hs, "s-1", &[Variant::Json]).unwrap_err();
    assert!(matches!(err, NegotiationError::UnknownProtocol(_)), "got {err:?}");
}

#[test]
fn incompatible_major_version_exits_with_code_three() {
    let mut hs = offered(vec![Variant::Json]);
    hs.protocol_version = "2.0".into();
    let err = respond_to_handshake(&hs, "s-1", &[Variant::Json]).unwrap_err();
    assert!(
        matches!(err, NegotiationError::VersionNotSupported(ref v) if v == "2.0"),
        "got {err:?}"
    );
    assert_eq!(err.exit_code().as_i32(), 3);
}

#[test]
fn newer_minor_version_is_accepted() {
    let mut hs = offered(vec![Variant::Json]);
    hs.protocol_version = "1.7".into();
    assert!(respond_to_handshake(&hs, "s-1", &[Variant::Json]).is_ok());
}

#[test]
fn decline_refuses_without_selecting() {
    let ack = decline("s-1");
    assert!(!ack.accept);
    assert_eq!(ack.session_id, "s-1");
}

#[test]
fn the_two_halves_agree_on_a_full_exchange() {
    let hs = offered(vec![Variant::Json, Variant::Proto]);
    let (ack, client_choice) =
        respond_to_handshake(&hs, "s-1", &[Variant::Json, Variant::Proto]).unwrap();
    assert_eq!(accept_ack(&hs, &ack).unwrap(), AckOutcome::Accepted(client_choice));
}

#[test]
fn a_declining_client_is_seen_as_a_clean_shutdown() {
    let hs = offered(vec![Variant::Json]);
    assert_eq!(accept_ack(&hs, &decline("s-1")).unwrap(), AckOutcome::Declined);
}

#[test]
fn missing_or_empty_session_id_denies_startup() {
    assert_eq!(session_id_from_env(|_| None).unwrap_err(), ExitCode::StartupDenied);
    assert_eq!(
        session_id_from_env(|_| Some(String::new())).unwrap_err(),
        ExitCode::StartupDenied
    );
    assert_eq!(session_id_from_env(|_| Some("s-1".into())).unwrap(), "s-1");
}

#[test]
fn the_session_id_has_its_own_variable() {
    let id = session_id_from_env(|k| {
        if k == ENV_SESSION_ID {
            Some("mine".into())
        } else {
            None
        }
    });
    assert_eq!(id.unwrap(), "mine");
}

fn values<'a>(sp: &'a ServiceParams, key: &str) -> &'a Vec<String> {
    sp.get(key).unwrap()
}

#[test]
fn env_service_params_are_normalized() {
    let vars = vec![
        ("A2A_SP_A2A_VERSION".to_string(), "1.0".to_string()),
        ("A2A_SP_A2A_EXTENSIONS".to_string(), "a, b ,c".to_string()),
        ("PATH".to_string(), "/usr/bin".to_string()),
    ];
    let sp = service_params_from_env(&vars);
    assert_eq!(values(&sp, "a2a-version"), &vec!["1.0"]);
    assert_eq!(values(&sp, "a2a-extensions"), &vec!["a", "b", "c"]);
    assert!(!sp.contains_key("path"), "unprefixed vars must be ignored");
}

#[test]
fn exit_codes_have_numbers() {
    assert_eq!(ExitCode::Success.as_i32(), 0);
    assert_eq!(ExitCode::GenericError.as_i32(), 1);
    assert_eq!(ExitCode::ProtocolError.as_i32(), 2);
    assert_eq!(ExitCode::VersionNotSupported.as_i32(), 3);
    assert_eq!(ExitCode::StartupDenied.as_i32(), 4);
}

#[test]
fn negotiation_errors_have_words() {
    assert_eq!(
        NegotiationError::UnknownProtocol("x\"y".into()).message(),
        "peer reported protocol \"x\\\"y\", expected \"a2a-stdio\""
    );
    assert_eq!(
        NegotiationError::SessionIdMismatch { expected: "a".into(), actual: "b".into() }.message(),
        "session id mismatch: expected \"a\", got \"b\""
    );
    assert_eq!(
        NegotiationError::VariantNotOffered(Variant::Proto).message(),
        "peer selected variant Proto which was not offered"
    );
    assert_eq!(
        NegotiationError::NoCommonVariant.message(),
        "no serialization variant in common"
    );
    assert_eq!(
        NegotiationError::VersionNotSupported("2.0".into()).message(),
        "protocol version \"2.0\" is not supported"
    );
}
