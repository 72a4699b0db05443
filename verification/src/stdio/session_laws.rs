//! What both sides of a session promise: how it is started and agreed on, what each side
//! does about what it reads, and what is sent.
use crate::dispatch::{CallView, StreamEventView};
use crate::json_value::{depth_limit, json_read, json_written, plain_json, Json};
use crate::protocol::{key_text, reported, ErrorView, IdView};
use crate::protojson::normalized;
use crate::socket_laws::error_of;
use crate::stdio::client::{
    call_request, caller_error, client_action, client_inbound_action, client_opened,
    client_opened_by, counted, delivery, env_name, env_vars, holds_request, negotiation_error,
    numbered, polled, shutdown_request, unreadable, waiting_after, ClientActionView,
    ClientOpeningView, PendingKind,
};
use crate::stdio::codec::{fault_message, Fault};
use crate::stdio::frame::{no_headers, Frame, FrameView};
use crate::stdio::json::{
    client_json, client_reads, from_client, from_server, params_from, peeked_id, server_json,
    wire_of, ClientInboundView, ClientView, RequestView, ServerInboundView, ServerView,
};
use crate::stdio::metadata::stamped;
use crate::stdio::server::{
    answer_view, bare_frame, error_view, framed, greeting_view, inbound_action, merged, open_after,
    opened, opened_by, request_action, server_action, stream_message, stream_sent, ActionView,
    Opening, ReadView,
};
use crate::stdio::session::{
    accepting, ack_taken, compatible, declining, env_key, env_params, exit_number, fault_exit_code,
    first_common, handshake_taken, major, negotiation_message, session_id_found, variant_name,
    AckOutcome, ExitCode, NegotiationFault, ENV_LOG_LEVEL, ENV_PROTOCOL_VERSION, ENV_SESSION_ID,
    FEATURE_HEARTBEATS, FEATURE_STREAMING,
};
use crate::stdio::wire::{
    variant_token, wire_message, AckView, ControlView, HandshakeView, Variant, WireFault,
};
use crate::text::{decimal, join, lemma_first_at_is, listed, lowered, quoted, texts, uppered};
use vstd::prelude::*;

verus! {

// ---------------------------------------------------------------------------
// How a process starts and ends.
// ---------------------------------------------------------------------------

/// A process ends with another number for each cause, and with zero where all went well.
pub proof fn law_processes_end_with_their_cause(a: ExitCode, b: ExitCode)
    ensures
        exit_number(ExitCode::Success) == 0,
        exit_number(ExitCode::GenericError) == 1,
        exit_number(ExitCode::ProtocolError) == 2,
        exit_number(ExitCode::VersionNotSupported) == 3,
        exit_number(ExitCode::StartupDenied) == 4,
        exit_number(a) == exit_number(b) ==> a == b,
{
}

/// The variants and what they are called, on the wire and in messages.
pub proof fn law_variants_have_names()
    ensures
        variant_token(Variant::Json) == "stdio-json"@,
        variant_token(Variant::Proto) == "stdio-proto"@,
        variant_name(Variant::Json) == "Json"@,
        variant_name(Variant::Proto) == "Proto"@,
{
}

/// A variable that begins with the prefix names the parameter that follows it, character
/// by character: a hyphen for each underscore, and else the small letter. No other
/// variable names a parameter.
pub proof fn law_variables_name_params(name: Seq<char>, rest: Seq<char>)
    ensures
        env_key("A2A_SP_"@ + rest) matches Some(k) && k.len() == rest.len() && (forall|i: int|
            0 <= i < rest.len() ==> #[trigger] k[i] == (if rest[i] == '_' {
                '-'
            } else {
                lowered(rest)[i]
            })),
        (forall|tail: Seq<char>| #[trigger] ("A2A_SP_"@ + tail) != name) ==> env_key(name) is None,
{
    let full = "A2A_SP_"@ + rest;
    assert(full.subrange(0, "A2A_SP_"@.len() as int) =~= "A2A_SP_"@);
    assert(full.skip("A2A_SP_"@.len() as int) =~= rest);
    let k = env_key(full)->0;
    assert forall|i: int| 0 <= i < rest.len() implies #[trigger] k[i] == (if rest[i] == '_' {
        '-'
    } else {
        lowered(rest)[i]
    }) by {
        crate::text_laws::law_lowering_changes_only_capitals(rest);
        assert(lowered(rest)[i] as int == '_' as int <==> rest[i] == '_');
    }
    if "A2A_SP_"@.is_prefix_of(name) {
        let tail = name.skip("A2A_SP_"@.len() as int);
        assert("A2A_SP_"@ + tail =~= name);
    }
}

/// A variable that names a parameter gives it the values of its list, in place of what an
/// earlier variable gave it. Any other variable changes nothing, and no other parameter
/// is changed.
pub proof fn law_variables_give_params(
    vars: Seq<(String, String)>,
    last: (String, String),
    name: Seq<char>,
)
    ensures
        env_params(Seq::empty()) == Map::<Seq<char>, Seq<Seq<char>>>::empty(),
        env_key(last.0@) is None ==> env_params(vars.push(last)) == env_params(vars),
        env_key(last.0@) matches Some(k) ==> {
            let before = env_params(vars);
            let after = env_params(vars.push(last));
            &&& after.contains_key(k)
            &&& after[k] == listed(last.1@)
            &&& name != k ==> (after.contains_key(name) <==> before.contains_key(name)) && (
            before.contains_key(name) ==> after[name] == before[name])
        },
{
    assert(vars.push(last).drop_last() =~= vars);
}

/// A parameter is passed on under the prefix, character by character: an underscore for
/// each hyphen, and else the capital letter.
pub proof fn law_params_name_variables(key: Seq<char>)
    ensures
        env_name(key).len() == 7 + key.len(),
        env_name(key).take(7) == "A2A_SP_"@,
        forall|i: int|
            0 <= i < key.len() ==> #[trigger] env_name(key)[7 + i] == (if key[i] == '-' {
                '_'
            } else {
                uppered(key)[i]
            }),
{
    reveal_strlit("A2A_SP_");
    assert("A2A_SP_"@.len() == 7);
    assert(env_name(key).take(7) =~= "A2A_SP_"@);
    assert forall|i: int| 0 <= i < key.len() implies #[trigger] env_name(key)[7 + i] == (
    if key[i] == '-' {
        '_'
    } else {
        uppered(key)[i]
    }) by {
        crate::text_laws::law_raising_changes_only_small_letters(key);
        assert(uppered(key)[i] as int == '-' as int <==> key[i] == '-');
    }
}

/// Each parameter is passed on as one variable, in its turn, with its values between
/// commas.
pub proof fn law_params_are_passed_on(e: Seq<(Seq<char>, Vec<String>)>)
    ensures
        env_vars(e).len() == e.len(),
        forall|i: int|
            0 <= i < e.len() ==> #[trigger] env_vars(e)[i] == (
                env_name(e[i].0),
                join(texts(e[i].1@), ","@),
            ),
{
}

/// A session needs an identifier that is not empty, and takes the one that it is given.
pub proof fn law_a_session_needs_an_id(found: Option<String>, r: Result<String, ExitCode>)
    requires
        session_id_found(found, r),
    ensures
        r is Ok <==> found is Some && found->0@.len() > 0,
        r matches Ok(s) ==> found == Some(s),
        r matches Err(c) ==> c == ExitCode::StartupDenied,
{
}

// ---------------------------------------------------------------------------
// How a session is agreed on.
// ---------------------------------------------------------------------------

/// What stands before the first dot is the major version, and all of a version without a
/// dot.
pub proof fn law_major_versions_end_at_the_first_dot(head: Seq<char>, tail: Seq<char>)
    requires
        !head.contains('.'),
    ensures
        major(head + seq!['.'] + tail) == head,
        major(head) == head,
{
    let v = head + seq!['.'] + tail;
    let k = head.len() as int;
    assert forall|j: int| 0 <= j < k implies head[j] != '.' by {
        assert(head.contains(head[j]));
    }
    assert(v[k] == '.');
    lemma_first_at_is(v, '.', k);
    lemma_first_at_is(head, '.', k);
    assert(v.take(k) =~= head);
    assert(head.take(k) =~= head);
}

/// A peer can be talked to just where its major version is 1.
pub proof fn law_only_major_version_one_is_spoken(peer: Seq<char>)
    ensures
        compatible(peer) <==> major(peer) == seq!['1'],
{
    reveal_strlit("1.0");
    assert("1.0"@ =~= seq!['1'] + seq!['.'] + seq!['0']);
    assert(!seq!['1'].contains('.'));
    law_major_versions_end_at_the_first_dot(seq!['1'], seq!['0']);
}

/// A client looks at a handshake for its protocol, then for whose it is, then for its
/// version, and then for a variant that both speak. What is wrong first is what it fails
/// for.
pub proof fn law_handshakes_fail_for_what_is_wrong_first(
    hs: HandshakeView,
    expected: Seq<char>,
    spoken: Seq<Variant>,
)
    ensures
        hs.protocol != "a2a-stdio"@ ==> handshake_taken(hs, expected, spoken) == Err::<
            Variant,
            NegotiationFault,
        >(NegotiationFault::UnknownProtocol(hs.protocol)),
        hs.protocol == "a2a-stdio"@ && hs.session_id != expected ==> handshake_taken(
            hs,
            expected,
            spoken,
        ) == Err::<Variant, NegotiationFault>(
            NegotiationFault::SessionIdMismatch { expected, actual: hs.session_id },
        ),
        hs.protocol == "a2a-stdio"@ && hs.session_id == expected && !compatible(hs.protocol_version)
            ==> handshake_taken(hs, expected, spoken) == Err::<Variant, NegotiationFault>(
            NegotiationFault::VersionNotSupported(hs.protocol_version),
        ),
        hs.protocol == "a2a-stdio"@ && hs.session_id == expected && compatible(hs.protocol_version)
            ==> (handshake_taken(hs, expected, spoken) is Ok <==> exists|v: Variant|
            hs.supported_variants.contains(v) && #[trigger] spoken.contains(v)),
        hs.protocol == "a2a-stdio"@ && hs.session_id == expected && compatible(hs.protocol_version)
            && handshake_taken(hs, expected, spoken) is Err ==> handshake_taken(
            hs,
            expected,
            spoken,
        )->Err_0 is NoCommonVariant,
{
    lemma_common_is_found(hs.supported_variants, spoken);
}

proof fn lemma_common_is_found(offered: Seq<Variant>, spoken: Seq<Variant>)
    ensures
        first_common(offered, spoken) is Some <==> exists|v: Variant|
            offered.contains(v) && #[trigger] spoken.contains(v),
    decreases offered.len(),
{
    if offered.len() > 0 {
        let rest = offered.drop_first();
        lemma_common_is_found(rest, spoken);
        if spoken.contains(offered[0]) {
            assert(offered.contains(offered[0]));
        } else {
            if exists|v: Variant| offered.contains(v) && #[trigger] spoken.contains(v) {
                let v = choose|v: Variant| offered.contains(v) && #[trigger] spoken.contains(v);
                let i = choose|i: int| 0 <= i < offered.len() && offered[i] == v;
                assert(rest[i - 1] == v);
                assert(rest.contains(v) && spoken.contains(v));
            }
            if exists|v: Variant| rest.contains(v) && #[trigger] spoken.contains(v) {
                let v = choose|v: Variant| rest.contains(v) && #[trigger] spoken.contains(v);
                let i = choose|i: int| 0 <= i < rest.len() && rest[i] == v;
                assert(offered[i + 1] == v);
                assert(offered.contains(v) && spoken.contains(v));
            }
        }
    }
}

/// A server looks at an answer for whose it is, then whether it accepts, and then for a
/// variant that was offered, which is the one that is spoken from then on.
pub proof fn law_answers_fail_for_what_is_wrong_first(offered: HandshakeView, ack: AckView)
    ensures
        ack.session_id != offered.session_id ==> ack_taken(offered, ack) == Err::<
            AckOutcome,
            NegotiationFault,
        >(
            NegotiationFault::SessionIdMismatch {
                expected: offered.session_id,
                actual: ack.session_id,
            },
        ),
        ack.session_id == offered.session_id && !ack.accept ==> ack_taken(offered, ack) == Ok::<
            AckOutcome,
            NegotiationFault,
        >(AckOutcome::Declined),
        ack.session_id == offered.session_id && ack.accept && offered.supported_variants.contains(
            ack.select_variant,
        ) ==> ack_taken(offered, ack) == Ok::<AckOutcome, NegotiationFault>(
            AckOutcome::Accepted(ack.select_variant),
        ),
        ack.session_id == offered.session_id && ack.accept && !offered.supported_variants.contains(
            ack.select_variant,
        ) ==> ack_taken(offered, ack) == Err::<AckOutcome, NegotiationFault>(
            NegotiationFault::VariantNotOffered(ack.select_variant),
        ),
{
}

/// A client answers by the session's identifier: it takes the variant that was agreed on,
/// or it declines.
pub proof fn law_clients_answer_by_the_session(session_id: Seq<char>, v: Variant)
    ensures
        accepting(session_id, v) == (AckView { session_id, select_variant: v, accept: true }),
        declining(session_id).session_id == session_id,
        !declining(session_id).accept,
{
}

/// A server greets with the protocol and the version that this library speaks, with the
/// session's identifier, its features and its process, and offers JSON alone.
pub proof fn law_servers_offer_json(session_id: Seq<char>, features: Seq<Seq<char>>, pid: u32)
    ensures
        greeting_view(session_id, features, pid) == (HandshakeView {
            protocol: "a2a-stdio"@,
            protocol_version: "1.0"@,
            session_id,
            supported_variants: seq![Variant::Json],
            features,
            pid: Some(pid),
        }),
{
}

/// Only a version that is not supported has an exit code of its own.
pub proof fn law_failed_handshakes_end_the_process(f: NegotiationFault)
    ensures
        f is VersionNotSupported ==> fault_exit_code(f) == ExitCode::VersionNotSupported,
        !(f is VersionNotSupported) ==> fault_exit_code(f) == ExitCode::ProtocolError,
{
}

/// What went wrong in a handshake is told with what was expected and what came.
pub proof fn law_failed_handshakes_are_told(a: Seq<char>, b: Seq<char>, v: Variant)
    ensures
        negotiation_message(NegotiationFault::UnknownProtocol(a)) == "peer reported protocol "@
            + quoted(a) + ", expected \"a2a-stdio\""@,
        negotiation_message(NegotiationFault::SessionIdMismatch { expected: a, actual: b })
            == "session id mismatch: expected "@ + quoted(a) + ", got "@ + quoted(b),
        negotiation_message(NegotiationFault::VariantNotOffered(v)) == "peer selected variant "@
            + variant_name(v) + " which was not offered"@,
        negotiation_message(NegotiationFault::NoCommonVariant)
            == "no serialization variant in common"@,
        negotiation_message(NegotiationFault::VersionNotSupported(a)) == "protocol version "@
            + quoted(a) + " is not supported"@,
        negotiation_error(NegotiationFault::VersionNotSupported(a)) == error_of(
            -32009,
            "version not supported: "@ + a,
        ),
        negotiation_error(NegotiationFault::NoCommonVariant) == error_of(
            -32603,
            "stdio handshake failed: "@ + negotiation_message(NegotiationFault::NoCommonVariant),
        ),
        negotiation_error(NegotiationFault::UnknownProtocol(a)) == error_of(
            -32603,
            "stdio handshake failed: "@ + negotiation_message(NegotiationFault::UnknownProtocol(a)),
        ),
        negotiation_error(NegotiationFault::SessionIdMismatch { expected: a, actual: b })
            == error_of(
            -32603,
            "stdio handshake failed: "@ + negotiation_message(
                NegotiationFault::SessionIdMismatch { expected: a, actual: b },
            ),
        ),
        negotiation_error(NegotiationFault::VariantNotOffered(v)) == error_of(
            -32603,
            "stdio handshake failed: "@ + negotiation_message(
                NegotiationFault::VariantNotOffered(v),
            ),
        ),
{
}

/// What is wrong with a message, or with the bytes that it came in, is told in words.
pub proof fn law_faults_are_told(s: Seq<char>, len: nat, max: nat)
    ensures
        wire_message(WireFault::Json(s)) == "invalid JSON: "@ + s,
        wire_message(WireFault::NotAnObject) == "message is not a JSON object"@,
        wire_message(WireFault::BadVersion(s)) == "bad or missing jsonrpc version: "@ + quoted(s),
        wire_message(WireFault::UnrecognizedMessage) == "unrecognized message shape"@,
        fault_message(Fault::Io(s)) == "io error: "@ + s,
        fault_message(Fault::MissingContentLength) == "missing content length"@,
        fault_message(Fault::InvalidContentLength(s)) == "invalid content length: "@ + s,
        fault_message(Fault::FrameTooLarge { len, max }) == "frame too large: "@ + decimal(len)
            + " > "@ + decimal(max),
        fault_message(Fault::HeaderBlockTooLarge { max }) == "header block too large: "@ + decimal(
            max,
        ),
        fault_message(Fault::MalformedHeader(s)) == "malformed header: "@ + s,
        fault_message(Fault::UnexpectedEndOfInput) == "unexpected end of input"@,
{
}

/// A client takes part in a session where the first thing that it reads is a handshake
/// that it can take: it answers with the variant that was agreed on. A handshake that it
/// cannot take it declines, and says why.
pub proof fn law_clients_take_or_decline_a_handshake(session_id: Seq<char>, hs: HandshakeView)
    ensures
        handshake_taken(hs, session_id, seq![Variant::Json]) matches Ok(v) ==> client_opened_by(
            session_id,
            Ok(ClientInboundView::Control(ControlView::Handshake(hs))),
        ) == (ClientOpeningView::Accept {
            ack: AckView { session_id: hs.session_id, select_variant: v, accept: true },
            variant: v,
            features: hs.features,
        }),
        handshake_taken(hs, session_id, seq![Variant::Json]) matches Err(f) ==> client_opened_by(
            session_id,
            Ok(ClientInboundView::Control(ControlView::Handshake(hs))),
        ) == (ClientOpeningView::Refuse {
            ack: declining(session_id),
            error: negotiation_error(f),
        }),
{
}

/// Anything else that a client reads first ends the session before it began, and says
/// what it was.
pub proof fn law_clients_need_a_handshake(
    session_id: Seq<char>,
    first: ClientInboundView,
    w: WireFault,
    f: Fault,
    body: Seq<u8>,
)
    ensures
        !(first matches ClientInboundView::Control(ControlView::Handshake(_))) ==> client_opened_by(
            session_id,
            Ok(first),
        ) == ClientOpeningView::Fail(
            error_of(
                -32603,
                "agent sent something other than a handshake as its first frame"@,
            ),
        ),
        client_opened_by(session_id, Err(w)) == ClientOpeningView::Fail(
            error_of(-32603, "malformed handshake: "@ + wire_message(w)),
        ),
        client_opened(session_id, ReadView::Closed) == ClientOpeningView::Fail(
            error_of(-32603, "agent closed STDOUT before sending a handshake"@),
        ),
        client_opened(session_id, ReadView::Fault(f)) == ClientOpeningView::Fail(
            error_of(-32603, "framing error during handshake: "@ + fault_message(f)),
        ),
        client_opened(session_id, ReadView::Body(body)) == client_opened_by(
            session_id,
            from_server(body),
        ),
{
}

/// A server serves just where the first thing that it reads is an answer that it can take
/// and that accepts. It ends in order where the client declines or says nothing, and else
/// with what was wrong.
pub proof fn law_servers_serve_who_accepts(
    offered: HandshakeView,
    ack: AckView,
    other: Result<ServerInboundView, WireFault>,
    f: Fault,
    body: Seq<u8>,
)
    requires
        !(other matches Ok(ServerInboundView::Control(ControlView::HandshakeAck(_)))),
    ensures
        ({
            let r = opened_by(
                offered,
                Ok(ServerInboundView::Control(ControlView::HandshakeAck(ack))),
            );
            match ack_taken(offered, ack) {
                Ok(AckOutcome::Accepted(v)) => r == Opening::Serve(v),
                Ok(AckOutcome::Declined) => r == Opening::Exit(ExitCode::Success),
                Err(g) => r == Opening::Exit(
                    if g is VersionNotSupported {
                        ExitCode::VersionNotSupported
                    } else {
                        ExitCode::ProtocolError
                    },
                ),
            }
        }),
        opened_by(offered, other) == Opening::Exit(ExitCode::ProtocolError),
        opened(offered, ReadView::Closed) == Opening::Exit(ExitCode::Success),
        opened(offered, ReadView::Fault(f)) == Opening::Exit(ExitCode::ProtocolError),
        opened(offered, ReadView::Body(body)) == opened_by(offered, from_client(body)),
{
}

// ---------------------------------------------------------------------------
// What a server does.
// ---------------------------------------------------------------------------

/// A request is called as it was sent: its identifier, its method, its payload, which is
/// null where none is given, and the parameters that it carries. A method that streams is
/// told from one that does not.
pub proof fn law_requests_are_called_as_sent(
    open: Set<Seq<char>>,
    q: RequestView,
    params: Map<Seq<char>, Seq<Seq<char>>>,
)
    requires
        q.method != "system/shutdown"@,
    ensures
        ({
            let call = CallView {
                id: q.id,
                method: q.method,
                params,
                payload: if q.params is Some {
                    q.params->0
                } else {
                    Json::Null
                },
            };
            if q.method == "SendStreamingMessage"@ || q.method == "SubscribeToTask"@ {
                request_action(open, q, params) == (if open.contains(key_text(q.id)) {
                    ActionView::Send(
                        ServerView::Error {
                            id: q.id,
                            error: error_of(
                                -32600,
                                "Duplicate request id: a stream with this id is still open"@,
                            ),
                        },
                    )
                } else {
                    ActionView::StartStream(call)
                })
            } else {
                request_action(open, q, params) == ActionView::StartUnary(call)
            }
        }),
{
}

/// A request to shut down is answered with an empty object, and ends the process in
/// order.
pub proof fn law_a_shutdown_is_answered(
    open: Set<Seq<char>>,
    q: RequestView,
    params: Map<Seq<char>, Seq<Seq<char>>>,
)
    requires
        q.method == "system/shutdown"@,
    ensures
        request_action(open, q, params) == ActionView::SendAndExit(
            ServerView::Result { id: q.id, result: Json::Object(Map::empty()) },
            ExitCode::Success,
        ),
{
}

/// A cancel stops the stream of its identifier, if that is open, and signs of life are
/// passed over. A second handshake ends the process.
pub proof fn law_servers_take_control_frames(
    open: Set<Seq<char>>,
    id: IdView,
    c: ControlView,
    peeked: IdView,
    params: Map<Seq<char>, Seq<Seq<char>>>,
)
    ensures
        inbound_action(
            open,
            Ok(ServerInboundView::Message(ClientView::CancelStream { id })),
            peeked,
            params,
        ) == (if open.contains(key_text(id)) {
            ActionView::CancelStream(id)
        } else {
            ActionView::Ignore
        }),
        inbound_action(open, Ok(ServerInboundView::Control(c)), peeked, params) == (
        if c is Heartbeat {
            ActionView::Ignore
        } else {
            ActionView::Exit(ExitCode::ProtocolError)
        }),
{
}

/// What a server cannot read as JSON ends the process, after it was told. What it can
/// read as JSON and not as a message is told by its identifier, and the session goes on.
pub proof fn law_servers_tell_what_they_cannot_read(
    open: Set<Seq<char>>,
    w: WireFault,
    q: RequestView,
    peeked: IdView,
    params: Map<Seq<char>, Seq<Seq<char>>>,
)
    ensures
        inbound_action(open, Err(w), peeked, params) == (if w is Json {
            ActionView::SendAndExit(
                ServerView::Error { id: IdView::Null, error: error_of(-32700, "Parse error"@) },
                ExitCode::ProtocolError,
            )
        } else {
            ActionView::Send(
                ServerView::Error { id: peeked, error: error_of(-32600, wire_message(w)) },
            )
        }),
        inbound_action(open, Ok(ServerInboundView::Message(ClientView::Request(q))), peeked, params)
            == request_action(open, q, params),
{
}

/// The end of the input ends the process in order, and broken input ends it as a fault;
/// only a message that is too large is told before that. All else is read as a message.
pub proof fn law_servers_read_bodies(
    open: Set<Seq<char>>,
    f: Fault,
    body: Seq<u8>,
    params: Map<Seq<char>, Seq<Seq<char>>>,
)
    ensures
        server_action(open, ReadView::Closed, params) == ActionView::Exit(ExitCode::Success),
        f is FrameTooLarge ==> server_action(open, ReadView::Fault(f), params)
            == ActionView::SendAndExit(
            ServerView::Error { id: IdView::Null, error: error_of(-32000, "Message too large"@) },
            ExitCode::ProtocolError,
        ),
        !(f is FrameTooLarge) ==> server_action(open, ReadView::Fault(f), params)
            == ActionView::Exit(ExitCode::ProtocolError),
        server_action(open, ReadView::Body(body), params) == inbound_action(
            open,
            from_client(body),
            peeked_id(json_read(body)),
            params,
        ),
{
}

/// A stream is open from when it is started until it is cancelled, and no other stream is
/// touched.
pub proof fn law_streams_are_open_until_cancelled(
    open: Set<Seq<char>>,
    a: ActionView,
    key: Seq<char>,
)
    ensures
        a matches ActionView::StartStream(c) ==> (open_after(open, a).contains(key)
            <==> open.contains(key) || key == key_text(c.id)),
        a matches ActionView::CancelStream(id) ==> (open_after(open, a).contains(key)
            <==> open.contains(key) && key != key_text(id)),
        !(a is StartStream) && !(a is CancelStream) ==> open_after(open, a) == open,
{
}

/// An answer is sent by the identifier of its request: the value, with the session's
/// binding in it, or the error as it is reported.
pub proof fn law_answers_are_stamped(id: IdView, j: Json, e: ErrorView, binding: Json)
    ensures
        answer_view(id, Ok(j), binding) == (ServerView::Result { id, result: stamped(j, binding) }),
        answer_view(id, Err(e), binding) == (ServerView::Error { id, error: reported(e) }),
        error_view(id, e.code, e.message) == (ServerView::Error {
            id,
            error: ErrorView { code: e.code, message: e.message, data: None },
        }),
{
}

/// An event of a stream is sent by the identifier of its request: an item with its times
/// put right and the session's binding in it, the error as it is reported, or the end.
pub proof fn law_stream_events_are_stamped(id: IdView, j: Json, e: ErrorView, binding: Json)
    ensures
        stream_message(id, StreamEventView::Item(j), binding) == (ServerView::Result {
            id,
            result: stamped(normalized(j), binding),
        }),
        stream_message(id, StreamEventView::Refused(e), binding) == (ServerView::Error {
            id,
            error: reported(e),
        }),
        stream_message(id, StreamEventView::Failed(e), binding) == (ServerView::Error {
            id,
            error: reported(e),
        }),
        stream_message(id, StreamEventView::Cancelled, binding) == (ServerView::StreamEnd { id }),
        stream_message(id, StreamEventView::Ended, binding) == (ServerView::StreamEnd { id }),
{
}

/// Every event of a stream is sent in its turn, up to the first that is no item.
pub proof fn law_streams_send_every_event(
    id: IdView,
    events: Seq<StreamEventView>,
    binding: Json,
    i: int,
)
    ensures
        stream_sent(id, events, binding).len() <= events.len(),
        0 <= i < stream_sent(id, events, binding).len() ==> stream_sent(id, events, binding)[i]
            == stream_message(id, events[i], binding),
        0 <= i < stream_sent(id, events, binding).len() - 1 ==> events[i] is Item,
        stream_sent(id, events, binding).len() < events.len() ==> stream_sent(
            id,
            events,
            binding,
        ).len() > 0 && !(events[stream_sent(id, events, binding).len() - 1] is Item),
    decreases events.len(),
{
    if events.len() > 0 && events[0] is Item {
        let rest = events.drop_first();
        law_streams_send_every_event(id, rest, binding, i - 1);
        let all = stream_sent(id, events, binding);
        let tail = stream_sent(id, rest, binding);
        assert(all =~= seq![stream_message(id, events[0], binding)] + tail);
        if 0 < i < all.len() {
            assert(all[i] == tail[i - 1]);
            assert(rest[i - 1] == events[i]);
        }
        if tail.len() < rest.len() {
            law_streams_send_every_event(id, rest, binding, tail.len() - 1);
            assert(rest[tail.len() - 1] == events[all.len() - 1]);
        }
    }
}

// ---------------------------------------------------------------------------
// What a client does.
// ---------------------------------------------------------------------------

/// A call asks for its method by its identifier, with its payload, and with its
/// parameters just where it has any. A session is ended by such a call, with an empty
/// object.
pub proof fn law_calls_ask_for_what_is_called(
    id: IdView,
    method: Seq<char>,
    payload: Json,
    params: Seq<(Seq<char>, Vec<String>)>,
    body: Seq<u8>,
)
    ensures
        call_request(id, method, payload, params) == (RequestView {
            jsonrpc: "2.0"@,
            id,
            method,
            params: Some(payload),
            service_params: if params.len() > 0 {
                Some(wire_of(params))
            } else {
                None
            },
        }),
        shutdown_request(id) == (RequestView {
            jsonrpc: "2.0"@,
            id,
            method: "system/shutdown"@,
            params: Some(Json::Object(Map::empty())),
            service_params: None,
        }),
        bare_frame(body) == (FrameView { headers: no_headers(), body }),
{
}

/// A caller gets the code and the message of an error, and its details where they are a
/// list.
pub proof fn law_callers_get_the_error(e: ErrorView)
    ensures
        caller_error(e).code == e.code,
        caller_error(e).message == e.message,
        e.data matches Some(Json::Array(s)) ==> caller_error(e).data == Some(Json::Array(s)),
        !(e.data is Some && e.data->0 is Array) ==> caller_error(e).data is None,
{
}

/// A message goes to whoever waits for its request, and to nobody else. A result answers
/// a call, and is one of many for a stream; an error ends either; the end of a stream is
/// an error to a call.
pub proof fn law_messages_reach_who_waits(
    waiting: Map<Seq<char>, PendingKind>,
    id: IdView,
    j: Json,
    e: ErrorView,
)
    ensures
        ({
            let key = key_text(id);
            let result = delivery(waiting, ServerView::Result { id, result: j });
            let error = delivery(waiting, ServerView::Error { id, error: e });
            let end = delivery(waiting, ServerView::StreamEnd { id });
            if !waiting.contains_key(key) {
                result == ClientActionView::Ignore && error == ClientActionView::Ignore && end
                    == ClientActionView::Ignore
            } else {
                &&& result == ClientActionView::Deliver {
                    id,
                    item: Ok(j),
                    done: waiting[key] == PendingKind::Unary,
                }
                &&& error == ClientActionView::Deliver {
                    id,
                    item: Err(caller_error(e)),
                    done: true,
                }
                &&& waiting[key] == PendingKind::Stream ==> end == ClientActionView::End { id }
                &&& waiting[key] == PendingKind::Unary ==> end == ClientActionView::Deliver {
                    id,
                    item: Err(error_of(-32603, "agent ended a stream for a unary request"@)),
                    done: true,
                }
            }
        }),
{
}

/// What cannot be read ends the call of the identifier that it gives, where someone waits
/// for it, and else nothing. Signs of life are passed over, and a second handshake ends
/// all calls.
pub proof fn law_clients_tell_what_they_cannot_read(
    waiting: Map<Seq<char>, PendingKind>,
    id: IdView,
    w: WireFault,
    c: ControlView,
    m: ServerView,
)
    ensures
        unreadable(waiting, id, w) == (if !(id is Null) && waiting.contains_key(key_text(id)) {
            ClientActionView::Deliver {
                id,
                item: Err(
                    error_of(
                        -32603,
                        "agent sent a response this client cannot read: "@ + wire_message(w),
                    ),
                ),
                done: true,
            }
        } else {
            ClientActionView::Ignore
        }),
        client_inbound_action(waiting, Err(w), id) == unreadable(waiting, id, w),
        client_inbound_action(waiting, Ok(ClientInboundView::Message(m)), id) == delivery(
            waiting,
            m,
        ),
        client_inbound_action(waiting, Ok(ClientInboundView::Control(c)), id) == (
        if c is Heartbeat {
            ClientActionView::Ignore
        } else {
            ClientActionView::FailAll(
                error_of(-32603, "agent repeated the handshake mid-session"@),
            )
        }),
{
}

/// The end of the input, and broken input, are told to everyone who waits. All else is
/// read as a message.
pub proof fn law_clients_read_bodies(
    waiting: Map<Seq<char>, PendingKind>,
    f: Fault,
    body: Seq<u8>,
)
    ensures
        client_action(waiting, ReadView::Closed) == ClientActionView::FailAll(
            error_of(-32603, "stdio session ended: agent closed STDOUT"@),
        ),
        client_action(waiting, ReadView::Fault(f)) == ClientActionView::FailAll(
            error_of(-32603, "stdio framing error: "@ + fault_message(f)),
        ),
        client_action(waiting, ReadView::Body(body)) == client_inbound_action(
            waiting,
            from_server(body),
            peeked_id(json_read(body)),
        ),
{
}

/// Someone waits until what is delivered is the last of it, or until all are told the
/// end. Nobody begins to wait, and nobody waits for something else.
pub proof fn law_those_who_wait_go_on_waiting(
    waiting: Map<Seq<char>, PendingKind>,
    a: ClientActionView,
    key: Seq<char>,
)
    ensures
        waiting_after(waiting, a).contains_key(key) <==> waiting.contains_key(key)
            && !(a is FailAll)
            && !(a is Deliver && a->done && key_text(a->Deliver_id) == key) && !(a is End
                && key_text(
            a->End_id,
        ) == key),
        waiting_after(waiting, a).contains_key(key) ==> waiting_after(waiting, a)[key]
            == waiting[key],
{
}

/// Calls are numbered one after the other, and start again at zero after the last number.
/// A number that is too great for an identifier counts from below.
pub proof fn law_calls_are_numbered(n: u64)
    ensures
        n < u64::MAX ==> counted(n) == n + 1,
        n == u64::MAX ==> counted(n) == 0,
        n <= 0x7fff_ffff_ffff_ffff ==> numbered(n) == n,
        n > 0x7fff_ffff_ffff_ffff ==> numbered(n) == n - 0x1_0000_0000_0000_0000,
{
}

/// A consumer gets what comes off its stream, as it came, up to the first error or the
/// end.
pub proof fn law_consumers_get_what_comes(j: Json, e: ErrorView)
    ensures
        polled(false, Some(Ok(j))) == (false, Some(Ok::<Json, ErrorView>(j))),
        polled(false, Some(Err(e))) == (true, Some(Err::<Json, ErrorView>(e))),
        polled(false, None) == (true, None::<Result<Json, ErrorView>>),
{
}

/// A request without parameters carries those of the session. One that has some carries,
/// under each name that it gives in whatever case, the list of one that it gives for it.
pub proof fn law_requests_carry_what_they_give(
    session: Map<Seq<char>, Seq<Seq<char>>>,
    own: Map<Seq<char>, Seq<char>>,
    out: Map<Seq<char>, Seq<Seq<char>>>,
    name: Seq<char>,
)
    ensures
        merged(session, None, out) <==> out == session,
        merged(session, Some(own), out) && own.contains_key(name) ==> out.contains_key(
            lowered(name),
        ) && exists|k: Seq<char>| #[trigger]
            own.contains_key(k) && lowered(k) == lowered(name) && out[lowered(name)] == listed(
                own[k],
            ),
        merged(session, Some(own), out) && out.contains_key(name) && !session.contains_key(name)
            ==> exists|k: Seq<char>| #[trigger] own.contains_key(k) && lowered(k) == name,
{
    if merged(session, Some(own), out) {
        let p = choose|p: Map<Seq<char>, Seq<Seq<char>>>| #[trigger]
            params_from(own, p) && out == session.union_prefer_right(p);
        if own.contains_key(name) {
            assert(p.contains_key(lowered(name)));
            let k = choose|k: Seq<char>| #[trigger]
                own.contains_key(k) && lowered(k) == lowered(name) && p[lowered(name)] == listed(
                    own[k],
                );
            assert(own.contains_key(k) && lowered(k) == lowered(name) && out[lowered(name)]
                == listed(own[k]));
        }
        if out.contains_key(name) && !session.contains_key(name) {
            assert(p.contains_key(name));
            let k = choose|k: Seq<char>| #[trigger]
                own.contains_key(k) && lowered(k) == name && p[name] == listed(own[k]);
            assert(own.contains_key(k) && lowered(k) == name);
        }
    }
}

/// A message goes out in a frame without headers, whose body is the written form of it,
/// and the other side reads it as it was, wherever it can be told from that.
pub proof fn law_frames_hold_messages(
    f: Frame,
    q: RequestView,
    body: Seq<u8>,
    m: ServerView,
    e: Seq<char>,
)
    requires
        holds_request(f, q),
        client_reads(body, m),
    ensures
        f@ == (FrameView { headers: no_headers(), body: f.body@ }),
        json_written(client_json(ClientView::Request(q))) == Ok::<Seq<u8>, Seq<char>>(f.body@),
        q.jsonrpc == "2.0"@ && q.params != Some(Json::Null) && plain_json(
            client_json(ClientView::Request(q)),
            depth_limit(),
        ) ==> from_client(f.body@) == Ok::<ServerInboundView, WireFault>(
            ServerInboundView::Message(ClientView::Request(q)),
        ),
        !(m is Error && m->error.data == Some(Json::Null)) && plain_json(
            server_json(m),
            depth_limit(),
        ) ==> from_server(body) == Ok::<ClientInboundView, WireFault>(
            ClientInboundView::Message(m),
        ),
        framed(Ok(body)) == Ok::<FrameView, Seq<char>>(
            FrameView { headers: no_headers(), body },
        ),
        framed(Err(e)) == Err::<FrameView, Seq<char>>(e),
{
}

/// The names that both sides of a session go by.
pub proof fn law_sessions_go_by_these_names()
    ensures
        ENV_SESSION_ID@ == "A2A_SESSION_ID"@,
        ENV_PROTOCOL_VERSION@ == "A2A_PROTOCOL_VERSION"@,
        ENV_LOG_LEVEL@ == "A2A_LOG_LEVEL"@,
        FEATURE_STREAMING@ == "streaming"@,
        FEATURE_HEARTBEATS@ == "heartbeats"@,
{
}

} // verus!
