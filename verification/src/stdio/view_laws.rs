//! What the values of a stream session are seen as.
use crate::dispatch::outcome;
use crate::json_value::{model, JsonValue};
use crate::params::{lists, pairs};
use crate::protocol::{opt_flat, opt_model, A2AError};
use crate::stdio::client::{
    opt_outcome, request_result, ClientAction, ClientActionView, ClientOpening, ClientOpeningView,
    Launch,
};
use crate::stdio::codec::{decode_result, Fault, StdioCodecError};
use crate::stdio::frame::{Frame, FrameHeaders, FrameView, Phase, State};
use crate::stdio::json::{
    bytes_result, client_inbound, opt_control, server_inbound, ClientInbound, ClientInboundView,
    ClientMessage, ClientView, ServerInbound, ServerInboundView, ServerMessage, ServerView,
    StdioRequest,
};
use crate::stdio::server::{frame_result, ActionView, ReadEvent, ReadView, ServerAction};
use crate::stdio::session::{NegotiationError, NegotiationFault};
use crate::stdio::wire::{ControlFrame, ControlView, Handshake, HandshakeAck, WireError, WireFault};
use crate::text::{opt_text, texts};
use vstd::prelude::*;

verus! {

/// A [`Launch`] is seen part by part.
pub proof fn law_launch_is_seen_whole(x: Launch)
    ensures
        x@.program == x.program@,
        x@.args == texts(x.args@),
        x@.envs == pairs(x.envs@),
        x@.current_dir == opt_text(x.current_dir),
        x@.session_id == x.session_id@,
        x@.inherit_env == x.inherit_env,
{
}

/// A [`ClientOpening`] is seen as it is: its kind, with what it holds.
pub proof fn law_client_opening_is_seen_whole(x: ClientOpening)
    ensures
        (x matches ClientOpening::Accept { ack, variant, features }
            ==> x@ == (ClientOpeningView::Accept {
            ack: ack@,
            variant,
            features: texts(features@),
        })),
        (x matches ClientOpening::Refuse { ack, error } ==> x@ == (ClientOpeningView::Refuse {
            ack: ack@,
            error: error@,
        })),
        x matches ClientOpening::Fail(e) ==> x@ == ClientOpeningView::Fail(e@),
{
}

/// A [`ClientAction`] is seen as it is: its kind, with what it holds.
pub proof fn law_client_action_is_seen_whole(x: ClientAction)
    ensures
        x == ClientAction::Ignore ==> x@ == ClientActionView::Ignore,
        (x matches ClientAction::Deliver { id, item, done } ==> x@ == (ClientActionView::Deliver {
            id: id@,
            item: outcome(item),
            done,
        })),
        (x matches ClientAction::End { id } ==> x@ == (ClientActionView::End { id: id@ })),
        x matches ClientAction::FailAll(e) ==> x@ == ClientActionView::FailAll(e@),
{
}

/// A [`StdioCodecError`] is seen as it is: its kind, with what it holds.
pub proof fn law_stdio_codec_error_is_seen_whole(x: StdioCodecError)
    ensures
        x matches StdioCodecError::Io(s) ==> x@ == Fault::Io(s@),
        x == StdioCodecError::MissingContentLength ==> x@ == Fault::MissingContentLength,
        x matches StdioCodecError::InvalidContentLength(s)
            ==> x@ == Fault::InvalidContentLength(s@),
        (x matches StdioCodecError::FrameTooLarge { len, max } ==> x@ == (Fault::FrameTooLarge {
            len: len as nat,
            max: max as nat,
        })),
        (x matches StdioCodecError::HeaderBlockTooLarge { max }
            ==> x@ == (Fault::HeaderBlockTooLarge {
            max: max as nat,
        })),
        x matches StdioCodecError::MalformedHeader(s) ==> x@ == Fault::MalformedHeader(s@),
        x == StdioCodecError::UnexpectedEndOfInput ==> x@ == Fault::UnexpectedEndOfInput,
{
}

/// A [`FrameHeaders`] is seen part by part.
pub proof fn law_frame_headers_is_seen_whole(x: FrameHeaders)
    ensures
        x@.content_type == opt_text(x.content_type),
        x@.a2a_kind == opt_text(x.a2a_kind),
        x@.a2a_id == opt_text(x.a2a_id),
        x@.a2a_method == opt_text(x.a2a_method),
        x@.service_params == lists(x.service_params@),
{
}

/// A [`Frame`] is seen part by part.
pub proof fn law_frame_is_seen_whole(x: Frame)
    ensures
        x@.headers == x.headers@,
        x@.body == x.body@,
{
}

/// A [`State`] is seen as it is: its kind, with what it holds.
pub proof fn law_state_is_seen_whole(x: State)
    ensures
        x == State::Headers ==> x@ == Phase::Headers,
        (x matches State::Body { content_length, headers } ==> x@ == (Phase::Body {
            content_length: content_length as nat,
            headers: headers@,
        })),
{
}

/// A [`StdioRequest`] is seen part by part.
pub proof fn law_stdio_request_is_seen_whole(x: StdioRequest)
    ensures
        x@.jsonrpc == x.jsonrpc@,
        x@.id == x.id@,
        x@.method == x.method@,
        x@.params == opt_model(x.params),
        x@.service_params == opt_flat(x.service_params),
{
}

/// A [`ClientMessage`] is seen as it is: its kind, with what it holds.
pub proof fn law_client_message_is_seen_whole(x: ClientMessage)
    ensures
        x matches ClientMessage::Request(r) ==> x@ == ClientView::Request(r@),
        (x matches ClientMessage::CancelStream { id } ==> x@ == (ClientView::CancelStream {
            id: id@,
        })),
{
}

/// A [`ServerMessage`] is seen as it is: its kind, with what it holds.
pub proof fn law_server_message_is_seen_whole(x: ServerMessage)
    ensures
        (x matches ServerMessage::Result { id, result } ==> x@ == (ServerView::Result {
            id: id@,
            result: model(result),
        })),
        (x matches ServerMessage::Error { id, error } ==> x@ == (ServerView::Error {
            id: id@,
            error: error@,
        })),
        (x matches ServerMessage::StreamEnd { id } ==> x@ == (ServerView::StreamEnd { id: id@ })),
{
}

/// A [`ServerInbound`] is seen as it is: its kind, with what it holds.
pub proof fn law_server_inbound_is_seen_whole(x: ServerInbound)
    ensures
        x matches ServerInbound::Control(c) ==> x@ == ServerInboundView::Control(c@),
        x matches ServerInbound::Message(m) ==> x@ == ServerInboundView::Message(m@),
{
}

/// A [`ClientInbound`] is seen as it is: its kind, with what it holds.
pub proof fn law_client_inbound_is_seen_whole(x: ClientInbound)
    ensures
        x matches ClientInbound::Control(c) ==> x@ == ClientInboundView::Control(c@),
        x matches ClientInbound::Message(m) ==> x@ == ClientInboundView::Message(m@),
{
}

/// A [`ReadEvent`] is seen as it is: its kind, with what it holds.
pub proof fn law_read_event_is_seen_whole(x: ReadEvent)
    ensures
        x matches ReadEvent::Body(b) ==> x@ == ReadView::Body(b@),
        x matches ReadEvent::Fault(e) ==> x@ == ReadView::Fault(e@),
        x == ReadEvent::Closed ==> x@ == ReadView::Closed,
{
}

/// A [`ServerAction`] is seen as it is: its kind, with what it holds.
pub proof fn law_server_action_is_seen_whole(x: ServerAction)
    ensures
        x == ServerAction::Ignore ==> x@ == ActionView::Ignore,
        x matches ServerAction::Send(m) ==> x@ == ActionView::Send(m@),
        x matches ServerAction::SendAndExit(m, c) ==> x@ == ActionView::SendAndExit(m@, c),
        x matches ServerAction::Exit(c) ==> x@ == ActionView::Exit(c),
        x matches ServerAction::CancelStream(id) ==> x@ == ActionView::CancelStream(id@),
        x matches ServerAction::StartUnary(c) ==> x@ == ActionView::StartUnary(c@),
        x matches ServerAction::StartStream(c) ==> x@ == ActionView::StartStream(c@),
{
}

/// A [`NegotiationError`] is seen as it is: its kind, with what it holds.
pub proof fn law_negotiation_error_is_seen_whole(x: NegotiationError)
    ensures
        x matches NegotiationError::UnknownProtocol(s)
            ==> x@ == NegotiationFault::UnknownProtocol(s@),
        (x matches NegotiationError::SessionIdMismatch { expected, actual }
            ==> x@ == (NegotiationFault::SessionIdMismatch {
            expected: expected@,
            actual: actual@,
        })),
        x matches NegotiationError::VariantNotOffered(v)
            ==> x@ == NegotiationFault::VariantNotOffered(v),
        x == NegotiationError::NoCommonVariant ==> x@ == NegotiationFault::NoCommonVariant,
        x matches NegotiationError::VersionNotSupported(s)
            ==> x@ == NegotiationFault::VersionNotSupported(s@),
{
}

/// A [`Handshake`] is seen part by part.
pub proof fn law_handshake_is_seen_whole(x: Handshake)
    ensures
        x@.protocol == x.protocol@,
        x@.protocol_version == x.protocol_version@,
        x@.session_id == x.session_id@,
        x@.supported_variants == x.supported_variants@,
        x@.features == texts(x.features@),
        x@.pid == x.pid,
{
}

/// A [`HandshakeAck`] is seen part by part.
pub proof fn law_handshake_ack_is_seen_whole(x: HandshakeAck)
    ensures
        x@.session_id == x.session_id@,
        x@.select_variant == x.select_variant,
        x@.accept == x.accept,
{
}

/// A [`ControlFrame`] is seen as it is: its kind, with what it holds.
pub proof fn law_control_frame_is_seen_whole(x: ControlFrame)
    ensures
        x matches ControlFrame::Handshake(h) ==> x@ == ControlView::Handshake(h@),
        x matches ControlFrame::HandshakeAck(a) ==> x@ == ControlView::HandshakeAck(a@),
        x matches ControlFrame::Heartbeat(b) ==> x@ == ControlView::Heartbeat(b.session_id@, b.ts),
{
}

/// A [`WireError`] is seen as it is: its kind, with what it holds.
pub proof fn law_wire_error_is_seen_whole(x: WireError)
    ensures
        x matches WireError::Json(s) ==> x@ == WireFault::Json(s@),
        x == WireError::NotAnObject ==> x@ == WireFault::NotAnObject,
        x matches WireError::BadVersion(s) ==> x@ == WireFault::BadVersion(s@),
        x == WireError::UnrecognizedMessage ==> x@ == WireFault::UnrecognizedMessage,
{
}

/// What a step gives is seen as what it holds: the value where it gives one, what is said where
/// it fails.
pub proof fn law_results_are_seen_whole(
    a: Result<Frame, A2AError>,
    b: Result<Frame, String>,
    c: Result<Vec<u8>, String>,
    d: Result<ServerInbound, WireError>,
    e: Result<ClientInbound, WireError>,
)
    ensures
        a is Ok ==> request_result(a) is Ok && request_result(a)->Ok_0 == a->Ok_0@,
        a is Err ==> request_result(a) is Err && request_result(a)->Err_0 == a->Err_0@,
        b is Ok ==> frame_result(b) is Ok && frame_result(b)->Ok_0 == b->Ok_0@,
        b is Err ==> frame_result(b) is Err && frame_result(b)->Err_0 == b->Err_0@,
        c is Ok ==> bytes_result(c) is Ok && bytes_result(c)->Ok_0 == c->Ok_0@,
        c is Err ==> bytes_result(c) is Err && bytes_result(c)->Err_0 == c->Err_0@,
        d is Ok ==> server_inbound(d) is Ok && server_inbound(d)->Ok_0 == d->Ok_0@,
        d is Err ==> server_inbound(d) is Err && server_inbound(d)->Err_0 == d->Err_0@,
        e is Ok ==> client_inbound(e) is Ok && client_inbound(e)->Ok_0 == e->Ok_0@,
        e is Err ==> client_inbound(e) is Err && client_inbound(e)->Err_0 == e->Err_0@,
{
}

/// What decoding gives is seen as the frame that was decoded, as nothing where more is to come,
/// or as what is wrong.
pub proof fn law_frames_decoded_are_seen_whole(f: Frame, e: StdioCodecError)
    ensures
        decode_result(Ok(Some(f))) == Ok::<Option<FrameView>, Fault>(Some(f@)),
        decode_result(Ok(None)) == Ok::<Option<FrameView>, Fault>(None),
        decode_result(Err(e)) == Err::<Option<FrameView>, Fault>(e@),
{
}

/// What may be a control frame or an outcome is seen as what is there, if anything is.
pub proof fn law_optional_frames_are_seen_whole(c: ControlFrame, r: Result<JsonValue, A2AError>)
    ensures
        opt_control(Some(c)) == Some(c@),
        opt_control(None) is None,
        opt_outcome(Some(r)) == Some(outcome(r)),
        opt_outcome(None) is None,
{
}

} // verus!
