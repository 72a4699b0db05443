//! What the values of a connection are seen as.
use crate::dispatch::{outcome, Call};
use crate::json_value::model;
use crate::params::lists;
use crate::protocol::{opt_error, opt_flat, opt_id, opt_model, A2AError};
use crate::text::opt_text;
use crate::websocket::auth::{
    opt_credentials, AuthContext, AuthStatus, AuthenticateParams, StatusView,
};
use crate::websocket::client::{
    ClientEvent, ClientEventView, ClientStep, ClientStepView, Routed, RoutedView,
};
use crate::websocket::common::{
    opt_ws_request, opt_ws_response, ws_request_result, ws_response_result, WsRequestEnvelope,
    WsResponseEnvelope,
};
use crate::websocket::endpoint::{endpoint_result, ParsedEndpoint};
use crate::websocket::handshake::{opt_refusal, Refusal};
use crate::websocket::liveness::{opt_liveness, Liveness};
use crate::websocket::ratelimit::{opt_limit, RateLimit};
use crate::websocket::server::{
    dispatched, outs, ConnAction, ConnActionView, ConnEvent, ConnEventView, Dispatch,
    DispatchView, FrameStep, FrameStepView, Outbound, OutboundView, WsCall,
};
use crate::websocket::tls::blobs;
use vstd::prelude::*;

verus! {

/// An [`AuthContext`] is seen part by part.
pub proof fn law_auth_context_is_seen_whole(x: AuthContext)
    ensures
        x.user is Some ==> x@.user == Some(x.user->0.name@),
        x.user is None ==> x@.user is None,
        x@.service_params == lists(x.service_params@),
{
}

/// An [`AuthStatus`] is seen as it is: its kind, with what it holds.
pub proof fn law_auth_status_is_seen_whole(x: AuthStatus)
    ensures
        x == AuthStatus::Valid ==> x@ == StatusView::Valid,
        (x matches AuthStatus::ReauthRequired { reason, retry_after_ms }
            ==> x@ == (StatusView::ReauthRequired {
            reason: reason@,
            retry_after_ms,
        })),
        (x matches AuthStatus::Expired { reason } ==> x@ == (StatusView::Expired {
            reason: reason@,
        })),
{
}

/// A [`Routed`] is seen as it is: its kind, with what it holds.
pub proof fn law_routed_is_seen_whole(x: Routed)
    ensures
        x == Routed::Ignore ==> x@ == RoutedView::Ignore,
        (x matches Routed::Reauth(q) ==> x@ == (RoutedView::Reauth {
            reason: opt_text(q.reason),
            retry_after_ms: q.retry_after_ms,
        })),
        (x matches Routed::Unary { key, result } ==> x@ == (RoutedView::Unary {
            key: key@,
            result: outcome(result),
        })),
        (x matches Routed::Chunk { key, value } ==> x@ == (RoutedView::Chunk {
            key: key@,
            value: model(value),
        })),
        (x matches Routed::StreamError { key, error } ==> x@ == (RoutedView::StreamError {
            key: key@,
            error: error@,
        })),
        (x matches Routed::End { key } ==> x@ == (RoutedView::End { key: key@ })),
{
}

/// A [`ClientEvent`] is seen as it is: its kind, with what it holds.
pub proof fn law_client_event_is_seen_whole(x: ClientEvent)
    ensures
        x matches ClientEvent::Queued(b) ==> x@ == ClientEventView::Queued(b@),
        x == ClientEvent::Closing ==> x@ == ClientEventView::Closing,
        x == ClientEvent::Abandoned ==> x@ == ClientEventView::Abandoned,
        x matches ClientEvent::Text(b) ==> x@ == ClientEventView::Text(b@),
        x == ClientEvent::Binary ==> x@ == ClientEventView::Binary,
        x matches ClientEvent::Close(b) ==> x@ == ClientEventView::Close(b@),
        x == ClientEvent::Other ==> x@ == ClientEventView::Other,
        x == ClientEvent::ReadFailed ==> x@ == ClientEventView::ReadFailed,
{
}

/// A [`ClientStep`] is seen as it is: its kind, with what it holds.
pub proof fn law_client_step_is_seen_whole(x: ClientStep)
    ensures
        x == ClientStep::Ignore ==> x@ == ClientStepView::Ignore,
        x matches ClientStep::Write(b) ==> x@ == ClientStepView::Write(b@),
        x matches ClientStep::Route(r) ==> x@ == ClientStepView::Route(r@),
        x matches ClientStep::Stop(None) ==> x@ == ClientStepView::Stop(None),
        x matches ClientStep::Stop(Some((code, reason)))
            ==> x@ == ClientStepView::Stop(Some((code, reason@))),
{
}

/// A [`WsRequestEnvelope`] is seen part by part.
pub proof fn law_ws_request_envelope_is_seen_whole(x: WsRequestEnvelope)
    ensures
        x@.jsonrpc == x.jsonrpc@,
        x@.id == opt_id(x.id),
        x@.method == opt_text(x.method),
        x@.params == opt_model(x.params),
        x@.service_params == opt_flat(x.service_params),
        x@.cancel_stream == x.cancel_stream,
{
}

/// A [`WsResponseEnvelope`] is seen part by part.
pub proof fn law_ws_response_envelope_is_seen_whole(x: WsResponseEnvelope)
    ensures
        x@.jsonrpc == x.jsonrpc@,
        x@.id == opt_id(x.id),
        x@.result == opt_model(x.result),
        x@.error == opt_error(x.error),
        x@.stream_end == x.stream_end,
        x@.control == opt_text(x.control),
        x@.reason == opt_text(x.reason),
        x@.retry_after_ms == x.retry_after_ms,
{
}

/// A [`ParsedEndpoint`] is seen part by part.
pub proof fn law_parsed_endpoint_is_seen_whole(x: ParsedEndpoint)
    ensures
        x@.scheme == x.scheme@,
        x@.host == x.host@,
        x@.port == x.port,
        x@.path == x.path@,
{
}

/// A [`Refusal`] is seen part by part.
pub proof fn law_refusal_is_seen_whole(x: Refusal)
    ensures
        x@.0 == x.status,
        x@.1 == x.message@,
{
}

/// A [`Liveness`] is seen part by part.
pub proof fn law_liveness_is_seen_whole(x: Liveness)
    ensures
        x@.ping_interval == x.ping_interval@,
        x@.pong_timeout == x.pong_timeout@,
        x@.idle_timeout == x.idle_timeout@,
{
}

/// A [`RateLimit`] is seen part by part.
pub proof fn law_rate_limit_is_seen_whole(x: RateLimit)
    ensures
        x@.max_messages == x.max_messages,
        x@.window == x.window@,
{
}

/// An [`Outbound`] is seen as it is: its kind, with what it holds.
pub proof fn law_outbound_is_seen_whole(x: Outbound)
    ensures
        x matches Outbound::Frame(b) ==> x@ == OutboundView::Frame(b@),
        (x matches Outbound::Close { code, reason } ==> x@ == (OutboundView::Close {
            code,
            reason: reason@,
        })),
{
}

/// A [`WsCall`] is seen part by part.
pub proof fn law_ws_call_is_seen_whole(x: WsCall)
    ensures
        x@.id == x.id@,
        x@.method == x.method@,
        x@.params == model(x.params),
        x@.service_params == opt_flat(x.service_params),
{
}

/// A [`FrameStep`] is seen as it is: its kind, with what it holds.
pub proof fn law_frame_step_is_seen_whole(x: FrameStep)
    ensures
        (x matches FrameStep::Refuse { out, fatal } ==> x@ == (FrameStepView::Refuse {
            out: outs(out@),
            fatal,
        })),
        (x matches FrameStep::Cancel { id } ==> x@ == (FrameStepView::Cancel { id: id@ })),
        (x matches FrameStep::Authenticate { id, params } ==> x@ == (FrameStepView::Authenticate {
            id: id@,
            params: model(params),
        })),
        x matches FrameStep::Request(c) ==> x@ == FrameStepView::Request(c@),
{
}

/// A [`ConnEvent`] is seen as it is: its kind, with what it holds.
pub proof fn law_conn_event_is_seen_whole(x: ConnEvent)
    ensures
        x matches ConnEvent::Queued(o) ==> x@ == ConnEventView::Queued(o@),
        x == ConnEvent::QueueClosed ==> x@ == ConnEventView::QueueClosed,
        (x matches ConnEvent::Text { admitted, payload } ==> x@ == (ConnEventView::Text {
            admitted,
            payload: payload@,
        })),
        x == ConnEvent::Binary ==> x@ == ConnEventView::Binary,
        x == ConnEvent::Close ==> x@ == ConnEventView::Close,
        x == ConnEvent::Other ==> x@ == ConnEventView::Other,
        (x matches ConnEvent::ReadFailed { fault, text } ==> x@ == (ConnEventView::ReadFailed {
            fault,
            text: text@,
        })),
{
}

/// A [`ConnAction`] is seen as it is: its kind, with what it holds.
pub proof fn law_conn_action_is_seen_whole(x: ConnAction)
    ensures
        x == ConnAction::Ignore ==> x@ == ConnActionView::Ignore,
        x matches ConnAction::Write(o) ==> x@ == ConnActionView::Write(o@),
        x matches ConnAction::WriteAndStop(o) ==> x@ == ConnActionView::WriteAndStop(o@),
        x == ConnAction::Stop ==> x@ == ConnActionView::Stop,
        x matches ConnAction::FlushAndStop(v) ==> x@ == ConnActionView::FlushAndStop(outs(v@)),
        x matches ConnAction::Handle(s) ==> x@ == ConnActionView::Handle(s@),
{
}

/// What reading gives is seen as what was read, or as what was said against it.
pub proof fn law_results_are_seen_whole(
    a: Result<WsRequestEnvelope, String>,
    b: Result<WsResponseEnvelope, String>,
    c: Result<ParsedEndpoint, A2AError>,
)
    ensures
        a is Ok ==> ws_request_result(a) is Ok && ws_request_result(a)->Ok_0 == a->Ok_0@,
        a is Err ==> ws_request_result(a) is Err && ws_request_result(a)->Err_0 == a->Err_0@,
        b is Ok ==> ws_response_result(b) is Ok && ws_response_result(b)->Ok_0 == b->Ok_0@,
        b is Err ==> ws_response_result(b) is Err && ws_response_result(b)->Err_0 == b->Err_0@,
        c is Ok ==> endpoint_result(c) is Ok && endpoint_result(c)->Ok_0 == c->Ok_0@,
        c is Err ==> endpoint_result(c) is Err && endpoint_result(c)->Err_0 == c->Err_0@,
{
}

/// What may be absent is seen as what is there, if anything is.
pub proof fn law_optional_values_are_seen_whole(
    a: WsRequestEnvelope,
    b: WsResponseEnvelope,
    c: AuthenticateParams,
    l: Liveness,
    m: RateLimit,
    r: Refusal,
)
    ensures
        opt_ws_request(Some(a)) == Some(a@),
        opt_ws_request(None) is None,
        opt_ws_response(Some(b)) == Some(b@),
        opt_ws_response(None) is None,
        opt_credentials(Some(c)) == Some((c.scheme@, c.credentials@)),
        opt_credentials(None) is None,
        opt_liveness(Some(l)) == Some(l@),
        opt_liveness(None) is None,
        opt_limit(Some(m)) == Some(m@),
        opt_limit(None) is None,
        opt_refusal(Some(r)) == Some(r@),
        opt_refusal(None) is None,
{
}

/// Messages to send, and certificates, are seen as the same ones, each in its place.
pub proof fn law_what_is_sent_is_seen_in_its_place(s: Seq<Outbound>, c: Seq<Vec<u8>>)
    ensures
        outs(s).len() == s.len(),
        forall|i: int| 0 <= i < s.len() ==> #[trigger] outs(s)[i] == s[i]@,
        blobs(c).len() == c.len(),
        forall|i: int| 0 <= i < c.len() ==> #[trigger] blobs(c)[i] == c[i]@,
{
}

/// Where a call goes is seen as it is: refused, answered or streamed, with what goes there.
pub proof fn law_dispatches_are_seen_whole(o: Outbound, c: Call)
    ensures
        dispatched(Dispatch::Refuse(o)) == DispatchView::Refuse(o@),
        dispatched(Dispatch::Unary(c)) == DispatchView::Unary(c@),
        dispatched(Dispatch::Stream(c)) == DispatchView::Stream(c@),
{
}

} // verus!
