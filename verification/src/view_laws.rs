//! What values are seen as.
use crate::client_socket::{Route, RouteView, SocketEvent, SocketEventView};
use crate::dispatch::{outcome, Call, Handled, HandledView, StreamEvent, StreamEventView};
use crate::envelope::{
    opt_request, opt_response, request_result, response_result, WebSocketRequestEnvelope,
    WebSocketResponseEnvelope,
};
use crate::json_value::model;
use crate::params::{lists, pairs, ServiceParams};
use crate::protocol::{
    flat, opt_error, opt_flat, opt_model, A2AError, IdView, JsonRpcError, JsonRpcId,
};
use crate::record::{opt_lists, opt_texts};
use crate::server_socket::{SocketStep, SocketStepView, SocketStreamEvent, SocketStreamView};
use crate::text::texts;
use crate::text_map::TextMap;
use vstd::prelude::*;

verus! {

/// A [`Route`] is seen as it is: its kind, with what it holds.
pub proof fn law_route_is_seen_whole(x: Route)
    ensures
        x == Route::Ignore ==> x@ == RouteView::Ignore,
        (x matches Route::Event { id, event, waiting } ==> x@ == (RouteView::Event {
            id: id@,
            event: model(event),
            waiting,
        })),
        (x matches Route::StreamError { id, error } ==> x@ == (RouteView::StreamError {
            id: id@,
            error: error@,
        })),
        (x matches Route::End { id } ==> x@ == (RouteView::End { id: id@ })),
        (x matches Route::Answer { id, result } ==> x@ == (RouteView::Answer {
            id: id@,
            result: outcome(result),
        })),
        x matches Route::FailAll(e) ==> x@ == RouteView::FailAll(e@),
{
}

/// A [`SocketEvent`] is seen as it is: its kind, with what it holds.
pub proof fn law_socket_event_is_seen_whole(x: SocketEvent)
    ensures
        x matches SocketEvent::Text(b) ==> x@ == SocketEventView::Text(b@),
        x == SocketEvent::Closed ==> x@ == SocketEventView::Closed,
        x == SocketEvent::Other ==> x@ == SocketEventView::Other,
        x matches SocketEvent::ReadFailed(e) ==> x@ == SocketEventView::ReadFailed(e@),
{
}

/// A [`Call`] is seen part by part.
pub proof fn law_call_is_seen_whole(x: Call)
    ensures
        x@.id == x.id@,
        x@.method == x.method@,
        x@.params == lists(x.params@),
        x@.payload == model(x.payload),
{
}

/// A [`StreamEvent`] is seen as it is: its kind, with what it holds.
pub proof fn law_stream_event_is_seen_whole(x: StreamEvent)
    ensures
        x matches StreamEvent::Refused(e) ==> x@ == StreamEventView::Refused(e@),
        x == StreamEvent::Cancelled ==> x@ == StreamEventView::Cancelled,
        x matches StreamEvent::Item(v) ==> x@ == StreamEventView::Item(model(v)),
        x matches StreamEvent::Failed(e) ==> x@ == StreamEventView::Failed(e@),
        x == StreamEvent::Ended ==> x@ == StreamEventView::Ended,
{
}

/// A [`Handled`] is seen as it is: its kind, with what it holds.
pub proof fn law_handled_is_seen_whole(x: Handled)
    ensures
        x matches Handled::Unreadable(e) ==> x@ == HandledView::Unreadable(e@),
        x matches Handled::Failed(e) ==> x@ == HandledView::Failed(e@),
        x == Handled::Done ==> x@ == HandledView::Done,
        x matches Handled::Value(v) ==> x@ == HandledView::Value(model(v)),
        x matches Handled::Unwritable(e) ==> x@ == HandledView::Unwritable(e@),
{
}

/// A [`WebSocketRequestEnvelope`] is seen part by part.
pub proof fn law_web_socket_request_envelope_is_seen_whole(x: WebSocketRequestEnvelope)
    ensures
        x@.jsonrpc == x.jsonrpc@,
        x@.id == x.id@,
        x@.method == x.method@,
        x@.params == opt_model(x.params),
        x@.service_params == opt_lists(x.service_params),
{
}

/// A [`WebSocketResponseEnvelope`] is seen part by part.
pub proof fn law_web_socket_response_envelope_is_seen_whole(x: WebSocketResponseEnvelope)
    ensures
        x@.jsonrpc == x.jsonrpc@,
        x@.id == x.id@,
        x@.result == opt_model(x.result),
        x@.error == opt_error(x.error),
        x@.stream_event == opt_model(x.stream_event),
        x@.stream_error == opt_error(x.stream_error),
        x@.stream_end == x.stream_end,
{
}

/// A [`JsonRpcId`] is seen as it is: its kind, with what it holds.
pub proof fn law_json_rpc_id_is_seen_whole(x: JsonRpcId)
    ensures
        x matches JsonRpcId::Text(s) ==> x@ == IdView::Text(s@),
        x matches JsonRpcId::Int(i) ==> x@ == IdView::Int(i),
        x == JsonRpcId::Null ==> x@ == IdView::Null,
{
}

/// A [`JsonRpcError`] is seen part by part.
pub proof fn law_json_rpc_error_is_seen_whole(x: JsonRpcError)
    ensures
        x@.code == x.code,
        x@.message == x.message@,
        x@.data == opt_model(x.data),
{
}

/// An [`A2AError`] is seen part by part.
pub proof fn law_a2_a_error_is_seen_whole(x: A2AError)
    ensures
        x@.code == x.code,
        x@.message == x.message@,
        x@.data == opt_model(x.details),
{
}

/// A [`SocketStep`] is seen as it is: its kind, with what it holds.
pub proof fn law_socket_step_is_seen_whole(x: SocketStep)
    ensures
        x matches SocketStep::Respond(e) ==> x@ == SocketStepView::Respond(e@),
        x matches SocketStep::Unary(c) ==> x@ == SocketStepView::Unary(c@),
        x matches SocketStep::Stream(c) ==> x@ == SocketStepView::Stream(c@),
{
}

/// A [`SocketStreamEvent`] is seen as it is: its kind, with what it holds.
pub proof fn law_socket_stream_event_is_seen_whole(x: SocketStreamEvent)
    ensures
        x matches SocketStreamEvent::Refused(e) ==> x@ == SocketStreamView::Refused(e@),
        x matches SocketStreamEvent::Item(v) ==> x@ == SocketStreamView::Item(model(v)),
        x matches SocketStreamEvent::Unwritable(e) ==> x@ == SocketStreamView::Unwritable(e@),
        x matches SocketStreamEvent::Failed(e) ==> x@ == SocketStreamView::Failed(e@),
        x == SocketStreamEvent::Ended ==> x@ == SocketStreamView::Ended,
{
}

/// What may be an envelope, a list or a map is seen as what is there, if anything is.
pub proof fn law_optional_envelopes_are_seen_whole(
    a: WebSocketRequestEnvelope,
    b: WebSocketResponseEnvelope,
    f: TextMap<String>,
    l: ServiceParams,
    t: Vec<String>,
)
    ensures
        opt_request(Some(a)) == Some(a@),
        opt_request(None) is None,
        opt_response(Some(b)) == Some(b@),
        opt_response(None) is None,
        opt_flat(Some(f)) == Some(flat(f@)),
        opt_flat(None) is None,
        opt_lists(Some(l)) == Some(lists(l@)),
        opt_lists(None) is None,
        opt_texts(Some(t)) == Some(texts(t@)),
        opt_texts(None) is None,
{
}

/// What reading gives is seen as the envelope that was read, or as what was said against it.
pub proof fn law_envelopes_read_are_seen_whole(
    a: Result<WebSocketRequestEnvelope, String>,
    b: Result<WebSocketResponseEnvelope, String>,
)
    ensures
        a is Ok ==> request_result(a) is Ok && request_result(a)->Ok_0 == a->Ok_0@,
        a is Err ==> request_result(a) is Err && request_result(a)->Err_0 == a->Err_0@,
        b is Ok ==> response_result(b) is Ok && response_result(b)->Ok_0 == b->Ok_0@,
        b is Err ==> response_result(b) is Err && response_result(b)->Err_0 == b->Err_0@,
{
}

/// Pairs of texts are seen as the same pairs, each in its place.
pub proof fn law_pairs_are_seen_in_their_places(s: Seq<(String, String)>)
    ensures
        pairs(s).len() == s.len(),
        forall|i: int| 0 <= i < s.len() ==> #[trigger] pairs(s)[i] == (s[i].0@, s[i].1@),
{
}

} // verus!
