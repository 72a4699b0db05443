//! What a client and a server of the WebSocket binding make of each other's frames.
use crate::dispatch::StreamEventView;
use crate::json_value::{crosses, plain_json, Json, RESERVED_NAME};
use crate::methods::AUTHENTICATE;
use crate::protocol::{
    error_crosses, error_json, flat_json, key_text, lemma_reported_is_plain, plain_error, reported,
    ErrorView, IdView,
};
use crate::protojson::{finished, law_finished_values_cross};
use crate::record::lemma_members_are_not_reserved;
use crate::websocket::auth::{credentials_json, credentials_read, law_credentials_read_back};
use crate::websocket::client::{call_view, routed_frame, started, RoutedView, StartedCall};
use crate::websocket::common::{
    bare_request, opt_envelope_of, ws_error, ws_reauth, ws_request_in, ws_request_json,
    ws_request_plain, ws_request_whole, ws_response_json, ws_response_plain, ws_response_whole,
    ws_result, WsRequestView, WsResponseView,
};
use crate::websocket::server::{
    answer, answer_response, frame_step, reads_back, response_bytes, stream_response, FrameStepView,
    OutboundView, WsCallView,
};
use vstd::prelude::*;

verus! {

/// Whether what a call came to arrives as it was sent.
pub open spec fn outcome_crosses(r: Result<Json, ErrorView>) -> bool {
    match r {
        Ok(j) => crosses(j),
        Err(e) => error_crosses(e),
    }
}

/// Whether an event of a stream arrives as it was sent.
pub open spec fn event_crosses(e: StreamEventView) -> bool {
    match e {
        StreamEventView::Item(j) => crosses(j),
        StreamEventView::Refused(x) => error_crosses(x),
        StreamEventView::Failed(x) => error_crosses(x),
        _ => true,
    }
}

proof fn lemma_request_is_plain(v: WsRequestView)
    requires
        ws_request_whole(v),
        v.params matches Some(p) ==> plain_json(p, 126),
        v.service_params matches Some(f) ==> !f.contains_key(RESERVED_NAME@),
    ensures
        ws_request_plain(v),
{
    lemma_members_are_not_reserved();
    let m = ws_request_json(v)->Object_0;
    assert forall|k: Seq<char>| #[trigger] m.contains_key(k) implies plain_json(m[k], 126) by {
        if let Some(f) = v.service_params {
            let o = flat_json(f)->Object_0;
            assert forall|n: Seq<char>| #[trigger] o.contains_key(n) implies plain_json(o[n], 125) by {}
            assert(plain_json(flat_json(f), 126));
        }
    }
}

proof fn lemma_response_is_plain(v: WsResponseView)
    requires
        ws_response_whole(v),
        v.result matches Some(j) ==> plain_json(j, 126),
        v.error matches Some(e) ==> plain_json(error_json(e), 126),
    ensures
        ws_response_plain(v),
{
    lemma_members_are_not_reserved();
    let m = ws_response_json(v)->Object_0;
    assert forall|k: Seq<char>| #[trigger] m.contains_key(k) implies plain_json(m[k], 126) by {}
}

proof fn lemma_error_is_plain(id: Option<IdView>, e: ErrorView)
    requires
        error_crosses(e),
        !(id matches Some(i) && i is Null),
    ensures
        ws_response_plain(ws_error(id, reported(e))),
{
    lemma_reported_is_plain(e, 124);
    lemma_response_is_plain(ws_error(id, reported(e)));
}

/// A call arrives as it was made: what a server reads in the frame of a call is
/// that call, with its payload and its parameters. (A parameter of the name that
/// `serde_json` keeps for itself may be read as something else.)
pub proof fn law_calls_arrive(
    c: StartedCall,
    method: Seq<char>,
    payload: Json,
    params: Map<Seq<char>, Seq<Seq<char>>>,
)
    requires
        started(c, method, payload, params),
        crosses(payload),
        !params.contains_key(RESERVED_NAME@),
        method != AUTHENTICATE@,
    ensures
        frame_step(ws_request_in(c.frame@)) == FrameStepView::Request(
            WsCallView {
                id: IdView::Text(c.id@),
                method,
                params: payload,
                service_params: opt_envelope_of(params),
            },
        ),
{
    lemma_request_is_plain(call_view(c.id@, method, payload, params));
}

/// New credentials arrive as they were sent.
pub proof fn law_credentials_arrive(c: StartedCall, scheme: Seq<char>, credentials: Seq<char>)
    requires
        started(c, AUTHENTICATE@, credentials_json(scheme, credentials), Map::empty()),
    ensures
        frame_step(ws_request_in(c.frame@)) matches FrameStepView::Authenticate { id, params } && id
            == IdView::Text(c.id@) && credentials_read(params) == Some((scheme, credentials)),
{
    lemma_members_are_not_reserved();
    let j = credentials_json(scheme, credentials);
    assert forall|k: Seq<char>| #[trigger] j->Object_0.contains_key(k) implies plain_json(
        j->Object_0[k],
        125,
    ) by {}
    lemma_request_is_plain(call_view(c.id@, AUTHENTICATE@, j, Map::empty()));
    law_credentials_read_back(scheme, credentials);
}

/// A cancellation is read as one, of the stream that it names.
pub proof fn law_cancellations_arrive(id: Seq<char>)
    ensures
        frame_step(
            Ok::<WsRequestView, Seq<char>>(
                WsRequestView {
                    id: Some(IdView::Text(id)),
                    cancel_stream: Some(true),
                    ..bare_request()
                },
            ),
        ) == (FrameStepView::Cancel { id: IdView::Text(id) }),
{
}

/// What a caller gets for what a call came to: an error arrives without its
/// details.
pub open spec fn received(r: Result<Json, ErrorView>) -> Result<Json, ErrorView> {
    match r {
        Ok(j) => Ok(j),
        Err(e) => Err(plain_error(e.code, e.message)),
    }
}

/// An answer reaches its caller: the first frame that is sent for the outcome of a
/// call gives the caller that waits for it just that outcome.
pub proof fn law_answers_arrive(
    unary: Set<Seq<char>>,
    streaming: Set<Seq<char>>,
    id: IdView,
    r: Result<Json, ErrorView>,
)
    requires
        reads_back(answer_response(id, r)),
        outcome_crosses(r),
        !(id is Null),
        unary.contains(key_text(id)),
    ensures
        answer(id, r)[0] matches OutboundView::Frame(b) && routed_frame(unary, streaming, b) == (
        RoutedView::Unary { key: key_text(id), result: received(r) }),
{
    match r {
        Ok(j) => lemma_response_is_plain(ws_result(id, j)),
        Err(e) => lemma_error_is_plain(Some(id), e),
    }
}

/// The events of a stream reach its consumer: each frame that is sent for one gives
/// the consumer that item, that error or the end.
pub proof fn law_streams_arrive(
    unary: Set<Seq<char>>,
    streaming: Set<Seq<char>>,
    id: IdView,
    e: StreamEventView,
)
    requires
        reads_back(stream_response(id, e)),
        event_crosses(e),
        !(id is Null),
        streaming.contains(key_text(id)),
        !unary.contains(key_text(id)),
    ensures
        routed_frame(unary, streaming, response_bytes(stream_response(id, e))) == (match e {
            StreamEventView::Item(j) => RoutedView::Chunk {
                key: key_text(id),
                value: finished(j, false),
            },
            StreamEventView::Refused(x) => RoutedView::StreamError {
                key: key_text(id),
                error: plain_error(x.code, x.message),
            },
            StreamEventView::Failed(x) => RoutedView::StreamError {
                key: key_text(id),
                error: plain_error(x.code, x.message),
            },
            StreamEventView::Cancelled => RoutedView::End { key: key_text(id) },
            StreamEventView::Ended => RoutedView::End { key: key_text(id) },
        }),
{
    match e {
        StreamEventView::Refused(x) => lemma_error_is_plain(Some(id), x),
        StreamEventView::Failed(x) => lemma_error_is_plain(Some(id), x),
        StreamEventView::Item(j) => {
            law_finished_values_cross(j, false);
            lemma_response_is_plain(stream_response(id, e));
        },
        _ => lemma_response_is_plain(stream_response(id, e)),
    }
}

/// A request for new credentials is seen as one by every client, with its reason
/// and its delay, and answers nobody.
pub proof fn law_requests_for_credentials_arrive(
    unary: Set<Seq<char>>,
    streaming: Set<Seq<char>>,
    reason: Seq<char>,
    retry_after_ms: u64,
)
    requires
        reads_back(ws_reauth(reason, retry_after_ms)),
    ensures
        routed_frame(unary, streaming, response_bytes(ws_reauth(reason, retry_after_ms))) == (
        RoutedView::Reauth { reason: Some(reason), retry_after_ms: Some(retry_after_ms) }),
{
    lemma_response_is_plain(ws_reauth(reason, retry_after_ms));
}

} // verus!
