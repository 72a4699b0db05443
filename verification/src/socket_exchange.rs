//! What a client and a server of plain WebSocket transport make of each other's
//! frames.
use crate::client_socket::{call_view, holds_request, routed_frame, RouteView};
use crate::dispatch::{unwritable_item, CallView};
use crate::envelope::{request_in, request_json, response_json, RequestView, ResponseView};
use crate::json_value::{crosses, depth_limit, plain_json, Json, RESERVED_NAME};
use crate::methods::streams;
use crate::protocol::{
    error_crosses, error_json, lemma_reported_is_plain, plain_error, ErrorView, IdView,
};
use crate::protojson::{finished, law_finished_values_cross};
use crate::record::{lemma_members_are_not_reserved, lists_json, texts_json};
use crate::server_socket::{
    answer_view, holds_response, socket_step, stream_view, SocketStepView, SocketStreamView,
};
use vstd::prelude::*;

verus! {

/// Whether what a call came to arrives as it was sent.
pub open spec fn outcome_crosses(r: Result<Json, ErrorView>) -> bool {
    match r {
        Ok(j) => crosses(j),
        Err(e) => error_crosses(e),
    }
}

/// Whether an event of a stream arrives as it was sent.
pub open spec fn event_crosses(e: SocketStreamView) -> bool {
    match e {
        SocketStreamView::Item(j) => crosses(j),
        SocketStreamView::Refused(x) => error_crosses(x),
        SocketStreamView::Failed(x) => error_crosses(x),
        _ => true,
    }
}

proof fn lemma_request_is_plain(v: RequestView)
    requires
        v.params matches Some(p) ==> plain_json(p, 126),
        v.service_params matches Some(l) ==> !l.contains_key(RESERVED_NAME@),
    ensures
        plain_json(request_json(v), depth_limit()),
{
    lemma_members_are_not_reserved();
    let m = request_json(v)->Object_0;
    assert forall|k: Seq<char>| #[trigger] m.contains_key(k) implies plain_json(m[k], 126) by {
        if let Some(l) = v.service_params {
            let o = lists_json(l)->Object_0;
            assert forall|n: Seq<char>| #[trigger] o.contains_key(n) implies plain_json(o[n], 125) by {
                let a = texts_json(l[n])->Array_0;
                assert forall|i: int| 0 <= i < a.len() implies plain_json(#[trigger] a[i], 124) by {}
            }
            assert(plain_json(lists_json(l), 126));
        }
    }
}

proof fn lemma_response_is_plain(v: ResponseView)
    requires
        v.result matches Some(j) ==> plain_json(j, 126),
        v.stream_event matches Some(j) ==> plain_json(j, 126),
        v.error matches Some(e) ==> plain_json(error_json(e), 126),
        v.stream_error matches Some(e) ==> plain_json(error_json(e), 126),
    ensures
        plain_json(response_json(v), depth_limit()),
{
    lemma_members_are_not_reserved();
    let m = response_json(v)->Object_0;
    assert forall|k: Seq<char>| #[trigger] m.contains_key(k) implies plain_json(m[k], 126) by {}
}

/// A call arrives as it was made: what a server reads in the frame of a call is
/// that call, with its payload, and with its parameters over those of the connection.
/// (A parameter of the name that `serde_json` keeps for itself may be read as
/// something else.)
pub proof fn law_calls_arrive(
    frame: Seq<u8>,
    id: Seq<char>,
    method: Seq<char>,
    payload: Json,
    params: Map<Seq<char>, Seq<Seq<char>>>,
    connection: Map<Seq<char>, Seq<Seq<char>>>,
)
    requires
        holds_request(frame, call_view(id, method, payload, params)),
        crosses(payload),
        !params.contains_key(RESERVED_NAME@),
    ensures
        socket_step(request_in(frame), connection) == ({
            let call = CallView {
                id: IdView::Text(id),
                method,
                params: connection.union_prefer_right(params),
                payload,
            };
            if streams(method) {
                SocketStepView::Stream(call)
            } else {
                SocketStepView::Unary(call)
            }
        }),
{
    lemma_request_is_plain(call_view(id, method, payload, params));
    if params =~= Map::<Seq<char>, Seq<Seq<char>>>::empty() {
        assert(connection.union_prefer_right(params) =~= connection);
    }
}

/// An answer reaches its caller: the frame of the answer to a call gives the caller
/// that waits for it what the call came to, but for the details of an error.
pub proof fn law_answers_arrive(
    unary: Set<Seq<char>>,
    open: Set<Seq<char>>,
    frame: Seq<u8>,
    id: Seq<char>,
    r: Result<Json, ErrorView>,
)
    requires
        holds_response(frame, answer_view(IdView::Text(id), r)),
        outcome_crosses(r),
        unary.contains(id),
    ensures
        routed_frame(unary, open, frame) == (RouteView::Answer {
            id,
            result: match r {
                Ok(j) => Ok(j),
                Err(e) => Err(plain_error(e.code, e.message)),
            },
        }),
{
    if let Err(e) = r {
        lemma_reported_is_plain(e, 124);
    }
    lemma_response_is_plain(answer_view(IdView::Text(id), r));
}

/// The events of a stream that was started reach its consumer: the frame that is
/// sent for one gives the consumer that item, that error or the end.
pub proof fn law_streams_arrive(
    unary: Set<Seq<char>>,
    open: Set<Seq<char>>,
    frame: Seq<u8>,
    id: Seq<char>,
    e: SocketStreamView,
)
    requires
        holds_response(frame, stream_view(IdView::Text(id), e)),
        event_crosses(e),
        !(e is Refused),
        open.contains(id),
    ensures
        routed_frame(unary, open, frame) == (match e {
            SocketStreamView::Item(j) => RouteView::Event {
                id,
                event: finished(j, false),
                waiting: true,
            },
            SocketStreamView::Failed(x) => RouteView::StreamError {
                id,
                error: plain_error(x.code, x.message),
            },
            SocketStreamView::Unwritable(t) => RouteView::StreamError {
                id,
                error: unwritable_item(t),
            },
            _ => RouteView::End { id },
        }),
{
    match e {
        SocketStreamView::Item(j) => law_finished_values_cross(j, false),
        SocketStreamView::Failed(x) => lemma_reported_is_plain(x, 124),
        SocketStreamView::Unwritable(t) => lemma_reported_is_plain(unwritable_item(t), 124),
        _ => {},
    }
    lemma_response_is_plain(stream_view(IdView::Text(id), e));
}

} // verus!
