//! What both sides of plain WebSocket transport promise: which frames call what, what is
//! answered, and who gets it.
use crate::client_socket::{
    bad_url, call_view, holds_request, payload_sent, routed, routed_frame, socket_route,
    streams_after, unary_after, unwritten, wrong_url, RouteView, SocketEventView,
};
use crate::dispatch::{CallView, HandledView};
use crate::envelope::{
    request_in, request_json, request_read, response_in, response_json, response_read, RequestView,
    ResponseView,
};
use crate::json_value::{depth_limit, json_read, json_written, plain_json, Json};
use crate::protocol::{reported, ErrorView, IdView};
use crate::protojson::{law_finishing_adds_only_a_token, normalized};
use crate::server_socket::{
    answer_view, carries, holds_response, socket_outcome, socket_step, stream_view, stream_views,
    SocketStepView, SocketStreamView,
};
use crate::websocket::common::{
    ws_request_in, ws_request_read, ws_response_in, ws_response_read, WsRequestView, WsResponseView,
};
use vstd::prelude::*;

verus! {

/// An error of this code and message, with no data.
pub open spec fn error_of(code: int, message: Seq<char>) -> ErrorView {
    ErrorView { code: code as i32, message, data: None }
}

/// A response that has an identifier and nothing else.
pub open spec fn response_of(id: IdView) -> ResponseView {
    ResponseView {
        jsonrpc: "2.0"@,
        id,
        result: None,
        error: None,
        stream_event: None,
        stream_error: None,
        stream_end: None,
    }
}

// ---------------------------------------------------------------------------
// Frames.
// ---------------------------------------------------------------------------

/// A frame holds what its JSON value is read as. Where it holds no JSON, that is why it
/// cannot be read; where it holds something else, it is told that a member is missing or
/// mistyped.
pub proof fn law_frames_hold_what_is_read(frame: Seq<u8>)
    ensures
        json_read(frame) matches Err(e) ==> request_in(frame) == Err::<RequestView, Seq<char>>(e)
            && response_in(frame) == Err::<ResponseView, Seq<char>>(e) && ws_request_in(frame)
            == Err::<WsRequestView, Seq<char>>(e) && ws_response_in(frame) == Err::<
            WsResponseView,
            Seq<char>,
        >(e),
        json_read(frame) matches Ok(j) ==> {
            let told = "missing or mistyped member"@;
            &&& request_read(j) matches Some(v) ==> request_in(frame) == Ok::<
                RequestView,
                Seq<char>,
            >(v)
            &&& request_read(j) is None ==> request_in(frame) == Err::<RequestView, Seq<char>>(told)
            &&& response_read(j) matches Some(v) ==> response_in(frame) == Ok::<
                ResponseView,
                Seq<char>,
            >(v)
            &&& response_read(j) is None ==> response_in(frame) == Err::<ResponseView, Seq<char>>(
                told,
            )
            &&& ws_request_read(j) matches Some(v) ==> ws_request_in(frame) == Ok::<
                WsRequestView,
                Seq<char>,
            >(v)
            &&& ws_request_read(j) is None ==> ws_request_in(frame) == Err::<
                WsRequestView,
                Seq<char>,
            >(told)
            &&& ws_response_read(j) matches Some(v) ==> ws_response_in(frame) == Ok::<
                WsResponseView,
                Seq<char>,
            >(v)
            &&& ws_response_read(j) is None ==> ws_response_in(frame) == Err::<
                WsResponseView,
                Seq<char>,
            >(told)
        },
{
}

// ---------------------------------------------------------------------------
// The server.
// ---------------------------------------------------------------------------

/// A call is made as it was sent: its identifier, its method, its payload, which is null
/// where none is given, and its parameters. A method that streams is told from one that
/// does not.
pub proof fn law_calls_are_made_as_sent(
    v: RequestView,
    connection: Map<Seq<char>, Seq<Seq<char>>>,
)
    requires
        v.jsonrpc == "2.0"@,
    ensures
        ({
            let call = CallView {
                id: v.id,
                method: v.method,
                params: carries(connection, v.service_params),
                payload: if v.params is Some {
                    v.params->0
                } else {
                    Json::Null
                },
            };
            if v.method == "SendStreamingMessage"@ || v.method == "SubscribeToTask"@ {
                socket_step(Ok(v), connection) == SocketStepView::Stream(call)
            } else {
                socket_step(Ok(v), connection) == SocketStepView::Unary(call)
            }
        }),
{
}

/// A frame that cannot be read, or that speaks another version, calls nothing: it is told
/// so, by its own identifier where it has one.
pub proof fn law_frames_that_call_nothing_are_told(
    e: Seq<char>,
    v: RequestView,
    connection: Map<Seq<char>, Seq<Seq<char>>>,
)
    requires
        v.jsonrpc != "2.0"@,
    ensures
        socket_step(Err(e), connection) == SocketStepView::Respond(
            ResponseView {
                error: Some(reported(error_of(-32700, "invalid websocket frame: "@ + e))),
                ..response_of(IdView::Null)
            },
        ),
        socket_step(Ok(v), connection) == SocketStepView::Respond(
            ResponseView {
                error: Some(reported(error_of(-32600, "invalid jsonrpc version"@))),
                ..response_of(v.id)
            },
        ),
{
}

/// A message without parameters carries those of its connection. One that has some
/// carries nothing under a name that neither has.
pub proof fn law_nothing_else_is_carried(
    connection: Map<Seq<char>, Seq<Seq<char>>>,
    own: Map<Seq<char>, Seq<Seq<char>>>,
    name: Seq<char>,
)
    ensures
        carries(connection, None) == connection,
        carries(connection, Some(own)).contains_key(name) ==> connection.contains_key(name)
            || own.contains_key(name),
{
}

/// Whatever the method, a call comes to the value that its handler gave. A push
/// configuration, or a list of them, stays as it was given; in anything else the times
/// are put right, and a page of tasks, which answers `ListTasks` alone, gets a token
/// where it has none.
pub proof fn law_sockets_answer_the_value_given(method: Seq<char>, j: Json)
    ensures
        socket_outcome(method, HandledView::Value(j)) is Ok,
        method == "CreateTaskPushNotificationConfig"@ || method == "GetTaskPushNotificationConfig"@
            || method == "ListTaskPushNotificationConfigs"@ ==> socket_outcome(
            method,
            HandledView::Value(j),
        )->Ok_0 == j,
        method != "CreateTaskPushNotificationConfig"@ && method
            != "GetTaskPushNotificationConfig"@ && method != "ListTaskPushNotificationConfigs"@ && (
        method != "ListTasks"@ || !(j is Object)) ==> socket_outcome(
            method,
            HandledView::Value(j),
        )->Ok_0 == normalized(j),
        method == "ListTasks"@ && j is Object ==> socket_outcome(
            method,
            HandledView::Value(j),
        )->Ok_0 == (if normalized(j)->Object_0.contains_key("nextPageToken"@) {
            normalized(j)
        } else {
            Json::Object(
                normalized(j)->Object_0.insert("nextPageToken"@, Json::Text(Seq::empty())),
            )
        }),
{
    law_finishing_adds_only_a_token(j, method);
    reveal_strlit("ListTasks");
    reveal_strlit("CreateTaskPushNotificationConfig");
    reveal_strlit("GetTaskPushNotificationConfig");
    reveal_strlit("ListTaskPushNotificationConfigs");
    assert("ListTasks"@.len() == 9 && "CreateTaskPushNotificationConfig"@.len() == 32);
    assert("GetTaskPushNotificationConfig"@.len() == 29);
    assert("ListTaskPushNotificationConfigs"@.len() == 31);
}

/// A call that gives no value comes to what its handler says: null where it was done, the
/// error where it failed, and else an error that says what could not be read or written.
pub proof fn law_sockets_tell_what_gives_no_value(method: Seq<char>, text: Seq<char>, e: ErrorView)
    ensures
        socket_outcome(method, HandledView::Done) == Ok::<Json, ErrorView>(Json::Null),
        socket_outcome(method, HandledView::Failed(e)) == Err::<Json, ErrorView>(e),
        socket_outcome(method, HandledView::Unreadable(text)) == Err::<Json, ErrorView>(
            error_of(-32602, text),
        ),
        socket_outcome(method, HandledView::Unwritable(text)) == Err::<Json, ErrorView>(
            error_of(-32603, "failed to serialize ProtoJSON payload: "@ + text),
        ),
{
}

/// A call is answered by its identifier with what it came to, a value or an error as it
/// is reported, and with nothing else.
pub proof fn law_answers_hold_what_was_made(id: IdView, j: Json, e: ErrorView)
    ensures
        answer_view(id, Ok(j)) == (ResponseView { result: Some(j), ..response_of(id) }),
        answer_view(id, Err(e)) == (ResponseView { error: Some(reported(e)), ..response_of(id) }),
{
}

/// An event of a stream is told by its identifier: an item as it was given but for its
/// times, an error as it is reported, or the end. A stream that never began is told by an
/// ordinary error.
pub proof fn law_stream_events_hold_what_was_made(
    id: IdView,
    j: Json,
    e: ErrorView,
    text: Seq<char>,
)
    ensures
        stream_view(id, SocketStreamView::Item(j)) == (ResponseView {
            stream_event: Some(normalized(j)),
            ..response_of(id)
        }),
        stream_view(id, SocketStreamView::Refused(e)) == (ResponseView {
            error: Some(reported(e)),
            ..response_of(id)
        }),
        stream_view(id, SocketStreamView::Failed(e)) == (ResponseView {
            stream_error: Some(reported(e)),
            ..response_of(id)
        }),
        stream_view(id, SocketStreamView::Unwritable(text)) == (ResponseView {
            stream_error: Some(
                reported(
                    error_of(-32603, "failed to serialize ProtoJSON stream payload: "@ + text),
                ),
            ),
            ..response_of(id)
        }),
        stream_view(id, SocketStreamView::Ended) == (ResponseView {
            stream_end: Some(true),
            ..response_of(id)
        }),
{
}

/// Every event of a stream is told in its turn, up to the first that is no item.
pub proof fn law_streams_tell_every_event(id: IdView, events: Seq<SocketStreamView>, i: int)
    ensures
        stream_views(id, events).len() <= events.len(),
        0 <= i < stream_views(id, events).len() ==> stream_views(id, events)[i] == stream_view(
            id,
            events[i],
        ),
        0 <= i < stream_views(id, events).len() - 1 ==> events[i] is Item,
        stream_views(id, events).len() < events.len() ==> stream_views(id, events).len() > 0 && !(
        events[stream_views(id, events).len() - 1] is Item),
    decreases events.len(),
{
    if events.len() > 0 && events[0] is Item {
        let rest = events.drop_first();
        law_streams_tell_every_event(id, rest, i - 1);
        let all = stream_views(id, events);
        let tail = stream_views(id, rest);
        assert(all =~= seq![stream_view(id, events[0])] + tail);
        if 0 < i < all.len() {
            assert(all[i] == tail[i - 1]);
            assert(rest[i - 1] == events[i]);
        }
        if tail.len() < rest.len() {
            law_streams_tell_every_event(id, rest, tail.len() - 1);
            assert(rest[tail.len() - 1] == events[all.len() - 1]);
        }
    }
}

// ---------------------------------------------------------------------------
// The client.
// ---------------------------------------------------------------------------

/// A call asks for its method by its identifier, with its payload, and with its
/// parameters just where it has any.
pub proof fn law_calls_ask_for_what_is_called(
    id: Seq<char>,
    method: Seq<char>,
    payload: Json,
    params: Map<Seq<char>, Seq<Seq<char>>>,
    name: Seq<char>,
)
    ensures
        ({
            let v = call_view(id, method, payload, params);
            &&& v.jsonrpc == "2.0"@
            &&& v.id == IdView::Text(id)
            &&& v.method == method
            &&& v.params == Some(payload)
            &&& params.contains_key(name) ==> v.service_params == Some(params)
            &&& v.service_params is None <==> params == Map::<Seq<char>, Seq<Seq<char>>>::empty()
            &&& v.service_params is Some ==> v.service_params == Some(params)
        }),
{
}

/// A new push configuration is sent as it was made. In any other payload the times are
/// put right, and nothing else is changed.
pub proof fn law_payloads_are_sent_as_made(method: Seq<char>, payload: Json)
    ensures
        method == "CreateTaskPushNotificationConfig"@ ==> payload_sent(method, payload) == payload,
        method != "CreateTaskPushNotificationConfig"@ ==> payload_sent(method, payload)
            == normalized(payload),
{
}

/// What a server tells of a stream goes to the consumer of its request, whatever else the
/// response holds: an item even where nobody waits for it, an error or the end only where
/// someone does.
pub proof fn law_stream_responses_reach_their_consumer(
    unary: Set<Seq<char>>,
    streams: Set<Seq<char>>,
    v: ResponseView,
    id: Seq<char>,
)
    requires
        v.id == IdView::Text(id),
    ensures
        v.stream_event matches Some(j) ==> routed(unary, streams, v) == (RouteView::Event {
            id,
            event: j,
            waiting: streams.contains(id),
        }),
        v.stream_event is None && v.stream_error is Some && streams.contains(id) ==> routed(
            unary,
            streams,
            v,
        ) == (RouteView::StreamError {
            id,
            error: ErrorView {
                code: v.stream_error->0.code,
                message: v.stream_error->0.message,
                data: None,
            },
        }),
        v.stream_event is None && v.stream_error is None && v.stream_end == Some(true)
            && streams.contains(id) ==> routed(unary, streams, v) == (RouteView::End { id }),
        v.stream_event is None && (v.stream_error is Some || v.stream_end == Some(true))
            && !streams.contains(id) ==> routed(unary, streams, v) == RouteView::Ignore,
{
}

/// An answer goes to the caller of its request and to nobody else: the error's code and
/// message where it holds an error, and else its result, which is null where it has none.
/// Where nobody waits for it, it is passed over.
pub proof fn law_answers_reach_their_caller(
    unary: Set<Seq<char>>,
    streams: Set<Seq<char>>,
    v: ResponseView,
    id: Seq<char>,
)
    requires
        v.id == IdView::Text(id),
        v.stream_event is None,
        v.stream_error is None,
        v.stream_end != Some(true),
    ensures
        !unary.contains(id) ==> routed(unary, streams, v) == RouteView::Ignore,
        unary.contains(id) && v.error is Some ==> routed(unary, streams, v) == (RouteView::Answer {
            id,
            result: Err(
                ErrorView { code: v.error->0.code, message: v.error->0.message, data: None },
            ),
        }),
        unary.contains(id) && v.error is None && v.result is Some ==> routed(unary, streams, v) == (
        RouteView::Answer { id, result: Ok(v.result->0) }),
        unary.contains(id) && v.error is None && v.result is None ==> routed(unary, streams, v) == (
        RouteView::Answer { id, result: Ok(Json::Null) }),
{
}

/// A response that no request can have made, a frame that cannot be read, and the end of
/// the connection are told to everyone who waits. Frames of other kinds are told to
/// nobody.
pub proof fn law_what_ends_a_connection_is_told_to_all(
    unary: Set<Seq<char>>,
    streams: Set<Seq<char>>,
    v: ResponseView,
    frame: Seq<u8>,
    text: Seq<char>,
)
    ensures
        !(v.id is Text) ==> routed(unary, streams, v) == RouteView::FailAll(
            error_of(-32600, "websocket response id must be a string"@),
        ),
        response_in(frame) matches Err(e) ==> routed_frame(unary, streams, frame)
            == RouteView::FailAll(error_of(-32700, "invalid websocket frame: "@ + e)),
        response_in(frame) matches Ok(r) ==> routed_frame(unary, streams, frame) == routed(
            unary,
            streams,
            r,
        ),
        socket_route(unary, streams, SocketEventView::Text(frame)) == routed_frame(
            unary,
            streams,
            frame,
        ),
        socket_route(unary, streams, SocketEventView::Closed) == RouteView::FailAll(
            error_of(-32004, "websocket connection closed"@),
        ),
        socket_route(unary, streams, SocketEventView::ReadFailed(text)) == RouteView::FailAll(
            error_of(-32603, "websocket read error: "@ + text),
        ),
        socket_route(unary, streams, SocketEventView::Other) == RouteView::Ignore,
{
}

/// A caller waits until its own answer comes, or until all are told the end; nobody
/// begins to wait. A consumer waits until its own stream has ended, or failed, or until
/// all are told the end.
pub proof fn law_those_who_wait_go_on_waiting(
    unary: Set<Seq<char>>,
    streams: Set<Seq<char>>,
    a: RouteView,
    id: Seq<char>,
)
    ensures
        unary_after(unary, a).contains(id) <==> unary.contains(id) && !(a is FailAll)
            && !(a is Answer
            && a->Answer_id == id),
        streams_after(streams, a).contains(id) <==> streams.contains(id) && !(a is FailAll) && !(a
            is StreamError && a->StreamError_id == id) && !(a is End && a->End_id == id),
{
}

/// What cannot be reached is told by its address, and why.
pub proof fn law_addresses_are_named(url: Seq<char>, fault: Seq<char>)
    ensures
        wrong_url(url) == error_of(
            -32600,
            "websocket transport requires ws:// or wss:// URL, got '"@ + url + "'"@,
        ),
        bad_url(url, fault) == error_of(
            -32600,
            "invalid websocket URL '"@ + url + "': "@ + fault,
        ),
        unwritten() == error_of(-32004, "websocket connection is not writable"@),
{
}

/// A frame that holds an envelope is its written form, and is read as that envelope,
/// wherever it can be told from it.
pub proof fn law_frames_hold_envelopes(
    frame: Seq<u8>,
    q: RequestView,
    reply: Seq<u8>,
    r: ResponseView,
)
    requires
        holds_request(frame, q),
        holds_response(reply, r),
    ensures
        json_written(request_json(q)) == Ok::<Seq<u8>, Seq<char>>(frame),
        q.params != Some(Json::Null) && plain_json(request_json(q), depth_limit()) ==> request_in(
            frame,
        ) == Ok::<RequestView, Seq<char>>(q),
        json_written(response_json(r)) == Ok::<Seq<u8>, Seq<char>>(reply),
        r.result != Some(Json::Null) && r.stream_event != Some(Json::Null) && !(r.error is Some
            && r.error->0.data == Some(Json::Null)) && !(r.stream_error is Some
            && r.stream_error->0.data == Some(Json::Null)) && plain_json(
            response_json(r),
            depth_limit(),
        ) ==> response_in(reply) == Ok::<ResponseView, Seq<char>>(r),
{
}

} // verus!
