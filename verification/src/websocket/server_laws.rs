//! What the server half of the WebSocket binding promises: which frames call what,
//! what a call is answered with, and when a connection ends.
use crate::dispatch::{CallView, HandledView, StreamEventView};
use crate::json_value::{depth_limit, json_read, json_written, plain_json, Json};
use crate::protocol::{reported, ErrorView, IdView};
use crate::protojson::{law_finishing_adds_only_a_token, normalized};
use crate::text::{lowered, texts};
use crate::text_map::TextMap;
use crate::websocket::auth::AuthStatus;
use crate::websocket::common::{
    envelope_params, ws_request_in, ws_response_in, ws_response_json, ws_response_whole,
    WsRequestView, WsResponseView,
};
use crate::websocket::errors::ReadFault;
use crate::websocket::server::{
    answer, answer_response, auth_checked, combined, connection_action, dispatch_of, flush_len,
    frame_step, low_params, outs, reads_back, requested, response_bytes, stream_response,
    stream_responses, ws_outcome, AuthCheck, ConnActionView, ConnEventView, DispatchView,
    FrameStepView, OutboundView, WsCallView,
};
use vstd::prelude::*;
use vstd::utf8::encode_utf8;

verus! {

// ---------------------------------------------------------------------------
// What a call comes to.
// ---------------------------------------------------------------------------

/// Whatever the method, what is answered is the value that the handler gave, made ready
/// to be sent: its times are put right, and a page of tasks, which answers `ListTasks`
/// alone, gets a token where it has none.
pub proof fn law_the_value_given_is_answered(method: Seq<char>, j: Json)
    ensures
        ws_outcome(method, HandledView::Value(j)) is Ok,
        method != "ListTasks"@ || !(j is Object) ==> ws_outcome(method, HandledView::Value(j))->Ok_0
            == normalized(j),
        method == "ListTasks"@ && j is Object ==> ws_outcome(method, HandledView::Value(j))->Ok_0
            == (if normalized(j)->Object_0.contains_key("nextPageToken"@) {
            normalized(j)
        } else {
            Json::Object(
                normalized(j)->Object_0.insert("nextPageToken"@, Json::Text(Seq::empty())),
            )
        }),
{
    law_finishing_adds_only_a_token(j, method);
}

/// What a call comes to does not depend on its method, but for pages of tasks.
pub proof fn law_outcomes_do_not_depend_on_the_method(a: Seq<char>, b: Seq<char>, h: HandledView)
    requires
        a == "ListTasks"@ <==> b == "ListTasks"@,
    ensures
        ws_outcome(a, h) == ws_outcome(b, h),
{
}

/// A call that gives no value comes to what its handler says: an empty object where it
/// was done, the error where it failed, and else an error that says what could not be
/// read or written.
pub proof fn law_what_gives_no_value_is_told(method: Seq<char>, text: Seq<char>, e: ErrorView)
    ensures
        ws_outcome(method, HandledView::Done) == Ok::<Json, ErrorView>(Json::Object(Map::empty())),
        ws_outcome(method, HandledView::Failed(e)) == Err::<Json, ErrorView>(e),
        ws_outcome(method, HandledView::Unreadable(text)) == Err::<Json, ErrorView>(
            ErrorView { code: (-32602) as i32, message: text, data: None },
        ),
        ws_outcome(method, HandledView::Unwritable(text)) == Err::<Json, ErrorView>(
            ErrorView {
                code: (-32603) as i32,
                message: "failed to serialize ProtoJSON payload: "@ + text,
                data: None,
            },
        ),
{
}

// ---------------------------------------------------------------------------
// What is sent.
// ---------------------------------------------------------------------------

/// A response is sent as its JSON form is written, wherever that can be written.
pub proof fn law_responses_are_sent_as_written(v: WsResponseView, bytes: Seq<u8>)
    requires
        json_written(ws_response_json(v)) == Ok::<Seq<u8>, Seq<char>>(bytes),
    ensures
        response_bytes(v) == bytes,
{
}

/// A value is answered by one frame, which holds the value and the request's identifier
/// and nothing else.
pub proof fn law_a_value_is_one_frame(id: IdView, j: Json)
    ensures
        answer(id, Ok(j)) == seq![
            OutboundView::Frame(
                response_bytes(
                    WsResponseView {
                        jsonrpc: "2.0"@,
                        id: Some(id),
                        result: Some(j),
                        error: None,
                        stream_end: None,
                        control: None,
                        reason: None,
                        retry_after_ms: None,
                    },
                ),
            ),
        ],
{
}

/// An error is answered by a frame that holds it, as it is reported, and the request's
/// identifier. Only where the request could not be read, or speaks another version, the
/// connection is closed after that, and the error's message is the reason.
pub proof fn law_an_error_is_told_before_the_end(id: IdView, e: ErrorView)
    ensures
        answer(id, Err(e)).len() == (if e.code == -32700 || e.code == -32009 {
            2int
        } else {
            1int
        }),
        answer(id, Err(e))[0] == OutboundView::Frame(
            response_bytes(
                WsResponseView {
                    jsonrpc: "2.0"@,
                    id: Some(id),
                    result: None,
                    error: Some(reported(e)),
                    stream_end: None,
                    control: None,
                    reason: None,
                    retry_after_ms: None,
                },
            ),
        ),
        e.code == -32700 ==> answer(id, Err(e))[1] == (OutboundView::Close {
            code: 1002u16,
            reason: e.message,
        }),
        e.code == -32009 ==> answer(id, Err(e))[1] == (OutboundView::Close {
            code: 4002u16,
            reason: e.message,
        }),
{
}

/// What is sent for an event of a stream carries the request's identifier, and an item as
/// it was given but for its times, or the error as it is reported, or the mark of the
/// end, and nothing else.
pub proof fn law_stream_events_are_told(id: IdView, j: Json, e: ErrorView)
    ensures
        ({
            let bare = WsResponseView {
                jsonrpc: "2.0"@,
                id: Some(id),
                result: None,
                error: None,
                stream_end: None,
                control: None,
                reason: None,
                retry_after_ms: None,
            };
            &&& stream_response(id, StreamEventView::Item(j)) == WsResponseView {
                result: Some(normalized(j)),
                ..bare
            }
            &&& stream_response(id, StreamEventView::Refused(e)) == WsResponseView {
                error: Some(reported(e)),
                ..bare
            }
            &&& stream_response(id, StreamEventView::Failed(e)) == WsResponseView {
                error: Some(reported(e)),
                ..bare
            }
            &&& stream_response(id, StreamEventView::Cancelled) == WsResponseView {
                stream_end: Some(true),
                ..bare
            }
            &&& stream_response(id, StreamEventView::Ended) == WsResponseView {
                stream_end: Some(true),
                ..bare
            }
        }),
{
}

/// Every event of a stream is told in its turn, up to the first that is no item.
pub proof fn law_streams_tell_every_event(id: IdView, events: Seq<StreamEventView>, i: int)
    ensures
        stream_responses(id, events).len() <= events.len(),
        0 <= i < stream_responses(id, events).len() ==> stream_responses(id, events)[i]
            == stream_response(id, events[i]),
        0 <= i < stream_responses(id, events).len() - 1 ==> events[i] is Item,
        stream_responses(id, events).len() < events.len() ==> stream_responses(id, events).len() > 0
            && !(events[stream_responses(id, events).len() - 1] is Item),
    decreases events.len(),
{
    if events.len() > 0 && events[0] is Item {
        let rest = events.drop_first();
        law_streams_tell_every_event(id, rest, i - 1);
        let all = stream_responses(id, events);
        let tail = stream_responses(id, rest);
        assert(all =~= seq![stream_response(id, events[0])] + tail);
        if 0 < i < all.len() {
            assert(all[i] == tail[i - 1]);
            assert(rest[i - 1] == events[i]);
        }
        if tail.len() < rest.len() {
            law_streams_tell_every_event(id, rest, tail.len() - 1);
            assert(rest[tail.len() - 1] == events[all.len() - 1]);
        }
    }
}

/// Of what waits when a connection ends, all is written up to the first frame that
/// closes it, that one too, and all of it where there is none.
pub proof fn law_what_waits_is_written_up_to_a_close(q: Seq<OutboundView>, n: int)
    requires
        0 <= n <= q.len(),
        forall|j: int| 0 <= j < n ==> #[trigger] q[j] is Frame,
    ensures
        n < q.len() && q[n] is Close ==> flush_len(q) == n + 1,
        n == q.len() ==> flush_len(q) == n,
        n <= flush_len(q) <= q.len(),
    decreases q.len(),
{
    if n > 0 {
        let d = q.drop_first();
        assert(q[0] is Frame);
        assert forall|j: int| 0 <= j < n - 1 implies #[trigger] d[j] is Frame by {
            assert(d[j] == q[j + 1]);
        }
        law_what_waits_is_written_up_to_a_close(d, n - 1);
    } else if q.len() > 0 {
        assert(q.drop_first().len() < q.len());
        law_what_waits_is_written_up_to_a_close(q.drop_first(), 0);
    }
}

// ---------------------------------------------------------------------------
// What requests carry.
// ---------------------------------------------------------------------------

/// What an authenticator has found is carried under its name in small letters, with all
/// of its values. Of two names that agree but for case, the later counts; every other
/// name stays as it was.
pub proof fn law_found_params_are_carried_whole(
    e: Seq<(Seq<char>, Vec<String>)>,
    last: (Seq<char>, Vec<String>),
    name: Seq<char>,
)
    ensures
        low_params(Seq::empty()) == Map::<Seq<char>, Seq<Seq<char>>>::empty(),
        low_params(e.push(last)).contains_key(lowered(last.0)),
        low_params(e.push(last))[lowered(last.0)] == texts(last.1@),
        name != lowered(last.0) ==> (low_params(e.push(last)).contains_key(name)
            <==> low_params(e).contains_key(name)) && (low_params(e).contains_key(name)
            ==> low_params(e.push(last))[name] == low_params(e)[name]),
{
    assert(e.push(last).drop_last() =~= e);
}

/// A request that gives no parameters asks for none; else it asks for those that its
/// envelope stands for.
pub proof fn law_requests_ask_for_what_they_give(m: TextMap<String>)
    ensures
        requested(None) == Map::<Seq<char>, Seq<Seq<char>>>::empty(),
        requested(Some(m)) == envelope_params(m.spec_entries()),
{
}

/// Under a name that the authenticator has found, a request carries just what the
/// connection does, whatever the request itself says.
pub proof fn law_found_names_are_the_connections(
    connection: Map<Seq<char>, Seq<Seq<char>>>,
    authenticated: Set<Seq<char>>,
    own: Map<Seq<char>, Seq<Seq<char>>>,
    name: Seq<char>,
)
    requires
        authenticated.contains(name),
    ensures
        combined(connection, authenticated, own).contains_key(name) <==> connection.contains_key(
            name,
        ),
        connection.contains_key(name) ==> combined(connection, authenticated, own)[name]
            == connection[name],
{
}

// ---------------------------------------------------------------------------
// Frames that come in.
// ---------------------------------------------------------------------------

/// A request is taken as it was sent: its identifier, its method, its parameters, which
/// are null where none are given, and its service parameters. Only `Authenticate` does
/// not go to the handler.
pub proof fn law_requests_are_taken_as_sent(v: WsRequestView, id: IdView, method: Seq<char>)
    requires
        v.jsonrpc == "2.0"@,
        v.id == Some(id),
        !(id is Null),
        v.method == Some(method),
        v.cancel_stream != Some(true),
    ensures
        ({
            let params = if v.params is Some {
                v.params->0
            } else {
                Json::Null
            };
            &&& method == "Authenticate"@ ==> frame_step(Ok(v)) == FrameStepView::Authenticate {
                id,
                params,
            }
            &&& method != "Authenticate"@ ==> frame_step(Ok(v)) == FrameStepView::Request(
                WsCallView { id, method, params, service_params: v.service_params },
            )
        }),
{
}

/// A frame that cancels a stream cancels that of its own identifier, whatever else it
/// holds.
pub proof fn law_a_cancel_names_its_stream(v: WsRequestView, id: IdView)
    requires
        v.jsonrpc == "2.0"@,
        v.id == Some(id),
        !(id is Null),
        v.cancel_stream == Some(true),
    ensures
        frame_step(Ok(v)) == (FrameStepView::Cancel { id }),
{
}

/// The frame that tells an error to the request of an identifier.
pub open spec fn told(id: IdView, code: int, message: Seq<char>) -> OutboundView {
    OutboundView::Frame(
        response_bytes(
            WsResponseView {
                jsonrpc: "2.0"@,
                id: Some(id),
                result: None,
                error: Some(reported(ErrorView { code: code as i32, message, data: None })),
                stream_end: None,
                control: None,
                reason: None,
                retry_after_ms: None,
            },
        ),
    )
}

/// A frame that cannot be read is told so and ends the connection.
pub proof fn law_unreadable_frames_end_the_connection(e: Seq<char>)
    ensures
        frame_step(Err(e)) == (FrameStepView::Refuse {
            out: seq![
                told(IdView::Null, -32700, "invalid JSON envelope: "@ + e),
                OutboundView::Close { code: 1002, reason: "JSON parse error"@ },
            ],
            fatal: true,
        }),
{
}

/// A request of another version is told which version it spoke.
pub proof fn law_other_versions_are_declined(v: WsRequestView)
    requires
        v.jsonrpc != "2.0"@,
    ensures
        frame_step(Ok(v)) == (FrameStepView::Refuse {
            out: seq![
                told(
                    if v.id is Some {
                        v.id->0
                    } else {
                        IdView::Null
                    },
                    -32600,
                    "unsupported jsonrpc version: '"@ + v.jsonrpc + "'"@,
                ),
            ],
            fatal: false,
        }),
{
}

/// A request without an identifier, or with a null one, or one that names neither a
/// method nor a stream to cancel, is told what it lacks.
pub proof fn law_incomplete_requests_are_declined(v: WsRequestView)
    requires
        v.jsonrpc == "2.0"@,
        v.id is None || v.id->0 is Null || (v.cancel_stream != Some(true) && v.method is None),
    ensures
        frame_step(Ok(v)) == (FrameStepView::Refuse {
            out: seq![
                if v.id is None {
                    told(IdView::Null, -32600, "request id is required"@)
                } else if v.id->0 is Null {
                    told(IdView::Null, -32600, "request id must not be null"@)
                } else {
                    told(v.id->0, -32600, "method is required"@)
                },
            ],
            fatal: false,
        }),
{
}

/// A request for a known method calls it as it was sent, and those that stream are told
/// from those that do not. Any other is told that there is no such method.
pub proof fn law_known_methods_are_called(c: WsCallView, params: Map<Seq<char>, Seq<Seq<char>>>)
    ensures
        ({
            let call = CallView { id: c.id, method: c.method, params, payload: c.params };
            if c.method == "SendStreamingMessage"@ || c.method == "SubscribeToTask"@ {
                dispatch_of(c, params) == DispatchView::Stream(call)
            } else if c.method == "SendMessage"@ || c.method == "GetTask"@ || c.method
                == "ListTasks"@ || c.method == "CancelTask"@ || c.method
                == "CreateTaskPushNotificationConfig"@ || c.method
                == "GetTaskPushNotificationConfig"@ || c.method
                == "ListTaskPushNotificationConfigs"@ || c.method
                == "DeleteTaskPushNotificationConfig"@ || c.method == "GetExtendedAgentCard"@ {
                dispatch_of(c, params) == DispatchView::Unary(call)
            } else {
                dispatch_of(c, params) == DispatchView::Refuse(
                    told(c.id, -32601, "method not found: "@ + c.method),
                )
            }
        }),
{
    crate::methods::law_methods_are_told_apart(c.method);
}

// ---------------------------------------------------------------------------
// Credentials.
// ---------------------------------------------------------------------------

/// Credentials that hold, or that nobody looks at, let a request go on with nothing said.
pub proof fn law_good_credentials_go_on(
    c: AuthCheck,
    status: Option<AuthStatus>,
    id: IdView,
    before: bool,
    after: bool,
)
    requires
        status is None || status->0 is Valid,
        auth_checked(c, status, id, before, after),
    ensures
        c.proceed,
        !c.close_later,
        c.out.len() == 0,
        after == before,
{
}

/// A peer is asked for new credentials once: the request goes on, and the connection is
/// to be closed later. Where it was asked before, nothing is said again.
pub proof fn law_new_credentials_are_asked_for_once(
    c: AuthCheck,
    reason: String,
    retry_after_ms: u64,
    id: IdView,
    before: bool,
    after: bool,
)
    requires
        auth_checked(
            c,
            Some(AuthStatus::ReauthRequired { reason, retry_after_ms }),
            id,
            before,
            after,
        ),
    ensures
        c.proceed,
        after,
        c.close_later <==> !before,
        before ==> outs(c.out@).len() == 0,
        !before ==> outs(c.out@) == seq![
            OutboundView::Frame(
                response_bytes(
                    WsResponseView {
                        jsonrpc: "2.0"@,
                        id: None,
                        result: None,
                        error: None,
                        stream_end: None,
                        control: Some("ReauthenticationRequired"@),
                        reason: Some(reason@),
                        retry_after_ms: Some(retry_after_ms),
                    },
                ),
            ),
        ],
{
}

/// Credentials that have expired end the connection: the request is told why, and does
/// not go on.
pub proof fn law_expired_credentials_end_the_connection(
    c: AuthCheck,
    reason: String,
    id: IdView,
    before: bool,
    after: bool,
)
    requires
        auth_checked(c, Some(AuthStatus::Expired { reason }), id, before, after),
    ensures
        !c.proceed,
        !c.close_later,
        after == before,
        outs(c.out@) == seq![
            told(id, -32000, reason@),
            OutboundView::Close { code: 4001, reason: "authentication expired or revoked"@ },
        ],
{
}

// ---------------------------------------------------------------------------
// The connection.
// ---------------------------------------------------------------------------

/// What waits is written as it is. A connection goes on after a frame, and ends after a
/// close; so does one that has nothing more to write, or whose peer closes it. Other
/// frames are passed over.
pub proof fn law_what_waits_is_written(bytes: Seq<u8>, code: u16, reason: Seq<char>)
    ensures
        connection_action(ConnEventView::Queued(OutboundView::Frame(bytes)))
            == ConnActionView::Write(OutboundView::Frame(bytes)),
        connection_action(ConnEventView::Queued(OutboundView::Close { code, reason }))
            == ConnActionView::WriteAndStop(OutboundView::Close { code, reason }),
        connection_action(ConnEventView::QueueClosed) == ConnActionView::Stop,
        connection_action(ConnEventView::Close) == ConnActionView::Stop,
        connection_action(ConnEventView::Other) == ConnActionView::Ignore,
        connection_action(ConnEventView::Binary) == ConnActionView::WriteAndStop(
            OutboundView::Close {
                code: 1003,
                reason: "binary frames are reserved for future use"@,
            },
        ),
{
}

/// A text that its peer may not send is not looked at: the peer is told, and the
/// connection ends.
pub proof fn law_too_many_texts_end_the_connection(payload: Seq<u8>)
    ensures
        connection_action(ConnEventView::Text { admitted: false, payload })
            == ConnActionView::FlushAndStop(
            seq![
                told(IdView::Null, -32000, "Rate limit exceeded"@),
                OutboundView::Close { code: 1008, reason: "Rate limit exceeded"@ },
            ],
        ),
{
}

/// A text that its peer may send is handled as what it holds, and ends the connection
/// just where it cannot be read.
pub proof fn law_texts_are_handled(payload: Seq<u8>)
    ensures
        ws_request_in(payload) matches Ok(v) ==> connection_action(
            ConnEventView::Text { admitted: true, payload },
        ) == ConnActionView::Handle(frame_step(Ok(v))),
        ws_request_in(payload) matches Err(e) ==> connection_action(
            ConnEventView::Text { admitted: true, payload },
        ) == ConnActionView::FlushAndStop(
            seq![
                told(IdView::Null, -32700, "invalid JSON envelope: "@ + e),
                OutboundView::Close { code: 1002, reason: "JSON parse error"@ },
            ],
        ),
{
}

/// A connection that cannot be read ends. Its peer is told why, unless it has gone: that
/// its message was too big, or else that it broke the protocol.
pub proof fn law_read_faults_end_the_connection(fault: ReadFault, text: Seq<char>)
    ensures
        connection_action(ConnEventView::ReadFailed { fault, text }) == (if fault
            == ReadFault::ConnectionClosed || fault == ReadFault::UnexpectedEof || fault
            == ReadFault::Broken {
            ConnActionView::Stop
        } else {
            ConnActionView::WriteAndStop(
                OutboundView::Close {
                    code: if fault == ReadFault::FrameTooLarge {
                        1009u16
                    } else {
                        1002u16
                    },
                    reason: text,
                },
            )
        }),
{
}

/// What is sent for what a call came to is its answer, whatever follows it.
pub proof fn law_the_answer_is_sent_first(id: IdView, r: Result<Json, ErrorView>)
    ensures
        answer(id, r)[0] == OutboundView::Frame(response_bytes(answer_response(id, r))),
        answer_response(id, r).id == Some(id),
        r matches Ok(j) ==> answer_response(id, r).result == Some(j),
        r matches Err(e) ==> answer_response(id, r).error == Some(reported(e)),
{
}

/// A response that reads back is read from its bytes as it was, wherever it can be told
/// from them.
pub proof fn law_responses_that_read_back_are_read(v: WsResponseView)
    requires
        reads_back(v),
        ws_response_whole(v),
        plain_json(ws_response_json(v), depth_limit()),
    ensures
        ws_response_in(response_bytes(v)) == Ok::<WsResponseView, Seq<char>>(v),
        json_read(response_bytes(v)) == Ok::<Json, Seq<char>>(ws_response_json(v)),
{
}

/// A response that cannot be written gives way to an error that says so, to the same
/// request, and where that cannot be written either, to one that is written already.
pub proof fn law_unwritable_responses_are_told(v: WsResponseView, e: Seq<char>)
    requires
        json_written(ws_response_json(v)) == Err::<Seq<u8>, Seq<char>>(e),
    ensures
        ({
            let instead = WsResponseView {
                jsonrpc: "2.0"@,
                id: v.id,
                result: None,
                error: Some(
                    reported(
                        ErrorView {
                            code: (-32603) as i32,
                            message: "failed to serialize response: "@ + e,
                            data: None,
                        },
                    ),
                ),
                stream_end: None,
                control: None,
                reason: None,
                retry_after_ms: None,
            };
            match json_written(ws_response_json(instead)) {
                Ok(bytes) => response_bytes(v) == bytes,
                Err(_) => response_bytes(v) == encode_utf8(
                    "{\"jsonrpc\":\"2.0\",\"id\":null,\"error\":{\"code\":-32603,\"message\":\"serialization error\"}}"@,
                ),
            }
        }),
{
}

} // verus!
