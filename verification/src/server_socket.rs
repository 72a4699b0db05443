//! The server of plain WebSocket transport: what is done with each frame.
use crate::dispatch::{
    outcome, unwritable, unwritable_error, unwritable_item_error, Call, CallView, Handled,
    HandledView,
};
use crate::envelope::{
    end_view, error_view, event_view, request_in, request_result, response_json, response_read_in,
    stream_error_view, success_view, RequestView, ResponseView, WebSocketRequestEnvelope,
    WebSocketResponseEnvelope,
};
use crate::error_code;
use crate::json_value::{json_written, model, Json, JsonValue};
use crate::methods::{
    is_streaming, streams, CREATE_PUSH_CONFIG, GET_PUSH_CONFIG, LIST_PUSH_CONFIGS,
};
use crate::params::{copy_params, lists, overlay_onto, ServiceParams};
use crate::protocol::{plain_error, reported, A2AError, ErrorView, IdView, JsonRpcId};
use crate::protojson::{finish_payload, finish_result, finished, is_page};
use crate::text::{joined, same_text};
use crate::websocket::common::JSONRPC_VERSION;
use crate::websocket::endpoint::internal;
use crate::websocket::errors::UNSUPPORTED_DATA;
use crate::websocket::server::or_null;
use vstd::prelude::*;

verus! {

/// What is to be done with a text frame.
#[derive(Debug)]
pub enum SocketStep {
    /// Send this.
    Respond(WebSocketResponseEnvelope),
    /// Make this call, which answers once.
    Unary(Call),
    /// Make this call, which answers with a stream.
    Stream(Call),
}

/// What is to be done with a text frame, in terms of contents.
#[verifier::ext_equal]
pub enum SocketStepView {
    Respond(ResponseView),
    Unary(CallView),
    Stream(CallView),
}

impl View for SocketStep {
    type V = SocketStepView;

    open spec fn view(&self) -> SocketStepView {
        match *self {
            SocketStep::Respond(e) => SocketStepView::Respond(e@),
            SocketStep::Unary(c) => SocketStepView::Unary(c@),
            SocketStep::Stream(c) => SocketStepView::Stream(c@),
        }
    }
}

/// What a call carries: the parameters of its message over those of the
/// connection.
pub open spec fn carries(
    connection: Map<Seq<char>, Seq<Seq<char>>>,
    own: Option<Map<Seq<char>, Seq<Seq<char>>>>,
) -> Map<Seq<char>, Seq<Seq<char>>> {
    match own {
        Some(m) => connection.union_prefer_right(m),
        None => connection,
    }
}

/// What is to be done with an envelope, or with a frame that holds none, on a
/// connection with these parameters.
pub open spec fn socket_step(
    r: Result<RequestView, Seq<char>>,
    connection: Map<Seq<char>, Seq<Seq<char>>>,
) -> SocketStepView {
    match r {
        Err(e) => SocketStepView::Respond(
            error_view(
                IdView::Null,
                reported(plain_error(error_code::PARSE_ERROR, "invalid websocket frame: "@ + e)),
            ),
        ),
        Ok(v) => if v.jsonrpc != JSONRPC_VERSION@ {
            SocketStepView::Respond(
                error_view(
                    v.id,
                    reported(plain_error(error_code::INVALID_REQUEST, "invalid jsonrpc version"@)),
                ),
            )
        } else {
            let call = CallView {
                id: v.id,
                method: v.method,
                params: carries(connection, v.service_params),
                payload: or_null(v.params),
            };
            if streams(v.method) {
                SocketStepView::Stream(call)
            } else {
                SocketStepView::Unary(call)
            }
        },
    }
}

/// What is to be done with an envelope, or with a frame that holds none.
pub fn handle_envelope(
    read: Result<WebSocketRequestEnvelope, String>,
    connection_params: &ServiceParams,
) -> (r: SocketStep)
    ensures
        r@ == socket_step(request_result(read), lists(connection_params@)),
{
    let request = match read {
        Ok(q) => q,
        Err(e) => {
            let text = joined("invalid websocket frame: ", e.as_str());
            return SocketStep::Respond(
                WebSocketResponseEnvelope::error(
                    JsonRpcId::Null,
                    A2AError::parse_error(text.as_str()).to_jsonrpc_error(),
                ),
            );
        },
    };
    if !same_text(request.jsonrpc.as_str(), JSONRPC_VERSION) {
        return SocketStep::Respond(
            WebSocketResponseEnvelope::error(
                request.id,
                A2AError::invalid_request("invalid jsonrpc version").to_jsonrpc_error(),
            ),
        );
    }
    let mut params = copy_params(connection_params);
    if let Some(own) = &request.service_params {
        overlay_onto(&mut params, own);
    }
    let payload = match request.params {
        Some(p) => p,
        None => JsonValue::Null,
    };
    let streaming = is_streaming(request.method.as_str());
    let call = Call { id: request.id, method: request.method, params, payload };
    if streaming {
        SocketStep::Stream(call)
    } else {
        SocketStep::Unary(call)
    }
}

/// What is to be done with a text frame.
pub fn handle_text_frame(frame: &[u8], connection_params: &ServiceParams) -> (r: SocketStep)
    ensures
        r@ == socket_step(request_in(frame@), lists(connection_params@)),
{
    handle_envelope(WebSocketRequestEnvelope::from_slice(frame), connection_params)
}

/// The parameters of a message win over those of its connection; the others
/// stay.
pub proof fn law_message_params_win(
    connection: Map<Seq<char>, Seq<Seq<char>>>,
    own: Map<Seq<char>, Seq<Seq<char>>>,
    name: Seq<char>,
)
    ensures
        own.contains_key(name) ==> carries(connection, Some(own)).contains_key(name) && carries(
            connection,
            Some(own),
        )[name] == own[name],
        !own.contains_key(name) && connection.contains_key(name) ==> carries(
            connection,
            Some(own),
        ).contains_key(name) && carries(connection, Some(own))[name] == connection[name],
{
}

/// Whether a frame holds an envelope, and reads as that envelope.
pub open spec fn holds_response(frame: Seq<u8>, e: ResponseView) -> bool {
    json_written(response_json(e)) == Ok::<Seq<u8>, Seq<char>>(frame) && response_read_in(frame, e)
}

/// The text frame of a response.
pub fn encode_response(response: &WebSocketResponseEnvelope) -> (r: Result<Vec<u8>, A2AError>)
    ensures
        r is Ok,
        match r {
            Ok(b) => holds_response(b@, response@),
            Err(e) => json_written(response_json(response@)) matches Err(m) && e@ == internal(
                "failed to serialize websocket frame: "@ + m,
            ),
        },
{
    match response.to_vec() {
        Ok(b) => Ok(b),
        Err(e) => Err(
            A2AError::internal(
                joined("failed to serialize websocket frame: ", e.as_str()).as_str(),
            ),
        ),
    }
}

/// The error for a response that nobody is there to send.
pub fn output_closed() -> (r: A2AError)
    ensures
        r@ == plain_error(
            error_code::UNSUPPORTED_OPERATION,
            "websocket output channel is closed"@,
        ),
{
    A2AError::unsupported_operation("websocket output channel is closed")
}

// ---------------------------------------------------------------------------
// Answers.
// ---------------------------------------------------------------------------

/// Whether what a method answers with has a form of its own: a push configuration,
/// or a list of them, goes out as it was made.
pub open spec fn own_form(method: Seq<char>) -> bool {
    method == CREATE_PUSH_CONFIG@ || method == GET_PUSH_CONFIG@ || method == LIST_PUSH_CONFIGS@
}

/// What a call of a method comes to. A result is made ready to be sent, unless it has
/// a form of its own.
pub open spec fn socket_outcome(method: Seq<char>, h: HandledView) -> Result<Json, ErrorView> {
    match h {
        HandledView::Unreadable(e) => Err(plain_error(error_code::INVALID_PARAMS, e)),
        HandledView::Failed(e) => Err(e),
        HandledView::Done => Ok(Json::Null),
        HandledView::Value(j) => if own_form(method) {
            Ok(j)
        } else {
            Ok(finished(j, is_page(method)))
        },
        HandledView::Unwritable(e) => Err(unwritable(e)),
    }
}

/// What a call of a method comes to.
pub fn finish_unary(method: &str, h: Handled) -> (r: Result<JsonValue, A2AError>)
    ensures
        outcome(r) == socket_outcome(method@, h@),
{
    match h {
        Handled::Unreadable(e) => Err(A2AError::invalid_params(e.as_str())),
        Handled::Failed(e) => Err(e),
        Handled::Done => Ok(JsonValue::Null),
        Handled::Value(v) => if same_text(method, CREATE_PUSH_CONFIG) || same_text(
            method,
            GET_PUSH_CONFIG,
        ) || same_text(method, LIST_PUSH_CONFIGS) {
            Ok(v)
        } else {
            Ok(finish_result(method, v))
        },
        Handled::Unwritable(e) => Err(unwritable_error(e.as_str())),
    }
}

/// A push configuration, which may be in one of two forms: the first that can be
/// read counts, and if neither can, both errors are told.
pub fn read_push_config<T>(flat: Result<T, String>, nested: Result<T, String>) -> (r: Result<
    T,
    String,
>)
    ensures
        match (flat, nested) {
            (Ok(v), _) => r == Ok::<T, String>(v),
            (Err(_), Ok(v)) => r == Ok::<T, String>(v),
            (Err(a), Err(b)) => r matches Err(e) && e@ == a@ + "; nested request parse failed: "@
                + b@,
        },
{
    match flat {
        Ok(v) => Ok(v),
        Err(a) => match nested {
            Ok(v) => Ok(v),
            Err(b) => {
                let head = joined(a.as_str(), "; nested request parse failed: ");
                Err(joined(head.as_str(), b.as_str()))
            },
        },
    }
}

/// The answer to a call.
pub open spec fn answer_view(id: IdView, r: Result<Json, ErrorView>) -> ResponseView {
    match r {
        Ok(j) => success_view(id, j),
        Err(e) => error_view(id, reported(e)),
    }
}

/// The answer to a call.
pub fn unary_response(id: JsonRpcId, result: Result<JsonValue, A2AError>) -> (r:
    WebSocketResponseEnvelope)
    ensures
        r@ == answer_view(id@, outcome(result)),
{
    match result {
        Ok(v) => WebSocketResponseEnvelope::success(id, v),
        Err(e) => WebSocketResponseEnvelope::error(id, e.to_jsonrpc_error()),
    }
}

/// What happens to a stream.
#[derive(Debug)]
pub enum SocketStreamEvent {
    /// The call could not be started.
    Refused(A2AError),
    /// It gave an item.
    Item(JsonValue),
    /// It gave an item that cannot be written.
    Unwritable(String),
    /// It failed.
    Failed(A2AError),
    /// It has no more items.
    Ended,
}

/// What happens to a stream, in terms of contents.
pub enum SocketStreamView {
    Refused(ErrorView),
    Item(Json),
    Unwritable(Seq<char>),
    Failed(ErrorView),
    Ended,
}

impl View for SocketStreamEvent {
    type V = SocketStreamView;

    open spec fn view(&self) -> SocketStreamView {
        match *self {
            SocketStreamEvent::Refused(e) => SocketStreamView::Refused(e@),
            SocketStreamEvent::Item(v) => SocketStreamView::Item(model(v)),
            SocketStreamEvent::Unwritable(e) => SocketStreamView::Unwritable(e@),
            SocketStreamEvent::Failed(e) => SocketStreamView::Failed(e@),
            SocketStreamEvent::Ended => SocketStreamView::Ended,
        }
    }
}

/// What is sent for an event of a stream. An item is made ready to be sent.
pub open spec fn stream_view(id: IdView, e: SocketStreamView) -> ResponseView {
    match e {
        SocketStreamView::Refused(error) => error_view(id, reported(error)),
        SocketStreamView::Item(j) => event_view(id, finished(j, false)),
        SocketStreamView::Unwritable(e) => stream_error_view(
            id,
            reported(crate::dispatch::unwritable_item(e)),
        ),
        SocketStreamView::Failed(error) => stream_error_view(id, reported(error)),
        SocketStreamView::Ended => end_view(id),
    }
}

/// What is sent for an event of a stream, and whether the stream goes on.
pub fn stream_step(id: &JsonRpcId, event: SocketStreamEvent) -> (r: (WebSocketResponseEnvelope, bool))
    ensures
        r.0@ == stream_view(id@, event@),
        r.1 == (event@ is Item),
{
    let id = id.clone();
    match event {
        SocketStreamEvent::Refused(e) => (
            WebSocketResponseEnvelope::error(id, e.to_jsonrpc_error()),
            false,
        ),
        SocketStreamEvent::Item(v) => (
            WebSocketResponseEnvelope::stream_event(id, finish_payload(v)),
            true,
        ),
        SocketStreamEvent::Unwritable(e) => (
            WebSocketResponseEnvelope::stream_error(
                id,
                unwritable_item_error(e.as_str()).to_jsonrpc_error(),
            ),
            false,
        ),
        SocketStreamEvent::Failed(e) => (
            WebSocketResponseEnvelope::stream_error(id, e.to_jsonrpc_error()),
            false,
        ),
        SocketStreamEvent::Ended => (WebSocketResponseEnvelope::stream_end(id), false),
    }
}

/// Everything that is sent for the events of a stream, up to its end.
pub open spec fn stream_views(id: IdView, events: Seq<SocketStreamView>) -> Seq<ResponseView>
    decreases events.len(),
{
    if events.len() == 0 {
        Seq::empty()
    } else {
        let first = seq![stream_view(id, events[0])];
        if events[0] is Item {
            first + stream_views(id, events.drop_first())
        } else {
            first
        }
    }
}

/// Every response of a stream has the identifier of its request, and all but the
/// last are events: a stream ends once.
pub proof fn law_a_stream_ends_once(id: IdView, events: Seq<SocketStreamView>, i: int)
    requires
        0 <= i < stream_views(id, events).len(),
    ensures
        stream_views(id, events)[i].id == id,
        i < stream_views(id, events).len() - 1 ==> stream_views(id, events)[i].stream_event is Some
            && stream_views(id, events)[i].stream_end is None,
    decreases events.len(),
{
    if i > 0 {
        let rest = events.drop_first();
        law_a_stream_ends_once(id, rest, i - 1);
        assert(stream_views(id, events)[i] == stream_views(id, rest)[i - 1]);
    }
}

// ---------------------------------------------------------------------------
// The connection.
// ---------------------------------------------------------------------------

/// A frame that came, or that none will come.
#[derive(Debug, Clone, Copy, PartialEq, Eq, Structural)]
pub enum FrameKind {
    Text,
    Binary,
    Close,
    Other,
    Broken,
}

/// What is to be done with it.
#[derive(Debug)]
pub enum SocketAction {
    /// Nothing.
    Ignore,
    /// Look at its text.
    Handle,
    /// End the connection, with this code and reason, if any.
    Stop(Option<(u16, String)>),
}

/// What is to be done with a frame that came: binary frames end the connection.
pub fn serve_step(kind: FrameKind) -> (r: SocketAction)
    ensures
        match kind {
            FrameKind::Text => r is Handle,
            FrameKind::Other => r is Ignore,
            FrameKind::Binary => r matches SocketAction::Stop(Some((code, reason))) && code
                == UNSUPPORTED_DATA && reason@ == "binary websocket frames are not supported"@,
            _ => r == SocketAction::Stop(None),
        },
{
    match kind {
        FrameKind::Text => SocketAction::Handle,
        FrameKind::Other => SocketAction::Ignore,
        FrameKind::Binary => SocketAction::Stop(
            Some((UNSUPPORTED_DATA, "binary websocket frames are not supported".to_owned())),
        ),
        FrameKind::Close | FrameKind::Broken => SocketAction::Stop(None),
    }
}

} // verus!
