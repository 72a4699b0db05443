//! The client of plain WebSocket transport: what it sends, and who gets each
//! frame that comes back.
use crate::dispatch::outcome;
use crate::envelope::{
    request_json, request_read_in, response_in, RequestView, ResponseView, WebSocketRequestEnvelope,
    WebSocketResponseEnvelope,
};
use crate::error_code;
use crate::ids::fresh_id;
use crate::json_value::{json_written, model, Json, JsonValue};
use crate::methods::CREATE_PUSH_CONFIG;
use crate::params::{copy_params, lists, ServiceParams};
use crate::protocol::{plain_error, A2AError, ErrorView, IdView, JsonRpcId};
use crate::protojson::{finish_payload, finished};
use crate::text::{joined, same_text, starts_with};
use crate::text_map::TextMap;
use crate::websocket::common::{JSONRPC_VERSION, TRANSPORT_PROTOCOL_WEBSOCKET};
use crate::websocket::endpoint::internal;
use vstd::prelude::*;

verus! {

// ---------------------------------------------------------------------------
// Asking for a connection.
// ---------------------------------------------------------------------------

/// Makes connections for interfaces of this transport.
#[derive(Debug)]
pub struct WebSocketTransportFactory;

/// The error for an interface that does not lead to a WebSocket.
pub open spec fn wrong_url(url: Seq<char>) -> ErrorView {
    plain_error(
        error_code::INVALID_REQUEST,
        "websocket transport requires ws:// or wss:// URL, got '"@ + url + "'"@,
    )
}

impl WebSocketTransportFactory {
    /// A factory.
    pub fn new() -> (r: Self)
        ensures
            r == WebSocketTransportFactory,
    {
        WebSocketTransportFactory
    }

    /// The binding of the interfaces that this makes connections for.
    pub fn protocol(&self) -> (r: &'static str)
        ensures
            r@ == TRANSPORT_PROTOCOL_WEBSOCKET@,
    {
        TRANSPORT_PROTOCOL_WEBSOCKET
    }

    /// Whether an interface leads to a WebSocket.
    pub fn check_url(&self, url: &str) -> (r: Result<(), A2AError>)
        ensures
            match r {
                Ok(_) => "ws://"@.is_prefix_of(url@) || "wss://"@.is_prefix_of(url@),
                Err(e) => !"ws://"@.is_prefix_of(url@) && !"wss://"@.is_prefix_of(url@) && e@
                    == wrong_url(url@),
            },
    {
        if starts_with(url, "ws://") || starts_with(url, "wss://") {
            Ok(())
        } else {
            let a = joined("websocket transport requires ws:// or wss:// URL, got '", url);
            Err(A2AError::invalid_request(joined(a.as_str(), "'").as_str()))
        }
    }
}

impl Default for WebSocketTransportFactory {
    fn default() -> (r: Self)
        ensures
            r == WebSocketTransportFactory,
    {
        WebSocketTransportFactory::new()
    }
}

/// What is wrong with an address that no WebSocket request can be made for.
pub uninterp spec fn url_fault(url: Seq<char>) -> Option<Seq<char>>;

/// Whether a WebSocket request can be made for an address.
///
/// Calls `IntoClientRequest::into_client_request` of tungstenite on the address. It
/// splits the address into its parts and builds the request for them. The request
/// holds a random key, so it is dropped here. Whether there is one, and the text of
/// the error where there is none, depend on the address alone.
#[verifier::external_body]
fn read_url(url: &str) -> (r: Result<(), String>)
    ensures
        match r {
            Ok(_) => url_fault(url@) is None,
            Err(e) => url_fault(url@) == Some(e@),
        },
{
    match tokio_tungstenite::tungstenite::client::IntoClientRequest::into_client_request(url) {
        Ok(_) => Ok(()),
        Err(e) => Err(e.to_string()),
    }
}

/// The error for an address that no WebSocket request can be made for.
pub open spec fn bad_url(url: Seq<char>, fault: Seq<char>) -> ErrorView {
    plain_error(
        error_code::INVALID_REQUEST,
        "invalid websocket URL '"@ + url + "': "@ + fault,
    )
}

/// The error for an address that no WebSocket request can be made for, given what is
/// wrong with it.
pub fn invalid_url(url: &str, fault: &str) -> (r: A2AError)
    ensures
        r@ == bad_url(url@, fault@),
{
    let a = joined("invalid websocket URL '", url);
    let b = joined(a.as_str(), "': ");
    A2AError::invalid_request(joined(b.as_str(), fault).as_str())
}

/// Whether a connection to an address can be asked for.
pub fn check_client_url(url: &str) -> (r: Result<(), A2AError>)
    ensures
        match r {
            Ok(_) => url_fault(url@) is None,
            Err(e) => url_fault(url@) matches Some(fault) && e@ == bad_url(url@, fault),
        },
{
    match read_url(url) {
        Ok(_) => Ok(()),
        Err(fault) => Err(invalid_url(url, fault.as_str())),
    }
}

// ---------------------------------------------------------------------------
// Requests.
// ---------------------------------------------------------------------------

/// The envelope of a call. Service parameters are carried only where there are
/// any.
pub open spec fn call_view(
    id: Seq<char>,
    method: Seq<char>,
    payload: Json,
    params: Map<Seq<char>, Seq<Seq<char>>>,
) -> RequestView {
    RequestView {
        jsonrpc: JSONRPC_VERSION@,
        id: IdView::Text(id),
        method,
        params: Some(payload),
        service_params: if params =~= Map::<Seq<char>, Seq<Seq<char>>>::empty() {
            None
        } else {
            Some(params)
        },
    }
}

/// The envelope of a call.
pub fn call_envelope(id: &str, method: &str, service_params: &ServiceParams, payload: JsonValue) -> (r:
    WebSocketRequestEnvelope)
    ensures
        r@ == call_view(id@, method@, model(payload), lists(service_params@)),
{
    let carried = if service_params.is_empty() {
        assert(lists(service_params@) =~= Map::<Seq<char>, Seq<Seq<char>>>::empty());
        None
    } else {
        proof {
            assert(!(service_params@ =~= Map::<Seq<char>, Vec<String>>::empty()));
            let k = choose|k: Seq<char>| service_params@.contains_key(k);
            assert(service_params@.contains_key(k));
            assert(lists(service_params@).contains_key(k));
        }
        Some(copy_params(service_params))
    };
    WebSocketRequestEnvelope::new(JsonRpcId::Text(id.to_owned()), method, Some(payload), carried)
}

/// Whether a frame holds an envelope, and reads as that envelope.
pub open spec fn holds_request(frame: Seq<u8>, e: RequestView) -> bool {
    json_written(request_json(e)) == Ok::<Seq<u8>, Seq<char>>(frame) && request_read_in(frame, e)
}

/// The text frame of an envelope.
pub fn encode(envelope: &WebSocketRequestEnvelope) -> (r: Result<Vec<u8>, A2AError>)
    ensures
        r is Ok,
        match r {
            Ok(b) => holds_request(b@, envelope@),
            Err(e) => json_written(request_json(envelope@)) matches Err(m) && e@ == internal(
                "failed to serialize websocket frame: "@ + m,
            ),
        },
{
    match envelope.to_vec() {
        Ok(b) => Ok(b),
        Err(e) => Err(
            A2AError::internal(
                joined("failed to serialize websocket frame: ", e.as_str()).as_str(),
            ),
        ),
    }
}

/// The payload of a call of a method as it is sent: ready, but for a new push
/// configuration, which has a form of its own and goes out as it was made.
pub open spec fn payload_sent(method: Seq<char>, payload: Json) -> Json {
    if method == CREATE_PUSH_CONFIG@ {
        payload
    } else {
        finished(payload, false)
    }
}

fn ready_payload(method: &str, payload: JsonValue) -> (r: JsonValue)
    ensures
        model(r) == payload_sent(method@, model(payload)),
{
    if same_text(method, CREATE_PUSH_CONFIG) {
        payload
    } else {
        finish_payload(payload)
    }
}

/// The payload of a call, or why it cannot be written.
pub fn request_payload(payload: Result<JsonValue, String>) -> (r: Result<JsonValue, A2AError>)
    ensures
        match payload {
            Ok(v) => r == Ok::<JsonValue, A2AError>(v),
            Err(e) => r matches Err(x) && x@ == internal(
                "failed to serialize request as ProtoJSON: "@ + e@,
            ),
        },
{
    match payload {
        Ok(v) => Ok(v),
        Err(e) => Err(
            A2AError::internal(
                joined("failed to serialize request as ProtoJSON: ", e.as_str()).as_str(),
            ),
        ),
    }
}

/// What a call comes to, once its answer was read: what was read from it, or why
/// it cannot be read, or the error that it was answered with.
pub fn read_answer<T>(answer: Result<Result<T, String>, A2AError>) -> (r: Result<T, A2AError>)
    ensures
        match answer {
            Ok(Ok(v)) => r == Ok::<T, A2AError>(v),
            Ok(Err(e)) => r matches Err(x) && x@ == internal("failed to deserialize result: "@ + e@),
            Err(e) => r == Err::<T, A2AError>(e),
        },
{
    match answer {
        Ok(Ok(v)) => Ok(v),
        Ok(Err(e)) => Err(
            A2AError::internal(joined("failed to deserialize result: ", e.as_str()).as_str()),
        ),
        Err(e) => Err(e),
    }
}

/// The error for a frame that cannot be sent.
pub open spec fn unwritten() -> ErrorView {
    plain_error(error_code::UNSUPPORTED_OPERATION, "websocket connection is not writable"@)
}

/// The error for a frame that cannot be sent.
pub fn not_writable() -> (r: A2AError)
    ensures
        r@ == unwritten(),
{
    A2AError::unsupported_operation("websocket connection is not writable")
}

/// The error for an answer that will not come.
pub fn answer_lost() -> (r: A2AError)
    ensures
        r@ == plain_error(
            error_code::UNSUPPORTED_OPERATION,
            "websocket response channel closed"@,
        ),
{
    A2AError::unsupported_operation("websocket response channel closed")
}

// ---------------------------------------------------------------------------
// Who gets what.
// ---------------------------------------------------------------------------

/// What is to be done with a frame.
#[derive(Debug)]
pub enum Route {
    /// Nothing.
    Ignore,
    /// Hand this event to the consumer of the stream of this request, if it can
    /// be read. If not, nothing is to be read from the connection any more.
    Event { id: String, event: JsonValue, waiting: bool },
    /// Hand this error to the consumer of the stream of this request, who no
    /// longer waits.
    StreamError { id: String, error: A2AError },
    /// End the stream of this request.
    End { id: String },
    /// Hand this to the caller of this request, who no longer waits.
    Answer { id: String, result: Result<JsonValue, A2AError> },
    /// Hand this to everyone who still waits: nothing is to be read from the
    /// connection any more.
    FailAll(A2AError),
}

/// What is to be done with a frame, in terms of contents.
#[verifier::ext_equal]
pub enum RouteView {
    Ignore,
    Event { id: Seq<char>, event: Json, waiting: bool },
    StreamError { id: Seq<char>, error: ErrorView },
    End { id: Seq<char> },
    Answer { id: Seq<char>, result: Result<Json, ErrorView> },
    FailAll(ErrorView),
}

impl View for Route {
    type V = RouteView;

    open spec fn view(&self) -> RouteView {
        match *self {
            Route::Ignore => RouteView::Ignore,
            Route::Event { id, event, waiting } => RouteView::Event {
                id: id@,
                event: model(event),
                waiting,
            },
            Route::StreamError { id, error } => RouteView::StreamError { id: id@, error: error@ },
            Route::End { id } => RouteView::End { id: id@ },
            Route::Answer { id, result } => RouteView::Answer { id: id@, result: outcome(result) },
            Route::FailAll(e) => RouteView::FailAll(e@),
        }
    }
}

/// What is to be done with an envelope, where these wait.
pub open spec fn routed(unary: Set<Seq<char>>, streams: Set<Seq<char>>, v: ResponseView) ->
    RouteView {
    match v.id {
        IdView::Text(id) => if v.stream_event is Some {
            RouteView::Event { id, event: v.stream_event->0, waiting: streams.contains(id) }
        } else if v.stream_error is Some {
            if streams.contains(id) {
                RouteView::StreamError {
                    id,
                    error: plain_error(v.stream_error->0.code, v.stream_error->0.message),
                }
            } else {
                RouteView::Ignore
            }
        } else if v.stream_end == Some(true) {
            if streams.contains(id) {
                RouteView::End { id }
            } else {
                RouteView::Ignore
            }
        } else if !unary.contains(id) {
            RouteView::Ignore
        } else {
            match v.error {
                Some(e) => RouteView::Answer { id, result: Err(plain_error(e.code, e.message)) },
                None => RouteView::Answer {
                    id,
                    result: Ok(
                        match v.result {
                            Some(j) => j,
                            None => Json::Null,
                        },
                    ),
                },
            }
        },
        _ => RouteView::FailAll(
            plain_error(error_code::INVALID_REQUEST, "websocket response id must be a string"@),
        ),
    }
}

/// What is to be done with a text frame, where these wait.
pub open spec fn routed_frame(unary: Set<Seq<char>>, streams: Set<Seq<char>>, frame: Seq<u8>) ->
    RouteView {
    match response_in(frame) {
        Err(e) => RouteView::FailAll(
            plain_error(error_code::PARSE_ERROR, "invalid websocket frame: "@ + e),
        ),
        Ok(v) => routed(unary, streams, v),
    }
}

/// The callers that still wait.
pub open spec fn unary_after(unary: Set<Seq<char>>, a: RouteView) -> Set<Seq<char>> {
    match a {
        RouteView::Answer { id, result } => unary.remove(id),
        RouteView::FailAll(_) => Set::empty(),
        _ => unary,
    }
}

/// The consumers that still wait.
pub open spec fn streams_after(streams: Set<Seq<char>>, a: RouteView) -> Set<Seq<char>> {
    match a {
        RouteView::StreamError { id, error } => streams.remove(id),
        RouteView::End { id } => streams.remove(id),
        RouteView::FailAll(_) => Set::empty(),
        _ => streams,
    }
}

/// What happens on a connection.
#[derive(Debug)]
pub enum SocketEvent {
    /// A text frame came.
    Text(Vec<u8>),
    /// The server closes the connection, or it has ended.
    Closed,
    /// Another frame came.
    Other,
    /// Reading failed, with this text.
    ReadFailed(String),
}

/// What happens on a connection, in terms of contents.
pub enum SocketEventView {
    Text(Seq<u8>),
    Closed,
    Other,
    ReadFailed(Seq<char>),
}

impl View for SocketEvent {
    type V = SocketEventView;

    open spec fn view(&self) -> SocketEventView {
        match *self {
            SocketEvent::Text(b) => SocketEventView::Text(b@),
            SocketEvent::Closed => SocketEventView::Closed,
            SocketEvent::Other => SocketEventView::Other,
            SocketEvent::ReadFailed(e) => SocketEventView::ReadFailed(e@),
        }
    }
}

/// What is to be done about what happens on a connection.
pub open spec fn socket_route(unary: Set<Seq<char>>, streams: Set<Seq<char>>, e: SocketEventView) ->
    RouteView {
    match e {
        SocketEventView::Text(b) => routed_frame(unary, streams, b),
        SocketEventView::Closed => RouteView::FailAll(
            plain_error(error_code::UNSUPPORTED_OPERATION, "websocket connection closed"@),
        ),
        SocketEventView::Other => RouteView::Ignore,
        SocketEventView::ReadFailed(e) => RouteView::FailAll(
            internal("websocket read error: "@ + e),
        ),
    }
}

/// Who waits on a connection.
#[derive(Debug)]
pub struct WebSocketConnection {
    pending_unary: TextMap<bool>,
    pending_streams: TextMap<bool>,
}

impl WebSocketConnection {
    /// The requests whose callers wait.
    pub closed spec fn unary(&self) -> Set<Seq<char>> {
        self.pending_unary@.dom()
    }

    /// The requests whose streams are open.
    pub closed spec fn streams(&self) -> Set<Seq<char>> {
        self.pending_streams@.dom()
    }

    /// A connection at its start.
    pub fn new() -> (r: Self)
        ensures
            r.unary() == Set::<Seq<char>>::empty(),
            r.streams() == Set::<Seq<char>>::empty(),
    {
        let r = WebSocketConnection {
            pending_unary: TextMap::new(),
            pending_streams: TextMap::new(),
        };
        assert(r.unary() =~= Set::<Seq<char>>::empty());
        assert(r.streams() =~= Set::<Seq<char>>::empty());
        r
    }

    /// Whether a caller waits for a request.
    pub fn has_unary(&self, id: &str) -> (r: bool)
        ensures
            r == self.unary().contains(id@),
    {
        self.pending_unary.contains_key(id)
    }

    /// Whether the stream of a request is open.
    pub fn has_stream(&self, id: &str) -> (r: bool)
        ensures
            r == self.streams().contains(id@),
    {
        self.pending_streams.contains_key(id)
    }

    /// Notes that a caller waits for a request.
    pub fn register_unary(&mut self, id: &str)
        ensures
            final(self).unary() == old(self).unary().insert(id@),
            final(self).streams() == old(self).streams(),
    {
        self.pending_unary.insert(id.to_owned(), true);
        assert(self.unary() =~= old(self).unary().insert(id@));
    }

    /// Notes that the stream of a request is open.
    pub fn register_stream(&mut self, id: &str)
        ensures
            final(self).streams() == old(self).streams().insert(id@),
            final(self).unary() == old(self).unary(),
    {
        self.pending_streams.insert(id.to_owned(), true);
        assert(self.streams() =~= old(self).streams().insert(id@));
    }

    /// Starts a call that answers once: its caller waits from now on. What comes
    /// back is its identifier and the frame that asks for it.
    pub fn start_unary(
        &mut self,
        method: &str,
        service_params: &ServiceParams,
        payload: JsonValue,
    ) -> (r: (String, Result<Vec<u8>, A2AError>))
        ensures
            r.0@.len() == 36,
            r.1 is Ok,
            holds_request(
                r.1->Ok_0@,
                call_view(
                    r.0@,
                    method@,
                    payload_sent(method@, model(payload)),
                    lists(service_params@),
                ),
            ),
            final(self).unary() == old(self).unary().insert(r.0@),
            final(self).streams() == old(self).streams(),
    {
        let id = fresh_id();
        self.register_unary(id.as_str());
        let payload = ready_payload(method, payload);
        let envelope = call_envelope(id.as_str(), method, service_params, payload);
        (id, encode(&envelope))
    }

    /// Starts a call that answers with a stream: its consumer waits from now on.
    /// What comes back is its identifier and the frame that asks for it.
    pub fn start_stream(
        &mut self,
        method: &str,
        service_params: &ServiceParams,
        payload: JsonValue,
    ) -> (r: (String, Result<Vec<u8>, A2AError>))
        ensures
            r.0@.len() == 36,
            r.1 is Ok,
            holds_request(
                r.1->Ok_0@,
                call_view(
                    r.0@,
                    method@,
                    payload_sent(method@, model(payload)),
                    lists(service_params@),
                ),
            ),
            final(self).streams() == old(self).streams().insert(r.0@),
            final(self).unary() == old(self).unary(),
    {
        let id = fresh_id();
        self.register_stream(id.as_str());
        let payload = ready_payload(method, payload);
        let envelope = call_envelope(id.as_str(), method, service_params, payload);
        (id, encode(&envelope))
    }

    /// Notes that a request could not be sent.
    pub fn unregister_unary(&mut self, id: &str)
        ensures
            final(self).unary() == old(self).unary().remove(id@),
            final(self).streams() == old(self).streams(),
    {
        let _ = self.pending_unary.remove(id);
        assert(self.unary() =~= old(self).unary().remove(id@));
    }

    /// Notes that the stream of a request is not open: it could not be asked
    /// for, or its consumer has left.
    pub fn unregister_stream(&mut self, id: &str)
        ensures
            final(self).streams() == old(self).streams().remove(id@),
            final(self).unary() == old(self).unary(),
    {
        let _ = self.pending_streams.remove(id);
        assert(self.streams() =~= old(self).streams().remove(id@));
    }

    /// What a call that answers once comes to when its frame was handed on: where
    /// that failed, nobody waits any more.
    pub fn unary_sent(&mut self, id: &str, written: bool) -> (r: Result<(), A2AError>)
        ensures
            final(self).streams() == old(self).streams(),
            match r {
                Ok(_) => written && final(self).unary() == old(self).unary(),
                Err(e) => !written && e@ == unwritten() && final(self).unary()
                    == old(self).unary().remove(id@),
            },
    {
        if written {
            Ok(())
        } else {
            self.unregister_unary(id);
            Err(not_writable())
        }
    }

    /// What a call that answers with a stream comes to when its frame was handed on:
    /// where that failed, nobody waits any more.
    pub fn stream_sent(&mut self, id: &str, written: bool) -> (r: Result<(), A2AError>)
        ensures
            final(self).unary() == old(self).unary(),
            match r {
                Ok(_) => written && final(self).streams() == old(self).streams(),
                Err(e) => !written && e@ == unwritten() && final(self).streams()
                    == old(self).streams().remove(id@),
            },
    {
        if written {
            Ok(())
        } else {
            self.unregister_stream(id);
            Err(not_writable())
        }
    }

    /// Hands an error to everyone who waits.
    pub fn fail_all_pending(&mut self, error: A2AError) -> (r: Route)
        ensures
            r@ == RouteView::FailAll(error@),
            final(self).unary() == Set::<Seq<char>>::empty(),
            final(self).streams() == Set::<Seq<char>>::empty(),
    {
        self.pending_unary = TextMap::new();
        self.pending_streams = TextMap::new();
        assert(self.unary() =~= Set::<Seq<char>>::empty());
        assert(self.streams() =~= Set::<Seq<char>>::empty());
        Route::FailAll(error)
    }

    /// What is to be done with an envelope.
    pub fn route(&mut self, envelope: WebSocketResponseEnvelope) -> (r: Route)
        ensures
            r@ == routed(old(self).unary(), old(self).streams(), envelope@),
            final(self).unary() == unary_after(old(self).unary(), r@),
            final(self).streams() == streams_after(old(self).streams(), r@),
    {
        let id = match envelope.id {
            JsonRpcId::Text(id) => id,
            _ => {
                return self.fail_all_pending(
                    A2AError::invalid_request("websocket response id must be a string"),
                );
            },
        };
        if let Some(event) = envelope.stream_event {
            let waiting = self.pending_streams.contains_key(id.as_str());
            return Route::Event { id, event, waiting };
        }
        if let Some(e) = envelope.stream_error {
            if !self.pending_streams.contains_key(id.as_str()) {
                return Route::Ignore;
            }
            self.unregister_stream(id.as_str());
            return Route::StreamError { id, error: A2AError::new(e.code, e.message) };
        }
        if let Some(true) = envelope.stream_end {
            if !self.pending_streams.contains_key(id.as_str()) {
                return Route::Ignore;
            }
            self.unregister_stream(id.as_str());
            return Route::End { id };
        }
        if !self.pending_unary.contains_key(id.as_str()) {
            return Route::Ignore;
        }
        self.unregister_unary(id.as_str());
        match envelope.error {
            Some(e) => Route::Answer { id, result: Err(A2AError::new(e.code, e.message)) },
            None => Route::Answer {
                id,
                result: Ok(
                    match envelope.result {
                        Some(v) => v,
                        None => JsonValue::Null,
                    },
                ),
            },
        }
    }

    /// What is to be done with a text frame. One that cannot be read ends
    /// everything that waits.
    pub fn route_incoming_frame(&mut self, frame: &[u8]) -> (r: Route)
        ensures
            r@ == routed_frame(old(self).unary(), old(self).streams(), frame@),
            final(self).unary() == unary_after(old(self).unary(), r@),
            final(self).streams() == streams_after(old(self).streams(), r@),
    {
        match WebSocketResponseEnvelope::from_slice(frame) {
            Ok(e) => self.route(e),
            Err(e) => self.fail_all_pending(
                A2AError::parse_error(joined("invalid websocket frame: ", e.as_str()).as_str()),
            ),
        }
    }

    /// What is to be done about what happens on the connection.
    pub fn on_event(&mut self, event: SocketEvent) -> (r: Route)
        ensures
            r@ == socket_route(old(self).unary(), old(self).streams(), event@),
            final(self).unary() == unary_after(old(self).unary(), r@),
            final(self).streams() == streams_after(old(self).streams(), r@),
    {
        match event {
            SocketEvent::Text(b) => self.route_incoming_frame(b.as_slice()),
            SocketEvent::Closed => self.fail_all_pending(
                A2AError::unsupported_operation("websocket connection closed"),
            ),
            SocketEvent::Other => Route::Ignore,
            SocketEvent::ReadFailed(e) => self.fail_all_pending(
                A2AError::internal(joined("websocket read error: ", e.as_str()).as_str()),
            ),
        }
    }

    /// What is to be done where an event could not be read.
    pub fn unreadable_event(&mut self, error: &str) -> (r: Route)
        ensures
            r@ == RouteView::FailAll(internal("failed to parse stream event: "@ + error@)),
            final(self).unary() == Set::<Seq<char>>::empty(),
            final(self).streams() == Set::<Seq<char>>::empty(),
    {
        self.fail_all_pending(
            A2AError::internal(joined("failed to parse stream event: ", error).as_str()),
        )
    }
}

/// A call is answered once: after its answer, whatever comes for it reaches no
/// caller.
pub proof fn law_a_call_is_answered_once(
    unary: Set<Seq<char>>,
    streams: Set<Seq<char>>,
    first: ResponseView,
    again: ResponseView,
)
    requires
        routed(unary, streams, first) is Answer,
        again.id == first.id,
    ensures
        !(routed(unary_after(unary, routed(unary, streams, first)), streams, again) is Answer),
{
}

} // verus!
