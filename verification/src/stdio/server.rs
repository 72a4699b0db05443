//! The server half: what the spawned agent does with each frame that it reads.
//!
//! Reading, writing, running the handler and cancelling tasks is left to the
//! caller. The functions here decide: they take what was read, and say what is
//! to be sent, started, cancelled or ended.
use crate::dispatch::{outcome, Call, CallView, StreamEvent, StreamEventView};
use crate::error_code;
use crate::json_value::{json_read, json_written, model, Json, JsonValue};
use crate::methods::{is_streaming, streams};
use crate::params::{copy_params, lists, overlay_onto, ServiceParams};
use crate::protocol::{
    flat, id_key, ids_in, key_text, keyed, opt_flat, plain_error, reported, A2AError, ErrorView,
    IdView, JsonRpcError, JsonRpcId,
};
use crate::protojson::{finish_payload, finished};
use crate::stdio::codec::{Fault, StdioCodecError, DEFAULT_MAX_FRAME_SIZE, DEFAULT_MAX_HEADER_SIZE};
use crate::stdio::frame::{no_headers, Frame, FrameHeaders, FrameView};
use crate::stdio::json::{
    client_reads, control_json, from_client, from_server, params_from, parse_from_client, peek_id,
    peeked_id, read_from_client, server_inbound, server_json, wire_to_service_params,
    ClientInboundView, ClientMessage, ClientView, RequestView, ServerInbound, ServerInboundView,
    ServerMessage, ServerView, StdioRequest, SYSTEM_SHUTDOWN,
};
use crate::stdio::metadata::{binding_of, stamp, stamped, SessionBinding};
use crate::stdio::session::{
    accept_ack, ack_taken, build_handshake, env_params, fault_exit_code, service_params_from_env,
    session_id_found, session_id_from_env, AckOutcome, ExitCode, ENV_SESSION_ID, FEATURE_STREAMING,
    PROTOCOL_NAME, PROTOCOL_VERSION,
};
use crate::stdio::wire::{
    wire_message, ControlFrame, ControlView, Handshake, HandshakeAck, HandshakeView, Variant,
    WireError, WireFault,
};
use crate::text::{listed, lowered, opt_text, same_text, texts};
use crate::text_map::TextMap;
use vstd::prelude::*;

verus! {

/// The code of failures of the framing and of the session.
pub const BINDING_ERROR: i32 = -32000;

/// How long a server waits at its end for work under way, in milliseconds. It
/// stays well inside the time that the parent waits.
pub const SHUTDOWN_GRACE_MS: u64 = 2000;

/// How a server is set up.
#[derive(Debug)]
pub struct ServerConfig {
    pub max_frame_size: usize,
    pub max_header_size: usize,
    /// How many frames may wait to be written.
    pub outbound_capacity: usize,
    pub features: Vec<String>,
    /// The launch digest, if the host computed one.
    pub launch_digest: Option<String>,
}

impl Default for ServerConfig {
    fn default() -> (r: Self)
        ensures
            r.max_frame_size == DEFAULT_MAX_FRAME_SIZE,
            r.max_header_size == DEFAULT_MAX_HEADER_SIZE,
            r.outbound_capacity == 64,
            texts(r.features@) == seq![FEATURE_STREAMING@],
            r.launch_digest is None,
    {
        let mut features: Vec<String> = Vec::new();
        features.push(FEATURE_STREAMING.to_owned());
        assert(texts(features@) =~= seq![FEATURE_STREAMING@]);
        ServerConfig {
            max_frame_size: DEFAULT_MAX_FRAME_SIZE,
            max_header_size: DEFAULT_MAX_HEADER_SIZE,
            outbound_capacity: 64,
            features,
            launch_digest: None,
        }
    }
}

/// The context that a spawned agent starts with.
#[derive(Debug)]
pub struct Startup {
    /// The handshake repeats it, and the client refuses another one.
    pub session_id: String,
    /// They hold for every request that does not set them itself.
    pub session_params: ServiceParams,
}

impl Startup {
    /// The context in an environment, which `get` looks variables up in and
    /// `vars` lists.
    pub fn from_env(
        get: impl Fn(&str) -> Option<String>,
        vars: &Vec<(String, String)>,
    ) -> (r: Result<Startup, ExitCode>)
        requires
            call_requires(get, (ENV_SESSION_ID,)),
        ensures
            exists|found: Option<String>| #[trigger]
                call_ensures(get, (ENV_SESSION_ID,), found) && (match r {
                    Ok(s) => session_id_found(found, Ok(s.session_id)) && lists(s.session_params@)
                        == env_params(vars@),
                    Err(c) => session_id_found(found, Err(c)),
                }),
    {
        match session_id_from_env(get) {
            Ok(session_id) => Ok(
                Startup { session_id, session_params: service_params_from_env(vars) },
            ),
            Err(c) => Err(c),
        }
    }
}

// ---------------------------------------------------------------------------
// Frames.
// ---------------------------------------------------------------------------

/// A frame with this body and no headers, which the JSON variant needs none of.
pub open spec fn bare_frame(body: Seq<u8>) -> FrameView {
    FrameView { headers: no_headers(), body }
}

/// A frame with this body and no headers.
pub fn json_frame(body: Vec<u8>) -> (r: Frame)
    ensures
        r@ == bare_frame(body@),
{
    Frame { headers: FrameHeaders::default(), body }
}

/// The contents of what making a frame gives.
pub open spec fn frame_result(r: Result<Frame, String>) -> Result<FrameView, Seq<char>> {
    match r {
        Ok(f) => Ok(f@),
        Err(e) => Err(e@),
    }
}

/// The frame of a JSON text, or the error of writing it.
pub open spec fn framed(r: Result<Seq<u8>, Seq<char>>) -> Result<FrameView, Seq<char>> {
    match r {
        Ok(b) => Ok(bare_frame(b)),
        Err(e) => Err(e),
    }
}

/// The frame of a control frame, whose body reads as that control frame on either
/// side.
pub fn encode_control(frame: &ControlFrame) -> (r: Result<Frame, String>)
    ensures
        r is Ok,
        frame_result(r) == framed(json_written(control_json(frame@))),
        from_client(r->Ok_0.body@) == Ok::<ServerInboundView, WireFault>(
            ServerInboundView::Control(frame@),
        ),
        from_server(r->Ok_0.body@) == Ok::<ClientInboundView, WireFault>(
            ClientInboundView::Control(frame@),
        ),
{
    match frame.to_vec() {
        Ok(b) => Ok(json_frame(b)),
        Err(e) => Err(e),
    }
}

/// The frame of a message, whose body reads as that message.
pub fn encode_message(msg: &ServerMessage) -> (r: Result<Frame, String>)
    ensures
        r is Ok,
        frame_result(r) == framed(json_written(server_json(msg@))),
        client_reads(r->Ok_0.body@, msg@),
{
    match msg.to_vec() {
        Ok(b) => Ok(json_frame(b)),
        Err(e) => Err(e),
    }
}

/// An error message without details.
pub open spec fn error_view(id: IdView, code: i32, message: Seq<char>) -> ServerView {
    ServerView::Error { id, error: plain_error(code, message) }
}

/// An error message without details.
pub fn error_message(id: JsonRpcId, code: i32, message: &str) -> (r: ServerMessage)
    ensures
        r@ == error_view(id@, code, message@),
{
    ServerMessage::Error {
        id,
        error: JsonRpcError { code, message: message.to_owned(), data: None },
    }
}

// ---------------------------------------------------------------------------
// The handshake.
// ---------------------------------------------------------------------------

/// What came off the stream.
#[derive(Debug)]
pub enum ReadEvent {
    /// A frame with this body.
    Body(Vec<u8>),
    /// The framing failed.
    Fault(StdioCodecError),
    /// The stream ended.
    Closed,
}

/// What came off the stream, in terms of contents.
pub enum ReadView {
    Body(Seq<u8>),
    Fault(Fault),
    Closed,
}

impl View for ReadEvent {
    type V = ReadView;

    open spec fn view(&self) -> ReadView {
        match *self {
            ReadEvent::Body(b) => ReadView::Body(b@),
            ReadEvent::Fault(e) => ReadView::Fault(e@),
            ReadEvent::Closed => ReadView::Closed,
        }
    }
}

/// The handshake that a server sends first.
pub open spec fn greeting_view(
    session_id: Seq<char>,
    features: Seq<Seq<char>>,
    pid: u32,
) -> HandshakeView {
    HandshakeView {
        protocol: PROTOCOL_NAME@,
        protocol_version: PROTOCOL_VERSION@,
        session_id,
        supported_variants: seq![Variant::Json],
        features,
        pid: Some(pid),
    }
}

/// The handshake that a server sends first: it speaks the JSON variant only.
pub fn greeting(session_id: String, features: Vec<String>, pid: u32) -> (r: Handshake)
    ensures
        r@ == greeting_view(session_id@, texts(features@), pid),
{
    let mut supported: Vec<Variant> = Vec::new();
    supported.push(Variant::Json);
    assert(supported@[0] == Variant::Json);
    assert(supported@ =~= seq![Variant::Json]);
    build_handshake(session_id, supported, features, Some(pid))
}

/// What a server does once its handshake was answered.
#[derive(Debug, Clone, Copy, PartialEq, Eq, Structural)]
pub enum Opening {
    /// Serve in this variant.
    Serve(Variant),
    /// End with this code.
    Exit(ExitCode),
}

/// What a server does with the first thing it reads. It must be an answer to
/// the handshake; where the client has already left there is nothing to do and
/// nothing wrong.
pub open spec fn opened(offered: HandshakeView, first: ReadView) -> Opening {
    match first {
        ReadView::Closed => Opening::Exit(ExitCode::Success),
        ReadView::Fault(_) => Opening::Exit(ExitCode::ProtocolError),
        ReadView::Body(b) => opened_by(offered, from_client(b)),
    }
}

/// What a server does with the first message it reads.
pub open spec fn opened_by(
    offered: HandshakeView,
    first: Result<ServerInboundView, WireFault>,
) -> Opening {
    match first {
        Ok(ServerInboundView::Control(ControlView::HandshakeAck(ack))) => match ack_taken(
            offered,
            ack,
        ) {
            Ok(AckOutcome::Accepted(v)) => Opening::Serve(v),
            Ok(AckOutcome::Declined) => Opening::Exit(ExitCode::Success),
            Err(f) => Opening::Exit(fault_exit_code(f)),
        },
        _ => Opening::Exit(ExitCode::ProtocolError),
    }
}

/// What a server does with the first message it reads.
pub fn open_with(offered: &Handshake, first: Result<ServerInbound, WireError>) -> (r: Opening)
    ensures
        r == opened_by(offered@, server_inbound(first)),
{
    match first {
        Ok(ServerInbound::Control(ControlFrame::HandshakeAck(ack))) => match accept_ack(
            offered,
            &ack,
        ) {
            Ok(AckOutcome::Accepted(v)) => Opening::Serve(v),
            Ok(AckOutcome::Declined) => Opening::Exit(ExitCode::Success),
            Err(e) => Opening::Exit(e.exit_code()),
        },
        _ => Opening::Exit(ExitCode::ProtocolError),
    }
}

/// What a server does with the first thing it reads.
pub fn open(offered: &Handshake, first: ReadEvent) -> (r: Opening)
    ensures
        r == opened(offered@, first@),
{
    match first {
        ReadEvent::Closed => Opening::Exit(ExitCode::Success),
        ReadEvent::Fault(_) => Opening::Exit(ExitCode::ProtocolError),
        ReadEvent::Body(b) => open_with(offered, parse_from_client(b.as_slice())),
    }
}

/// A server that offered the JSON variant alone never serves in another one.
pub proof fn law_only_the_offered_variant_is_served(
    session_id: Seq<char>,
    features: Seq<Seq<char>>,
    pid: u32,
    first: ReadView,
)
    ensures
        opened(greeting_view(session_id, features, pid), first) matches Opening::Serve(v) ==> v
            == Variant::Json,
{
}

// ---------------------------------------------------------------------------
// Serving.
// ---------------------------------------------------------------------------

/// What a server does next.
#[derive(Debug)]
pub enum ServerAction {
    /// Nothing.
    Ignore,
    /// Send this, and go on.
    Send(ServerMessage),
    /// Send this, then end.
    SendAndExit(ServerMessage, ExitCode),
    /// End.
    Exit(ExitCode),
    /// Stop the stream of this request, but not the task behind it.
    CancelStream(JsonRpcId),
    /// Make this call and send its one answer.
    StartUnary(Call),
    /// Make this call and send what it streams.
    StartStream(Call),
}

/// What a server does next, in terms of contents.
#[verifier::ext_equal]
pub enum ActionView {
    Ignore,
    Send(ServerView),
    SendAndExit(ServerView, ExitCode),
    Exit(ExitCode),
    CancelStream(IdView),
    StartUnary(CallView),
    StartStream(CallView),
}

impl View for ServerAction {
    type V = ActionView;

    open spec fn view(&self) -> ActionView {
        match *self {
            ServerAction::Ignore => ActionView::Ignore,
            ServerAction::Send(m) => ActionView::Send(m@),
            ServerAction::SendAndExit(m, c) => ActionView::SendAndExit(m@, c),
            ServerAction::Exit(c) => ActionView::Exit(c),
            ServerAction::CancelStream(id) => ActionView::CancelStream(id@),
            ServerAction::StartUnary(c) => ActionView::StartUnary(c@),
            ServerAction::StartStream(c) => ActionView::StartStream(c@),
        }
    }
}

/// The call that an action starts.
pub open spec fn started(a: ActionView) -> Option<CallView> {
    match a {
        ActionView::StartUnary(c) => Some(c),
        ActionView::StartStream(c) => Some(c),
        _ => None,
    }
}

/// What the call that an action starts carries.
pub open spec fn carried(a: ActionView) -> Map<Seq<char>, Seq<Seq<char>>> {
    match started(a) {
        Some(c) => c.params,
        None => Map::empty(),
    }
}

/// Whether `out` holds the session's parameters with a request's own put over
/// them.
pub open spec fn merged(
    session: Map<Seq<char>, Seq<Seq<char>>>,
    own: Option<Map<Seq<char>, Seq<char>>>,
    out: Map<Seq<char>, Seq<Seq<char>>>,
) -> bool {
    match own {
        None => out == session,
        Some(wire) => exists|p: Map<Seq<char>, Seq<Seq<char>>>| #[trigger]
            params_from(wire, p) && out == session.union_prefer_right(p),
    }
}

/// The session's parameters hold for every request, but for those that the
/// request brings itself, in whatever case it writes their names.
pub proof fn law_requests_override_session_params(
    session: Map<Seq<char>, Seq<Seq<char>>>,
    own: Map<Seq<char>, Seq<char>>,
    out: Map<Seq<char>, Seq<Seq<char>>>,
    name: Seq<char>,
)
    requires
        merged(session, Some(own), out),
    ensures
        own.contains_key(name) ==> out.contains_key(lowered(name)),
        own.contains_key(name) && (forall|k: Seq<char>| #[trigger]
            own.contains_key(k) && lowered(k) == lowered(name) ==> k == name) ==> out[lowered(name)]
            == listed(own[name]),
        (forall|k: Seq<char>| #[trigger] own.contains_key(k) ==> lowered(k) != name) ==> {
            &&& out.contains_key(name) <==> session.contains_key(name)
            &&& session.contains_key(name) ==> out[name] == session[name]
        },
{
    let p = choose|p: Map<Seq<char>, Seq<Seq<char>>>| #[trigger]
        params_from(own, p) && out == session.union_prefer_right(p);
}

/// The session's parameters with a request's own put over them.
pub fn merge_service_params(session: &ServiceParams, per_request: &Option<TextMap<String>>) -> (r:
    ServiceParams)
    ensures
        merged(lists(session@), opt_flat(*per_request), lists(r@)),
{
    let mut out = copy_params(session);
    match per_request {
        Some(wire) => {
            let own = wire_to_service_params(wire);
            overlay_onto(&mut out, &own);
            proof {
                let p = lists(own@);
                let w = opt_flat(*per_request)->0;
                assert(w == flat(wire@));
                assert(params_from(w, p));
                assert(lists(out@) == lists(session@).union_prefer_right(p));
                assert(merged(lists(session@), Some(w), lists(out@)));
            }
            out
        },
        None => out,
    }
}

/// What is done with a request that carries these parameters, where these streams
/// are open.
pub open spec fn request_action(
    open: Set<Seq<char>>,
    q: RequestView,
    params: Map<Seq<char>, Seq<Seq<char>>>,
) -> ActionView {
    let call = CallView {
        id: q.id,
        method: q.method,
        params,
        payload: match q.params {
            Some(p) => p,
            None => Json::Null,
        },
    };
    if q.method == SYSTEM_SHUTDOWN@ {
        ActionView::SendAndExit(
            ServerView::Result { id: q.id, result: Json::Object(Map::empty()) },
            ExitCode::Success,
        )
    } else if streams(q.method) {
        if open.contains(key_text(q.id)) {
            ActionView::Send(
                error_view(
                    q.id,
                    error_code::INVALID_REQUEST,
                    "Duplicate request id: a stream with this id is still open"@,
                ),
            )
        } else {
            ActionView::StartStream(call)
        }
    } else {
        ActionView::StartUnary(call)
    }
}

/// What is done with what was read in a body, where these streams are open and
/// this identifier could be made out. A request in it carries these parameters.
pub open spec fn inbound_action(
    open: Set<Seq<char>>,
    r: Result<ServerInboundView, WireFault>,
    peeked: IdView,
    params: Map<Seq<char>, Seq<Seq<char>>>,
) -> ActionView {
    match r {
        Err(WireFault::Json(_)) => ActionView::SendAndExit(
            error_view(IdView::Null, error_code::PARSE_ERROR, "Parse error"@),
            ExitCode::ProtocolError,
        ),
        Err(f) => ActionView::Send(
            error_view(peeked, error_code::INVALID_REQUEST, wire_message(f)),
        ),
        Ok(ServerInboundView::Control(ControlView::Heartbeat(_, _))) => ActionView::Ignore,
        Ok(ServerInboundView::Control(_)) => ActionView::Exit(ExitCode::ProtocolError),
        Ok(ServerInboundView::Message(ClientView::CancelStream { id })) => if open.contains(
            key_text(id),
        ) {
            ActionView::CancelStream(id)
        } else {
            ActionView::Ignore
        },
        Ok(ServerInboundView::Message(ClientView::Request(q))) => request_action(open, q, params),
    }
}

/// What is done with what came off the stream, where these streams are open. A
/// request in it carries these parameters.
pub open spec fn server_action(
    open: Set<Seq<char>>,
    event: ReadView,
    params: Map<Seq<char>, Seq<Seq<char>>>,
) -> ActionView {
    match event {
        ReadView::Closed => ActionView::Exit(ExitCode::Success),
        ReadView::Fault(Fault::FrameTooLarge { len, max }) => ActionView::SendAndExit(
            error_view(IdView::Null, BINDING_ERROR, "Message too large"@),
            ExitCode::ProtocolError,
        ),
        ReadView::Fault(_) => ActionView::Exit(ExitCode::ProtocolError),
        ReadView::Body(b) => inbound_action(
            open,
            from_client(b),
            peeked_id(json_read(b)),
            params,
        ),
    }
}

/// Which streams are open after an action.
pub open spec fn open_after(open: Set<Seq<char>>, a: ActionView) -> Set<Seq<char>> {
    match a {
        ActionView::StartStream(c) => open.insert(key_text(c.id)),
        ActionView::CancelStream(id) => open.remove(key_text(id)),
        _ => open,
    }
}

/// A session that a server serves.
#[derive(Debug)]
pub struct ServerSession {
    session_params: ServiceParams,
    open: TextMap<JsonRpcId>,
}

impl ServerSession {
    #[verifier::type_invariant]
    spec fn ids_are_keyed(self) -> bool {
        keyed(self.open@)
    }

    /// The parameters that hold for every request.
    pub closed spec fn params(&self) -> Map<Seq<char>, Seq<Seq<char>>> {
        lists(self.session_params@)
    }

    /// The keys of the requests whose streams are open.
    pub closed spec fn open_streams(&self) -> Set<Seq<char>> {
        self.open@.dom()
    }

    /// A session with these parameters and no stream.
    pub fn new(session_params: ServiceParams) -> (r: Self)
        ensures
            r.params() == lists(session_params@),
            r.open_streams() == Set::<Seq<char>>::empty(),
    {
        let r = ServerSession { session_params, open: TextMap::new() };
        assert(r.open_streams() =~= Set::<Seq<char>>::empty());
        r
    }

    fn on_request(&mut self, q: StdioRequest) -> (r: ServerAction)
        ensures
            r@ == request_action(old(self).open_streams(), q@, carried(r@)),
            final(self).params() == old(self).params(),
            final(self).open_streams() == open_after(old(self).open_streams(), r@),
            started(r@) matches Some(c) ==> merged(old(self).params(), q@.service_params, c.params),
    {
        proof {
            use_type_invariant(&*self);
        }
        if same_text(q.method.as_str(), SYSTEM_SHUTDOWN) {
            let empty: Vec<(String, JsonValue)> = Vec::new();
            let result = JsonValue::Object(empty);
            assert(crate::json_value::object(empty@) =~= Map::<Seq<char>, Json>::empty());
            return ServerAction::SendAndExit(
                ServerMessage::Result { id: q.id, result },
                ExitCode::Success,
            );
        }
        let params = merge_service_params(&self.session_params, &q.service_params);
        let payload = match q.params {
            Some(p) => p,
            None => JsonValue::Null,
        };
        if is_streaming(q.method.as_str()) {
            let key = id_key(&q.id);
            if self.open.contains_key(key.as_str()) {
                return ServerAction::Send(
                    error_message(
                        q.id,
                        error_code::INVALID_REQUEST,
                        "Duplicate request id: a stream with this id is still open",
                    ),
                );
            }
            let mut open: TextMap<JsonRpcId> = TextMap::new();
            std::mem::swap(&mut open, &mut self.open);
            open.insert(key, q.id.clone());
            self.open = open;
            assert(self.open_streams() =~= old(self).open_streams().insert(key_text(q.id@)));
            ServerAction::StartStream(Call { id: q.id, method: q.method, params, payload })
        } else {
            ServerAction::StartUnary(Call { id: q.id, method: q.method, params, payload })
        }
    }

    /// What is to be done with what was read in a body. `peeked` is the
    /// identifier that could be made out where the body was refused.
    pub fn on_inbound(
        &mut self,
        inbound: Result<ServerInbound, WireError>,
        peeked: JsonRpcId,
    ) -> (r: ServerAction)
        ensures
            r@ == inbound_action(
                old(self).open_streams(),
                server_inbound(inbound),
                peeked@,
                carried(r@),
            ),
            final(self).params() == old(self).params(),
            final(self).open_streams() == open_after(old(self).open_streams(), r@),
            started(r@) matches Some(c) ==> server_inbound(inbound) matches Ok(
                ServerInboundView::Message(ClientView::Request(q)),
            ) && merged(old(self).params(), q.service_params, c.params),
    {
        proof {
            use_type_invariant(&*self);
        }
        match inbound {
            Err(e) => match e {
                WireError::Json(_) => ServerAction::SendAndExit(
                    error_message(JsonRpcId::Null, error_code::PARSE_ERROR, "Parse error"),
                    ExitCode::ProtocolError,
                ),
                _ => ServerAction::Send(
                    error_message(peeked, error_code::INVALID_REQUEST, e.message().as_str()),
                ),
            },
            Ok(ServerInbound::Control(c)) => match c {
                ControlFrame::Heartbeat(_) => ServerAction::Ignore,
                _ => ServerAction::Exit(ExitCode::ProtocolError),
            },
            Ok(ServerInbound::Message(m)) => match m {
                ClientMessage::CancelStream { id } => {
                    let key = id_key(&id);
                    let mut open: TextMap<JsonRpcId> = TextMap::new();
                    std::mem::swap(&mut open, &mut self.open);
                    let was = open.remove(key.as_str());
                    self.open = open;
                    match was {
                        Some(_) => {
                            assert(self.open_streams() =~= old(self).open_streams().remove(
                                key_text(id@),
                            ));
                            ServerAction::CancelStream(id)
                        },
                        None => {
                            assert(self.open_streams() =~= old(self).open_streams());
                            ServerAction::Ignore
                        },
                    }
                },
                ClientMessage::Request(q) => self.on_request(q),
            },
        }
    }

    /// What is to be done with what came off the stream.
    pub fn on_event(&mut self, event: ReadEvent) -> (r: ServerAction)
        ensures
            r@ == server_action(old(self).open_streams(), event@, carried(r@)),
            final(self).params() == old(self).params(),
            final(self).open_streams() == open_after(old(self).open_streams(), r@),
            started(r@) matches Some(c) ==> event@ matches ReadView::Body(b) && from_client(
                b,
            ) matches Ok(ServerInboundView::Message(ClientView::Request(q))) && merged(
                old(self).params(),
                q.service_params,
                c.params,
            ),
    {
        match event {
            ReadEvent::Closed => ServerAction::Exit(ExitCode::Success),
            ReadEvent::Fault(e) => match e {
                StdioCodecError::FrameTooLarge { len: _, max: _ } => ServerAction::SendAndExit(
                    error_message(JsonRpcId::Null, BINDING_ERROR, "Message too large"),
                    ExitCode::ProtocolError,
                ),
                _ => ServerAction::Exit(ExitCode::ProtocolError),
            },
            ReadEvent::Body(b) => {
                let inbound = parse_from_client(b.as_slice());
                let peeked = peek_id(b.as_slice());
                self.on_inbound(inbound, peeked)
            },
        }
    }

    /// Notes that the stream of a request has come to its end.
    pub fn stream_finished(&mut self, id: &JsonRpcId)
        ensures
            final(self).params() == old(self).params(),
            final(self).open_streams() == old(self).open_streams().remove(key_text(id@)),
    {
        proof {
            use_type_invariant(&*self);
        }
        let key = id_key(id);
        let mut open: TextMap<JsonRpcId> = TextMap::new();
        std::mem::swap(&mut open, &mut self.open);
        let _ = open.remove(key.as_str());
        self.open = open;
        assert(self.open_streams() =~= old(self).open_streams().remove(key_text(id@)));
    }

    /// Ends a session: every stream that is open is told to stop, and none is open
    /// any more. What comes back are their requests.
    pub fn drain(&mut self) -> (r: Vec<JsonRpcId>)
        ensures
            final(self).params() == old(self).params(),
            final(self).open_streams() == Set::<Seq<char>>::empty(),
            forall|k: Seq<char>|
                old(self).open_streams().contains(k) <==> exists|i: int|
                    0 <= i < r@.len() && key_text(#[trigger] r@[i]@) == k,
            r@.len() == old(self).open_streams().len(),
    {
        proof {
            use_type_invariant(&*self);
        }
        let mut open: TextMap<JsonRpcId> = TextMap::new();
        std::mem::swap(&mut open, &mut self.open);
        assert(self.open_streams() =~= Set::<Seq<char>>::empty());
        ids_in(&open)
    }
}

/// A request that reuses the identifier of an open stream is refused with that
/// identifier, and changes nothing.
pub proof fn law_an_open_id_is_not_reused(
    open: Set<Seq<char>>,
    q: RequestView,
    params: Map<Seq<char>, Seq<Seq<char>>>,
)
    requires
        streams(q.method),
        q.method != SYSTEM_SHUTDOWN@,
        open.contains(key_text(q.id)),
    ensures
        request_action(open, q, params) matches ActionView::Send(ServerView::Error { id, error })
            && id == q.id && error.code == error_code::INVALID_REQUEST,
        open_after(open, request_action(open, q, params)) == open,
{
}

/// A refused body that is JSON is answered with the identifier that it holds,
/// and the session goes on.
pub proof fn law_a_refused_body_is_answered_by_its_id(
    open: Set<Seq<char>>,
    body: Seq<u8>,
    j: Json,
    f: WireFault,
    params: Map<Seq<char>, Seq<Seq<char>>>,
)
    requires
        json_read(body) == Ok::<Json, Seq<char>>(j),
        read_from_client(j) == Err::<ServerInboundView, WireFault>(f),
        !(f is Json),
    ensures
        server_action(open, ReadView::Body(body), params) == ActionView::Send(
            error_view(
                peeked_id(json_read(body)),
                error_code::INVALID_REQUEST,
                wire_message(f),
            ),
        ),
{
}

// ---------------------------------------------------------------------------
// Answers.
// ---------------------------------------------------------------------------

/// The one answer to a call: its result, stamped, or its error.
pub open spec fn answer_view(id: IdView, r: Result<Json, ErrorView>, binding: Json) -> ServerView {
    match r {
        Ok(j) => ServerView::Result { id, result: stamped(j, binding) },
        Err(error) => ServerView::Error { id, error: reported(error) },
    }
}

/// The one answer to a call.
pub fn unary_answer(id: JsonRpcId, result: Result<JsonValue, A2AError>, binding: &JsonValue) -> (r:
    ServerMessage)
    ensures
        r@ == answer_view(id@, outcome(result), model(*binding)),
{
    match result {
        Ok(v) => {
            let mut v = v;
            stamp(&mut v, binding);
            ServerMessage::Result { id, result: v }
        },
        Err(e) => ServerMessage::Error { id, error: e.to_jsonrpc_error() },
    }
}

/// What is sent for an event of a stream. An item is made ready to be sent, then
/// stamped.
pub open spec fn stream_message(id: IdView, e: StreamEventView, binding: Json) -> ServerView {
    match e {
        StreamEventView::Refused(error) => ServerView::Error { id, error: reported(error) },
        StreamEventView::Failed(error) => ServerView::Error { id, error: reported(error) },
        StreamEventView::Cancelled => ServerView::StreamEnd { id },
        StreamEventView::Ended => ServerView::StreamEnd { id },
        StreamEventView::Item(j) => ServerView::Result {
            id,
            result: stamped(finished(j, false), binding),
        },
    }
}

/// Whether a stream goes on after an event: only after an item.
pub open spec fn stream_goes_on(e: StreamEventView) -> bool {
    e is Item
}

/// What is sent for an event of a stream, and whether the stream goes on.
pub fn stream_step(id: &JsonRpcId, event: StreamEvent, binding: &JsonValue) -> (r: (
    ServerMessage,
    bool,
))
    ensures
        r.0@ == stream_message(id@, event@, model(*binding)),
        r.1 == stream_goes_on(event@),
{
    match event {
        StreamEvent::Refused(e) | StreamEvent::Failed(e) => (
            ServerMessage::Error { id: id.clone(), error: e.to_jsonrpc_error() },
            false,
        ),
        StreamEvent::Cancelled | StreamEvent::Ended => (
            ServerMessage::StreamEnd { id: id.clone() },
            false,
        ),
        StreamEvent::Item(v) => {
            let mut v = finish_payload(v);
            stamp(&mut v, binding);
            (ServerMessage::Result { id: id.clone(), result: v }, true)
        },
    }
}

/// Everything that is sent for the events of a stream, up to its end.
pub open spec fn stream_sent(id: IdView, events: Seq<StreamEventView>, binding: Json) -> Seq<
    ServerView,
>
    decreases events.len(),
{
    if events.len() == 0 {
        Seq::empty()
    } else {
        let first = seq![stream_message(id, events[0], binding)];
        if stream_goes_on(events[0]) {
            first + stream_sent(id, events.drop_first(), binding)
        } else {
            first
        }
    }
}

/// A stream ends once: everything before its last message is a result, and
/// nothing follows an error or an end.
pub proof fn law_a_stream_ends_once(id: IdView, events: Seq<StreamEventView>, binding: Json, i: int)
    requires
        0 <= i < stream_sent(id, events, binding).len() - 1,
    ensures
        stream_sent(id, events, binding)[i] is Result,
    decreases events.len(),
{
    let rest = events.drop_first();
    if i > 0 {
        law_a_stream_ends_once(id, rest, binding, i - 1);
        assert(stream_sent(id, events, binding)[i] == stream_sent(id, rest, binding)[i - 1]);
    }
}

/// Every message of a stream carries the identifier of its request.
pub proof fn law_a_stream_keeps_its_id(
    id: IdView,
    events: Seq<StreamEventView>,
    binding: Json,
    i: int,
)
    requires
        0 <= i < stream_sent(id, events, binding).len(),
    ensures
        match stream_sent(id, events, binding)[i] {
            ServerView::Result { id: x, result } => x == id,
            ServerView::Error { id: x, error } => x == id,
            ServerView::StreamEnd { id: x } => x == id,
        },
    decreases events.len(),
{
    let rest = events.drop_first();
    if i > 0 {
        law_a_stream_keeps_its_id(id, rest, binding, i - 1);
        assert(stream_sent(id, events, binding)[i] == stream_sent(id, rest, binding)[i - 1]);
    }
}

/// The binding that a serving session stamps into what it emits.
pub fn session_binding(offered: &Handshake, variant: Variant, launch_digest: &Option<String>) -> (r:
    JsonValue)
    ensures
        model(r) == binding_of(
            offered@.session_id,
            offered.pid,
            variant,
            opt_text(*launch_digest),
        ),
{
    let b = SessionBinding {
        session_id: offered.session_id.clone(),
        pid: offered.pid,
        variant,
        launch_digest: match launch_digest {
            Some(d) => Some(d.clone()),
            None => None,
        },
    };
    b.to_value()
}

} // verus!
