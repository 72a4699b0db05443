//! The client half: how an agent is launched, how its handshake is answered,
//! and who gets each message that it sends.
//!
//! Spawning, reading, writing and waking callers is left to the caller of this
//! module. The functions here decide.
use crate::dispatch::outcome;
use crate::ids::fresh_id;
use crate::json_value::{json_read, json_written, model, object, plain_json, Json, JsonValue};
use crate::params::{copy_pairs, lists, pairs, ServiceParams};
use crate::protocol::{
    id_key, key_text, law_id_keys_differ, plain_error, A2AError, ErrorView, IdView, JsonRpcError,
    JsonRpcId,
};
use crate::error_code;
use crate::protojson::{finish_payload, finished};
use crate::record::lemma_members_are_not_reserved;
use crate::stdio::codec::{fault_message, Fault, DEFAULT_MAX_FRAME_SIZE, DEFAULT_MAX_HEADER_SIZE};
use crate::stdio::frame::{Frame, FrameView};
use crate::stdio::json::{
    client_inbound, client_json, from_client, from_server, parse_from_server, peek_id, peeked_id,
    server_reads, wire_of, ClientInbound, ClientInboundView, ClientMessage, ClientView, RequestView,
    ServerInboundView, ServerMessage, ServerView, StdioRequest, JSONRPC_VERSION, SYSTEM_SHUTDOWN,
};
use crate::stdio::server::{bare_frame, json_frame, ReadEvent, ReadView};
use crate::stdio::session::{
    accepting, decline, declining, env_key, env_params, handshake_taken, negotiation_message,
    respond_to_handshake, NegotiationError, NegotiationFault, ENV_LOG_LEVEL, ENV_PROTOCOL_VERSION,
    ENV_SERVICE_PARAM_PREFIX, ENV_SESSION_ID,
};
use crate::stdio::wire::{
    wire_message, AckView, ControlFrame, ControlView, Handshake, HandshakeAck, Variant, WireError,
    WireFault,
};
use crate::text::{
    join, join_texts, joined, law_joined_lists_read_back, listable, lowered, opt_text, replace_char,
    replaced, texts, upper_text, uppered,
};
use crate::text_map::{distinct_keys, map_of, TextMap};
use vstd::prelude::*;

verus! {

/// How a client is set up. The timeout is in milliseconds.
#[derive(Debug, Clone, Copy)]
pub struct ClientConfig {
    pub max_frame_size: usize,
    pub max_header_size: usize,
    /// How many frames may wait to be written.
    pub outbound_capacity: usize,
    /// How many items of a stream may wait to be taken. A full stream stops the
    /// reader, which is the only brake where all streams share one pipe.
    pub stream_capacity: usize,
    /// How long the agent may take to end.
    pub shutdown_timeout_ms: u64,
    /// Whether the agent is asked to end before its input is closed.
    pub send_shutdown_request: bool,
}

impl Default for ClientConfig {
    fn default() -> (r: Self)
        ensures
            r == (ClientConfig {
                max_frame_size: DEFAULT_MAX_FRAME_SIZE,
                max_header_size: DEFAULT_MAX_HEADER_SIZE,
                outbound_capacity: 64,
                stream_capacity: 64,
                shutdown_timeout_ms: 5000,
                send_shutdown_request: true,
            }),
    {
        ClientConfig {
            max_frame_size: DEFAULT_MAX_FRAME_SIZE,
            max_header_size: DEFAULT_MAX_HEADER_SIZE,
            outbound_capacity: 64,
            stream_capacity: 64,
            shutdown_timeout_ms: 5000,
            send_shutdown_request: true,
        }
    }
}

// ---------------------------------------------------------------------------
// Launching.
// ---------------------------------------------------------------------------

/// How to spawn an agent. Program and arguments stay separate values, so that
/// no shell ever reads them.
#[derive(Debug)]
pub struct Launch {
    pub program: String,
    pub args: Vec<String>,
    pub envs: Vec<(String, String)>,
    pub current_dir: Option<String>,
    pub session_id: String,
    pub inherit_env: bool,
}

/// A launch in terms of contents.
#[verifier::ext_equal]
pub struct LaunchView {
    pub program: Seq<char>,
    pub args: Seq<Seq<char>>,
    pub envs: Seq<(Seq<char>, Seq<char>)>,
    pub current_dir: Option<Seq<char>>,
    pub session_id: Seq<char>,
    pub inherit_env: bool,
}

impl View for Launch {
    type V = LaunchView;

    open spec fn view(&self) -> LaunchView {
        LaunchView {
            program: self.program@,
            args: texts(self.args@),
            envs: pairs(self.envs@),
            current_dir: opt_text(self.current_dir),
            session_id: self.session_id@,
            inherit_env: self.inherit_env,
        }
    }
}

/// The environment variable of a service parameter.
pub open spec fn env_name(key: Seq<char>) -> Seq<char> {
    ENV_SERVICE_PARAM_PREFIX@ + replaced(uppered(key), '-', '_')
}

/// The environment variables of service parameters.
pub open spec fn env_vars(e: Seq<(Seq<char>, Vec<String>)>) -> Seq<(Seq<char>, Seq<char>)> {
    Seq::new(e.len(), |i: int| (env_name(e[i].0), join(texts(e[i].1@), ","@)))
}

/// What a child process is given.
#[derive(Debug)]
pub struct LaunchPlan {
    pub program: String,
    pub args: Vec<String>,
    /// Whether the parent's environment is kept from the child.
    pub clear_env: bool,
    /// In the order in which they are set; a later one replaces an earlier one.
    pub envs: Vec<(String, String)>,
    pub current_dir: Option<String>,
}

impl Launch {
    /// A launch with an empty environment and a session identifier of its own.
    pub fn new(program: &str) -> (r: Self)
        ensures
            r@ == (LaunchView {
                program: program@,
                args: Seq::empty(),
                envs: Seq::empty(),
                current_dir: None,
                session_id: r@.session_id,
                inherit_env: false,
            }),
            r@.session_id.len() == 36,
    {
        let r = Launch {
            program: program.to_owned(),
            args: Vec::new(),
            envs: Vec::new(),
            current_dir: None,
            session_id: fresh_id(),
            inherit_env: false,
        };
        assert(r@.args =~= Seq::<Seq<char>>::empty());
        assert(r@.envs =~= Seq::<(Seq<char>, Seq<char>)>::empty());
        r
    }

    /// One more argument.
    pub fn arg(self, arg: &str) -> (r: Self)
        ensures
            r@ == (LaunchView { args: self@.args.push(arg@), ..self@ }),
    {
        let mut out = self;
        out.args.push(arg.to_owned());
        assert(out@.args =~= self@.args.push(arg@));
        out
    }

    /// Some more arguments.
    pub fn args(self, args: &Vec<String>) -> (r: Self)
        ensures
            r@ == (LaunchView { args: self@.args + texts(args@), ..self@ }),
    {
        let mut out = self;
        let mut i: usize = 0;
        assert(self@.args + texts(args@.take(0)) =~= self@.args);
        while i < args.len()
            invariant
                i <= args.len(),
                out@ == (LaunchView { args: self@.args + texts(args@.take(i as int)), ..self@ }),
            decreases args.len() - i,
        {
            let ghost before = out@.args;
            out.args.push(args[i].clone());
            i = i + 1;
            assert(out@.args =~= before.push(args@[i - 1]@));
            assert(texts(args@.take(i as int)) =~= texts(args@.take(i - 1)).push(args@[i - 1]@));
            assert(out@.args =~= self@.args + texts(args@.take(i as int)));
        }
        assert(args@.take(i as int) =~= args@);
        out
    }

    /// One more environment variable.
    pub fn env(self, key: &str, value: &str) -> (r: Self)
        ensures
            r@ == (LaunchView { envs: self@.envs.push((key@, value@)), ..self@ }),
    {
        let mut out = self;
        out.envs.push((key.to_owned(), value.to_owned()));
        assert(out@.envs =~= self@.envs.push((key@, value@)));
        out
    }

    /// The directory that the agent starts in.
    pub fn current_dir(self, dir: &str) -> (r: Self)
        ensures
            r@ == (LaunchView { current_dir: Some(dir@), ..self@ }),
    {
        let mut out = self;
        out.current_dir = Some(dir.to_owned());
        out
    }

    /// Another session identifier than the one that was made.
    pub fn session_id(self, id: &str) -> (r: Self)
        ensures
            r@ == (LaunchView { session_id: id@, ..self@ }),
    {
        let mut out = self;
        out.session_id = id.to_owned();
        out
    }

    /// The protocol version that this client means to use.
    pub fn protocol_version(self, version: &str) -> (r: Self)
        ensures
            r@ == (LaunchView {
                envs: self@.envs.push((ENV_PROTOCOL_VERSION@, version@)),
                ..self@
            }),
    {
        self.env(ENV_PROTOCOL_VERSION, version)
    }

    /// How much the agent should log.
    pub fn log_level(self, level: &str) -> (r: Self)
        ensures
            r@ == (LaunchView { envs: self@.envs.push((ENV_LOG_LEVEL@, level@)), ..self@ }),
    {
        self.env(ENV_LOG_LEVEL, level)
    }

    /// The service parameters that hold for the whole session.
    pub fn service_params(self, params: &ServiceParams) -> (r: Self)
        ensures
            r@ == (LaunchView { envs: self@.envs + env_vars(params.spec_entries()), ..self@ }),
    {
        let n: usize = params.len();
        let ghost e = params.spec_entries();
        let mut out = self;
        let mut i: usize = 0;
        assert(self@.envs + env_vars(e.take(0)) =~= self@.envs);
        while i < n
            invariant
                i <= n,
                n == e.len(),
                e == params.spec_entries(),
                out@ == (LaunchView { envs: self@.envs + env_vars(e.take(i as int)), ..self@ }),
            decreases n - i,
        {
            let high = upper_text(params.key_at(i));
            let name = joined(
                ENV_SERVICE_PARAM_PREFIX,
                replace_char(high.as_str(), '-', '_').as_str(),
            );
            let value = join_texts(params.value_at(i), ",");
            let ghost before = out@.envs;
            out = out.env(name.as_str(), value.as_str());
            i = i + 1;
            assert(env_vars(e.take(i as int)) =~= env_vars(e.take(i - 1)).push((name@, value@)));
            assert(out@.envs =~= self@.envs + env_vars(e.take(i as int)));
        }
        assert(e.take(i as int) =~= e);
        out
    }

    /// Whether the agent sees the parent's whole environment.
    pub fn inherit_env(self, inherit: bool) -> (r: Self)
        ensures
            r@ == (LaunchView { inherit_env: inherit, ..self@ }),
    {
        let mut out = self;
        out.inherit_env = inherit;
        out
    }

    /// What the child process is given: the session identifier comes first
    /// among its variables.
    pub fn build(&self) -> (r: LaunchPlan)
        ensures
            r.program@ == self@.program,
            texts(r.args@) == self@.args,
            r.clear_env == !self@.inherit_env,
            pairs(r.envs@) == seq![(ENV_SESSION_ID@, self@.session_id)] + self@.envs,
            opt_text(r.current_dir) == self@.current_dir,
    {
        let mut envs: Vec<(String, String)> = Vec::new();
        envs.push((ENV_SESSION_ID.to_owned(), self.session_id.clone()));
        assert(pairs(envs@) =~= seq![(ENV_SESSION_ID@, self@.session_id)]);
        copy_pairs(&self.envs, &mut envs);
        LaunchPlan {
            program: self.program.clone(),
            args: crate::params::copy_texts(&self.args),
            clear_env: !self.inherit_env,
            envs,
            current_dir: match &self.current_dir {
                Some(d) => Some(d.clone()),
                None => None,
            },
        }
    }
}

/// Service parameters that environment variables carry unchanged: names without
/// capitals and underscores, values that a comma-separated list carries.
pub open spec fn env_carried(e: Seq<(Seq<char>, Vec<String>)>) -> bool {
    &&& distinct_keys(e)
    &&& forall|i: int|
        0 <= i < e.len() ==> lowered(#[trigger] e[i].0) == e[i].0 && !e[i].0.contains('_')
    &&& forall|i: int, j: int|
        0 <= i < e.len() && 0 <= j < e[i].1@.len() ==> listable(#[trigger] texts(e[i].1@)[j])
}

proof fn lemma_env_name_reads_back(key: Seq<char>)
    requires
        lowered(key) == key,
        !key.contains('_'),
    ensures
        env_key(env_name(key)) == Some(key),
{
    let rest = replaced(uppered(key), '-', '_');
    let name = env_name(key);
    let n = ENV_SERVICE_PARAM_PREFIX@.len() as int;
    assert(name.skip(n) =~= rest);
    assert(name.subrange(0, n) =~= ENV_SERVICE_PARAM_PREFIX@);
    assert(ENV_SERVICE_PARAM_PREFIX@.is_prefix_of(name));
    let back = replaced(lowered(rest), '_', '-');
    assert forall|i: int| 0 <= i < key.len() implies back[i] == key[i] by {
        assert(lowered(key)[i] == key[i]);
        assert(key.contains(key[i]));
    }
    assert(back =~= key);
}

/// The agent reads in its environment the service parameters that its launch
/// was given.
pub proof fn law_launch_params_read_back(
    params: ServiceParams,
    vars: Seq<(String, String)>,
)
    requires
        env_carried(params.spec_entries()),
        pairs(vars) == env_vars(params.spec_entries()),
    ensures
        env_params(vars) == lists(params@),
{
    lemma_launch_params(params.spec_entries(), vars);
}

proof fn lemma_launch_params(e: Seq<(Seq<char>, Vec<String>)>, vars: Seq<(String, String)>)
    requires
        env_carried(e),
        pairs(vars) == env_vars(e),
    ensures
        env_params(vars) == lists(map_of(e)),
    decreases e.len(),
{
    assert(vars.len() == pairs(vars).len());
    if e.len() == 0 {
        assert(lists(map_of(e)) =~= Map::<Seq<char>, Seq<Seq<char>>>::empty());
    } else {
        let d = e.drop_last();
        let v = vars.drop_last();
        assert(pairs(v) =~= env_vars(d)) by {
            assert forall|i: int| 0 <= i < v.len() implies pairs(v)[i] == env_vars(d)[i] by {
                assert(pairs(vars)[i] == env_vars(e)[i]);
            }
        }
        assert(env_carried(d)) by {
            assert forall|a: int, b: int| 0 <= a < b < d.len() implies #[trigger] d[a].0
                != #[trigger] d[b].0 by {
                assert(e[a].0 != e[b].0);
            }
            assert forall|i: int| 0 <= i < d.len() implies lowered(#[trigger] d[i].0) == d[i].0
                && !d[i].0.contains('_') by {
                assert(lowered(e[i].0) == e[i].0);
            }
            assert forall|i: int, j: int| 0 <= i < d.len() && 0 <= j < d[i].1@.len() implies listable(
                #[trigger] texts(d[i].1@)[j],
            ) by {
                assert(listable(texts(e[i].1@)[j]));
            }
        }
        lemma_launch_params(d, v);
        let n = e.len() - 1;
        let key = e[n].0;
        let values = texts(e[n].1@);
        assert(pairs(vars)[n] == env_vars(e)[n]);
        assert(lowered(e[n].0) == key);
        lemma_env_name_reads_back(key);
        assert forall|j: int| 0 <= j < values.len() implies listable(#[trigger] values[j]) by {
            assert(listable(texts(e[n].1@)[j]));
        }
        law_joined_lists_read_back(values);
        crate::params::lemma_lists_insert(map_of(d), key, e[n].1);
    }
}

// ---------------------------------------------------------------------------
// The handshake.
// ---------------------------------------------------------------------------

/// What a client does with the first thing it reads.
#[derive(Debug)]
pub enum ClientOpening {
    /// Send this answer and go on in this variant; the agent has these features.
    Accept { ack: HandshakeAck, variant: Variant, features: Vec<String> },
    /// Send this answer, which refuses, and report the error.
    Refuse { ack: HandshakeAck, error: A2AError },
    /// Report the error.
    Fail(A2AError),
}

/// What a client does with the first thing it reads, in terms of contents.
#[verifier::ext_equal]
pub enum ClientOpeningView {
    Accept { ack: AckView, variant: Variant, features: Seq<Seq<char>> },
    Refuse { ack: AckView, error: ErrorView },
    Fail(ErrorView),
}

impl View for ClientOpening {
    type V = ClientOpeningView;

    open spec fn view(&self) -> ClientOpeningView {
        match *self {
            ClientOpening::Accept { ack, variant, features } => ClientOpeningView::Accept {
                ack: ack@,
                variant,
                features: texts(features@),
            },
            ClientOpening::Refuse { ack, error } => ClientOpeningView::Refuse {
                ack: ack@,
                error: error@,
            },
            ClientOpening::Fail(e) => ClientOpeningView::Fail(e@),
        }
    }
}

/// An error on this side.
pub open spec fn internal(message: Seq<char>) -> ErrorView {
    plain_error(error_code::INTERNAL_ERROR, message)
}

/// The error of a failed handshake. Only a version has a code of its own.
pub open spec fn negotiation_error(f: NegotiationFault) -> ErrorView {
    match f {
        NegotiationFault::VersionNotSupported(v) => plain_error(
            error_code::VERSION_NOT_SUPPORTED,
            "version not supported: "@ + v,
        ),
        _ => internal("stdio handshake failed: "@ + negotiation_message(f)),
    }
}

/// The error of a failed handshake.
pub fn negotiation_failed(e: &NegotiationError) -> (r: A2AError)
    ensures
        r@ == negotiation_error(e@),
{
    match e {
        NegotiationError::VersionNotSupported(v) => A2AError::version_not_supported(v.as_str()),
        _ => A2AError::internal(
            joined("stdio handshake failed: ", e.message().as_str()).as_str(),
        ),
    }
}

/// What a client of a session does with the first message it reads: it speaks
/// the JSON variant only. A handshake that fails is refused, so that the agent
/// does not wait for an answer.
pub open spec fn client_opened_by(
    session_id: Seq<char>,
    first: Result<ClientInboundView, WireFault>,
) -> ClientOpeningView {
    match first {
        Ok(ClientInboundView::Control(ControlView::Handshake(hs))) => match handshake_taken(
            hs,
            session_id,
            seq![Variant::Json],
        ) {
            Ok(v) => ClientOpeningView::Accept {
                ack: accepting(hs.session_id, v),
                variant: v,
                features: hs.features,
            },
            Err(f) => ClientOpeningView::Refuse {
                ack: declining(session_id),
                error: negotiation_error(f),
            },
        },
        Ok(_) => ClientOpeningView::Fail(
            internal("agent sent something other than a handshake as its first frame"@),
        ),
        Err(f) => ClientOpeningView::Fail(internal("malformed handshake: "@ + wire_message(f))),
    }
}

/// What a client of a session does with the first thing it reads.
pub open spec fn client_opened(session_id: Seq<char>, first: ReadView) -> ClientOpeningView {
    match first {
        ReadView::Closed => ClientOpeningView::Fail(
            internal("agent closed STDOUT before sending a handshake"@),
        ),
        ReadView::Fault(f) => ClientOpeningView::Fail(
            internal("framing error during handshake: "@ + fault_message(f)),
        ),
        ReadView::Body(b) => client_opened_by(session_id, from_server(b)),
    }
}

/// What a client of a session does with the first message it reads.
pub fn client_open_with(session_id: &str, first: Result<ClientInbound, WireError>) -> (r:
    ClientOpening)
    ensures
        r@ == client_opened_by(session_id@, client_inbound(first)),
{
    match first {
        Ok(ClientInbound::Control(c)) => match c {
            ControlFrame::Handshake(hs) => {
                let mut spoken: Vec<Variant> = Vec::new();
                spoken.push(Variant::Json);
                assert(spoken@ =~= seq![Variant::Json]);
                match respond_to_handshake(&hs, session_id, spoken.as_slice()) {
                    Ok((ack, variant)) => ClientOpening::Accept {
                        ack,
                        variant,
                        features: hs.features,
                    },
                    Err(e) => ClientOpening::Refuse {
                        ack: decline(session_id),
                        error: negotiation_failed(&e),
                    },
                }
            },
            _ => ClientOpening::Fail(
                A2AError::internal(
                    "agent sent something other than a handshake as its first frame",
                ),
            ),
        },
        Ok(_) => ClientOpening::Fail(
            A2AError::internal("agent sent something other than a handshake as its first frame"),
        ),
        Err(e) => ClientOpening::Fail(
            A2AError::internal(joined("malformed handshake: ", e.message().as_str()).as_str()),
        ),
    }
}

/// What a client of a session does with the first thing it reads.
pub fn client_open(session_id: &str, first: ReadEvent) -> (r: ClientOpening)
    ensures
        r@ == client_opened(session_id@, first@),
{
    match first {
        ReadEvent::Closed => ClientOpening::Fail(
            A2AError::internal("agent closed STDOUT before sending a handshake"),
        ),
        ReadEvent::Fault(e) => ClientOpening::Fail(
            A2AError::internal(
                joined("framing error during handshake: ", e.message().as_str()).as_str(),
            ),
        ),
        ReadEvent::Body(b) => client_open_with(session_id, parse_from_server(b.as_slice())),
    }
}

// ---------------------------------------------------------------------------
// Requests.
// ---------------------------------------------------------------------------

/// The request of a call.
pub open spec fn call_request(
    id: IdView,
    method: Seq<char>,
    payload: Json,
    params: Seq<(Seq<char>, Vec<String>)>,
) -> RequestView {
    RequestView {
        jsonrpc: JSONRPC_VERSION@,
        id,
        method,
        params: Some(payload),
        service_params: if params.len() == 0 {
            None
        } else {
            Some(wire_of(params))
        },
    }
}

/// Whether a frame holds a request, and its body reads as that request.
pub open spec fn holds_request(f: Frame, q: RequestView) -> bool {
    &&& f@ == bare_frame(f.body@)
    &&& json_written(client_json(ClientView::Request(q))) == Ok::<Seq<u8>, Seq<char>>(f.body@)
    &&& server_reads(f.body@, ClientView::Request(q))
}

/// The request that asks an agent to end.
pub open spec fn shutdown_request(id: IdView) -> RequestView {
    call_request(
        id,
        SYSTEM_SHUTDOWN@,
        Json::Object(Map::empty()),
        Seq::<(Seq<char>, Vec<String>)>::empty(),
    )
}

/// The contents of what making a request's frame gives.
pub open spec fn request_result(r: Result<Frame, A2AError>) -> Result<FrameView, ErrorView> {
    match r {
        Ok(f) => Ok(f@),
        Err(e) => Err(e@),
    }
}

/// The frame of a request. Its service parameters travel in the body: the
/// frame's headers belong to the transport.
pub fn encode_request(
    id: &JsonRpcId,
    method: &str,
    payload: JsonValue,
    params: &ServiceParams,
) -> (r: Result<Frame, A2AError>)
    ensures
        request_result(r) == (match json_written(
            client_json(
                ClientView::Request(
                    call_request(id@, method@, model(payload), params.spec_entries()),
                ),
            ),
        ) {
            Ok(b) => Ok(bare_frame(b)),
            Err(e) => Err(internal("cannot serialize request: "@ + e)),
        }),
        r is Ok,
        holds_request(
            r->Ok_0,
            call_request(id@, method@, model(payload), params.spec_entries()),
        ),
{
    let request = StdioRequest::new(id.clone(), method, Some(payload)).with_service_params(params);
    match ClientMessage::Request(request).to_vec() {
        Ok(b) => Ok(json_frame(b)),
        Err(e) => Err(
            A2AError::internal(joined("cannot serialize request: ", e.as_str()).as_str()),
        ),
    }
}

/// The frame that asks the agent to end.
pub fn encode_shutdown(id: &JsonRpcId) -> (r: Result<Frame, A2AError>)
    ensures
        request_result(r) == (match json_written(
            client_json(ClientView::Request(shutdown_request(id@))),
        ) {
            Ok(b) => Ok(bare_frame(b)),
            Err(e) => Err(internal("cannot serialize request: "@ + e)),
        }),
        r is Ok,
        holds_request(r->Ok_0, shutdown_request(id@)),
{
    let empty: Vec<(String, JsonValue)> = Vec::new();
    assert(object(empty@) =~= Map::<Seq<char>, Json>::empty());
    let none: ServiceParams = TextMap::new();
    assert(none.spec_entries() =~= Seq::<(Seq<char>, Vec<String>)>::empty());
    encode_request(id, SYSTEM_SHUTDOWN, JsonValue::Object(empty), &none)
}

/// The frame that stops a stream, whose body reads as what it is.
pub fn encode_cancel(id: &JsonRpcId) -> (r: Option<Frame>)
    ensures
        r is Some,
        json_written(client_json(ClientView::CancelStream { id: id@ })) == Ok::<Seq<u8>, Seq<char>>(
            r->Some_0.body@,
        ),
        r->Some_0@ == bare_frame(r->Some_0.body@),
        from_client(r->Some_0.body@) == Ok::<ServerInboundView, WireFault>(
            ServerInboundView::Message(ClientView::CancelStream { id: id@ }),
        ),
{
    proof {
        reveal_with_fuel(plain_json, 2);
        lemma_members_are_not_reserved();
    }
    let msg = ClientMessage::CancelStream { id: id.clone() };
    match msg.to_vec() {
        Ok(b) => Some(json_frame(b)),
        Err(_) => None,
    }
}

// ---------------------------------------------------------------------------
// Who gets what.
// ---------------------------------------------------------------------------

/// What a caller waits for.
#[derive(Debug, Clone, Copy, PartialEq, Eq, Structural)]
pub enum PendingKind {
    /// One answer.
    Unary,
    /// The items of a stream.
    Stream,
}

/// What is to be done with what was read.
#[derive(Debug)]
pub enum ClientAction {
    /// Nothing.
    Ignore,
    /// Hand this to the caller that waits for `id`; `done` says that nothing
    /// more will come and the caller is no longer registered.
    Deliver { id: JsonRpcId, item: Result<JsonValue, A2AError>, done: bool },
    /// End the stream of `id`, whose caller is no longer registered.
    End { id: JsonRpcId },
    /// The session is over: hand this to everyone who still waits.
    FailAll(A2AError),
}

/// What is to be done with what was read, in terms of contents.
#[verifier::ext_equal]
pub enum ClientActionView {
    Ignore,
    Deliver { id: IdView, item: Result<Json, ErrorView>, done: bool },
    End { id: IdView },
    FailAll(ErrorView),
}

impl View for ClientAction {
    type V = ClientActionView;

    open spec fn view(&self) -> ClientActionView {
        match *self {
            ClientAction::Ignore => ClientActionView::Ignore,
            ClientAction::Deliver { id, item, done } => ClientActionView::Deliver {
                id: id@,
                item: outcome(item),
                done,
            },
            ClientAction::End { id } => ClientActionView::End { id: id@ },
            ClientAction::FailAll(e) => ClientActionView::FailAll(e@),
        }
    }
}

/// The error that a caller gets for an error object. Its details are the data
/// where that is a list.
pub open spec fn caller_error(e: ErrorView) -> ErrorView {
    ErrorView {
        data: match e.data {
            Some(Json::Array(s)) => Some(Json::Array(s)),
            _ => None,
        },
        ..e
    }
}

/// The error that a caller gets for an error object.
pub fn from_jsonrpc(error: JsonRpcError) -> (r: A2AError)
    ensures
        r@ == caller_error(error@),
{
    let details = match error.data {
        Some(d) => match d {
            JsonValue::Array(_) => Some(d),
            _ => None,
        },
        None => None,
    };
    A2AError { code: error.code, message: error.message, details }
}

/// What is done with a message, where these callers wait. A message for which
/// nobody waits is dropped: a stream may be cancelled while its items are on
/// their way.
pub open spec fn delivery(waiting: Map<Seq<char>, PendingKind>, m: ServerView) -> ClientActionView {
    match m {
        ServerView::Result { id, result } => match waiting.get(key_text(id)) {
            Some(PendingKind::Unary) => ClientActionView::Deliver {
                id,
                item: Ok(result),
                done: true,
            },
            Some(PendingKind::Stream) => ClientActionView::Deliver {
                id,
                item: Ok(result),
                done: false,
            },
            None => ClientActionView::Ignore,
        },
        ServerView::Error { id, error } => match waiting.get(key_text(id)) {
            Some(_) => ClientActionView::Deliver { id, item: Err(caller_error(error)), done: true },
            None => ClientActionView::Ignore,
        },
        ServerView::StreamEnd { id } => match waiting.get(key_text(id)) {
            Some(PendingKind::Unary) => ClientActionView::Deliver {
                id,
                item: Err(internal("agent ended a stream for a unary request"@)),
                done: true,
            },
            Some(PendingKind::Stream) => ClientActionView::End { id },
            None => ClientActionView::Ignore,
        },
    }
}

/// What is done with a body that cannot be read: it costs only the caller that
/// it names, if it names one.
pub open spec fn unreadable(
    waiting: Map<Seq<char>, PendingKind>,
    id: IdView,
    f: WireFault,
) -> ClientActionView {
    if id is Null || !waiting.contains_key(key_text(id)) {
        ClientActionView::Ignore
    } else {
        ClientActionView::Deliver {
            id,
            item: Err(
                internal("agent sent a response this client cannot read: "@ + wire_message(f)),
            ),
            done: true,
        }
    }
}

/// What is done with what was read in a body, where these callers wait and this
/// identifier could be made out.
pub open spec fn client_inbound_action(
    waiting: Map<Seq<char>, PendingKind>,
    r: Result<ClientInboundView, WireFault>,
    peeked: IdView,
) -> ClientActionView {
    match r {
        Err(f) => unreadable(waiting, peeked, f),
        Ok(ClientInboundView::Control(ControlView::Heartbeat(_, _))) => ClientActionView::Ignore,
        Ok(ClientInboundView::Control(_)) => ClientActionView::FailAll(
            internal("agent repeated the handshake mid-session"@),
        ),
        Ok(ClientInboundView::Message(m)) => delivery(waiting, m),
    }
}

/// What is done with what came off the stream, where these callers wait.
pub open spec fn client_action(waiting: Map<Seq<char>, PendingKind>, event: ReadView) ->
    ClientActionView {
    match event {
        ReadView::Closed => ClientActionView::FailAll(
            internal("stdio session ended: agent closed STDOUT"@),
        ),
        ReadView::Fault(f) => ClientActionView::FailAll(
            internal("stdio framing error: "@ + fault_message(f)),
        ),
        ReadView::Body(b) => client_inbound_action(
            waiting,
            from_server(b),
            peeked_id(json_read(b)),
        ),
    }
}

/// Who still waits after an action.
pub open spec fn waiting_after(waiting: Map<Seq<char>, PendingKind>, a: ClientActionView) -> Map<
    Seq<char>,
    PendingKind,
> {
    match a {
        ClientActionView::Deliver { id, item, done } => if done {
            waiting.remove(key_text(id))
        } else {
            waiting
        },
        ClientActionView::End { id } => waiting.remove(key_text(id)),
        ClientActionView::FailAll(_) => Map::empty(),
        ClientActionView::Ignore => waiting,
    }
}

/// The number that comes after `n`: after the last one they start again.
pub open spec fn counted(n: u64) -> u64 {
    if n == u64::MAX {
        0
    } else {
        (n + 1) as u64
    }
}

/// The number that comes `k` requests after `n`.
pub open spec fn counted_on(n: u64, k: nat) -> u64
    decreases k,
{
    if k == 0 {
        n
    } else {
        counted(counted_on(n, (k - 1) as nat))
    }
}

/// The number of a request: after `i64::MAX` they go on from `i64::MIN`.
pub open spec fn numbered(n: u64) -> i64 {
    if n <= i64::MAX {
        n as i64
    } else {
        (n - 0x1_0000_0000_0000_0000int) as i64
    }
}

/// A session that a client takes part in.
#[derive(Debug)]
pub struct ClientSession {
    waiting: TextMap<PendingKind>,
    alive: bool,
    closed: bool,
    next: u64,
}

impl ClientSession {
    /// What the caller under each key waits for.
    pub closed spec fn waiting(&self) -> Map<Seq<char>, PendingKind> {
        self.waiting@
    }

    /// Whether the agent still sends.
    pub closed spec fn alive(&self) -> bool {
        self.alive
    }

    /// Whether the agent's input was closed.
    pub closed spec fn closed(&self) -> bool {
        self.closed
    }

    /// How many requests were numbered, and one.
    pub closed spec fn next(&self) -> u64 {
        self.next
    }

    /// A session at its start.
    pub fn new() -> (r: Self)
        ensures
            r.waiting() == Map::<Seq<char>, PendingKind>::empty(),
            r.alive(),
            !r.closed(),
            r.next() == 1,
    {
        ClientSession { waiting: TextMap::new(), alive: true, closed: false, next: 1 }
    }

    /// The identifier of the next request.
    pub fn next_id(&mut self) -> (r: JsonRpcId)
        ensures
            r@ == IdView::Int(numbered(old(self).next())),
            final(self).next() == counted(old(self).next()),
            final(self).waiting() == old(self).waiting(),
            final(self).alive() == old(self).alive(),
            final(self).closed() == old(self).closed(),
    {
        let n: u64 = self.next;
        self.next = if n == u64::MAX {
            0
        } else {
            n + 1
        };
        let i: i64 = if n <= i64::MAX as u64 {
            n as i64
        } else {
            let over: u64 = n - 0x8000_0000_0000_0000;
            (over as i64) + i64::MIN
        };
        JsonRpcId::Int(i)
    }

    /// Whether a frame can be sent now.
    pub fn ready(&self) -> (r: Result<(), A2AError>)
        ensures
            match r {
                Ok(_) => self.alive() && !self.closed(),
                Err(e) => if !self.alive() {
                    e@ == internal("stdio session ended"@)
                } else {
                    self.closed() && e@ == internal("stdio session is closed"@)
                },
            },
    {
        if !self.alive {
            return Err(A2AError::internal("stdio session ended"));
        }
        if self.closed {
            return Err(A2AError::internal("stdio session is closed"));
        }
        Ok(())
    }

    /// Notes that the agent's input was closed.
    pub fn close(&mut self)
        ensures
            final(self).closed(),
            final(self).waiting() == old(self).waiting(),
            final(self).alive() == old(self).alive(),
            final(self).next() == old(self).next(),
    {
        self.closed = true;
    }

    /// Notes that a caller waits for `id`.
    pub fn register(&mut self, id: &JsonRpcId, kind: PendingKind)
        ensures
            final(self).waiting() == old(self).waiting().insert(key_text(id@), kind),
            final(self).alive() == old(self).alive(),
            final(self).closed() == old(self).closed(),
            final(self).next() == old(self).next(),
    {
        self.waiting.insert(id_key(id), kind);
    }

    /// Notes that nobody waits for `id` any more.
    pub fn unregister(&mut self, id: &JsonRpcId)
        ensures
            final(self).waiting() == old(self).waiting().remove(key_text(id@)),
            final(self).alive() == old(self).alive(),
            final(self).closed() == old(self).closed(),
            final(self).next() == old(self).next(),
    {
        let key = id_key(id);
        let _ = self.waiting.remove(key.as_str());
    }

    /// Starts a call: whoever made it waits from now on, unless the session is
    /// over. What comes back is its identifier and the frame that asks for it, with
    /// the payload made ready to be sent.
    pub fn start_call(
        &mut self,
        kind: PendingKind,
        method: &str,
        payload: JsonValue,
        params: &ServiceParams,
    ) -> (r: Result<(JsonRpcId, Frame), A2AError>)
        ensures
            ({
                let id = IdView::Int(numbered(old(self).next()));
                match r {
                    Ok((i, f)) => {
                        &&& old(self).alive() && !old(self).closed()
                        &&& i@ == id
                        &&& holds_request(
                            f,
                            call_request(
                                id,
                                method@,
                                finished(model(payload), false),
                                params.spec_entries(),
                            ),
                        )
                        &&& final(self).waiting() == old(self).waiting().insert(key_text(id), kind)
                    },
                    Err(e) => {
                        &&& !old(self).alive() || old(self).closed()
                        &&& e@ == internal(
                            if !old(self).alive() {
                                "stdio session ended"@
                            } else {
                                "stdio session is closed"@
                            },
                        )
                        &&& final(self).waiting() == old(self).waiting().remove(key_text(id))
                    },
                }
            }),
            final(self).alive() == old(self).alive(),
            final(self).closed() == old(self).closed(),
            final(self).next() == counted(old(self).next()),
    {
        let id = self.next_id();
        self.register(&id, kind);
        let frame = match encode_request(&id, method, finish_payload(payload), params) {
            Ok(f) => f,
            Err(e) => {
                self.unregister(&id);
                return Err(e);
            },
        };
        if let Err(e) = self.ready() {
            self.unregister(&id);
            assert(self.waiting() =~= old(self).waiting().remove(key_text(id@)));
            return Err(e);
        }
        Ok((id, frame))
    }

    /// Ends the session from this side: the agent may be asked to end, and then
    /// its input is closed. What comes back is the frame that asks, if it is to
    /// be asked and can be.
    pub fn begin_shutdown(&mut self, ask: bool) -> (r: Option<Frame>)
        ensures
            r is Some <==> ask && old(self).alive() && !old(self).closed(),
            r matches Some(f) ==> holds_request(
                f,
                shutdown_request(IdView::Int(numbered(old(self).next()))),
            ),
            final(self).closed(),
            final(self).alive() == old(self).alive(),
            final(self).waiting() == old(self).waiting(),
            final(self).next() == (if ask {
                counted(old(self).next())
            } else {
                old(self).next()
            }),
    {
        let mut asked: Option<Frame> = None;
        if ask {
            let id = self.next_id();
            if let Ok(frame) = encode_shutdown(&id) {
                if self.ready().is_ok() {
                    asked = Some(frame);
                }
            }
        }
        self.close();
        asked
    }

    fn fail_all(&mut self, error: A2AError) -> (r: ClientAction)
        ensures
            r@ == ClientActionView::FailAll(error@),
            final(self).waiting() == Map::<Seq<char>, PendingKind>::empty(),
            !final(self).alive(),
            final(self).closed() == old(self).closed(),
            final(self).next() == old(self).next(),
    {
        self.waiting = TextMap::new();
        self.alive = false;
        ClientAction::FailAll(error)
    }

    /// Hands a message to whoever waits for its identifier.
    pub fn deliver(&mut self, msg: ServerMessage) -> (r: ClientAction)
        ensures
            r@ == delivery(old(self).waiting(), msg@),
            final(self).waiting() == waiting_after(old(self).waiting(), r@),
            final(self).alive() == old(self).alive(),
            final(self).closed() == old(self).closed(),
            final(self).next() == old(self).next(),
    {
        match msg {
            ServerMessage::Result { id, result } => {
                let key = id_key(&id);
                let kind: Option<PendingKind> = match self.waiting.get(key.as_str()) {
                    Some(k) => Some(*k),
                    None => None,
                };
                match kind {
                    Some(PendingKind::Unary) => {
                        let _ = self.waiting.remove(key.as_str());
                        ClientAction::Deliver { id, item: Ok(result), done: true }
                    },
                    Some(PendingKind::Stream) => ClientAction::Deliver {
                        id,
                        item: Ok(result),
                        done: false,
                    },
                    None => ClientAction::Ignore,
                }
            },
            ServerMessage::Error { id, error } => {
                let key = id_key(&id);
                match self.waiting.remove(key.as_str()) {
                    Some(_) => ClientAction::Deliver {
                        id,
                        item: Err(from_jsonrpc(error)),
                        done: true,
                    },
                    None => {
                        assert(self.waiting() =~= old(self).waiting());
                        ClientAction::Ignore
                    },
                }
            },
            ServerMessage::StreamEnd { id } => {
                let key = id_key(&id);
                match self.waiting.remove(key.as_str()) {
                    Some(PendingKind::Unary) => ClientAction::Deliver {
                        id,
                        item: Err(A2AError::internal("agent ended a stream for a unary request")),
                        done: true,
                    },
                    Some(PendingKind::Stream) => ClientAction::End { id },
                    None => {
                        assert(self.waiting() =~= old(self).waiting());
                        ClientAction::Ignore
                    },
                }
            },
        }
    }

    fn skip_unreadable(&mut self, id: JsonRpcId, error: &WireError) -> (r: ClientAction)
        ensures
            r@ == unreadable(old(self).waiting(), id@, error@),
            final(self).waiting() == waiting_after(old(self).waiting(), r@),
            final(self).alive() == old(self).alive(),
            final(self).closed() == old(self).closed(),
            final(self).next() == old(self).next(),
    {
        if let JsonRpcId::Null = id {
            return ClientAction::Ignore;
        }
        let key = id_key(&id);
        match self.waiting.remove(key.as_str()) {
            Some(_) => ClientAction::Deliver {
                id,
                item: Err(
                    A2AError::internal(
                        joined(
                            "agent sent a response this client cannot read: ",
                            error.message().as_str(),
                        ).as_str(),
                    ),
                ),
                done: true,
            },
            None => {
                assert(self.waiting() =~= old(self).waiting());
                ClientAction::Ignore
            },
        }
    }

    /// What is to be done with what was read in a body. `peeked` is the
    /// identifier that could be made out where the body was refused.
    pub fn on_inbound(
        &mut self,
        inbound: Result<ClientInbound, WireError>,
        peeked: JsonRpcId,
    ) -> (r: ClientAction)
        ensures
            r@ == client_inbound_action(old(self).waiting(), client_inbound(inbound), peeked@),
            final(self).waiting() == waiting_after(old(self).waiting(), r@),
            final(self).alive() == (old(self).alive() && !(r@ is FailAll)),
            final(self).closed() == old(self).closed(),
            final(self).next() == old(self).next(),
    {
        match inbound {
            Err(e) => self.skip_unreadable(peeked, &e),
            Ok(ClientInbound::Control(c)) => match c {
                ControlFrame::Heartbeat(_) => ClientAction::Ignore,
                _ => self.fail_all(A2AError::internal("agent repeated the handshake mid-session")),
            },
            Ok(ClientInbound::Message(m)) => self.deliver(m),
        }
    }

    /// What is to be done with what came off the stream.
    pub fn on_event(&mut self, event: ReadEvent) -> (r: ClientAction)
        ensures
            r@ == client_action(old(self).waiting(), event@),
            final(self).waiting() == waiting_after(old(self).waiting(), r@),
            final(self).alive() == (old(self).alive() && !(r@ is FailAll)),
            final(self).closed() == old(self).closed(),
            final(self).next() == old(self).next(),
    {
        match event {
            ReadEvent::Closed => self.fail_all(
                A2AError::internal("stdio session ended: agent closed STDOUT"),
            ),
            ReadEvent::Fault(e) => self.fail_all(
                A2AError::internal(joined("stdio framing error: ", e.message().as_str()).as_str()),
            ),
            ReadEvent::Body(b) => {
                let inbound = parse_from_server(b.as_slice());
                let peeked = peek_id(b.as_slice());
                self.on_inbound(inbound, peeked)
            },
        }
    }
}

/// What a stream's consumer gets when it asks: whether the stream is finished
/// then, and the item, if there is one. `next` is what came off the stream,
/// with nothing for its end.
pub open spec fn polled(finished: bool, next: Option<Result<Json, ErrorView>>) -> (bool, Option<
    Result<Json, ErrorView>,
>) {
    if finished {
        (true, None)
    } else {
        match next {
            None => (true, None),
            Some(Err(e)) => (true, Some(Err(e))),
            Some(Ok(v)) => (false, Some(Ok(v))),
        }
    }
}

/// The contents of an optional outcome.
pub open spec fn opt_outcome(o: Option<Result<JsonValue, A2AError>>) -> Option<
    Result<Json, ErrorView>,
> {
    match o {
        Some(r) => Some(outcome(r)),
        None => None,
    }
}

/// How the agent's process ended, once its input was closed.
#[derive(Debug)]
pub enum ChildEnd {
    /// There is no process: the session runs over other streams.
    Attached,
    /// It ended in time.
    Exited,
    /// It could not be waited for.
    WaitFailed(String),
    /// It did not end in time.
    TimedOut,
}

/// What is to be done with the agent's process.
#[derive(Debug)]
pub enum Reap {
    /// Nothing.
    Done,
    /// It must be ended by force.
    Kill,
    /// This is to be told.
    Fail(A2AError),
}

/// What is to be done with the agent's process.
pub fn reap(end: ChildEnd) -> (r: Reap)
    ensures
        match end {
            ChildEnd::Attached | ChildEnd::Exited => r is Done,
            ChildEnd::TimedOut => r is Kill,
            ChildEnd::WaitFailed(e) => r matches Reap::Fail(x) && x@ == internal(
                "cannot reap agent: "@ + e@,
            ),
        },
{
    match end {
        ChildEnd::Attached | ChildEnd::Exited => Reap::Done,
        ChildEnd::TimedOut => Reap::Kill,
        ChildEnd::WaitFailed(e) => Reap::Fail(
            A2AError::internal(joined("cannot reap agent: ", e.as_str()).as_str()),
        ),
    }
}

/// What a call comes to, once its answer was read: what was read from it, or why
/// it cannot be read, or the error that it was answered with.
pub fn read_answer<T>(answer: Result<Result<T, String>, A2AError>) -> (r: Result<T, A2AError>)
    ensures
        match answer {
            Ok(Ok(v)) => r == Ok::<T, A2AError>(v),
            Ok(Err(e)) => r matches Err(x) && x@ == internal("invalid response payload: "@ + e@),
            Err(e) => r == Err::<T, A2AError>(e),
        },
{
    match answer {
        Ok(Ok(v)) => Ok(v),
        Ok(Err(e)) => Err(
            A2AError::internal(joined("invalid response payload: ", e.as_str()).as_str()),
        ),
        Err(e) => Err(e),
    }
}

/// A stream as its consumer sees it.
#[derive(Debug)]
pub struct StreamHandle {
    finished: bool,
}

impl StreamHandle {
    /// Whether nothing more will come.
    pub closed spec fn finished(&self) -> bool {
        self.finished
    }

    /// A stream that was just asked for.
    pub fn new() -> (r: Self)
        ensures
            !r.finished(),
    {
        StreamHandle { finished: false }
    }

    /// Notes that the request never reached the agent.
    pub fn abandon(&mut self)
        ensures
            final(self).finished(),
    {
        self.finished = true;
    }

    /// What the consumer gets for what came off the stream.
    pub fn poll(&mut self, next: Option<Result<JsonValue, A2AError>>) -> (r: Option<
        Result<JsonValue, A2AError>,
    >)
        ensures
            (final(self).finished(), opt_outcome(r)) == polled(
                old(self).finished(),
                opt_outcome(next),
            ),
    {
        if self.finished {
            return None;
        }
        match next {
            None => {
                self.finished = true;
                None
            },
            Some(Err(e)) => {
                self.finished = true;
                Some(Err(e))
            },
            Some(Ok(v)) => Some(Ok(v)),
        }
    }

    /// Whether the agent must be told when the consumer leaves: only where it
    /// has not ended the stream itself.
    pub fn needs_cancel(&self) -> (r: bool)
        ensures
            r == !self.finished(),
    {
        !self.finished
    }
}

proof fn lemma_counted_on(n: u64, k: nat)
    ensures
        counted_on(n, k) == (n + k) % 0x1_0000_0000_0000_0000,
    decreases k,
{
    if k > 0 {
        lemma_counted_on(n, (k - 1) as nat);
    }
}

/// Each call has an identifier of its own: of as many calls as there are numbers,
/// started one after the other, no two have the same, nor the same key.
pub proof fn law_calls_have_their_own_ids(n: u64, i: nat, j: nat)
    requires
        i < j < i + 0x1_0000_0000_0000_0000,
    ensures
        numbered(counted_on(n, i)) != numbered(counted_on(n, j)),
        key_text(IdView::Int(numbered(counted_on(n, i)))) != key_text(
            IdView::Int(numbered(counted_on(n, j))),
        ),
{
    lemma_counted_on(n, i);
    lemma_counted_on(n, j);
    let a = IdView::Int(numbered(counted_on(n, i)));
    let b = IdView::Int(numbered(counted_on(n, j)));
    if key_text(a) == key_text(b) {
        law_id_keys_differ(a, b);
    }
}

/// Two calls that are started one after the other have different identifiers, so
/// that the second does not take the place of the first.
pub proof fn law_the_next_call_has_another_id(n: u64)
    ensures
        numbered(n) != numbered(counted(n)),
        key_text(IdView::Int(numbered(n))) != key_text(IdView::Int(numbered(counted(n)))),
{
    reveal_with_fuel(counted_on, 2);
    law_calls_have_their_own_ids(n, 0, 1);
}

/// A call is answered once: after its answer was delivered, a further message
/// for it is dropped.
pub proof fn law_a_call_is_answered_once(
    waiting: Map<Seq<char>, PendingKind>,
    id: IdView,
    first: ServerView,
    again: ServerView,
)
    requires
        first == (ServerView::Result { id, result: first->result }) || first == (
        ServerView::Error { id, error: first->error }) || first == (ServerView::StreamEnd { id }),
        again == (ServerView::Result { id, result: again->result }) || again == (
        ServerView::Error { id, error: again->error }) || again == (ServerView::StreamEnd { id }),
        waiting.get(key_text(id)) == Some(PendingKind::Unary),
    ensures
        delivery(waiting, first) matches ClientActionView::Deliver { id: x, item, done } && x == id
            && done,
        delivery(waiting_after(waiting, delivery(waiting, first)), again)
            == ClientActionView::Ignore,
{
}

/// A message for one identifier leaves everyone else waiting as they did.
pub proof fn law_delivery_touches_one_caller(
    waiting: Map<Seq<char>, PendingKind>,
    m: ServerView,
    other: IdView,
)
    requires
        match m {
            ServerView::Result { id, result } => id != other,
            ServerView::Error { id, error } => id != other,
            ServerView::StreamEnd { id } => id != other,
        },
    ensures
        waiting_after(waiting, delivery(waiting, m)).get(key_text(other)) == waiting.get(
            key_text(other),
        ),
{
    let id = match m {
        ServerView::Result { id, result } => id,
        ServerView::Error { id, error } => id,
        ServerView::StreamEnd { id } => id,
    };
    if key_text(id) == key_text(other) {
        crate::protocol::law_id_keys_differ(id, other);
    }
}

/// A finished stream stays finished and gives nothing more.
pub proof fn law_a_finished_stream_is_silent(next: Option<Result<Json, ErrorView>>)
    ensures
        polled(true, next) == (true, None::<Result<Json, ErrorView>>),
{
}

} // verus!
