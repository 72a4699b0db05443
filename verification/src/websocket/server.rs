//! The server half of the WebSocket binding: what is done with each frame, and
//! what a connection's requests carry.
//!
//! Reading, writing, waiting and the authenticator are left to the caller of
//! this module. The functions here decide.
use crate::dispatch::{
    no_such_method, outcome, unwritable, unwritable_error, Call, CallView, Handled, HandledView,
    StreamEvent, StreamEventView,
};
use crate::error_code;
use crate::json_value::{
    depth_limit, json_read, json_written, model, object, plain_json, Json, JsonValue,
};
use crate::methods::{is_known, is_streaming, known, streams, AUTHENTICATE};
use crate::params::{copy_params, copy_texts, lemma_lists_insert, lists, ServiceParams};
use crate::protocol::{
    id_key, ids_in, key_text, keyed, opt_flat, opt_id, plain_error, reported, A2AError, ErrorView,
    IdView, JsonRpcId,
};
use crate::protojson::{finish_payload, finish_result, finished, is_page};
use crate::stdio::json::SHAPE_ERROR;
use crate::text::{joined, lower_text, lowered, same_text, texts};
use crate::text_map::{map_of, TextMap};
use crate::websocket::auth::{
    credentials_read, AuthContext, AuthError, AuthStatus, AuthView, AuthenticateParams,
};
use crate::websocket::common::{
    envelope_params, service_params_from_envelope, ws_error, ws_reauth, ws_request_in,
    ws_request_result, ws_response_in, ws_response_json, ws_response_plain, ws_result,
    ws_stream_end, WsRequestEnvelope, WsRequestView, WsResponseEnvelope, WsResponseView,
    DEFAULT_MAX_FRAME_BYTES, JSONRPC_VERSION, SERVER_ERROR_CODE,
};
use crate::websocket::errors::{
    close_code_for_fatal, close_code_for_read_error, fatal_code, read_fault_code, ReadFault,
    AUTHENTICATION_REQUIRED, POLICY_VIOLATION, PROTOCOL_ERROR, UNSUPPORTED_DATA,
};
use crate::websocket::handshake::{capture_connection_params, gathered, Header};
use crate::websocket::ratelimit::RateLimitPolicy;
use vstd::prelude::*;
use vstd::slice::slice_to_vec;
use vstd::utf8::encode_utf8;

verus! {

/// How many frames may wait to be written.
pub const OUTBOUND_BUFFER_CAPACITY: usize = 64;

/// What is said where a peer sends too much.
pub const RATE_LIMIT_EXCEEDED: &'static str = "Rate limit exceeded";

/// What is sent where not even an error can be written.
pub const SERIALIZATION_ERROR: &'static str =
    "{\"jsonrpc\":\"2.0\",\"id\":null,\"error\":{\"code\":-32603,\"message\":\"serialization error\"}}";

/// How a server is set up.
#[derive(Debug)]
pub struct WebSocketConfig {
    /// The origins that connections may come from. Nothing means any.
    pub allowed_origins: Option<Vec<String>>,
    /// How long a message may be. Nothing means [`DEFAULT_MAX_FRAME_BYTES`].
    pub max_frame_bytes: Option<usize>,
    /// How many messages a peer may send.
    pub rate_limit: RateLimitPolicy,
}

impl Default for WebSocketConfig {
    fn default() -> (r: Self)
        ensures
            r.allowed_origins is None,
            r.max_frame_bytes is None,
            r.rate_limit == RateLimitPolicy::Default,
    {
        WebSocketConfig {
            allowed_origins: None,
            max_frame_bytes: None,
            rate_limit: RateLimitPolicy::Default,
        }
    }
}

impl WebSocketConfig {
    /// How long a message may be.
    pub fn max_frame_bytes(&self) -> (r: usize)
        ensures
            r == (match self.max_frame_bytes {
                Some(n) => n,
                None => DEFAULT_MAX_FRAME_BYTES,
            }),
    {
        match self.max_frame_bytes {
            Some(n) => n,
            None => DEFAULT_MAX_FRAME_BYTES,
        }
    }
}

// ---------------------------------------------------------------------------
// Frames that go out.
// ---------------------------------------------------------------------------

/// A frame that goes out: text, or the end of the connection.
#[derive(Debug)]
pub enum Outbound {
    Frame(Vec<u8>),
    Close { code: u16, reason: String },
}

/// A frame that goes out, in terms of contents.
#[verifier::ext_equal]
pub enum OutboundView {
    Frame(Seq<u8>),
    Close { code: u16, reason: Seq<char> },
}

impl View for Outbound {
    type V = OutboundView;

    open spec fn view(&self) -> OutboundView {
        match *self {
            Outbound::Frame(b) => OutboundView::Frame(b@),
            Outbound::Close { code, reason } => OutboundView::Close { code, reason: reason@ },
        }
    }
}

/// The contents of a list of frames.
pub open spec fn outs(s: Seq<Outbound>) -> Seq<OutboundView> {
    Seq::new(s.len(), |i: int| s[i]@)
}

/// The bytes of a response: where it cannot be written, those of an error that
/// says so.
pub open spec fn response_bytes(v: WsResponseView) -> Seq<u8> {
    match json_written(ws_response_json(v)) {
        Ok(b) => b,
        Err(e) => match json_written(
            ws_response_json(
                ws_error(
                    v.id,
                    reported(
                        plain_error(
                            error_code::INTERNAL_ERROR,
                            "failed to serialize response: "@ + e,
                        ),
                    ),
                ),
            ),
        ) {
            Ok(b) => b,
            Err(_) => encode_utf8(SERIALIZATION_ERROR@),
        },
    }
}

/// A response as a frame.
pub open spec fn sent(v: WsResponseView) -> OutboundView {
    OutboundView::Frame(response_bytes(v))
}

/// Whether the bytes of a response read as its JSON form, nulls among its members,
/// and as that response, as far as it can be told from them.
pub open spec fn reads_back(v: WsResponseView) -> bool {
    &&& plain_json(ws_response_json(v), depth_limit()) ==> json_read(response_bytes(v)) == Ok::<
        Json,
        Seq<char>,
    >(ws_response_json(v))
    &&& ws_response_plain(v) ==> ws_response_in(response_bytes(v)) == Ok::<
        WsResponseView,
        Seq<char>,
    >(v)
}

/// An error as a frame.
pub open spec fn sent_error(id: Option<IdView>, e: ErrorView) -> OutboundView {
    sent(ws_error(id, reported(e)))
}

fn copy_id(id: &Option<JsonRpcId>) -> (r: Option<JsonRpcId>)
    ensures
        opt_id(r) == opt_id(*id),
{
    match id {
        Some(i) => Some(i.clone()),
        None => None,
    }
}

/// The bytes of a response, which read as that response.
pub fn serialize_response(resp: &WsResponseEnvelope) -> (r: Vec<u8>)
    ensures
        r@ == response_bytes(resp@),
        reads_back(resp@),
{
    match resp.to_vec() {
        Ok(b) => b,
        Err(e) => {
            let error = A2AError::internal(
                joined("failed to serialize response: ", e.as_str()).as_str(),
            );
            let fallback = WsResponseEnvelope::error(copy_id(&resp.id), error.to_jsonrpc_error());
            match fallback.to_vec() {
                Ok(b) => b,
                Err(_) => slice_to_vec(SERIALIZATION_ERROR.as_bytes()),
            }
        },
    }
}

fn frame(resp: WsResponseEnvelope) -> (r: Outbound)
    ensures
        r@ == sent(resp@),
        reads_back(resp@),
{
    Outbound::Frame(serialize_response(&resp))
}

/// An error as a frame.
pub fn error_frame(id: Option<JsonRpcId>, err: &A2AError) -> (r: Outbound)
    ensures
        r@ == sent_error(opt_id(id), err@),
        reads_back(ws_error(opt_id(id), reported(err@))),
{
    frame(WsResponseEnvelope::error(id, err.to_jsonrpc_error()))
}

fn close(code: u16, reason: &str) -> (r: Outbound)
    ensures
        r@ == (OutboundView::Close { code, reason: reason@ }),
{
    Outbound::Close { code, reason: reason.to_owned() }
}

fn one(a: Outbound) -> (r: Vec<Outbound>)
    ensures
        outs(r@) == seq![a@],
{
    let mut r: Vec<Outbound> = Vec::new();
    r.push(a);
    assert(outs(r@) =~= seq![a@]);
    r
}

fn two(a: Outbound, b: Outbound) -> (r: Vec<Outbound>)
    ensures
        outs(r@) == seq![a@, b@],
{
    let mut r: Vec<Outbound> = Vec::new();
    r.push(a);
    r.push(b);
    assert(outs(r@) =~= seq![a@, b@]);
    r
}

/// What is sent to a peer that sends too much, before its connection is closed.
/// Its message is not read, so the error has no identifier.
pub fn rate_limited() -> (r: Vec<Outbound>)
    ensures
        outs(r@) == seq![
            sent_error(Some(IdView::Null), plain_error(SERVER_ERROR_CODE, RATE_LIMIT_EXCEEDED@)),
            OutboundView::Close { code: POLICY_VIOLATION, reason: RATE_LIMIT_EXCEEDED@ },
        ],
{
    let error = A2AError::new(SERVER_ERROR_CODE, RATE_LIMIT_EXCEEDED.to_owned());
    two(error_frame(Some(JsonRpcId::Null), &error), close(POLICY_VIOLATION, RATE_LIMIT_EXCEEDED))
}

/// How many of the frames that wait are still written when a connection ends:
/// those up to the first that closes it.
pub open spec fn flush_len(q: Seq<OutboundView>) -> int
    decreases q.len(),
{
    if q.len() == 0 {
        0
    } else if q[0] is Close {
        1
    } else {
        1 + flush_len(q.drop_first())
    }
}

proof fn lemma_flush_len(q: Seq<OutboundView>, n: int)
    requires
        0 <= n <= q.len(),
        forall|j: int| 0 <= j < n ==> !(#[trigger] q[j] is Close),
    ensures
        n < q.len() && q[n] is Close ==> flush_len(q) == n + 1,
        n == q.len() ==> flush_len(q) == n,
    decreases q.len(),
{
    if n > 0 {
        let d = q.drop_first();
        assert forall|j: int| 0 <= j < n - 1 implies !(#[trigger] d[j] is Close) by {
            assert(d[j] == q[j + 1]);
        }
        lemma_flush_len(d, n - 1);
    }
}

/// The frames that wait and are still written when a connection ends.
pub fn flush_outbound(queue: Vec<Outbound>) -> (r: Vec<Outbound>)
    ensures
        outs(r@) == outs(queue@).take(flush_len(outs(queue@))),
{
    let mut kept = queue;
    let ghost q = outs(kept@);
    let n: usize = kept.len();
    let mut i: usize = 0;
    while i < n
        invariant
            i <= n,
            n == kept.len(),
            q == outs(kept@),
            q == outs(queue@),
            forall|j: int| 0 <= j < i ==> !(#[trigger] q[j] is Close),
        decreases n - i,
    {
        let closes = match &kept[i] {
            Outbound::Close { code, reason } => true,
            Outbound::Frame(_) => false,
        };
        assert(closes == (q[i as int] is Close));
        if closes {
            proof {
                lemma_flush_len(q, i as int);
            }
            kept.truncate(i + 1);
            assert(outs(kept@) =~= q.take(i + 1));
            return kept;
        }
        i = i + 1;
    }
    proof {
        lemma_flush_len(q, n as int);
        assert(q.take(n as int) =~= q);
    }
    kept
}

/// Nothing is written after a connection was closed.
pub proof fn law_nothing_follows_a_close(q: Seq<OutboundView>, i: int)
    requires
        0 <= i < flush_len(q) - 1,
    ensures
        flush_len(q) <= q.len(),
        q[i] is Frame,
    decreases q.len(),
{
    lemma_flush_bound(q);
    if i > 0 {
        law_nothing_follows_a_close(q.drop_first(), i - 1);
    }
}

proof fn lemma_flush_bound(q: Seq<OutboundView>)
    ensures
        0 <= flush_len(q) <= q.len(),
    decreases q.len(),
{
    if q.len() > 0 {
        lemma_flush_bound(q.drop_first());
    }
}

// ---------------------------------------------------------------------------
// What requests carry.
// ---------------------------------------------------------------------------

/// Service parameters with their names in small letters.
pub open spec fn low_params(e: Seq<(Seq<char>, Vec<String>)>) -> Map<Seq<char>, Seq<Seq<char>>>
    decreases e.len(),
{
    if e.len() == 0 {
        Map::empty()
    } else {
        low_params(e.drop_last()).insert(lowered(e.last().0), texts(e.last().1@))
    }
}

/// What every request on a connection carries: what its headers say, and over
/// that what its authenticator has found, which no request can replace.
#[derive(Debug)]
pub struct ConnectionParams {
    base: ServiceParams,
    params: ServiceParams,
    authenticated: TextMap<bool>,
}

impl ConnectionParams {
    /// What the headers say.
    pub closed spec fn base(&self) -> Map<Seq<char>, Seq<Seq<char>>> {
        lists(self.base@)
    }

    /// What every request carries.
    pub closed spec fn params(&self) -> Map<Seq<char>, Seq<Seq<char>>> {
        lists(self.params@)
    }

    /// The names that no request can replace.
    pub closed spec fn authenticated(&self) -> Set<Seq<char>> {
        self.authenticated@.dom()
    }

    /// What requests carry on a connection with these headers and this context.
    pub fn new(headers: &Vec<Header>, auth_ctx: &AuthContext) -> (r: Self)
        ensures
            r.base() == gathered(headers@, false),
            r.params() == gathered(headers@, false).union_prefer_right(
                low_params(auth_ctx.service_params.spec_entries()),
            ),
            r.authenticated() == low_params(auth_ctx.service_params.spec_entries()).dom(),
    {
        ConnectionParams::from_base(capture_connection_params(headers), auth_ctx)
    }

    /// What requests carry over `base` in this context.
    pub fn from_base(base: ServiceParams, auth_ctx: &AuthContext) -> (r: Self)
        ensures
            r.base() == lists(base@),
            r.params() == lists(base@).union_prefer_right(
                low_params(auth_ctx.service_params.spec_entries()),
            ),
            r.authenticated() == low_params(auth_ctx.service_params.spec_entries()).dom(),
    {
        let mut params = copy_params(&base);
        let mut authenticated: TextMap<bool> = TextMap::new();
        let given = &auth_ctx.service_params;
        let n: usize = given.len();
        let ghost es = given.spec_entries();
        let mut i: usize = 0;
        proof {
            assert(lists(params@) =~= lists(base@).union_prefer_right(low_params(es.take(0))));
            assert(authenticated@.dom() =~= low_params(es.take(0)).dom());
        }
        while i < n
            invariant
                i <= n,
                n == es.len(),
                es == given.spec_entries(),
                lists(params@) == lists(base@).union_prefer_right(low_params(es.take(i as int))),
                authenticated@.dom() == low_params(es.take(i as int)).dom(),
            decreases n - i,
        {
            let key = lower_text(given.key_at(i));
            let values = copy_texts(given.value_at(i));
            proof {
                let t = es.take(i + 1);
                assert(t.drop_last() =~= es.take(i as int));
                lemma_lists_insert(params@, key@, values);
                assert(lists(params@).insert(key@, texts(values@)) =~= lists(
                    base@,
                ).union_prefer_right(low_params(t)));
                assert(authenticated@.insert(key@, true).dom() =~= low_params(t).dom());
            }
            let name = key.clone();
            params.insert(key, values);
            authenticated.insert(name, true);
            i = i + 1;
        }
        assert(es.take(n as int) =~= es);
        ConnectionParams { base, params, authenticated }
    }

    /// What requests carry once this context has replaced the one before it.
    pub fn reauthenticated(&self, auth_ctx: &AuthContext) -> (r: Self)
        ensures
            r.base() == self.base(),
            r.params() == self.base().union_prefer_right(
                low_params(auth_ctx.service_params.spec_entries()),
            ),
            r.authenticated() == low_params(auth_ctx.service_params.spec_entries()).dom(),
    {
        ConnectionParams::from_base(copy_params(&self.base), auth_ctx)
    }

    /// What one request carries: its own parameters over those of the
    /// connection, but for the names that it cannot replace.
    pub fn combine(&self, per_request: &Option<TextMap<String>>) -> (r: ServiceParams)
        ensures
            lists(r@) == combined(self.params(), self.authenticated(), requested(*per_request)),
    {
        let mut out = copy_params(&self.params);
        let own = match per_request {
            Some(m) => service_params_from_envelope(m),
            None => TextMap::new(),
        };
        let n: usize = own.len();
        let ghost es = own.spec_entries();
        let ghost auth = self.authenticated();
        let mut i: usize = 0;
        proof {
            assert(lists(own@) =~= requested(*per_request));
            assert(lists(out@) =~= combined(self.params(), auth, lists(map_of(es.take(0)))));
        }
        while i < n
            invariant
                i <= n,
                n == es.len(),
                es == own.spec_entries(),
                auth == self.authenticated(),
                lists(out@) == combined(self.params(), auth, lists(map_of(es.take(i as int)))),
            decreases n - i,
        {
            let key = own.key_at(i);
            let values = copy_texts(own.value_at(i));
            proof {
                let t = es.take(i + 1);
                assert(t.drop_last() =~= es.take(i as int));
                lemma_lists_insert(map_of(es.take(i as int)), es[i as int].0, es[i as int].1);
                lemma_lists_insert(out@, key@, values);
                assert(texts(values@) == texts(es[i as int].1@));
                let had = lists(map_of(es.take(i as int)));
                let has = had.insert(key@, texts(values@));
                assert(has == lists(map_of(t)));
                if auth.contains(key@) {
                    assert(combined(self.params(), auth, has) =~= combined(
                        self.params(),
                        auth,
                        had,
                    ));
                } else {
                    assert(combined(self.params(), auth, has) =~= combined(
                        self.params(),
                        auth,
                        had,
                    ).insert(key@, texts(values@)));
                }
            }
            if !self.authenticated.contains_key(key) {
                out.insert(key.to_owned(), values);
            }
            i = i + 1;
        }
        assert(es.take(n as int) =~= es);
        out
    }
}

/// What a request says of its service parameters.
pub open spec fn requested(per_request: Option<TextMap<String>>) -> Map<Seq<char>, Seq<Seq<char>>> {
    match per_request {
        Some(m) => envelope_params(m.spec_entries()),
        None => Map::empty(),
    }
}

/// What one request carries.
pub open spec fn combined(
    connection: Map<Seq<char>, Seq<Seq<char>>>,
    authenticated: Set<Seq<char>>,
    own: Map<Seq<char>, Seq<Seq<char>>>,
) -> Map<Seq<char>, Seq<Seq<char>>> {
    connection.union_prefer_right(own.remove_keys(authenticated))
}

/// What one request on a connection carries.
pub fn combine_service_params(connection: &ConnectionParams, envelope: &WsRequestEnvelope) -> (r:
    ServiceParams)
    ensures
        lists(r@) == combined(
            connection.params(),
            connection.authenticated(),
            requested(envelope.service_params),
        ),
{
    connection.combine(&envelope.service_params)
}

proof fn lemma_low_params_has(e: Seq<(Seq<char>, Vec<String>)>, i: int)
    requires
        0 <= i < e.len(),
    ensures
        low_params(e).contains_key(lowered(e[i].0)),
    decreases e.len(),
{
    if i < e.len() - 1 {
        lemma_low_params_has(e.drop_last(), i);
        assert(e.drop_last()[i] == e[i]);
    }
}

/// Neither a header nor a request can replace what the authenticator has found,
/// in whatever case it writes the name.
pub proof fn law_authenticated_params_hold(
    base: Map<Seq<char>, Seq<Seq<char>>>,
    found: Seq<(Seq<char>, Vec<String>)>,
    own: Map<Seq<char>, Seq<Seq<char>>>,
    i: int,
)
    requires
        0 <= i < found.len(),
    ensures
        ({
            let name = lowered(found[i].0);
            let connection = base.union_prefer_right(low_params(found));
            let carried = combined(connection, low_params(found).dom(), own);
            carried.contains_key(name) && carried[name] == low_params(found)[name]
        }),
{
    lemma_low_params_has(found, i);
}

/// What the authenticator has not found, a request may replace; what it does not
/// replace stays as the connection has it.
pub proof fn law_other_params_can_be_replaced(
    connection: Map<Seq<char>, Seq<Seq<char>>>,
    authenticated: Set<Seq<char>>,
    own: Map<Seq<char>, Seq<Seq<char>>>,
    name: Seq<char>,
)
    requires
        !authenticated.contains(name),
    ensures
        own.contains_key(name) ==> combined(connection, authenticated, own).contains_key(name)
            && combined(connection, authenticated, own)[name] == own[name],
        !own.contains_key(name) ==> (combined(connection, authenticated, own).contains_key(name)
            <==> connection.contains_key(name)),
        !own.contains_key(name) && connection.contains_key(name) ==> combined(
            connection,
            authenticated,
            own,
        )[name] == connection[name],
{
}

// ---------------------------------------------------------------------------
// Frames that come in.
// ---------------------------------------------------------------------------

/// A request that was read.
#[derive(Debug)]
pub struct WsCall {
    pub id: JsonRpcId,
    pub method: String,
    pub params: JsonValue,
    pub service_params: Option<TextMap<String>>,
}

/// A request that was read, in terms of contents.
#[verifier::ext_equal]
pub struct WsCallView {
    pub id: IdView,
    pub method: Seq<char>,
    pub params: Json,
    pub service_params: Option<Map<Seq<char>, Seq<char>>>,
}

impl View for WsCall {
    type V = WsCallView;

    open spec fn view(&self) -> WsCallView {
        WsCallView {
            id: self.id@,
            method: self.method@,
            params: model(self.params),
            service_params: opt_flat(self.service_params),
        }
    }
}

/// What is to be done with a text frame.
#[derive(Debug)]
pub enum FrameStep {
    /// Send this; where it is fatal, the connection ends.
    Refuse { out: Vec<Outbound>, fatal: bool },
    /// Stop the stream of this request, if there is one.
    Cancel { id: JsonRpcId },
    /// Replace the credentials of the connection.
    Authenticate { id: JsonRpcId, params: JsonValue },
    /// Look at the credentials of the connection, then make the call.
    Request(WsCall),
}

/// What is to be done with a text frame, in terms of contents.
#[verifier::ext_equal]
pub enum FrameStepView {
    Refuse { out: Seq<OutboundView>, fatal: bool },
    Cancel { id: IdView },
    Authenticate { id: IdView, params: Json },
    Request(WsCallView),
}

impl View for FrameStep {
    type V = FrameStepView;

    open spec fn view(&self) -> FrameStepView {
        match *self {
            FrameStep::Refuse { out, fatal } => FrameStepView::Refuse { out: outs(out@), fatal },
            FrameStep::Cancel { id } => FrameStepView::Cancel { id: id@ },
            FrameStep::Authenticate { id, params } => FrameStepView::Authenticate {
                id: id@,
                params: model(params),
            },
            FrameStep::Request(c) => FrameStepView::Request(c@),
        }
    }
}

/// A frame that is answered with an error, and changes nothing else.
pub open spec fn declined(id: Option<IdView>, message: Seq<char>) -> FrameStepView {
    FrameStepView::Refuse {
        out: seq![sent_error(id, plain_error(error_code::INVALID_REQUEST, message))],
        fatal: false,
    }
}

/// A value, or null where there is none.
pub open spec fn or_null(o: Option<Json>) -> Json {
    match o {
        Some(j) => j,
        None => Json::Null,
    }
}

/// The identifier that a frame is answered by: null where it holds none. Only the
/// control frames of a server have no identifier at all.
pub open spec fn id_or_null(o: Option<IdView>) -> IdView {
    match o {
        Some(i) => i,
        None => IdView::Null,
    }
}

/// What is to be done with an envelope, or with a frame that holds none.
pub open spec fn frame_step(r: Result<WsRequestView, Seq<char>>) -> FrameStepView {
    match r {
        Err(e) => FrameStepView::Refuse {
            out: seq![
                sent_error(
                    Some(IdView::Null),
                    plain_error(error_code::PARSE_ERROR, "invalid JSON envelope: "@ + e),
                ),
                OutboundView::Close { code: PROTOCOL_ERROR, reason: "JSON parse error"@ },
            ],
            fatal: true,
        },
        Ok(v) => if v.jsonrpc != JSONRPC_VERSION@ {
            declined(Some(id_or_null(v.id)), "unsupported jsonrpc version: '"@ + v.jsonrpc + "'"@)
        } else {
            match v.id {
                None => declined(Some(IdView::Null), "request id is required"@),
                Some(IdView::Null) => declined(
                    Some(IdView::Null),
                    "request id must not be null"@,
                ),
                Some(id) => if v.cancel_stream == Some(true) {
                    FrameStepView::Cancel { id }
                } else {
                    match v.method {
                        None => declined(Some(id), "method is required"@),
                        Some(m) => if m == AUTHENTICATE@ {
                            FrameStepView::Authenticate { id, params: or_null(v.params) }
                        } else {
                            FrameStepView::Request(
                                WsCallView {
                                    id,
                                    method: m,
                                    params: or_null(v.params),
                                    service_params: v.service_params,
                                },
                            )
                        },
                    }
                },
            }
        },
    }
}

fn decline(id: Option<JsonRpcId>, message: &str) -> (r: FrameStep)
    ensures
        r@ == declined(opt_id(id), message@),
{
    FrameStep::Refuse {
        out: one(error_frame(id, &A2AError::invalid_request(message))),
        fatal: false,
    }
}

/// What is to be done with an envelope, or with a frame that holds none.
pub fn handle_envelope(read: Result<WsRequestEnvelope, String>) -> (r: FrameStep)
    ensures
        r@ == frame_step(ws_request_result(read)),
{
    let envelope = match read {
        Ok(e) => e,
        Err(e) => {
            let text = joined("invalid JSON envelope: ", e.as_str());
            return FrameStep::Refuse {
                out: two(
                    error_frame(Some(JsonRpcId::Null), &A2AError::parse_error(text.as_str())),
                    close(PROTOCOL_ERROR, "JSON parse error"),
                ),
                fatal: true,
            };
        },
    };
    if !same_text(envelope.jsonrpc.as_str(), JSONRPC_VERSION) {
        let text = joined("unsupported jsonrpc version: '", envelope.jsonrpc.as_str());
        let id = match envelope.id {
            Some(i) => i,
            None => JsonRpcId::Null,
        };
        return decline(Some(id), joined(text.as_str(), "'").as_str());
    }
    let id = match envelope.id {
        None => {
            return decline(Some(JsonRpcId::Null), "request id is required");
        },
        Some(JsonRpcId::Null) => {
            return decline(Some(JsonRpcId::Null), "request id must not be null");
        },
        Some(id) => id,
    };
    if let Some(true) = envelope.cancel_stream {
        return FrameStep::Cancel { id };
    }
    let method = match envelope.method {
        None => {
            return decline(Some(id), "method is required");
        },
        Some(m) => m,
    };
    let params = match envelope.params {
        Some(p) => p,
        None => JsonValue::Null,
    };
    if same_text(method.as_str(), AUTHENTICATE) {
        return FrameStep::Authenticate { id, params };
    }
    FrameStep::Request(WsCall { id, method, params, service_params: envelope.service_params })
}

/// What is to be done with a text frame.
pub fn handle_text_frame(payload: &[u8]) -> (r: FrameStep)
    ensures
        r@ == frame_step(ws_request_in(payload@)),
{
    handle_envelope(WsRequestEnvelope::from_slice(payload))
}

/// Only a frame that cannot be read ends the connection, and it is answered
/// before the connection is closed.
pub proof fn law_only_unreadable_frames_are_fatal(r: Result<WsRequestView, Seq<char>>)
    ensures
        frame_step(r) matches FrameStepView::Refuse { out, fatal } ==> {
            &&& fatal <==> r is Err
            &&& out.len() == (if fatal {
                2int
            } else {
                1int
            })
            &&& out[0] is Frame
            &&& fatal ==> out[1] is Close
        },
        r is Err ==> frame_step(r) is Refuse,
{
}

/// The identifier that what was read in a frame is answered by.
pub open spec fn answering_id(r: Result<WsRequestView, Seq<char>>) -> IdView {
    match r {
        Ok(v) => id_or_null(v.id),
        Err(_) => IdView::Null,
    }
}

/// Every frame that is refused is answered by an error with an identifier: that of
/// the request, or null.
pub proof fn law_refusals_have_an_id(r: Result<WsRequestView, Seq<char>>)
    ensures
        frame_step(r) matches FrameStepView::Refuse { out, fatal } ==> exists|e: ErrorView|
            out[0] == #[trigger] sent_error(Some(answering_id(r)), e),
{
    if let FrameStepView::Refuse { out, fatal } = frame_step(r) {
        let e = match r {
            Err(t) => plain_error(error_code::PARSE_ERROR, "invalid JSON envelope: "@ + t),
            Ok(v) => if v.jsonrpc != JSONRPC_VERSION@ {
                plain_error(
                    error_code::INVALID_REQUEST,
                    "unsupported jsonrpc version: '"@ + v.jsonrpc + "'"@,
                )
            } else if v.id is None {
                plain_error(error_code::INVALID_REQUEST, "request id is required"@)
            } else if v.id == Some(IdView::Null) {
                plain_error(error_code::INVALID_REQUEST, "request id must not be null"@)
            } else {
                plain_error(error_code::INVALID_REQUEST, "method is required"@)
            },
        };
        assert(out[0] == sent_error(Some(answering_id(r)), e));
    }
}

// ---------------------------------------------------------------------------
// Credentials.
// ---------------------------------------------------------------------------

/// How a connection stands with its authenticator.
#[derive(Debug)]
pub struct ConnAuth {
    refreshable: bool,
    ctx: AuthContext,
    params: ConnectionParams,
    reauth_signaled: bool,
}

/// What a look at the credentials of a connection comes to.
#[derive(Debug)]
pub struct AuthCheck {
    /// What is sent.
    pub out: Vec<Outbound>,
    /// Whether the connection is to be closed after a while, unless its
    /// credentials are replaced till then.
    pub close_later: bool,
    /// Whether the request goes on. Otherwise the connection ends.
    pub proceed: bool,
}

/// Whether `c` is what a look at the credentials comes to, before the request
/// `id`. `before` and `after` say whether the client was asked to log in again.
pub open spec fn auth_checked(
    c: AuthCheck,
    status: Option<AuthStatus>,
    id: IdView,
    before: bool,
    after: bool,
) -> bool {
    match status {
        Some(AuthStatus::ReauthRequired { reason, retry_after_ms }) => {
            &&& c.proceed
            &&& c.close_later == !before
            &&& outs(c.out@) == (if before {
                Seq::empty()
            } else {
                seq![sent(ws_reauth(reason@, retry_after_ms))]
            })
            &&& before || reads_back(ws_reauth(reason@, retry_after_ms))
            &&& after
        },
        Some(AuthStatus::Expired { reason }) => {
            &&& !c.proceed
            &&& !c.close_later
            &&& outs(c.out@) == seq![
                sent_error(Some(id), plain_error(SERVER_ERROR_CODE, reason@)),
                OutboundView::Close {
                    code: AUTHENTICATION_REQUIRED,
                    reason: "authentication expired or revoked"@,
                },
            ]
            &&& after == before
        },
        _ => {
            &&& c.proceed
            &&& !c.close_later
            &&& c.out.len() == 0
            &&& after == before
        },
    }
}

/// What comes of a request: what the look at the credentials came to, and what
/// the request asks for, if it goes on.
#[derive(Debug)]
pub struct RequestStep {
    pub check: AuthCheck,
    pub next: Option<Dispatch>,
}

impl ConnAuth {
    /// Whether credentials can be replaced on the way.
    pub closed spec fn refreshable(&self) -> bool {
        self.refreshable
    }

    /// Who the connection belongs to.
    pub closed spec fn ctx(&self) -> AuthView {
        self.ctx@
    }

    /// What headers say to every request.
    pub closed spec fn base(&self) -> Map<Seq<char>, Seq<Seq<char>>> {
        self.params.base()
    }

    /// What every request carries.
    pub closed spec fn params(&self) -> Map<Seq<char>, Seq<Seq<char>>> {
        self.params.params()
    }

    /// The names that no request can replace.
    pub closed spec fn authenticated(&self) -> Set<Seq<char>> {
        self.params.authenticated()
    }

    /// Whether the peer was asked for new credentials.
    pub closed spec fn reauth_signaled(&self) -> bool {
        self.reauth_signaled
    }

    /// A connection that was just made. `refreshable` says that it has an
    /// authenticator that can replace credentials.
    pub fn new(refreshable: bool, ctx: AuthContext, headers: &Vec<Header>) -> (r: Self)
        ensures
            r.refreshable() == refreshable,
            r.ctx() == ctx@,
            r.base() == gathered(headers@, false),
            r.params() == gathered(headers@, false).union_prefer_right(
                low_params(ctx.service_params.spec_entries()),
            ),
            r.authenticated() == low_params(ctx.service_params.spec_entries()).dom(),
            !r.reauth_signaled(),
    {
        let params = ConnectionParams::new(headers, &ctx);
        ConnAuth { refreshable, ctx, params, reauth_signaled: false }
    }

    /// Who the connection belongs to.
    pub fn context(&self) -> (r: &AuthContext)
        ensures
            r@ == self.ctx(),
    {
        &self.ctx
    }

    /// What a look at the credentials comes to, before a request. `status` is
    /// nothing where the connection has no authenticator.
    pub fn check(&mut self, status: Option<AuthStatus>, id: &JsonRpcId) -> (r: AuthCheck)
        ensures
            auth_checked(
                r,
                status,
                id@,
                old(self).reauth_signaled(),
                final(self).reauth_signaled(),
            ),
            final(self).refreshable() == old(self).refreshable(),
            final(self).ctx() == old(self).ctx(),
            final(self).base() == old(self).base(),
            final(self).params() == old(self).params(),
            final(self).authenticated() == old(self).authenticated(),
    {
        let nothing: Vec<Outbound> = Vec::new();
        assert(outs(nothing@) =~= Seq::<OutboundView>::empty());
        match status {
            Some(AuthStatus::ReauthRequired { reason, retry_after_ms }) => {
                if self.reauth_signaled {
                    return AuthCheck { out: nothing, close_later: false, proceed: true };
                }
                self.reauth_signaled = true;
                let out = one(frame(WsResponseEnvelope::reauth_required(reason, retry_after_ms)));
                AuthCheck { out, close_later: true, proceed: true }
            },
            Some(AuthStatus::Expired { reason }) => {
                let error = A2AError::new(SERVER_ERROR_CODE, reason);
                let out = two(
                    error_frame(Some(id.clone()), &error),
                    close(AUTHENTICATION_REQUIRED, "authentication expired or revoked"),
                );
                AuthCheck { out, close_later: false, proceed: false }
            },
            _ => AuthCheck { out: nothing, close_later: false, proceed: true },
        }
    }

    /// What is sent when the while is over after which the connection is to be
    /// closed: nothing, where its credentials were replaced.
    pub fn grace_over(&self) -> (r: Option<Outbound>)
        ensures
            match r {
                Some(o) => self.reauth_signaled() && o@ == (OutboundView::Close {
                    code: AUTHENTICATION_REQUIRED,
                    reason: "reauthentication required"@,
                }),
                None => !self.reauth_signaled(),
            },
    {
        if self.reauth_signaled {
            Some(close(AUTHENTICATION_REQUIRED, "reauthentication required"))
        } else {
            None
        }
    }

    /// The credentials that a request to replace them holds, or the answer that
    /// refuses it.
    pub fn begin_refresh(&self, id: &JsonRpcId, params: &JsonValue) -> (r: Result<
        AuthenticateParams,
        Outbound,
    >)
        ensures
            match r {
                Ok(c) => self.refreshable() && credentials_read(model(*params)) == Some(
                    (c.scheme@, c.credentials@),
                ),
                Err(o) => if !self.refreshable() {
                    o@ == sent_error(
                        Some(id@),
                        plain_error(
                            error_code::UNSUPPORTED_OPERATION,
                            "in-band token refresh is not supported"@,
                        ),
                    )
                } else {
                    credentials_read(model(*params)) is None && o@ == sent_error(
                        Some(id@),
                        plain_error(
                            error_code::INVALID_PARAMS,
                            "invalid Authenticate params: "@ + SHAPE_ERROR@,
                        ),
                    )
                },
            },
    {
        if !self.refreshable {
            return Err(
                error_frame(
                    Some(id.clone()),
                    &A2AError::unsupported_operation("in-band token refresh is not supported"),
                ),
            );
        }
        match AuthenticateParams::from_value(params) {
            Some(c) => Ok(c),
            None => {
                let text = joined("invalid Authenticate params: ", SHAPE_ERROR);
                Err(error_frame(Some(id.clone()), &A2AError::invalid_params(text.as_str())))
            },
        }
    }

    /// The answer to a request to replace credentials, once the authenticator
    /// has looked at them. New credentials take the place of the old ones, for
    /// the request handler too, and the connection is not closed any more.
    pub fn finish_refresh(&mut self, id: JsonRpcId, refreshed: Result<AuthContext, AuthError>) -> (r:
        Outbound)
        ensures
            final(self).refreshable() == old(self).refreshable(),
            final(self).base() == old(self).base(),
            match refreshed {
                Ok(ctx) => {
                    &&& r@ == sent(ws_result(id@, Json::Object(Map::empty())))
                    &&& reads_back(ws_result(id@, Json::Object(Map::empty())))
                    &&& final(self).ctx() == ctx@
                    &&& final(self).params() == old(self).base().union_prefer_right(
                        low_params(ctx.service_params.spec_entries()),
                    )
                    &&& final(self).authenticated() == low_params(
                        ctx.service_params.spec_entries(),
                    ).dom()
                    &&& !final(self).reauth_signaled()
                },
                Err(e) => {
                    &&& r@ == sent_error(Some(id@), plain_error(SERVER_ERROR_CODE, e.message@))
                    &&& final(self).ctx() == old(self).ctx()
                    &&& final(self).params() == old(self).params()
                    &&& final(self).authenticated() == old(self).authenticated()
                    &&& final(self).reauth_signaled() == old(self).reauth_signaled()
                },
            },
    {
        match refreshed {
            Ok(ctx) => {
                self.params = self.params.reauthenticated(&ctx);
                self.ctx = ctx;
                self.reauth_signaled = false;
                let empty: Vec<(String, JsonValue)> = Vec::new();
                assert(object(empty@) =~= Map::<Seq<char>, Json>::empty());
                frame(WsResponseEnvelope::result(id, JsonValue::Object(empty)))
            },
            Err(e) => error_frame(Some(id), &A2AError::new(SERVER_ERROR_CODE, e.message)),
        }
    }

    /// What comes of a request. The credentials are looked at first: where they
    /// have expired, nothing else is.
    pub fn on_request(&mut self, call: WsCall, status: Option<AuthStatus>) -> (r: RequestStep)
        ensures
            auth_checked(
                r.check,
                status,
                call@.id,
                old(self).reauth_signaled(),
                final(self).reauth_signaled(),
            ),
            r.next is Some <==> r.check.proceed,
            r.next matches Some(d) ==> dispatched(d) == dispatch_of(
                call@,
                combined(
                    old(self).params(),
                    old(self).authenticated(),
                    requested(call.service_params),
                ),
            ),
            final(self).refreshable() == old(self).refreshable(),
            final(self).ctx() == old(self).ctx(),
            final(self).base() == old(self).base(),
            final(self).params() == old(self).params(),
            final(self).authenticated() == old(self).authenticated(),
    {
        let check = self.check(status, &call.id);
        let next = if check.proceed {
            Some(self.dispatch(call))
        } else {
            None
        };
        RequestStep { check, next }
    }

    /// The call that a request asks for, or the answer that refuses it.
    pub fn dispatch(&self, call: WsCall) -> (r: Dispatch)
        ensures
            dispatched(r) == dispatch_of(
                call@,
                combined(self.params(), self.authenticated(), requested(call.service_params)),
            ),
    {
        if !is_known(call.method.as_str()) {
            let error = A2AError::method_not_found(call.method.as_str());
            return Dispatch::Refuse(error_frame(Some(call.id), &error));
        }
        let params = self.params.combine(&call.service_params);
        let streaming = is_streaming(call.method.as_str());
        let c = Call { id: call.id, method: call.method, params, payload: call.params };
        if streaming {
            Dispatch::Stream(c)
        } else {
            Dispatch::Unary(c)
        }
    }
}

/// What a request asks for.
#[derive(Debug)]
pub enum Dispatch {
    /// Nothing that can be done: send this.
    Refuse(Outbound),
    /// A call that answers once.
    Unary(Call),
    /// A call that answers with a stream.
    Stream(Call),
}

/// What a request asks for, in terms of contents.
pub enum DispatchView {
    Refuse(OutboundView),
    Unary(CallView),
    Stream(CallView),
}

/// The contents of what a request asks for.
pub open spec fn dispatched(d: Dispatch) -> DispatchView {
    match d {
        Dispatch::Refuse(o) => DispatchView::Refuse(o@),
        Dispatch::Unary(c) => DispatchView::Unary(c@),
        Dispatch::Stream(c) => DispatchView::Stream(c@),
    }
}

/// What a request asks for that carries these parameters.
pub open spec fn dispatch_of(
    c: WsCallView,
    params: Map<Seq<char>, Seq<Seq<char>>>,
) -> DispatchView {
    let call = CallView { id: c.id, method: c.method, params, payload: c.params };
    if !known(c.method) {
        DispatchView::Refuse(sent_error(Some(c.id), no_such_method(c.method)))
    } else if streams(c.method) {
        DispatchView::Stream(call)
    } else {
        DispatchView::Unary(call)
    }
}

// ---------------------------------------------------------------------------
// Answers.
// ---------------------------------------------------------------------------

/// What a call of a method comes to. A result is made ready to be sent.
pub open spec fn ws_outcome(method: Seq<char>, h: HandledView) -> Result<Json, ErrorView> {
    match h {
        HandledView::Unreadable(e) => Err(plain_error(error_code::INVALID_PARAMS, e)),
        HandledView::Failed(e) => Err(e),
        HandledView::Done => Ok(Json::Object(Map::empty())),
        HandledView::Value(j) => Ok(finished(j, is_page(method))),
        HandledView::Unwritable(e) => Err(unwritable(e)),
    }
}

/// What a call of a method comes to. A result is made ready to be sent.
pub fn finish_unary(method: &str, h: Handled) -> (r: Result<JsonValue, A2AError>)
    ensures
        outcome(r) == ws_outcome(method@, h@),
{
    match h {
        Handled::Unreadable(e) => Err(A2AError::invalid_params(e.as_str())),
        Handled::Failed(e) => Err(e),
        Handled::Done => {
            let empty: Vec<(String, JsonValue)> = Vec::new();
            assert(object(empty@) =~= Map::<Seq<char>, Json>::empty());
            Ok(JsonValue::Object(empty))
        },
        Handled::Value(v) => Ok(finish_result(method, v)),
        Handled::Unwritable(e) => Err(unwritable_error(e.as_str())),
    }
}

/// What is sent for the outcome of a call: one answer, and the end of the
/// connection where the error is one that ends it.
pub open spec fn answer(id: IdView, r: Result<Json, ErrorView>) -> Seq<OutboundView> {
    match r {
        Ok(j) => seq![sent(ws_result(id, j))],
        Err(e) => match fatal_code(e.code) {
            Some(code) => seq![
                sent_error(Some(id), e),
                OutboundView::Close { code, reason: e.message },
            ],
            None => seq![sent_error(Some(id), e)],
        },
    }
}

/// The answer to a call.
pub open spec fn answer_response(id: IdView, r: Result<Json, ErrorView>) -> WsResponseView {
    match r {
        Ok(j) => ws_result(id, j),
        Err(e) => ws_error(Some(id), reported(e)),
    }
}

/// What is sent for the outcome of a call.
pub fn unary_answer(id: JsonRpcId, result: Result<JsonValue, A2AError>) -> (r: Vec<Outbound>)
    ensures
        outs(r@) == answer(id@, outcome(result)),
        reads_back(answer_response(id@, outcome(result))),
{
    match result {
        Ok(v) => one(frame(WsResponseEnvelope::result(id, v))),
        Err(e) => {
            let first = error_frame(Some(id), &e);
            match close_code_for_fatal(&e) {
                Some(code) => two(first, Outbound::Close { code, reason: e.message }),
                None => one(first),
            }
        },
    }
}

/// The error for a stream's item that cannot be written.
pub fn unwritable_event(e: &str) -> (r: A2AError)
    ensures
        r@ == plain_error(error_code::INTERNAL_ERROR, "failed to serialize event: "@ + e@),
{
    A2AError::internal(joined("failed to serialize event: ", e).as_str())
}

/// What is sent for an event of a stream. An item is made ready to be sent.
pub open spec fn stream_response(id: IdView, e: StreamEventView) -> WsResponseView {
    match e {
        StreamEventView::Refused(error) => ws_error(Some(id), reported(error)),
        StreamEventView::Failed(error) => ws_error(Some(id), reported(error)),
        StreamEventView::Cancelled => ws_stream_end(id),
        StreamEventView::Ended => ws_stream_end(id),
        StreamEventView::Item(j) => ws_result(id, finished(j, false)),
    }
}

/// What is sent for an event of a stream, and whether the stream goes on. A
/// stream that is cancelled ends like one that has no more items; after an error
/// nothing follows.
pub fn stream_step(id: &JsonRpcId, event: StreamEvent) -> (r: (Outbound, bool))
    ensures
        r.0@ == sent(stream_response(id@, event@)),
        r.1 == (event@ is Item),
        reads_back(stream_response(id@, event@)),
{
    match event {
        StreamEvent::Refused(e) | StreamEvent::Failed(e) => (
            error_frame(Some(id.clone()), &e),
            false,
        ),
        StreamEvent::Cancelled | StreamEvent::Ended => (
            frame(WsResponseEnvelope::stream_end(id.clone())),
            false,
        ),
        StreamEvent::Item(v) => (
            frame(WsResponseEnvelope::stream_chunk(id.clone(), finish_payload(v))),
            true,
        ),
    }
}

/// Everything that is sent for the events of a stream, up to its end.
pub open spec fn stream_responses(id: IdView, events: Seq<StreamEventView>) -> Seq<WsResponseView>
    decreases events.len(),
{
    if events.len() == 0 {
        Seq::empty()
    } else {
        let first = seq![stream_response(id, events[0])];
        if events[0] is Item {
            first + stream_responses(id, events.drop_first())
        } else {
            first
        }
    }
}

/// Every response of a stream has the identifier of its request, and all but the
/// last are results: a stream ends once, with an error or with its end.
pub proof fn law_a_stream_ends_once(id: IdView, events: Seq<StreamEventView>, i: int)
    requires
        0 <= i < stream_responses(id, events).len(),
    ensures
        stream_responses(id, events)[i].id == Some(id),
        i < stream_responses(id, events).len() - 1 ==> {
            &&& stream_responses(id, events)[i].result is Some
            &&& stream_responses(id, events)[i].error is None
            &&& stream_responses(id, events)[i].stream_end is None
        },
    decreases events.len(),
{
    if i > 0 {
        let rest = events.drop_first();
        law_a_stream_ends_once(id, rest, i - 1);
        assert(stream_responses(id, events)[i] == stream_responses(id, rest)[i - 1]);
    }
}

/// The streams that are open on a connection.
#[derive(Debug)]
pub struct StreamRegistry {
    open: TextMap<JsonRpcId>,
}

impl StreamRegistry {
    #[verifier::type_invariant]
    spec fn ids_are_keyed(self) -> bool {
        keyed(self.open@)
    }

    /// The keys of the requests whose streams are open.
    pub closed spec fn open(&self) -> Set<Seq<char>> {
        self.open@.dom()
    }

    /// A connection without streams.
    pub fn new() -> (r: Self)
        ensures
            r.open() == Set::<Seq<char>>::empty(),
    {
        let r = StreamRegistry { open: TextMap::new() };
        assert(r.open() =~= Set::<Seq<char>>::empty());
        r
    }

    /// Whether no stream is open.
    pub fn is_empty(&self) -> (r: bool)
        ensures
            r == (self.open() == Set::<Seq<char>>::empty()),
    {
        let r = self.open.is_empty();
        proof {
            if r {
                assert(self.open() =~= Set::<Seq<char>>::empty());
            } else if self.open() == Set::<Seq<char>>::empty() {
                assert(self.open@ =~= Map::<Seq<char>, JsonRpcId>::empty());
            }
        }
        r
    }

    /// Notes that a request's stream is open.
    pub fn start(&mut self, id: &JsonRpcId)
        ensures
            final(self).open() == old(self).open().insert(key_text(id@)),
    {
        proof {
            use_type_invariant(&*self);
        }
        let mut open: TextMap<JsonRpcId> = TextMap::new();
        std::mem::swap(&mut open, &mut self.open);
        open.insert(id_key(id), id.clone());
        self.open = open;
        assert(self.open() =~= old(self).open().insert(key_text(id@)));
    }

    /// Notes that a request's stream is not open any more, and says whether it
    /// was. A stream that was is told to stop.
    pub fn remove(&mut self, id: &JsonRpcId) -> (r: bool)
        ensures
            r == old(self).open().contains(key_text(id@)),
            final(self).open() == old(self).open().remove(key_text(id@)),
    {
        proof {
            use_type_invariant(&*self);
        }
        let key = id_key(id);
        let mut open: TextMap<JsonRpcId> = TextMap::new();
        std::mem::swap(&mut open, &mut self.open);
        let was = open.remove(key.as_str());
        self.open = open;
        assert(self.open() =~= old(self).open().remove(key_text(id@)));
        match was {
            Some(_) => true,
            None => false,
        }
    }

    /// Ends a connection: every stream that is open is told to stop, and none is
    /// open any more. What comes back are their requests.
    pub fn drain(&mut self) -> (r: Vec<JsonRpcId>)
        ensures
            final(self).open() == Set::<Seq<char>>::empty(),
            forall|k: Seq<char>|
                old(self).open().contains(k) <==> exists|i: int|
                    0 <= i < r@.len() && key_text(#[trigger] r@[i]@) == k,
            r@.len() == old(self).open().len(),
    {
        proof {
            use_type_invariant(&*self);
        }
        let mut open: TextMap<JsonRpcId> = TextMap::new();
        std::mem::swap(&mut open, &mut self.open);
        assert(self.open() =~= Set::<Seq<char>>::empty());
        ids_in(&open)
    }
}

// ---------------------------------------------------------------------------
// The connection.
// ---------------------------------------------------------------------------

/// What happens on a connection.
#[derive(Debug)]
pub enum ConnEvent {
    /// This waits to be written.
    Queued(Outbound),
    /// Nothing more will be written.
    QueueClosed,
    /// A text frame came. `admitted` says that the peer may send it.
    Text { admitted: bool, payload: Vec<u8> },
    /// A binary frame came.
    Binary,
    /// The peer closes the connection.
    Close,
    /// Another frame came.
    Other,
    /// Reading failed, with this fault and this text.
    ReadFailed { fault: ReadFault, text: String },
}

/// What happens on a connection, in terms of contents.
pub enum ConnEventView {
    Queued(OutboundView),
    QueueClosed,
    Text { admitted: bool, payload: Seq<u8> },
    Binary,
    Close,
    Other,
    ReadFailed { fault: ReadFault, text: Seq<char> },
}

impl View for ConnEvent {
    type V = ConnEventView;

    open spec fn view(&self) -> ConnEventView {
        match *self {
            ConnEvent::Queued(o) => ConnEventView::Queued(o@),
            ConnEvent::QueueClosed => ConnEventView::QueueClosed,
            ConnEvent::Text { admitted, payload } => ConnEventView::Text {
                admitted,
                payload: payload@,
            },
            ConnEvent::Binary => ConnEventView::Binary,
            ConnEvent::Close => ConnEventView::Close,
            ConnEvent::Other => ConnEventView::Other,
            ConnEvent::ReadFailed { fault, text } => ConnEventView::ReadFailed {
                fault,
                text: text@,
            },
        }
    }
}

/// What is to be done about it.
#[derive(Debug)]
pub enum ConnAction {
    /// Nothing.
    Ignore,
    /// Write this and go on; where it cannot be written, the connection ends.
    Write(Outbound),
    /// Write this, and end.
    WriteAndStop(Outbound),
    /// End.
    Stop,
    /// Send these after what waits, and end.
    FlushAndStop(Vec<Outbound>),
    /// Look at this frame.
    Handle(FrameStep),
}

/// What is to be done about it, in terms of contents.
#[verifier::ext_equal]
pub enum ConnActionView {
    Ignore,
    Write(OutboundView),
    WriteAndStop(OutboundView),
    Stop,
    FlushAndStop(Seq<OutboundView>),
    Handle(FrameStepView),
}

impl View for ConnAction {
    type V = ConnActionView;

    open spec fn view(&self) -> ConnActionView {
        match *self {
            ConnAction::Ignore => ConnActionView::Ignore,
            ConnAction::Write(o) => ConnActionView::Write(o@),
            ConnAction::WriteAndStop(o) => ConnActionView::WriteAndStop(o@),
            ConnAction::Stop => ConnActionView::Stop,
            ConnAction::FlushAndStop(v) => ConnActionView::FlushAndStop(outs(v@)),
            ConnAction::Handle(s) => ConnActionView::Handle(s@),
        }
    }
}

/// What is to be done about what happens on a connection.
pub open spec fn connection_action(e: ConnEventView) -> ConnActionView {
    match e {
        ConnEventView::Queued(OutboundView::Frame(b)) => ConnActionView::Write(
            OutboundView::Frame(b),
        ),
        ConnEventView::Queued(o) => ConnActionView::WriteAndStop(o),
        ConnEventView::QueueClosed => ConnActionView::Stop,
        ConnEventView::Text { admitted, payload } => if !admitted {
            ConnActionView::FlushAndStop(
                seq![
                    sent_error(
                        Some(IdView::Null),
                        plain_error(SERVER_ERROR_CODE, RATE_LIMIT_EXCEEDED@),
                    ),
                    OutboundView::Close { code: POLICY_VIOLATION, reason: RATE_LIMIT_EXCEEDED@ },
                ],
            )
        } else {
            match frame_step(ws_request_in(payload)) {
                FrameStepView::Refuse { out, fatal: true } => ConnActionView::FlushAndStop(out),
                s => ConnActionView::Handle(s),
            }
        },
        ConnEventView::Binary => ConnActionView::WriteAndStop(
            OutboundView::Close {
                code: UNSUPPORTED_DATA,
                reason: "binary frames are reserved for future use"@,
            },
        ),
        ConnEventView::Close => ConnActionView::Stop,
        ConnEventView::Other => ConnActionView::Ignore,
        ConnEventView::ReadFailed { fault, text } => match read_fault_code(fault) {
            Some(code) => ConnActionView::WriteAndStop(
                OutboundView::Close { code, reason: text },
            ),
            None => ConnActionView::Stop,
        },
    }
}

/// What is to be done about what happens on a connection.
pub fn run_connection_step(event: ConnEvent) -> (r: ConnAction)
    ensures
        r@ == connection_action(event@),
{
    match event {
        ConnEvent::Queued(o) => match o {
            Outbound::Frame(b) => ConnAction::Write(Outbound::Frame(b)),
            Outbound::Close { code, reason } => ConnAction::WriteAndStop(
                Outbound::Close { code, reason },
            ),
        },
        ConnEvent::QueueClosed => ConnAction::Stop,
        ConnEvent::Text { admitted, payload } => {
            if !admitted {
                return ConnAction::FlushAndStop(rate_limited());
            }
            match handle_text_frame(payload.as_slice()) {
                FrameStep::Refuse { out, fatal } => if fatal {
                    ConnAction::FlushAndStop(out)
                } else {
                    ConnAction::Handle(FrameStep::Refuse { out, fatal })
                },
                s => ConnAction::Handle(s),
            }
        },
        ConnEvent::Binary => ConnAction::WriteAndStop(
            close(UNSUPPORTED_DATA, "binary frames are reserved for future use"),
        ),
        ConnEvent::Close => ConnAction::Stop,
        ConnEvent::Other => ConnAction::Ignore,
        ConnEvent::ReadFailed { fault, text } => match close_code_for_read_error(&fault) {
            Some(code) => ConnAction::WriteAndStop(Outbound::Close { code, reason: text }),
            None => ConnAction::Stop,
        },
    }
}

} // verus!
