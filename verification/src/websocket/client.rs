//! The client half of the WebSocket binding: how a connection is asked for, and
//! who gets each frame that comes back.
//!
//! Reading, writing and waking callers is left to the caller of this module. The
//! functions here decide.
use crate::dispatch::outcome;
use crate::ids::{fresh_id, fresh_key};
use crate::json_value::{json_written, model, Json, JsonValue};
use crate::methods::AUTHENTICATE;
use crate::params::{copy_pairs, lists, pairs, ServiceParams};
use crate::protocol::{id_key, key_text, plain_error, A2AError, ErrorView, IdView, JsonRpcId};
use crate::protojson::{finish_payload, finished};
use crate::text::{decimal, decimal_text, joined, opt_text, same_text};
use crate::text_map::TextMap;
use crate::websocket::auth::{credentials_json, AuthenticateParams};
use crate::websocket::common::{
    bare_request, opt_envelope_of, service_params_to_envelope, ws_request_in, ws_request_json,
    ws_request_plain, ws_response_in, WsRequestEnvelope, WsRequestView, WsResponseEnvelope,
    WsResponseView, CONTROL_REAUTH_REQUIRED, SERVER_ERROR_CODE, SUBPROTOCOL,
    TRANSPORT_PROTOCOL_WEBSOCKET,
};
use crate::websocket::endpoint::{host_header, host_line, internal, EndpointView, ParsedEndpoint};
use crate::websocket::errors::{
    jsonrpc_error_to_a2a, AUTHENTICATION_REQUIRED, MESSAGE_TOO_BIG, NORMAL_CLOSURE,
    POLICY_VIOLATION, UNSUPPORTED_DATA, VERSION_NOT_SUPPORTED,
};
use crate::websocket::handshake::{negotiated, subprotocol_is_negotiated, Header};
use vstd::prelude::*;

verus! {

/// How long a connection may take to be made, in milliseconds.
pub const DEFAULT_CONNECT_TIMEOUT_MS: u64 = 10000;

// ---------------------------------------------------------------------------
// Asking for a connection.
// ---------------------------------------------------------------------------

/// What a server said when it asked for new credentials.
#[derive(Debug)]
pub struct ReauthRequired {
    pub reason: Option<String>,
    pub retry_after_ms: Option<u64>,
}

impl Default for ReauthRequired {
    fn default() -> (r: Self)
        ensures
            r.reason is None,
            r.retry_after_ms is None,
    {
        ReauthRequired { reason: None, retry_after_ms: None }
    }
}

/// What a client does when it is asked for new credentials.
#[derive(Debug, Clone, Copy, PartialEq, Eq, Structural)]
pub enum ReauthPolicy {
    /// Tell the application, which makes a new connection.
    Notify,
    /// Send new credentials over the connection.
    RefreshInBand,
}

/// What comes of a request for new credentials.
#[derive(Debug)]
pub enum ReauthAction {
    /// Tell the application.
    Notify(ReauthRequired),
    /// Fetch credentials and send them over the connection.
    Refresh,
    /// Nothing is to be done but to report why the server asked, if it said.
    Report(Option<String>),
}

/// What a client does about a request for new credentials. Without a policy the
/// request is reported and no more.
pub fn handle_reauth_required(policy: Option<ReauthPolicy>, request: ReauthRequired) -> (r:
    ReauthAction)
    ensures
        r == (match policy {
            Some(ReauthPolicy::Notify) => ReauthAction::Notify(request),
            Some(ReauthPolicy::RefreshInBand) => ReauthAction::Refresh,
            None => ReauthAction::Report(request.reason),
        }),
{
    match policy {
        Some(ReauthPolicy::Notify) => ReauthAction::Notify(request),
        Some(ReauthPolicy::RefreshInBand) => ReauthAction::Refresh,
        None => ReauthAction::Report(request.reason),
    }
}

/// Whom a client trusts.
#[derive(Debug)]
pub struct TlsOptions {
    /// Certificates that are trusted besides the usual ones, in PEM form.
    pub extra_root_certs_pem: Vec<Vec<u8>>,
    /// Whether any certificate is accepted. For tests alone.
    pub danger_accept_invalid_certs: bool,
}

impl Default for TlsOptions {
    fn default() -> (r: Self)
        ensures
            r.extra_root_certs_pem@ == Seq::<Vec<u8>>::empty(),
            !r.danger_accept_invalid_certs,
    {
        TlsOptions { extra_root_certs_pem: Vec::new(), danger_accept_invalid_certs: false }
    }
}

impl TlsOptions {
    /// Trusts one more certificate.
    pub fn trust_pem(self, pem: Vec<u8>) -> (r: Self)
        ensures
            r.extra_root_certs_pem@ == self.extra_root_certs_pem@.push(pem),
            r.danger_accept_invalid_certs == self.danger_accept_invalid_certs,
    {
        let mut out = self;
        out.extra_root_certs_pem.push(pem);
        out
    }

    /// Accepts any certificate. For tests alone.
    pub fn danger_accept_invalid_certs(self) -> (r: Self)
        ensures
            r.extra_root_certs_pem@ == self.extra_root_certs_pem@,
            r.danger_accept_invalid_certs,
    {
        let mut out = self;
        out.danger_accept_invalid_certs = true;
        out
    }
}

/// How a connection is made.
#[derive(Debug)]
pub struct ConnectOptions {
    /// Headers that are sent as they are, besides those that every connection
    /// needs.
    pub headers: Vec<(String, String)>,
    pub tls: TlsOptions,
    /// What to do when asked for new credentials. Nothing means nothing.
    pub reauth: Option<ReauthPolicy>,
}

impl Default for ConnectOptions {
    fn default() -> (r: Self)
        ensures
            r.headers@ == Seq::<(String, String)>::empty(),
            r.tls.extra_root_certs_pem@ == Seq::<Vec<u8>>::empty(),
            !r.tls.danger_accept_invalid_certs,
            r.reauth is None,
    {
        ConnectOptions { headers: Vec::new(), tls: TlsOptions::default(), reauth: None }
    }
}

impl ConnectOptions {
    /// A connection with a bearer token.
    pub fn with_bearer_token(token: &str) -> (r: Self)
        ensures
            pairs(r.headers@) == seq![("Authorization"@, "Bearer "@ + token@)],
            r.tls.extra_root_certs_pem@ == Seq::<Vec<u8>>::empty(),
            !r.tls.danger_accept_invalid_certs,
            r.reauth is None,
    {
        let mut out = ConnectOptions::default();
        out.headers.push(("Authorization".to_owned(), joined("Bearer ", token)));
        assert(pairs(out.headers@) =~= seq![("Authorization"@, "Bearer "@ + token@)]);
        out
    }

    /// One more header.
    pub fn header(self, name: &str, value: &str) -> (r: Self)
        ensures
            pairs(r.headers@) == pairs(self.headers@).push((name@, value@)),
            r.tls == self.tls,
            r.reauth == self.reauth,
    {
        let mut out = self;
        out.headers.push((name.to_owned(), value.to_owned()));
        assert(pairs(out.headers@) =~= pairs(self.headers@).push((name@, value@)));
        out
    }

    /// Whom to trust.
    pub fn with_tls(self, tls: TlsOptions) -> (r: Self)
        ensures
            r == (ConnectOptions { tls, ..self }),
    {
        let mut out = self;
        out.tls = tls;
        out
    }

    /// Tells the application when new credentials are asked for.
    pub fn on_reauth_required(self) -> (r: Self)
        ensures
            r == (ConnectOptions { reauth: Some(ReauthPolicy::Notify), ..self }),
    {
        let mut out = self;
        out.reauth = Some(ReauthPolicy::Notify);
        out
    }

    /// Sends new credentials when they are asked for.
    pub fn with_credential_provider(self) -> (r: Self)
        ensures
            r == (ConnectOptions { reauth: Some(ReauthPolicy::RefreshInBand), ..self }),
    {
        let mut out = self;
        out.reauth = Some(ReauthPolicy::RefreshInBand);
        out
    }
}

/// The request that asks for a connection.
#[derive(Debug)]
pub struct UpgradeRequest {
    pub path: String,
    pub headers: Vec<(String, String)>,
}

/// The headers that every connection needs. The key is made anew for each.
pub open spec fn upgrade_headers(e: EndpointView, key: Seq<char>) -> Seq<(Seq<char>, Seq<char>)> {
    seq![
        ("host"@, host_line(e)),
        ("upgrade"@, "websocket"@),
        ("connection"@, "upgrade"@),
        ("Sec-WebSocket-Key"@, key),
        ("Sec-WebSocket-Version"@, "13"@),
        ("Sec-WebSocket-Protocol"@, SUBPROTOCOL@),
    ]
}

/// The request that asks for a connection: the headers that it needs, then those
/// that were given.
pub fn upgrade_request(endpoint: &ParsedEndpoint, key: String, options: &ConnectOptions) -> (r:
    UpgradeRequest)
    ensures
        r.path@ == endpoint@.path,
        pairs(r.headers@) == upgrade_headers(endpoint@, key@) + pairs(options.headers@),
{
    let mut headers: Vec<(String, String)> = Vec::new();
    headers.push(("host".to_owned(), host_header(endpoint)));
    headers.push(("upgrade".to_owned(), "websocket".to_owned()));
    headers.push(("connection".to_owned(), "upgrade".to_owned()));
    headers.push(("Sec-WebSocket-Key".to_owned(), key));
    headers.push(("Sec-WebSocket-Version".to_owned(), "13".to_owned()));
    headers.push(("Sec-WebSocket-Protocol".to_owned(), SUBPROTOCOL.to_owned()));
    assert(pairs(headers@) =~= upgrade_headers(endpoint@, key@));
    copy_pairs(&options.headers, &mut headers);
    UpgradeRequest { path: endpoint.path.clone(), headers }
}

/// The request that asks for a connection, with a key of its own.
pub fn new_upgrade_request(endpoint: &ParsedEndpoint, options: &ConnectOptions) -> (r:
    UpgradeRequest)
    ensures
        r.path@ == endpoint@.path,
        exists|key: Seq<char>|
            key.len() == 24 && pairs(r.headers@) == #[trigger] upgrade_headers(endpoint@, key)
                + pairs(options.headers@),
{
    let key = fresh_key();
    let ghost k = key@;
    let r = upgrade_request(endpoint, key, options);
    assert(pairs(r.headers@) == upgrade_headers(endpoint@, k) + pairs(options.headers@));
    r
}

/// What is wrong with a request of this method, path and headers that cannot be
/// built.
pub uninterp spec fn request_fault(
    method: Seq<char>,
    path: Seq<char>,
    headers: Seq<(Seq<char>, Seq<char>)>,
) -> Option<Seq<char>>;

/// Whether a request can be built.
///
/// Hands the method, the path and each header, in order, to `http::request::Builder`
/// and asks it for a request without a body. The builder keeps the first error, and
/// that error depends on what it was handed alone.
#[verifier::external_body]
fn build_request(method: &str, path: &str, headers: &Vec<(String, String)>) -> (r: Result<
    (),
    String,
>)
    ensures
        match r {
            Ok(_) => request_fault(method@, path@, pairs(headers@)) is None,
            Err(e) => request_fault(method@, path@, pairs(headers@)) == Some(e@),
        },
{
    let mut builder = http::Request::builder().method(method).uri(path);
    for (name, value) in headers {
        builder = builder.header(name.as_str(), value.as_str());
    }
    match builder.body(()) {
        Ok(_) => Ok(()),
        Err(e) => Err(e.to_string()),
    }
}

/// The error for a request that cannot be built.
pub fn upgrade_unbuilt(fault: &str) -> (r: A2AError)
    ensures
        r@ == internal("failed to build upgrade request: "@ + fault@),
{
    A2AError::internal(joined("failed to build upgrade request: ", fault).as_str())
}

/// The method of the request that asks for a connection.
pub const UPGRADE_METHOD: &'static str = "GET";

/// Whether the request that asks for a connection can be built. A given header may
/// be one that no request can have.
pub fn check_upgrade_request(asked: &UpgradeRequest) -> (r: Result<(), A2AError>)
    ensures
        match r {
            Ok(_) => request_fault(UPGRADE_METHOD@, asked.path@, pairs(asked.headers@)) is None,
            Err(e) => request_fault(UPGRADE_METHOD@, asked.path@, pairs(asked.headers@)) matches Some(
                fault,
            ) && e@ == internal("failed to build upgrade request: "@ + fault),
        },
{
    match build_request(UPGRADE_METHOD, asked.path.as_str(), &asked.headers) {
        Ok(_) => Ok(()),
        Err(fault) => Err(upgrade_unbuilt(fault.as_str())),
    }
}

/// Whether a server's answer can be used: it must speak our sub-protocol.
pub fn check_response(headers: &Vec<Header>) -> (r: Result<(), A2AError>)
    ensures
        match r {
            Ok(_) => negotiated(headers@),
            Err(e) => !negotiated(headers@) && e@ == internal(
                "server did not negotiate the '"@ + SUBPROTOCOL@ + "' sub-protocol"@,
            ),
        },
{
    if subprotocol_is_negotiated(headers) {
        Ok(())
    } else {
        let a = joined("server did not negotiate the '", SUBPROTOCOL);
        Err(A2AError::internal(joined(a.as_str(), "' sub-protocol").as_str()))
    }
}

fn address(host: &str, port: u16) -> (r: String)
    ensures
        r@ == host@ + ":"@ + decimal(port as nat),
{
    let a = joined(host, ":");
    joined(a.as_str(), decimal_text(port as u64).as_str())
}

/// The error for a connection that could not be made.
pub fn connect_failed(host: &str, port: u16, error: &str) -> (r: A2AError)
    ensures
        r@ == internal(
            "failed to connect to "@ + (host@ + ":"@ + decimal(port as nat)) + ": "@ + error@,
        ),
{
    let a = joined("failed to connect to ", address(host, port).as_str());
    let b = joined(a.as_str(), ": ");
    A2AError::internal(joined(b.as_str(), error).as_str())
}

/// The error for a connection that took too long to be made.
pub fn connect_timed_out(host: &str, port: u16, after: &str) -> (r: A2AError)
    ensures
        r@ == internal(
            "timed out connecting to "@ + (host@ + ":"@ + decimal(port as nat)) + " after "@
                + after@,
        ),
{
    let a = joined("timed out connecting to ", address(host, port).as_str());
    let b = joined(a.as_str(), " after ");
    A2AError::internal(joined(b.as_str(), after).as_str())
}

/// Makes connections for interfaces of this binding.
#[derive(Debug)]
pub struct WebSocketTransportFactory;

impl WebSocketTransportFactory {
    /// The binding of the interfaces that this makes connections for.
    pub fn protocol(&self) -> (r: &'static str)
        ensures
            r@ == TRANSPORT_PROTOCOL_WEBSOCKET@,
    {
        TRANSPORT_PROTOCOL_WEBSOCKET
    }
}

// ---------------------------------------------------------------------------
// Requests.
// ---------------------------------------------------------------------------

/// The envelope of a call.
pub open spec fn call_view(
    id: Seq<char>,
    method: Seq<char>,
    params: Json,
    service_params: Map<Seq<char>, Seq<Seq<char>>>,
) -> WsRequestView {
    WsRequestView {
        id: Some(IdView::Text(id)),
        method: Some(method),
        params: Some(params),
        service_params: opt_envelope_of(service_params),
        ..bare_request()
    }
}

/// The envelope of a call.
pub fn call_envelope(id: &str, method: &str, params: &ServiceParams, request_params: JsonValue) -> (r:
    WsRequestEnvelope)
    ensures
        r@ == call_view(id@, method@, model(request_params), lists(params@)),
{
    let mut r = WsRequestEnvelope::default();
    r.id = Some(JsonRpcId::Text(id.to_owned()));
    r.method = Some(method.to_owned());
    r.params = Some(request_params);
    r.service_params = service_params_to_envelope(params);
    r
}

/// The envelope that stops a stream.
pub fn cancel_envelope(id: &str) -> (r: WsRequestEnvelope)
    ensures
        r@ == (WsRequestView {
            id: Some(IdView::Text(id@)),
            cancel_stream: Some(true),
            ..bare_request()
        }),
{
    let mut r = WsRequestEnvelope::default();
    r.id = Some(JsonRpcId::Text(id.to_owned()));
    r.cancel_stream = Some(true);
    r
}

/// The text frame of an envelope.
pub fn envelope_frame(envelope: &WsRequestEnvelope) -> (r: Result<Vec<u8>, A2AError>)
    ensures
        r is Ok,
        match r {
            Ok(b) => {
                &&& json_written(ws_request_json(envelope@)) == Ok::<Seq<u8>, Seq<char>>(b@)
                &&& ws_request_plain(envelope@) ==> ws_request_in(b@) == Ok::<
                    WsRequestView,
                    Seq<char>,
                >(envelope@)
            },
            Err(e) => json_written(ws_request_json(envelope@)) matches Err(m) && e@ == internal(
                "failed to serialize envelope: "@ + m,
            ),
        },
{
    match envelope.to_vec() {
        Ok(b) => Ok(b),
        Err(e) => Err(
            A2AError::internal(joined("failed to serialize envelope: ", e.as_str()).as_str()),
        ),
    }
}

/// The key that the caller of a request is registered under.
pub fn id_key_of(id: &str) -> (r: String)
    ensures
        r@ == key_text(IdView::Text(id@)),
{
    id_key(&JsonRpcId::Text(id.to_owned()))
}

// ---------------------------------------------------------------------------
// Who gets what.
// ---------------------------------------------------------------------------

/// What is to be done with a frame.
#[derive(Debug)]
pub enum Routed {
    /// Nothing.
    Ignore,
    /// The server asks for new credentials.
    Reauth(ReauthRequired),
    /// Hand this to the caller under this key, who is no longer registered.
    Unary { key: String, result: Result<JsonValue, A2AError> },
    /// Hand this to the consumer of the stream under this key.
    Chunk { key: String, value: JsonValue },
    /// Hand this to the consumer of the stream under this key, and end it.
    StreamError { key: String, error: A2AError },
    /// End the stream under this key.
    End { key: String },
}

/// What is to be done with a frame, in terms of contents.
#[verifier::ext_equal]
pub enum RoutedView {
    Ignore,
    Reauth { reason: Option<Seq<char>>, retry_after_ms: Option<u64> },
    Unary { key: Seq<char>, result: Result<Json, ErrorView> },
    Chunk { key: Seq<char>, value: Json },
    StreamError { key: Seq<char>, error: ErrorView },
    End { key: Seq<char> },
}

impl View for Routed {
    type V = RoutedView;

    open spec fn view(&self) -> RoutedView {
        match *self {
            Routed::Ignore => RoutedView::Ignore,
            Routed::Reauth(q) => RoutedView::Reauth {
                reason: opt_text(q.reason),
                retry_after_ms: q.retry_after_ms,
            },
            Routed::Unary { key, result } => RoutedView::Unary { key: key@, result: outcome(result) },
            Routed::Chunk { key, value } => RoutedView::Chunk { key: key@, value: model(value) },
            Routed::StreamError { key, error } => RoutedView::StreamError {
                key: key@,
                error: error@,
            },
            Routed::End { key } => RoutedView::End { key: key@ },
        }
    }
}

/// What is to be done with an envelope, where these callers and consumers wait.
/// What comes for no one is dropped.
pub open spec fn routed(unary: Set<Seq<char>>, streaming: Set<Seq<char>>, v: WsResponseView) ->
    RoutedView {
    match (v.control, v.id) {
        (Some(c), _) => if c == CONTROL_REAUTH_REQUIRED@ {
            RoutedView::Reauth { reason: v.reason, retry_after_ms: v.retry_after_ms }
        } else {
            RoutedView::Ignore
        },
        (None, None) => RoutedView::Ignore,
        (None, Some(id)) => {
            let key = key_text(id);
            if v.error is Some {
                let error = plain_error(v.error->0.code, v.error->0.message);
                if unary.contains(key) {
                    RoutedView::Unary { key, result: Err(error) }
                } else if streaming.contains(key) {
                    RoutedView::StreamError { key, error }
                } else {
                    RoutedView::Ignore
                }
            } else if v.stream_end == Some(true) {
                if streaming.contains(key) {
                    RoutedView::End { key }
                } else {
                    RoutedView::Ignore
                }
            } else if v.result is Some {
                if unary.contains(key) {
                    RoutedView::Unary { key, result: Ok(v.result->0) }
                } else if streaming.contains(key) {
                    RoutedView::Chunk { key, value: v.result->0 }
                } else {
                    RoutedView::Ignore
                }
            } else {
                RoutedView::Ignore
            }
        },
    }
}

/// What is to be done with a text frame.
pub open spec fn routed_frame(unary: Set<Seq<char>>, streaming: Set<Seq<char>>, payload: Seq<u8>) ->
    RoutedView {
    match ws_response_in(payload) {
        Ok(v) => routed(unary, streaming, v),
        Err(_) => RoutedView::Ignore,
    }
}

/// The callers that still wait.
pub open spec fn unary_after(unary: Set<Seq<char>>, a: RoutedView) -> Set<Seq<char>> {
    match a {
        RoutedView::Unary { key, result } => unary.remove(key),
        _ => unary,
    }
}

/// The consumers that still wait.
pub open spec fn streaming_after(streaming: Set<Seq<char>>, a: RoutedView) -> Set<Seq<char>> {
    match a {
        RoutedView::StreamError { key, error } => streaming.remove(key),
        RoutedView::End { key } => streaming.remove(key),
        _ => streaming,
    }
}

/// A call that was started: its identifier, the key under which it waits, and
/// the frame that asks for it.
#[derive(Debug)]
pub struct StartedCall {
    pub id: String,
    pub key: String,
    pub frame: Vec<u8>,
}

/// Whether a call was started with this method, payload and parameters: its frame
/// holds the envelope of the call, and reads as that envelope.
pub open spec fn started(
    c: StartedCall,
    method: Seq<char>,
    payload: Json,
    params: Map<Seq<char>, Seq<Seq<char>>>,
) -> bool {
    let v = call_view(c.id@, method, payload, params);
    &&& c.id@.len() == 36
    &&& c.key@ == key_text(IdView::Text(c.id@))
    &&& json_written(ws_request_json(v)) == Ok::<Seq<u8>, Seq<char>>(c.frame@)
    &&& ws_request_plain(v) ==> ws_request_in(c.frame@) == Ok::<WsRequestView, Seq<char>>(v)
}

/// Who waits on a connection.
#[derive(Debug)]
pub struct Pending {
    unary: TextMap<bool>,
    streaming: TextMap<bool>,
    close_error: Option<A2AError>,
}

impl Pending {
    /// The keys of the callers that wait.
    pub closed spec fn unary(&self) -> Set<Seq<char>> {
        self.unary@.dom()
    }

    /// The keys of the consumers that wait.
    pub closed spec fn streaming(&self) -> Set<Seq<char>> {
        self.streaming@.dom()
    }

    /// Why the connection has ended, if it has.
    pub closed spec fn ended(&self) -> Option<ErrorView> {
        match self.close_error {
            Some(e) => Some(e@),
            None => None,
        }
    }

    /// A connection at its start.
    pub fn new() -> (r: Self)
        ensures
            r.unary() == Set::<Seq<char>>::empty(),
            r.streaming() == Set::<Seq<char>>::empty(),
            r.ended() is None,
    {
        let r = Pending { unary: TextMap::new(), streaming: TextMap::new(), close_error: None };
        assert(r.unary() =~= Set::<Seq<char>>::empty());
        assert(r.streaming() =~= Set::<Seq<char>>::empty());
        r
    }

    /// Whether the connection has ended.
    pub fn is_closed(&self) -> (r: bool)
        ensures
            r == (self.ended() is Some),
    {
        self.close_error.is_some()
    }

    /// Whether a caller waits under a key.
    pub fn has_unary(&self, key: &str) -> (r: bool)
        ensures
            r == self.unary().contains(key@),
    {
        self.unary.contains_key(key)
    }

    /// Whether a consumer waits under a key.
    pub fn has_streaming(&self, key: &str) -> (r: bool)
        ensures
            r == self.streaming().contains(key@),
    {
        self.streaming.contains_key(key)
    }

    /// The error that is reported once the connection has ended.
    pub fn closed_error(&self) -> (r: A2AError)
        ensures
            r@ == (match self.ended() {
                Some(e) => e,
                None => internal("websocket connection closed"@),
            }),
    {
        match &self.close_error {
            Some(e) => e.clone(),
            None => A2AError::internal("websocket connection closed"),
        }
    }

    /// Notes that a caller waits under a key, unless the connection has ended.
    pub fn register_unary(&mut self, key: &str) -> (r: Result<(), A2AError>)
        ensures
            match r {
                Ok(_) => old(self).ended() is None && final(self).unary() == old(
                    self,
                ).unary().insert(key@),
                Err(e) => old(self).ended() == Some(e@) && final(self).unary() == old(self).unary(),
            },
            final(self).streaming() == old(self).streaming(),
            final(self).ended() == old(self).ended(),
    {
        if let Some(e) = &self.close_error {
            return Err(e.clone());
        }
        self.unary.insert(key.to_owned(), true);
        assert(self.unary() =~= old(self).unary().insert(key@));
        Ok(())
    }

    /// Notes that a consumer waits under a key, unless the connection has ended.
    pub fn register_streaming(&mut self, key: &str) -> (r: Result<(), A2AError>)
        ensures
            match r {
                Ok(_) => old(self).ended() is None && final(self).streaming() == old(
                    self,
                ).streaming().insert(key@),
                Err(e) => old(self).ended() == Some(e@) && final(self).streaming() == old(
                    self,
                ).streaming(),
            },
            final(self).unary() == old(self).unary(),
            final(self).ended() == old(self).ended(),
    {
        if let Some(e) = &self.close_error {
            return Err(e.clone());
        }
        self.streaming.insert(key.to_owned(), true);
        assert(self.streaming() =~= old(self).streaming().insert(key@));
        Ok(())
    }

    /// Notes that no consumer waits under a key any more.
    pub fn deregister_streaming(&mut self, key: &str)
        ensures
            final(self).streaming() == old(self).streaming().remove(key@),
            final(self).unary() == old(self).unary(),
            final(self).ended() == old(self).ended(),
    {
        let _ = self.streaming.remove(key);
        assert(self.streaming() =~= old(self).streaming().remove(key@));
    }

    /// Starts a call that answers once: its caller waits from now on, unless the
    /// connection has ended. The payload is made ready to be sent.
    pub fn start_unary(
        &mut self,
        method: &str,
        params: &ServiceParams,
        request_params: JsonValue,
    ) -> (r: Result<StartedCall, A2AError>)
        ensures
            match r {
                Ok(c) => old(self).ended() is None && started(
                    c,
                    method@,
                    finished(model(request_params), false),
                    lists(params@),
                ) && final(self).unary() == old(self).unary().insert(c.key@),
                Err(e) => old(self).ended() == Some(e@) && final(self).unary() == old(self).unary(),
            },
            final(self).streaming() == old(self).streaming(),
            final(self).ended() == old(self).ended(),
    {
        self.start_raw(method, params, finish_payload(request_params))
    }

    fn start_raw(
        &mut self,
        method: &str,
        params: &ServiceParams,
        request_params: JsonValue,
    ) -> (r: Result<StartedCall, A2AError>)
        ensures
            match r {
                Ok(c) => old(self).ended() is None && started(
                    c,
                    method@,
                    model(request_params),
                    lists(params@),
                ) && final(self).unary() == old(self).unary().insert(c.key@),
                Err(e) => old(self).ended() == Some(e@) && final(self).unary() == old(self).unary(),
            },
            final(self).streaming() == old(self).streaming(),
            final(self).ended() == old(self).ended(),
    {
        let id = fresh_id();
        let key = id_key_of(id.as_str());
        let envelope = call_envelope(id.as_str(), method, params, request_params);
        if let Err(e) = self.register_unary(key.as_str()) {
            return Err(e);
        }
        match envelope_frame(&envelope) {
            Ok(frame) => Ok(StartedCall { id, key, frame }),
            Err(e) => Err(e),
        }
    }

    /// Starts a call that gives the server new credentials.
    pub fn authenticate(&mut self, given: &AuthenticateParams) -> (r: Result<StartedCall, A2AError>)
        ensures
            match r {
                Ok(c) => old(self).ended() is None && started(
                    c,
                    AUTHENTICATE@,
                    credentials_json(given.scheme@, given.credentials@),
                    Map::empty(),
                ) && final(self).unary() == old(self).unary().insert(c.key@),
                Err(e) => old(self).ended() == Some(e@) && final(self).unary() == old(self).unary(),
            },
            final(self).streaming() == old(self).streaming(),
            final(self).ended() == old(self).ended(),
    {
        let params: ServiceParams = TextMap::new();
        assert(lists(params@) =~= Map::<Seq<char>, Seq<Seq<char>>>::empty());
        self.start_raw(AUTHENTICATE, &params, given.to_value())
    }

    /// Starts a call that answers with a stream: its consumer waits from now on,
    /// unless the connection has ended. The payload is made ready to be sent.
    pub fn start_streaming(
        &mut self,
        method: &str,
        params: &ServiceParams,
        request_params: JsonValue,
    ) -> (r: Result<StartedCall, A2AError>)
        ensures
            match r {
                Ok(c) => old(self).ended() is None && started(
                    c,
                    method@,
                    finished(model(request_params), false),
                    lists(params@),
                ) && final(self).streaming() == old(self).streaming().insert(c.key@),
                Err(e) => old(self).ended() == Some(e@) && final(self).streaming() == old(
                    self,
                ).streaming(),
            },
            final(self).unary() == old(self).unary(),
            final(self).ended() == old(self).ended(),
    {
        let id = fresh_id();
        let key = id_key_of(id.as_str());
        let payload = finish_payload(request_params);
        let envelope = call_envelope(id.as_str(), method, params, payload);
        if let Err(e) = self.register_streaming(key.as_str()) {
            return Err(e);
        }
        match envelope_frame(&envelope) {
            Ok(frame) => Ok(StartedCall { id, key, frame }),
            Err(e) => Err(e),
        }
    }

    /// Notes that the connection has ended. Everyone who waits is handed this
    /// error, and nobody waits any more.
    pub fn fail_all(&mut self, error: A2AError)
        ensures
            final(self).unary() == Set::<Seq<char>>::empty(),
            final(self).streaming() == Set::<Seq<char>>::empty(),
            final(self).ended() == Some(error@),
    {
        self.unary = TextMap::new();
        self.streaming = TextMap::new();
        self.close_error = Some(error);
        assert(self.unary() =~= Set::<Seq<char>>::empty());
        assert(self.streaming() =~= Set::<Seq<char>>::empty());
    }

    /// What is to be done with an envelope.
    pub fn route(&mut self, envelope: WsResponseEnvelope) -> (r: Routed)
        ensures
            r@ == routed(old(self).unary(), old(self).streaming(), envelope@),
            final(self).unary() == unary_after(old(self).unary(), r@),
            final(self).streaming() == streaming_after(old(self).streaming(), r@),
            final(self).ended() == old(self).ended(),
    {
        if let Some(control) = &envelope.control {
            if same_text(control.as_str(), CONTROL_REAUTH_REQUIRED) {
                return Routed::Reauth(
                    ReauthRequired {
                        reason: envelope.reason,
                        retry_after_ms: envelope.retry_after_ms,
                    },
                );
            }
            return Routed::Ignore;
        }
        let key = match &envelope.id {
            Some(id) => id_key(id),
            None => {
                return Routed::Ignore;
            },
        };
        if let Some(e) = envelope.error {
            let error = jsonrpc_error_to_a2a(&e);
            if self.unary.contains_key(key.as_str()) {
                let _ = self.unary.remove(key.as_str());
                assert(self.unary() =~= old(self).unary().remove(key@));
                return Routed::Unary { key, result: Err(error) };
            }
            if self.streaming.contains_key(key.as_str()) {
                self.deregister_streaming(key.as_str());
                return Routed::StreamError { key, error };
            }
            return Routed::Ignore;
        }
        if let Some(true) = envelope.stream_end {
            if self.streaming.contains_key(key.as_str()) {
                self.deregister_streaming(key.as_str());
                return Routed::End { key };
            }
            return Routed::Ignore;
        }
        match envelope.result {
            Some(value) => {
                if self.unary.contains_key(key.as_str()) {
                    let _ = self.unary.remove(key.as_str());
                    assert(self.unary() =~= old(self).unary().remove(key@));
                    return Routed::Unary { key, result: Ok(value) };
                }
                if self.streaming.contains_key(key.as_str()) {
                    return Routed::Chunk { key, value };
                }
                Routed::Ignore
            },
            None => Routed::Ignore,
        }
    }

    /// What is to be done with a text frame. One that cannot be read is dropped.
    pub fn handle_incoming_text(&mut self, payload: &[u8]) -> (r: Routed)
        ensures
            r@ == routed_frame(old(self).unary(), old(self).streaming(), payload@),
            final(self).unary() == unary_after(old(self).unary(), r@),
            final(self).streaming() == streaming_after(old(self).streaming(), r@),
            final(self).ended() == old(self).ended(),
    {
        match WsResponseEnvelope::from_slice(payload) {
            Ok(e) => self.route(e),
            Err(_) => Routed::Ignore,
        }
    }
}

/// The error for a stream's item that cannot be read.
pub fn unreadable_chunk(error: &str) -> (r: A2AError)
    ensures
        r@ == internal("failed to deserialize streaming result: "@ + error@),
{
    A2AError::internal(joined("failed to deserialize streaming result: ", error).as_str())
}

/// A call is answered once: after its answer, whatever comes for it reaches no
/// caller.
pub proof fn law_a_call_is_answered_once(
    unary: Set<Seq<char>>,
    streaming: Set<Seq<char>>,
    first: WsResponseView,
    again: WsResponseView,
)
    requires
        routed(unary, streaming, first) is Unary,
        again.id == first.id,
    ensures
        !(routed(
            unary_after(unary, routed(unary, streaming, first)),
            streaming_after(streaming, routed(unary, streaming, first)),
            again,
        ) is Unary),
{
}

/// What comes for one request leaves the others waiting as they did.
pub proof fn law_routing_touches_one_request(
    unary: Set<Seq<char>>,
    streaming: Set<Seq<char>>,
    v: WsResponseView,
    other: IdView,
)
    requires
        v.id != Some(other),
    ensures
        unary_after(unary, routed(unary, streaming, v)).contains(key_text(other))
            == unary.contains(key_text(other)),
        streaming_after(streaming, routed(unary, streaming, v)).contains(key_text(other))
            == streaming.contains(key_text(other)),
{
    if let Some(id) = v.id {
        if key_text(id) == key_text(other) {
            crate::protocol::law_id_keys_differ(id, other);
        }
    }
}

/// A stream as its consumer sees it.
#[derive(Debug)]
pub struct StreamingResponse {
    cancel_sent: bool,
    terminated: bool,
}

impl StreamingResponse {
    /// Whether the server was told to stop.
    pub closed spec fn cancel_sent(&self) -> bool {
        self.cancel_sent
    }

    /// Whether nothing more will come.
    pub closed spec fn terminated(&self) -> bool {
        self.terminated
    }

    /// A stream that was just asked for.
    pub fn new() -> (r: Self)
        ensures
            !r.cancel_sent(),
            !r.terminated(),
    {
        StreamingResponse { cancel_sent: false, terminated: false }
    }

    /// What the consumer gets for what came off the stream.
    pub fn poll<T>(&mut self, next: Option<T>) -> (r: Option<T>)
        ensures
            r == (if old(self).terminated() {
                None
            } else {
                next
            }),
            final(self).terminated() == (old(self).terminated() || next is None),
            final(self).cancel_sent() == old(self).cancel_sent(),
    {
        if self.terminated {
            return None;
        }
        if next.is_none() {
            self.terminated = true;
        }
        next
    }

    /// Whether the server is to be told to stop, now that the consumer leaves.
    /// It is told once, and only where it has not ended the stream itself.
    pub fn leave(&mut self) -> (r: bool)
        ensures
            r == (!old(self).cancel_sent() && !old(self).terminated()),
            final(self).cancel_sent() == (old(self).cancel_sent() || r),
            final(self).terminated() == old(self).terminated(),
    {
        if !self.cancel_sent && !self.terminated {
            self.cancel_sent = true;
            true
        } else {
            false
        }
    }
}

// ---------------------------------------------------------------------------
// The connection.
// ---------------------------------------------------------------------------

/// The code that a closing frame gives, if it gives one.
pub open spec fn closing_code(payload: Seq<u8>) -> Option<int> {
    if payload.len() >= 2 {
        Some(payload[0] * 256 + payload[1])
    } else {
        None
    }
}

/// The error that a closing frame is reported as.
pub open spec fn closing_error(payload: Seq<u8>) -> ErrorView {
    match closing_code(payload) {
        None => internal("websocket connection closed"@),
        Some(code) => if code == AUTHENTICATION_REQUIRED {
            plain_error(
                SERVER_ERROR_CODE,
                "connection closed with 4001: reauthentication required, reconnect with fresh credentials"@,
            )
        } else if code == POLICY_VIOLATION {
            plain_error(
                SERVER_ERROR_CODE,
                "connection closed with 1008: policy violation (for example a rate limit)"@,
            )
        } else if code == MESSAGE_TOO_BIG {
            plain_error(
                SERVER_ERROR_CODE,
                "connection closed with 1009: message exceeded the server's maximum size"@,
            )
        } else if code == VERSION_NOT_SUPPORTED {
            plain_error(
                SERVER_ERROR_CODE,
                "connection closed with 4002: the requested A2A protocol version is not supported"@,
            )
        } else if code == NORMAL_CLOSURE {
            internal("websocket connection closed"@)
        } else {
            internal("websocket connection closed with code "@ + decimal(code as nat))
        },
    }
}

/// The error that a closing frame is reported as, so that a caller can tell why
/// the connection ended.
pub fn close_error_for(payload: &[u8]) -> (r: A2AError)
    ensures
        r@ == closing_error(payload@),
{
    if payload.len() < 2 {
        return A2AError::internal("websocket connection closed");
    }
    let code: u16 = payload[0] as u16 * 256 + payload[1] as u16;
    if code == AUTHENTICATION_REQUIRED {
        A2AError::new(
            SERVER_ERROR_CODE,
            "connection closed with 4001: reauthentication required, reconnect with fresh credentials".to_owned(),
        )
    } else if code == POLICY_VIOLATION {
        A2AError::new(
            SERVER_ERROR_CODE,
            "connection closed with 1008: policy violation (for example a rate limit)".to_owned(),
        )
    } else if code == MESSAGE_TOO_BIG {
        A2AError::new(
            SERVER_ERROR_CODE,
            "connection closed with 1009: message exceeded the server's maximum size".to_owned(),
        )
    } else if code == VERSION_NOT_SUPPORTED {
        A2AError::new(
            SERVER_ERROR_CODE,
            "connection closed with 4002: the requested A2A protocol version is not supported".to_owned(),
        )
    } else if code == NORMAL_CLOSURE {
        A2AError::internal("websocket connection closed")
    } else {
        A2AError::internal(
            joined(
                "websocket connection closed with code ",
                decimal_text(code as u64).as_str(),
            ).as_str(),
        )
    }
}

/// What happens on a connection.
#[derive(Debug)]
pub enum ClientEvent {
    /// This frame waits to be written.
    Queued(Vec<u8>),
    /// The connection is to be closed.
    Closing,
    /// Nobody holds the connection any more.
    Abandoned,
    /// A text frame came.
    Text(Vec<u8>),
    /// A binary frame came.
    Binary,
    /// The server closes the connection.
    Close(Vec<u8>),
    /// Another frame came.
    Other,
    /// Reading failed.
    ReadFailed,
}

/// What happens on a connection, in terms of contents.
pub enum ClientEventView {
    Queued(Seq<u8>),
    Closing,
    Abandoned,
    Text(Seq<u8>),
    Binary,
    Close(Seq<u8>),
    Other,
    ReadFailed,
}

impl View for ClientEvent {
    type V = ClientEventView;

    open spec fn view(&self) -> ClientEventView {
        match *self {
            ClientEvent::Queued(b) => ClientEventView::Queued(b@),
            ClientEvent::Closing => ClientEventView::Closing,
            ClientEvent::Abandoned => ClientEventView::Abandoned,
            ClientEvent::Text(b) => ClientEventView::Text(b@),
            ClientEvent::Binary => ClientEventView::Binary,
            ClientEvent::Close(b) => ClientEventView::Close(b@),
            ClientEvent::Other => ClientEventView::Other,
            ClientEvent::ReadFailed => ClientEventView::ReadFailed,
        }
    }
}

/// What is to be done about it.
#[derive(Debug)]
pub enum ClientStep {
    /// Nothing.
    Ignore,
    /// Write this frame; where it cannot be written, the connection has ended.
    Write(Vec<u8>),
    /// Do this with the frame that came.
    Route(Routed),
    /// The connection has ended: close it with this code and reason, if any.
    /// Everyone who waits was handed the error that [`Pending`] now holds.
    Stop(Option<(u16, String)>),
}

/// What is to be done about it, in terms of contents.
#[verifier::ext_equal]
pub enum ClientStepView {
    Ignore,
    Write(Seq<u8>),
    Route(RoutedView),
    Stop(Option<(u16, Seq<char>)>),
}

impl View for ClientStep {
    type V = ClientStepView;

    open spec fn view(&self) -> ClientStepView {
        match *self {
            ClientStep::Ignore => ClientStepView::Ignore,
            ClientStep::Write(b) => ClientStepView::Write(b@),
            ClientStep::Route(r) => ClientStepView::Route(r@),
            ClientStep::Stop(o) => ClientStepView::Stop(
                match o {
                    Some((code, reason)) => Some((code, reason@)),
                    None => None,
                },
            ),
        }
    }
}

/// What is to be done about what happens on a connection.
pub open spec fn client_step(unary: Set<Seq<char>>, streaming: Set<Seq<char>>, e: ClientEventView) ->
    ClientStepView {
    match e {
        ClientEventView::Queued(b) => ClientStepView::Write(b),
        ClientEventView::Closing => ClientStepView::Stop(
            Some((NORMAL_CLOSURE, "client closing"@)),
        ),
        ClientEventView::Abandoned => ClientStepView::Stop(None),
        ClientEventView::Text(b) => ClientStepView::Route(routed_frame(unary, streaming, b)),
        ClientEventView::Binary => ClientStepView::Stop(
            Some((UNSUPPORTED_DATA, "binary frames are reserved for future use"@)),
        ),
        ClientEventView::Close(_) => ClientStepView::Stop(None),
        ClientEventView::Other => ClientStepView::Ignore,
        ClientEventView::ReadFailed => ClientStepView::Stop(None),
    }
}

/// Why a connection has ended that this event ends.
pub open spec fn end_error(e: ClientEventView) -> ErrorView {
    match e {
        ClientEventView::Close(b) => closing_error(b),
        _ => internal("websocket connection closed"@),
    }
}

impl Pending {
    /// What is to be done about what happens on the connection.
    pub fn step(&mut self, event: ClientEvent) -> (r: ClientStep)
        ensures
            r@ == client_step(old(self).unary(), old(self).streaming(), event@),
            r@ is Stop ==> {
                &&& final(self).unary() == Set::<Seq<char>>::empty()
                &&& final(self).streaming() == Set::<Seq<char>>::empty()
                &&& final(self).ended() == Some(end_error(event@))
            },
            r@ matches ClientStepView::Route(a) ==> {
                &&& final(self).unary() == unary_after(old(self).unary(), a)
                &&& final(self).streaming() == streaming_after(old(self).streaming(), a)
                &&& final(self).ended() == old(self).ended()
            },
            r@ is Ignore || r@ is Write ==> *final(self) == *old(self),
    {
        match event {
            ClientEvent::Queued(b) => ClientStep::Write(b),
            ClientEvent::Closing => {
                self.fail_all(A2AError::internal("websocket connection closed"));
                ClientStep::Stop(Some((NORMAL_CLOSURE, "client closing".to_owned())))
            },
            ClientEvent::Abandoned | ClientEvent::ReadFailed => {
                self.fail_all(A2AError::internal("websocket connection closed"));
                ClientStep::Stop(None)
            },
            ClientEvent::Text(b) => ClientStep::Route(self.handle_incoming_text(b.as_slice())),
            ClientEvent::Binary => {
                self.fail_all(A2AError::internal("websocket connection closed"));
                ClientStep::Stop(
                    Some(
                        (UNSUPPORTED_DATA, "binary frames are reserved for future use".to_owned()),
                    ),
                )
            },
            ClientEvent::Close(b) => {
                self.fail_all(close_error_for(b.as_slice()));
                ClientStep::Stop(None)
            },
            ClientEvent::Other => ClientStep::Ignore,
        }
    }
}

} // verus!
