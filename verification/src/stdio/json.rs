//! The messages of the JSON variant: requests, cancellations, results, errors
//! and stream ends, and how a frame's body is told apart into them.
//!
//! The bodies are JSON-RPC objects with the extra members `serviceParams`,
//! `streamEnd` and `cancelStream`. Unknown members are ignored.
use super::json_laws::{
    law_client_message_reads_back, law_control_frame_reads_back, law_server_message_reads_back,
    lemma_control_frames_are_shallow,
};
use crate::json_value::{
    depth_limit, plain_json, copy_value, entry, items, json_read, json_written, lemma_array_model,
    lemma_members_has, member, model, object, read_json, set_member, write_json, Json, JsonNum,
    JsonValue, NumberModel,
};
use crate::params::{lemma_lists_insert, lists, ServiceParams};
use crate::protocol::{
    error_json, error_read, flat, flat_from_value, flat_json, flat_read, flat_to_value, id_json,
    id_read, lemma_flat_insert, opt_flat, opt_id, opt_model, present, present_member, ErrorView,
    IdView, JsonRpcError, JsonRpcId,
};
use crate::record::{texts_from_value, texts_json, texts_read, texts_to_value, u64_value};
use crate::stdio::wire::{
    variant_token, AckView, ControlFrame, ControlView, Handshake, HandshakeAck, HandshakeView,
    Heartbeat, Variant, WireError, WireFault,
};
use crate::text::{
    join, join_texts, listed, lower_text, lowered, opt_text, same_text, split_and_trim, texts,
};
use crate::text_map::{distinct_keys, has_key, lemma_map_of_keys, map_of, TextMap};
use vstd::prelude::*;

verus! {

/// The version that every message carries.
pub const JSONRPC_VERSION: &'static str = "2.0";

/// The shutdown request, which this binding alone defines.
pub const SYSTEM_SHUTDOWN: &'static str = "system/shutdown";

/// What is said of a body whose members are not those of a message.
pub const SHAPE_ERROR: &'static str = "missing or mistyped member";

// ---------------------------------------------------------------------------
// Messages.
// ---------------------------------------------------------------------------

/// A request, with its service parameters as a flat map.
#[derive(Debug, PartialEq)]
pub struct StdioRequest {
    pub jsonrpc: String,
    pub id: JsonRpcId,
    pub method: String,
    pub params: Option<JsonValue>,
    pub service_params: Option<TextMap<String>>,
}

/// A request in terms of contents.
#[verifier::ext_equal]
pub struct RequestView {
    pub jsonrpc: Seq<char>,
    pub id: IdView,
    pub method: Seq<char>,
    pub params: Option<Json>,
    pub service_params: Option<Map<Seq<char>, Seq<char>>>,
}

impl View for StdioRequest {
    type V = RequestView;

    open spec fn view(&self) -> RequestView {
        RequestView {
            jsonrpc: self.jsonrpc@,
            id: self.id@,
            method: self.method@,
            params: opt_model(self.params),
            service_params: opt_flat(self.service_params),
        }
    }
}

/// The flat form of service parameters: names in lower case, values joined by
/// commas. Where two names agree but for case the later one counts.
pub open spec fn wire_of(e: Seq<(Seq<char>, Vec<String>)>) -> Map<Seq<char>, Seq<char>>
    decreases e.len(),
{
    if e.len() == 0 {
        Map::empty()
    } else {
        wire_of(e.drop_last()).insert(lowered(e.last().0), join(texts(e.last().1@), ","@))
    }
}

/// The service parameters of a flat form: names in lower case, values split at
/// commas, trimmed, and without the empty ones.
pub open spec fn params_of(e: Seq<(Seq<char>, String)>) -> Map<Seq<char>, Seq<Seq<char>>>
    decreases e.len(),
{
    if e.len() == 0 {
        Map::empty()
    } else {
        params_of(e.drop_last()).insert(lowered(e.last().0), listed(e.last().1@))
    }
}

/// Whether `m` holds the parameters of a flat form, whichever of two names that
/// agree but for case was taken.
pub open spec fn params_from(
    wire: Map<Seq<char>, Seq<char>>,
    m: Map<Seq<char>, Seq<Seq<char>>>,
) -> bool {
    &&& forall|k: Seq<char>| #[trigger] wire.contains_key(k) ==> m.contains_key(lowered(k))
    &&& forall|x: Seq<char>| #[trigger]
        m.contains_key(x) ==> exists|k: Seq<char>| #[trigger]
            wire.contains_key(k) && lowered(k) == x && m[x] == listed(wire[k])
}

proof fn lemma_params_of(e: Seq<(Seq<char>, String)>)
    requires
        distinct_keys(e),
    ensures
        params_from(flat(map_of(e)), params_of(e)),
    decreases e.len(),
{
    let wire = flat(map_of(e));
    let m = params_of(e);
    if e.len() > 0 {
        let d = e.drop_last();
        assert(distinct_keys(d)) by {
            assert forall|a: int, b: int| 0 <= a < b < d.len() implies #[trigger] d[a].0
                != #[trigger] d[b].0 by {
                assert(e[a].0 != e[b].0);
            }
        }
        lemma_params_of(d);
        let last = e.last().0;
        lemma_flat_insert(map_of(d), last, e.last().1);
        let before = flat(map_of(d));
        lemma_map_of_keys(d, last);
        if has_key(d, last) {
            let i = choose|i: int| 0 <= i < d.len() && #[trigger] d[i].0 == last;
            assert(e[i].0 != e[e.len() - 1].0);
        }
        assert forall|k: Seq<char>| #[trigger] wire.contains_key(k) implies m.contains_key(
            lowered(k),
        ) by {
            if k != last {
                assert(before.contains_key(k));
            }
        }
        assert forall|x: Seq<char>| #[trigger] m.contains_key(x) implies exists|k: Seq<char>|
            #[trigger]
            wire.contains_key(k) && lowered(k) == x && m[x] == listed(wire[k]) by {
            if x == lowered(last) {
                assert(wire.contains_key(last));
            } else {
                assert(params_of(d).contains_key(x));
                let k = choose|k: Seq<char>| #[trigger]
                    before.contains_key(k) && lowered(k) == x && params_of(d)[x] == listed(
                        before[k],
                    );
                assert(wire.contains_key(k));
            }
        }
    }
}

/// The service parameters of a flat form.
pub fn wire_to_service_params(m: &TextMap<String>) -> (r: ServiceParams)
    ensures
        lists(r@) == params_of(m.spec_entries()),
        params_from(flat(m@), lists(r@)),
{
    let n: usize = m.len();
    let ghost e = m.spec_entries();
    let mut out: ServiceParams = TextMap::new();
    let mut i: usize = 0;
    assert(lists(out@) =~= params_of(e.take(0)));
    while i < n
        invariant
            i <= n,
            n == e.len(),
            distinct_keys(e),
            e == m.spec_entries(),
            lists(out@) == params_of(e.take(i as int)),
        decreases n - i,
    {
        let key = lower_text(m.key_at(i));
        let values = split_and_trim(m.value_at(i).as_str());
        proof {
            lemma_lists_insert(out@, key@, values);
            assert(e.take(i + 1).drop_last() =~= e.take(i as int));
        }
        out.insert(key, values);
        i = i + 1;
    }
    assert(e.take(i as int) =~= e);
    proof {
        lemma_params_of(e);
    }
    out
}

/// The flat form of service parameters.
pub fn service_params_to_wire(sp: &ServiceParams) -> (r: TextMap<String>)
    ensures
        flat(r@) == wire_of(sp.spec_entries()),
{
    let n: usize = sp.len();
    let ghost e = sp.spec_entries();
    let mut out: TextMap<String> = TextMap::new();
    let mut i: usize = 0;
    assert(flat(out@) =~= wire_of(e.take(0)));
    while i < n
        invariant
            i <= n,
            n == e.len(),
            e == sp.spec_entries(),
            flat(out@) == wire_of(e.take(i as int)),
        decreases n - i,
    {
        let key = lower_text(sp.key_at(i));
        let value = join_texts(sp.value_at(i), ",");
        proof {
            lemma_flat_insert(out@, key@, value);
            assert(e.take(i + 1).drop_last() =~= e.take(i as int));
        }
        out.insert(key, value);
        i = i + 1;
    }
    assert(e.take(i as int) =~= e);
    out
}

impl StdioRequest {
    /// A request without service parameters.
    pub fn new(id: JsonRpcId, method: &str, params: Option<JsonValue>) -> (r: Self)
        ensures
            r@ == (RequestView {
                jsonrpc: JSONRPC_VERSION@,
                id: id@,
                method: method@,
                params: opt_model(params),
                service_params: None,
            }),
    {
        StdioRequest {
            jsonrpc: JSONRPC_VERSION.to_owned(),
            id,
            method: method.to_owned(),
            params,
            service_params: None,
        }
    }

    /// The same request with these service parameters, or with none where there
    /// are none.
    pub fn with_service_params(self, sp: &ServiceParams) -> (r: Self)
        ensures
            r@ == (RequestView {
                service_params: if sp.spec_entries().len() == 0 {
                    None
                } else {
                    Some(wire_of(sp.spec_entries()))
                },
                ..self@
            }),
    {
        let mut out = self;
        out.service_params = if sp.is_empty() {
            None
        } else {
            Some(service_params_to_wire(sp))
        };
        out
    }
}

/// What a client sends.
#[derive(Debug, PartialEq)]
pub enum ClientMessage {
    Request(StdioRequest),
    CancelStream { id: JsonRpcId },
}

/// What a client sends, in terms of contents.
#[verifier::ext_equal]
pub enum ClientView {
    Request(RequestView),
    CancelStream { id: IdView },
}

impl View for ClientMessage {
    type V = ClientView;

    open spec fn view(&self) -> ClientView {
        match *self {
            ClientMessage::Request(r) => ClientView::Request(r@),
            ClientMessage::CancelStream { id } => ClientView::CancelStream { id: id@ },
        }
    }
}

/// What a server sends. The result of a call and an item of a stream look the
/// same; the reader knows which by the method it asked for.
#[derive(Debug, PartialEq)]
pub enum ServerMessage {
    Result { id: JsonRpcId, result: JsonValue },
    Error { id: JsonRpcId, error: JsonRpcError },
    StreamEnd { id: JsonRpcId },
}

/// What a server sends, in terms of contents.
#[verifier::ext_equal]
pub enum ServerView {
    Result { id: IdView, result: Json },
    Error { id: IdView, error: ErrorView },
    StreamEnd { id: IdView },
}

impl View for ServerMessage {
    type V = ServerView;

    open spec fn view(&self) -> ServerView {
        match *self {
            ServerMessage::Result { id, result } => ServerView::Result {
                id: id@,
                result: model(result),
            },
            ServerMessage::Error { id, error } => ServerView::Error { id: id@, error: error@ },
            ServerMessage::StreamEnd { id } => ServerView::StreamEnd { id: id@ },
        }
    }
}

/// What a server may read.
#[derive(Debug, PartialEq)]
pub enum ServerInbound {
    Control(ControlFrame),
    Message(ClientMessage),
}

/// What a server may read, in terms of contents.
#[verifier::ext_equal]
pub enum ServerInboundView {
    Control(ControlView),
    Message(ClientView),
}

impl View for ServerInbound {
    type V = ServerInboundView;

    open spec fn view(&self) -> ServerInboundView {
        match *self {
            ServerInbound::Control(c) => ServerInboundView::Control(c@),
            ServerInbound::Message(m) => ServerInboundView::Message(m@),
        }
    }
}

/// What a client may read.
#[derive(Debug, PartialEq)]
pub enum ClientInbound {
    Control(ControlFrame),
    Message(ServerMessage),
}

/// What a client may read, in terms of contents.
#[verifier::ext_equal]
pub enum ClientInboundView {
    Control(ControlView),
    Message(ServerView),
}

impl View for ClientInbound {
    type V = ClientInboundView;

    open spec fn view(&self) -> ClientInboundView {
        match *self {
            ClientInbound::Control(c) => ClientInboundView::Control(c@),
            ClientInbound::Message(m) => ClientInboundView::Message(m@),
        }
    }
}

// ---------------------------------------------------------------------------
// Writing.
// ---------------------------------------------------------------------------

/// The members that every message has.
pub open spec fn base_json(id: IdView) -> Map<Seq<char>, Json> {
    Map::<Seq<char>, Json>::empty().insert("jsonrpc"@, Json::Text(JSONRPC_VERSION@)).insert(
        "id"@,
        id_json(id),
    )
}

/// The JSON form of a request: what is absent is left out.
pub open spec fn request_json(r: RequestView) -> Map<Seq<char>, Json> {
    let m0 = Map::<Seq<char>, Json>::empty().insert("jsonrpc"@, Json::Text(r.jsonrpc)).insert(
        "id"@,
        id_json(r.id),
    ).insert("method"@, Json::Text(r.method));
    let m1 = match r.params {
        Some(p) => m0.insert("params"@, p),
        None => m0,
    };
    match r.service_params {
        Some(p) => m1.insert("serviceParams"@, flat_json(p)),
        None => m1,
    }
}

/// The JSON form of what a client sends.
pub open spec fn client_json(m: ClientView) -> Json {
    match m {
        ClientView::Request(r) => Json::Object(request_json(r)),
        ClientView::CancelStream { id } => Json::Object(
            base_json(id).insert("cancelStream"@, Json::Bool(true)),
        ),
    }
}

/// The JSON form of what a server sends.
pub open spec fn server_json(m: ServerView) -> Json {
    match m {
        ServerView::Result { id, result } => Json::Object(base_json(id).insert("result"@, result)),
        ServerView::Error { id, error } => Json::Object(
            base_json(id).insert("error"@, error_json(error)),
        ),
        ServerView::StreamEnd { id } => Json::Object(
            base_json(id).insert("streamEnd"@, Json::Bool(true)),
        ),
    }
}

fn base_entries(id: &JsonRpcId) -> (r: Vec<(String, JsonValue)>)
    ensures
        object(r@) == base_json(id@),
{
    let mut out: Vec<(String, JsonValue)> = Vec::new();
    assert(object(out@) =~= Map::<Seq<char>, Json>::empty());
    set_member(&mut out, "jsonrpc".to_owned(), JsonValue::Text(JSONRPC_VERSION.to_owned()));
    set_member(&mut out, "id".to_owned(), id.to_value());
    out
}

/// The contents of the bytes, or of the error, that writing gives.
pub open spec fn bytes_result(r: Result<Vec<u8>, String>) -> Result<Seq<u8>, Seq<char>> {
    match r {
        Ok(b) => Ok(b@),
        Err(e) => Err(e@),
    }
}

/// Whether a message a client sends can be told from its JSON form: it has the
/// version of this protocol, and no parameters that are null, which read as
/// absent.
pub open spec fn client_whole(m: ClientView) -> bool {
    m matches ClientView::Request(r) ==> r.jsonrpc == JSONRPC_VERSION@ && !(r.params matches Some(
        Json::Null,
    ))
}

/// Whether a message a server sends can be told from its JSON form: it has no
/// error with data that is null, which reads as absent.
pub open spec fn server_whole(m: ServerView) -> bool {
    m matches ServerView::Error { id, error } ==> !(error.data matches Some(Json::Null))
}

/// Whether a server reads a body as this message, as far as the message can be told
/// from it: its JSON form holds no numbers but integers and is not nested too
/// deeply.
pub open spec fn server_reads(body: Seq<u8>, m: ClientView) -> bool {
    client_whole(m) && plain_json(client_json(m), depth_limit()) ==> from_client(body) == Ok::<
        ServerInboundView,
        WireFault,
    >(ServerInboundView::Message(m))
}

/// Whether a client reads a body as this message, as far as the message can be told
/// from it.
pub open spec fn client_reads(body: Seq<u8>, m: ServerView) -> bool {
    server_whole(m) && plain_json(server_json(m), depth_limit()) ==> from_server(body) == Ok::<
        ClientInboundView,
        WireFault,
    >(ClientInboundView::Message(m))
}

impl ClientMessage {
    /// The JSON form of this message.
    pub fn to_value(&self) -> (r: JsonValue)
        ensures
            model(r) == client_json(self@),
    {
        match self {
            ClientMessage::Request(req) => {
                let mut out: Vec<(String, JsonValue)> = Vec::new();
                assert(object(out@) =~= Map::<Seq<char>, Json>::empty());
                set_member(&mut out, "jsonrpc".to_owned(), JsonValue::Text(req.jsonrpc.clone()));
                set_member(&mut out, "id".to_owned(), req.id.to_value());
                set_member(&mut out, "method".to_owned(), JsonValue::Text(req.method.clone()));
                if let Some(p) = &req.params {
                    set_member(&mut out, "params".to_owned(), copy_value(p));
                }
                if let Some(p) = &req.service_params {
                    set_member(&mut out, "serviceParams".to_owned(), flat_to_value(p));
                }
                JsonValue::Object(out)
            },
            ClientMessage::CancelStream { id } => {
                let mut out = base_entries(id);
                set_member(&mut out, "cancelStream".to_owned(), JsonValue::Bool(true));
                JsonValue::Object(out)
            },
        }
    }

    /// This message as JSON text, which reads as this message.
    pub fn to_vec(&self) -> (r: Result<Vec<u8>, String>)
        ensures
            r is Ok,
            bytes_result(r) == json_written(client_json(self@)),
            server_reads(r->Ok_0@, self@),
    {
        proof {
            if client_whole(self@) {
                law_client_message_reads_back(self@);
            }
        }
        write_json(&self.to_value())
    }
}

impl ServerMessage {
    /// The JSON form of this message.
    pub fn to_value(&self) -> (r: JsonValue)
        ensures
            model(r) == server_json(self@),
    {
        match self {
            ServerMessage::Result { id, result } => {
                let mut out = base_entries(id);
                set_member(&mut out, "result".to_owned(), copy_value(result));
                JsonValue::Object(out)
            },
            ServerMessage::Error { id, error } => {
                let mut out = base_entries(id);
                set_member(&mut out, "error".to_owned(), error.to_value());
                JsonValue::Object(out)
            },
            ServerMessage::StreamEnd { id } => {
                let mut out = base_entries(id);
                set_member(&mut out, "streamEnd".to_owned(), JsonValue::Bool(true));
                JsonValue::Object(out)
            },
        }
    }

    /// This message as JSON text, which reads as this message.
    pub fn to_vec(&self) -> (r: Result<Vec<u8>, String>)
        ensures
            r is Ok,
            bytes_result(r) == json_written(server_json(self@)),
            client_reads(r->Ok_0@, self@),
    {
        proof {
            if server_whole(self@) {
                law_server_message_reads_back(self@);
            }
        }
        write_json(&self.to_value())
    }
}

// ---------------------------------------------------------------------------
// Reading: members.
// ---------------------------------------------------------------------------

/// A member that is a string.
pub open spec fn text_member(j: Json, k: Seq<char>) -> Option<Seq<char>> {
    match member(j, k) {
        Some(Json::Text(s)) => Some(s),
        _ => None,
    }
}

/// A member that is an identifier.
pub open spec fn id_member(j: Json, k: Seq<char>) -> Option<IdView> {
    match member(j, k) {
        Some(v) => id_read(v),
        None => None,
    }
}

/// A member that says yes.
pub open spec fn flag_set(j: Json, k: Seq<char>) -> bool {
    member(j, k) == Some(Json::Bool(true))
}

/// The member `key`, if it is a string.
pub fn get_text(v: &JsonValue, key: &str) -> (r: Option<String>)
    ensures
        opt_text(r) == text_member(model(*v), key@),
{
    match v.get(key) {
        Some(x) => match x.as_str() {
            Some(s) => Some(s.to_owned()),
            None => None,
        },
        None => None,
    }
}

/// The member `key`, if it is an identifier.
pub fn get_id(v: &JsonValue, key: &str) -> (r: Option<JsonRpcId>)
    ensures
        opt_id(r) == id_member(model(*v), key@),
{
    match v.get(key) {
        Some(x) => JsonRpcId::from_value(x),
        None => None,
    }
}

/// Whether the member `key` says yes.
fn flag(v: &JsonValue, key: &str) -> (r: bool)
    ensures
        r == flag_set(model(*v), key@),
{
    match v.get(key) {
        Some(x) => match x.as_bool() {
            Some(b) => b,
            None => false,
        },
        None => false,
    }
}

/// The variant that a value names, if it does: by its token, or by an object
/// whose only member is the token, with nothing in it.
pub open spec fn variant_read(j: Json) -> Option<Variant> {
    match j {
        Json::Text(t) => variant_of(t),
        Json::Object(m) => if m == sole(variant_token(Variant::Json), Json::Null) || m == sole(
            variant_token(Variant::Json),
            Json::Object(Map::empty()),
        ) {
            Some(Variant::Json)
        } else if m == sole(variant_token(Variant::Proto), Json::Null) || m == sole(
            variant_token(Variant::Proto),
            Json::Object(Map::empty()),
        ) {
            Some(Variant::Proto)
        } else {
            None
        },
        _ => None,
    }
}

/// The variant with a token.
pub open spec fn variant_of(t: Seq<char>) -> Option<Variant> {
    if t == variant_token(Variant::Json) {
        Some(Variant::Json)
    } else if t == variant_token(Variant::Proto) {
        Some(Variant::Proto)
    } else {
        None
    }
}

/// An object with one member.
pub open spec fn sole(k: Seq<char>, v: Json) -> Map<Seq<char>, Json> {
    Map::<Seq<char>, Json>::empty().insert(k, v)
}

fn is_sole_empty(e: &Vec<(String, JsonValue)>, token: &str) -> (r: bool)
    ensures
        r == (object(e@) == sole(token@, Json::Null) || object(e@) == sole(
            token@,
            Json::Object(Map::empty()),
        )),
{
    let ghost m = object(e@);
    let mut i: usize = 0;
    while i < e.len()
        invariant
            i <= e.len(),
            m == object(e@),
            forall|j: int| 0 <= j < i ==> (#[trigger] e@[j]).0@ == token@,
        decreases e.len() - i,
    {
        if !same_text(e[i].0.as_str(), token) {
            proof {
                lemma_members_has(e@, e@.len() as int, e@[i as int].0@);
                assert(m.contains_key(e@[i as int].0@));
            }
            return false;
        }
        i = i + 1;
    }
    proof {
        assert forall|k: Seq<char>| m.contains_key(k) implies k == token@ by {
            lemma_members_has(e@, e@.len() as int, k);
            let j = choose|j: int| 0 <= j < e@.len() && #[trigger] e@[j].0@ == k;
            assert(e@[j].0@ == token@);
        }
    }
    match entry(e, token) {
        Some(v) => {
            assert(m =~= sole(token@, model(*v)));
            let r = match v {
                JsonValue::Null => true,
                JsonValue::Object(inner) => {
                    if inner.len() == 0 {
                        assert(object(inner@) =~= Map::<Seq<char>, Json>::empty());
                        true
                    } else {
                        proof {
                            lemma_members_has(inner@, inner@.len() as int, inner@[0].0@);
                            assert(object(inner@).contains_key(inner@[0].0@));
                        }
                        false
                    }
                },
                _ => false,
            };
            proof {
                assert(sole(token@, Json::Null)[token@] is Null);
                assert(sole(token@, Json::Object(Map::empty()))[token@] == Json::Object(
                    Map::<Seq<char>, Json>::empty(),
                ));
            }
            r
        },
        None => {
            assert(sole(token@, Json::Null).contains_key(token@));
            assert(sole(token@, Json::Object(Map::empty())).contains_key(token@));
            false
        },
    }
}

fn variant_from_value(v: &JsonValue) -> (r: Option<Variant>)
    ensures
        r == variant_read(model(*v)),
{
    match v {
        JsonValue::Text(t) => if same_text(t.as_str(), Variant::Json.as_str()) {
            Some(Variant::Json)
        } else if same_text(t.as_str(), Variant::Proto.as_str()) {
            Some(Variant::Proto)
        } else {
            None
        },
        JsonValue::Object(e) => if is_sole_empty(e, Variant::Json.as_str()) {
            Some(Variant::Json)
        } else if is_sole_empty(e, Variant::Proto.as_str()) {
            Some(Variant::Proto)
        } else {
            None
        },
        _ => None,
    }
}

/// The list of variants that a value names, if it does.
pub open spec fn variants_read(j: Json) -> Option<Seq<Variant>> {
    match j {
        Json::Array(s) => if forall|i: int|
            0 <= i < s.len() ==> variant_read(#[trigger] s[i]) is Some {
            Some(Seq::new(s.len(), |i: int| variant_read(s[i])->0))
        } else {
            None
        },
        _ => None,
    }
}

fn variants_from_value(v: &JsonValue) -> (r: Option<Vec<Variant>>)
    ensures
        match r {
            Some(vs) => variants_read(model(*v)) == Some(vs@),
            None => variants_read(model(*v)) is None,
        },
{
    let a = match v {
        JsonValue::Array(a) => a,
        _ => {
            return None;
        },
    };
    proof {
        lemma_array_model(*a);
    }
    let ghost s = items(a@);
    let mut out: Vec<Variant> = Vec::new();
    let mut i: usize = 0;
    while i < a.len()
        invariant
            i <= a.len(),
            out.len() == i,
            s == items(a@),
            model(*v) == Json::Array(s),
            forall|j: int| 0 <= j < i ==> variant_read(#[trigger] s[j]) == Some(out@[j]),
        decreases a.len() - i,
    {
        match variant_from_value(&a[i]) {
            Some(x) => {
                out.push(x);
            },
            None => {
                assert(variant_read(s[i as int]) is None);
                return None;
            },
        }
        i = i + 1;
    }
    assert(out@ =~= variants_read(model(*v))->0);
    Some(out)
}

// ---------------------------------------------------------------------------
// Control frames.
// ---------------------------------------------------------------------------

/// A list of strings that may be absent.
pub open spec fn features_read(j: Json) -> Option<Seq<Seq<char>>> {
    match member(j, "features"@) {
        None => Some(Seq::empty()),
        Some(v) => texts_read(v),
    }
}

/// A process number that may be absent or null. The outer `None` says that the
/// member is something else.
pub open spec fn pid_read(j: Json) -> Option<Option<u32>> {
    match present(j, "pid"@) {
        None => Some(None),
        Some(Json::Num(NumberModel::Int(n))) => if 0 <= n <= u32::MAX {
            Some(Some(n as u32))
        } else {
            None
        },
        Some(_) => None,
    }
}

/// The handshake that a JSON object is, if it is one.
pub open spec fn handshake_read(j: Json) -> Option<HandshakeView> {
    let variants = match member(j, "supportedVariants"@) {
        Some(v) => variants_read(v),
        None => None,
    };
    match (
        text_member(j, "protocol"@),
        text_member(j, "protocolVersion"@),
        text_member(j, "sessionId"@),
        variants,
        features_read(j),
        pid_read(j),
    ) {
        (
            Some(protocol),
            Some(protocol_version),
            Some(session_id),
            Some(supported_variants),
            Some(features),
            Some(pid),
        ) => Some(
            HandshakeView {
                protocol,
                protocol_version,
                session_id,
                supported_variants,
                features,
                pid,
            },
        ),
        _ => None,
    }
}

/// The answer to a handshake that a JSON object is, if it is one.
pub open spec fn ack_read(j: Json) -> Option<AckView> {
    let variant = match member(j, "selectVariant"@) {
        Some(v) => variant_read(v),
        None => None,
    };
    match (text_member(j, "sessionId"@), variant, member(j, "accept"@)) {
        (Some(session_id), Some(select_variant), Some(Json::Bool(accept))) => Some(
            AckView { session_id, select_variant, accept },
        ),
        _ => None,
    }
}

/// The control frame that a JSON object is, if it is one. Its `type` says which.
pub open spec fn control_read(j: Json) -> Option<ControlView> {
    match text_member(j, "type"@) {
        None => None,
        Some(t) => if t == "handshake"@ {
            match handshake_read(j) {
                Some(h) => Some(ControlView::Handshake(h)),
                None => None,
            }
        } else if t == "handshakeAck"@ {
            match ack_read(j) {
                Some(a) => Some(ControlView::HandshakeAck(a)),
                None => None,
            }
        } else if t == "heartbeat"@ {
            match (text_member(j, "sessionId"@), member(j, "ts"@)) {
                (Some(s), Some(Json::Num(NumberModel::Int(n)))) => if 0 <= n <= u64::MAX {
                    Some(ControlView::Heartbeat(s, n as u64))
                } else {
                    None
                },
                _ => None,
            }
        } else {
            None
        },
    }
}

/// The contents of an optional control frame.
pub open spec fn opt_control(o: Option<ControlFrame>) -> Option<ControlView> {
    match o {
        Some(c) => Some(c@),
        None => None,
    }
}

fn handshake_from_value(v: &JsonValue) -> (r: Option<Handshake>)
    ensures
        match r {
            Some(h) => handshake_read(model(*v)) == Some(h@),
            None => handshake_read(model(*v)) is None,
        },
{
    let protocol = match get_text(v, "protocol") {
        Some(s) => s,
        None => {
            return None;
        },
    };
    let protocol_version = match get_text(v, "protocolVersion") {
        Some(s) => s,
        None => {
            return None;
        },
    };
    let session_id = match get_text(v, "sessionId") {
        Some(s) => s,
        None => {
            return None;
        },
    };
    let supported_variants = match v.get("supportedVariants") {
        Some(x) => match variants_from_value(x) {
            Some(vs) => vs,
            None => {
                return None;
            },
        },
        None => {
            return None;
        },
    };
    let features = match v.get("features") {
        Some(x) => match texts_from_value(x) {
            Some(f) => f,
            None => {
                return None;
            },
        },
        None => {
            let f: Vec<String> = Vec::new();
            assert(texts(f@) =~= Seq::<Seq<char>>::empty());
            f
        },
    };
    let pid = match present_member(v, "pid") {
        Some(x) => match x.as_u64() {
            Some(n) => if n <= u32::MAX as u64 {
                Some(n as u32)
            } else {
                return None;
            },
            None => {
                return None;
            },
        },
        None => None,
    };
    Some(
        Handshake { protocol, protocol_version, session_id, supported_variants, features, pid },
    )
}

fn ack_from_value(v: &JsonValue) -> (r: Option<HandshakeAck>)
    ensures
        match r {
            Some(a) => ack_read(model(*v)) == Some(a@),
            None => ack_read(model(*v)) is None,
        },
{
    let session_id = match get_text(v, "sessionId") {
        Some(s) => s,
        None => {
            return None;
        },
    };
    let select_variant = match v.get("selectVariant") {
        Some(x) => match variant_from_value(x) {
            Some(w) => w,
            None => {
                return None;
            },
        },
        None => {
            return None;
        },
    };
    let accept = match v.get("accept") {
        Some(x) => match x.as_bool() {
            Some(b) => b,
            None => {
                return None;
            },
        },
        None => {
            return None;
        },
    };
    Some(HandshakeAck { session_id, select_variant, accept })
}

impl ControlFrame {
    /// The control frame that `v` is, if it is one.
    pub fn from_value(v: &JsonValue) -> (r: Option<ControlFrame>)
        ensures
            opt_control(r) == control_read(model(*v)),
    {
        let kind = match get_text(v, "type") {
            Some(t) => t,
            None => {
                return None;
            },
        };
        if same_text(kind.as_str(), "handshake") {
            match handshake_from_value(v) {
                Some(h) => Some(ControlFrame::Handshake(h)),
                None => None,
            }
        } else if same_text(kind.as_str(), "handshakeAck") {
            match ack_from_value(v) {
                Some(a) => Some(ControlFrame::HandshakeAck(a)),
                None => None,
            }
        } else if same_text(kind.as_str(), "heartbeat") {
            let session_id = match get_text(v, "sessionId") {
                Some(s) => s,
                None => {
                    return None;
                },
            };
            let ts: u64 = match v.get("ts") {
                Some(x) => match x.as_u64() {
                    Some(n) => n,
                    None => {
                        return None;
                    },
                },
                None => {
                    return None;
                },
            };
            Some(ControlFrame::Heartbeat(Heartbeat { session_id, ts }))
        } else {
            None
        }
    }
}

/// The JSON form of a list of variants.
pub open spec fn variants_json(s: Seq<Variant>) -> Json {
    Json::Array(Seq::new(s.len(), |i: int| Json::Text(variant_token(s[i]))))
}

/// The JSON form of a control frame: what is absent is left out.
pub open spec fn control_json(c: ControlView) -> Json {
    match c {
        ControlView::Handshake(h) => {
            let m = Map::<Seq<char>, Json>::empty().insert(
                "type"@,
                Json::Text("handshake"@),
            ).insert("protocol"@, Json::Text(h.protocol)).insert(
                "protocolVersion"@,
                Json::Text(h.protocol_version),
            ).insert("sessionId"@, Json::Text(h.session_id)).insert(
                "supportedVariants"@,
                variants_json(h.supported_variants),
            ).insert("features"@, texts_json(h.features));
            Json::Object(
                match h.pid {
                    Some(p) => m.insert("pid"@, Json::Num(NumberModel::Int(p as int))),
                    None => m,
                },
            )
        },
        ControlView::HandshakeAck(a) => Json::Object(
            Map::<Seq<char>, Json>::empty().insert("type"@, Json::Text("handshakeAck"@)).insert(
                "sessionId"@,
                Json::Text(a.session_id),
            ).insert("selectVariant"@, Json::Text(variant_token(a.select_variant))).insert(
                "accept"@,
                Json::Bool(a.accept),
            ),
        ),
        ControlView::Heartbeat(s, ts) => Json::Object(
            Map::<Seq<char>, Json>::empty().insert("type"@, Json::Text("heartbeat"@)).insert(
                "sessionId"@,
                Json::Text(s),
            ).insert("ts"@, Json::Num(NumberModel::Int(ts as int))),
        ),
    }
}

fn variants_to_value(s: &Vec<Variant>) -> (r: JsonValue)
    ensures
        model(r) == variants_json(s@),
{
    let mut out: Vec<JsonValue> = Vec::new();
    let mut i: usize = 0;
    while i < s.len()
        invariant
            i <= s.len(),
            out.len() == i,
            forall|j: int|
                0 <= j < i ==> model(#[trigger] out@[j]) == Json::Text(variant_token(s@[j])),
        decreases s.len() - i,
    {
        out.push(JsonValue::Text(s[i].as_str().to_owned()));
        i = i + 1;
    }
    proof {
        lemma_array_model(out);
        assert(items(out@) =~= variants_json(s@)->Array_0);
    }
    JsonValue::Array(out)
}

impl ControlFrame {
    /// The JSON form of this frame.
    pub fn to_value(&self) -> (r: JsonValue)
        ensures
            model(r) == control_json(self@),
    {
        let mut out: Vec<(String, JsonValue)> = Vec::new();
        assert(object(out@) =~= Map::<Seq<char>, Json>::empty());
        match self {
            ControlFrame::Handshake(h) => {
                set_member(&mut out, "type".to_owned(), JsonValue::Text("handshake".to_owned()));
                set_member(&mut out, "protocol".to_owned(), JsonValue::Text(h.protocol.clone()));
                set_member(
                    &mut out,
                    "protocolVersion".to_owned(),
                    JsonValue::Text(h.protocol_version.clone()),
                );
                set_member(&mut out, "sessionId".to_owned(), JsonValue::Text(h.session_id.clone()));
                set_member(
                    &mut out,
                    "supportedVariants".to_owned(),
                    variants_to_value(&h.supported_variants),
                );
                set_member(&mut out, "features".to_owned(), texts_to_value(&h.features));
                if let Some(pid) = h.pid {
                    set_member(&mut out, "pid".to_owned(), JsonValue::Num(JsonNum::Int(pid as i64)));
                }
            },
            ControlFrame::HandshakeAck(a) => {
                set_member(&mut out, "type".to_owned(), JsonValue::Text("handshakeAck".to_owned()));
                set_member(&mut out, "sessionId".to_owned(), JsonValue::Text(a.session_id.clone()));
                set_member(
                    &mut out,
                    "selectVariant".to_owned(),
                    JsonValue::Text(a.select_variant.as_str().to_owned()),
                );
                set_member(&mut out, "accept".to_owned(), JsonValue::Bool(a.accept));
            },
            ControlFrame::Heartbeat(b) => {
                set_member(&mut out, "type".to_owned(), JsonValue::Text("heartbeat".to_owned()));
                set_member(&mut out, "sessionId".to_owned(), JsonValue::Text(b.session_id.clone()));
                set_member(&mut out, "ts".to_owned(), u64_value(b.ts));
            },
        }
        JsonValue::Object(out)
    }

    /// This frame as JSON text, which reads as this frame on either side.
    pub fn to_vec(&self) -> (r: Result<Vec<u8>, String>)
        ensures
            r is Ok,
            bytes_result(r) == json_written(control_json(self@)),
            from_client(r->Ok_0@) == Ok::<ServerInboundView, WireFault>(
                ServerInboundView::Control(self@),
            ),
            from_server(r->Ok_0@) == Ok::<ClientInboundView, WireFault>(
                ClientInboundView::Control(self@),
            ),
    {
        proof {
            law_control_frame_reads_back(self@);
            lemma_control_frames_are_shallow(self@);
        }
        write_json(&self.to_value())
    }
}

// ---------------------------------------------------------------------------
// Reading: messages.
// ---------------------------------------------------------------------------

/// Service parameters that may be absent or null. The outer `None` says that
/// the member is something else.
pub open spec fn service_params_read(j: Json) -> Option<Option<Map<Seq<char>, Seq<char>>>> {
    match present(j, "serviceParams"@) {
        None => Some(None),
        Some(v) => match flat_read(v) {
            Some(m) => Some(Some(m)),
            None => None,
        },
    }
}

/// The request that a JSON object is, if it is one.
pub open spec fn request_read(j: Json) -> Option<RequestView> {
    match (
        text_member(j, "jsonrpc"@),
        id_member(j, "id"@),
        text_member(j, "method"@),
        service_params_read(j),
    ) {
        (Some(jsonrpc), Some(id), Some(method), Some(service_params)) => Some(
            RequestView { jsonrpc, id, method, params: present(j, "params"@), service_params },
        ),
        _ => None,
    }
}

/// The version that a message claims: nothing where it claims none.
pub open spec fn version_claimed(j: Json) -> Seq<char> {
    match text_member(j, "jsonrpc"@) {
        Some(s) => s,
        None => Seq::empty(),
    }
}

/// What is wrong with a message before its kind is looked at.
pub open spec fn version_fault(j: Json) -> Option<WireFault> {
    if text_member(j, "jsonrpc"@) == Some(JSONRPC_VERSION@) {
        None
    } else {
        Some(WireFault::BadVersion(version_claimed(j)))
    }
}

/// The fault of a body whose members are not those of its kind.
pub open spec fn shape_fault() -> WireFault {
    WireFault::Json(SHAPE_ERROR@)
}

/// What a server reads in a body. Control frames have no version, so they are
/// told apart first.
pub open spec fn read_from_client(j: Json) -> Result<ServerInboundView, WireFault> {
    if !(j is Object) {
        Err(WireFault::NotAnObject)
    } else if member(j, "type"@) is Some {
        match control_read(j) {
            Some(c) => Ok(ServerInboundView::Control(c)),
            None => Err(shape_fault()),
        }
    } else if version_fault(j) is Some {
        Err(version_fault(j)->0)
    } else if member(j, "method"@) is Some {
        match request_read(j) {
            Some(r) => Ok(ServerInboundView::Message(ClientView::Request(r))),
            None => Err(shape_fault()),
        }
    } else if flag_set(j, "cancelStream"@) {
        match id_member(j, "id"@) {
            Some(id) => Ok(ServerInboundView::Message(ClientView::CancelStream { id })),
            None => Err(shape_fault()),
        }
    } else {
        Err(WireFault::UnrecognizedMessage)
    }
}

/// What a client reads in a body. A stream's end comes before an error, and that
/// before a result: a peer that sends more than one of them is read the careful
/// way.
pub open spec fn read_from_server(j: Json) -> Result<ClientInboundView, WireFault> {
    if !(j is Object) {
        Err(WireFault::NotAnObject)
    } else if member(j, "type"@) is Some {
        match control_read(j) {
            Some(c) => Ok(ClientInboundView::Control(c)),
            None => Err(shape_fault()),
        }
    } else if version_fault(j) is Some {
        Err(version_fault(j)->0)
    } else if flag_set(j, "streamEnd"@) {
        match id_member(j, "id"@) {
            Some(id) => Ok(ClientInboundView::Message(ServerView::StreamEnd { id })),
            None => Err(shape_fault()),
        }
    } else if member(j, "error"@) is Some {
        match (id_member(j, "id"@), error_read(member(j, "error"@)->0)) {
            (Some(id), Some(error)) => Ok(
                ClientInboundView::Message(ServerView::Error { id, error }),
            ),
            _ => Err(shape_fault()),
        }
    } else if member(j, "result"@) is Some {
        match id_member(j, "id"@) {
            Some(id) => Ok(
                ClientInboundView::Message(
                    ServerView::Result { id, result: member(j, "result"@)->0 },
                ),
            ),
            None => Err(shape_fault()),
        }
    } else {
        Err(WireFault::UnrecognizedMessage)
    }
}

/// The identifier of a body, as far as it can be made out.
pub open spec fn peeked_id(r: Result<Json, Seq<char>>) -> IdView {
    match r {
        Err(_) => IdView::Null,
        Ok(j) => match id_member(j, "id"@) {
            Some(id) => id,
            None => IdView::Null,
        },
    }
}

/// The contents of what reading for a server gives.
pub open spec fn server_inbound(
    r: Result<ServerInbound, WireError>,
) -> Result<ServerInboundView, WireFault> {
    match r {
        Ok(m) => Ok(m@),
        Err(e) => Err(e@),
    }
}

/// The contents of what reading for a client gives.
pub open spec fn client_inbound(
    r: Result<ClientInbound, WireError>,
) -> Result<ClientInboundView, WireFault> {
    match r {
        Ok(m) => Ok(m@),
        Err(e) => Err(e@),
    }
}

fn shape_error() -> (r: WireError)
    ensures
        r@ == shape_fault(),
{
    WireError::Json(SHAPE_ERROR.to_owned())
}

fn require_jsonrpc_2(v: &JsonValue) -> (r: Result<(), WireError>)
    ensures
        match r {
            Ok(_) => version_fault(model(*v)) is None,
            Err(e) => version_fault(model(*v)) == Some(e@),
        },
{
    match get_text(v, "jsonrpc") {
        Some(s) => if same_text(s.as_str(), JSONRPC_VERSION) {
            Ok(())
        } else {
            Err(WireError::BadVersion(s))
        },
        None => Err(WireError::BadVersion(String::new())),
    }
}

fn request_from_value(v: &JsonValue) -> (r: Option<StdioRequest>)
    ensures
        match r {
            Some(q) => request_read(model(*v)) == Some(q@),
            None => request_read(model(*v)) is None,
        },
{
    let jsonrpc = match get_text(v, "jsonrpc") {
        Some(s) => s,
        None => {
            return None;
        },
    };
    let id = match get_id(v, "id") {
        Some(i) => i,
        None => {
            return None;
        },
    };
    let method = match get_text(v, "method") {
        Some(s) => s,
        None => {
            return None;
        },
    };
    let params = match present_member(v, "params") {
        Some(p) => Some(copy_value(p)),
        None => None,
    };
    let service_params = match present_member(v, "serviceParams") {
        Some(p) => match flat_from_value(p) {
            Some(m) => Some(m),
            None => {
                return None;
            },
        },
        None => None,
    };
    Some(StdioRequest { jsonrpc, id, method, params, service_params })
}

/// Tells apart what a client sent, once it is JSON.
pub fn classify_from_client(v: &JsonValue) -> (r: Result<ServerInbound, WireError>)
    ensures
        server_inbound(r) == read_from_client(model(*v)),
{
    match v {
        JsonValue::Object(_) => {},
        _ => {
            return Err(WireError::NotAnObject);
        },
    }
    if v.get("type").is_some() {
        return match ControlFrame::from_value(v) {
            Some(c) => Ok(ServerInbound::Control(c)),
            None => Err(shape_error()),
        };
    }
    match require_jsonrpc_2(v) {
        Ok(_) => {},
        Err(e) => {
            return Err(e);
        },
    }
    if v.get("method").is_some() {
        return match request_from_value(v) {
            Some(q) => Ok(ServerInbound::Message(ClientMessage::Request(q))),
            None => Err(shape_error()),
        };
    }
    if flag(v, "cancelStream") {
        return match get_id(v, "id") {
            Some(id) => Ok(ServerInbound::Message(ClientMessage::CancelStream { id })),
            None => Err(shape_error()),
        };
    }
    Err(WireError::UnrecognizedMessage)
}

/// Tells apart what a server sent, once it is JSON.
pub fn classify_from_server(v: &JsonValue) -> (r: Result<ClientInbound, WireError>)
    ensures
        client_inbound(r) == read_from_server(model(*v)),
{
    match v {
        JsonValue::Object(_) => {},
        _ => {
            return Err(WireError::NotAnObject);
        },
    }
    if v.get("type").is_some() {
        return match ControlFrame::from_value(v) {
            Some(c) => Ok(ClientInbound::Control(c)),
            None => Err(shape_error()),
        };
    }
    match require_jsonrpc_2(v) {
        Ok(_) => {},
        Err(e) => {
            return Err(e);
        },
    }
    if flag(v, "streamEnd") {
        return match get_id(v, "id") {
            Some(id) => Ok(ClientInbound::Message(ServerMessage::StreamEnd { id })),
            None => Err(shape_error()),
        };
    }
    if let Some(e) = v.get("error") {
        let id = match get_id(v, "id") {
            Some(id) => id,
            None => {
                return Err(shape_error());
            },
        };
        return match JsonRpcError::from_value(e) {
            Some(error) => Ok(ClientInbound::Message(ServerMessage::Error { id, error })),
            None => Err(shape_error()),
        };
    }
    if let Some(x) = v.get("result") {
        let result = copy_value(x);
        return match get_id(v, "id") {
            Some(id) => Ok(ClientInbound::Message(ServerMessage::Result { id, result })),
            None => Err(shape_error()),
        };
    }
    Err(WireError::UnrecognizedMessage)
}

/// What a frame's body that a client sent holds.
pub open spec fn from_client(body: Seq<u8>) -> Result<ServerInboundView, WireFault> {
    match json_read(body) {
        Err(e) => Err(WireFault::Json(e)),
        Ok(j) => read_from_client(j),
    }
}

/// What a frame's body that a server sent holds.
pub open spec fn from_server(body: Seq<u8>) -> Result<ClientInboundView, WireFault> {
    match json_read(body) {
        Err(e) => Err(WireFault::Json(e)),
        Ok(j) => read_from_server(j),
    }
}

/// Tells apart a frame's body that a client sent, which is what a server reads.
pub fn parse_from_client(body: &[u8]) -> (r: Result<ServerInbound, WireError>)
    ensures
        server_inbound(r) == from_client(body@),
{
    match read_json(body) {
        Err(e) => Err(WireError::Json(e)),
        Ok(v) => classify_from_client(&v),
    }
}

/// Tells apart a frame's body that a server sent, which is what a client reads.
pub fn parse_from_server(body: &[u8]) -> (r: Result<ClientInbound, WireError>)
    ensures
        client_inbound(r) == from_server(body@),
{
    match read_json(body) {
        Err(e) => Err(WireError::Json(e)),
        Ok(v) => classify_from_server(&v),
    }
}

/// The identifier of a body whose shape was refused, as far as it can be made
/// out. Null stands for one that could not be.
pub fn peek_id(body: &[u8]) -> (r: JsonRpcId)
    ensures
        r@ == peeked_id(json_read(body@)),
{
    match read_json(body) {
        Err(_) => JsonRpcId::Null,
        Ok(v) => match get_id(&v, "id") {
            Some(id) => id,
            None => JsonRpcId::Null,
        },
    }
}

} // verus!
