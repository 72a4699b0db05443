//! The envelopes of the WebSocket binding: one for each text frame.
//!
//! They are JSON-RPC objects with the extra members `serviceParams`,
//! `cancelStream`, `streamEnd`, `control`, `reason` and `retryAfterMs`. A frame is
//! read as a JSON value first, so what is no JSON is refused wherever it stands.
//! Unknown members are ignored, and of a member that is repeated the last counts.
use crate::json_value::{
    depth_limit, plain_json, json_read, json_written, model, object, read_json, set_member,
    write_json, Json, JsonValue, NumberModel,
};
use crate::params::{lemma_lists_insert, lists, one_text, ServiceParams};
use crate::protocol::{
    copy_opt, error_json, flat, flat_json, flat_to_value, id_json, law_error_reads_back,
    law_flat_reads_back, law_id_reads_back, lemma_flat_insert, opt_error, opt_flat, opt_id,
    opt_model, ErrorView, IdView, JsonRpcError, JsonRpcId,
};
use crate::record::{
    field, get_opt_bool, get_opt_error, get_opt_flat, get_opt_id, get_opt_text, get_opt_u64,
    get_opt_value, get_text_or, given, is_record, opt_bool_field, opt_error_field, opt_flat_field,
    opt_id_field, opt_text_field, opt_u64_field, put, put_member, record_like, text_or, u64_value,
};
use crate::stdio::json::{bytes_result, SHAPE_ERROR};
use crate::text::{join, join_texts, lower_text, lowered, opt_text};
use crate::text_map::{
    distinct_keys, has_key, lemma_map_of_keys, lemma_map_of_value, map_of, TextMap,
};
use vstd::prelude::*;

verus! {

/// The name of this binding in an agent's interfaces.
pub const TRANSPORT_PROTOCOL_WEBSOCKET: &'static str = "WEBSOCKET";

/// The sub-protocol that both sides must speak.
pub const SUBPROTOCOL: &'static str = "a2a.v1";

/// The version that every frame carries.
pub const JSONRPC_VERSION: &'static str = "2.0";

/// How long a message may be where nothing else is said: one mebibyte.
pub const DEFAULT_MAX_FRAME_BYTES: usize = 1048576;

/// The code of an error that this binding makes after a connection was made.
pub const SERVER_ERROR_CODE: i32 = -32000;

/// The control frame that asks for new credentials.
pub const CONTROL_REAUTH_REQUIRED: &'static str = "ReauthenticationRequired";

// ---------------------------------------------------------------------------
// Requests.
// ---------------------------------------------------------------------------

/// What a client sends. The method is absent only where a stream is cancelled.
#[derive(Debug, PartialEq)]
pub struct WsRequestEnvelope {
    pub jsonrpc: String,
    pub id: Option<JsonRpcId>,
    pub method: Option<String>,
    pub params: Option<JsonValue>,
    pub service_params: Option<TextMap<String>>,
    pub cancel_stream: Option<bool>,
}

/// A request envelope in terms of contents.
#[verifier::ext_equal]
pub struct WsRequestView {
    pub jsonrpc: Seq<char>,
    pub id: Option<IdView>,
    pub method: Option<Seq<char>>,
    pub params: Option<Json>,
    pub service_params: Option<Map<Seq<char>, Seq<char>>>,
    pub cancel_stream: Option<bool>,
}

impl View for WsRequestEnvelope {
    type V = WsRequestView;

    open spec fn view(&self) -> WsRequestView {
        WsRequestView {
            jsonrpc: self.jsonrpc@,
            id: opt_id(self.id),
            method: opt_text(self.method),
            params: opt_model(self.params),
            service_params: opt_flat(self.service_params),
            cancel_stream: self.cancel_stream,
        }
    }
}

/// A request envelope with nothing in it but its version.
pub open spec fn bare_request() -> WsRequestView {
    WsRequestView {
        jsonrpc: JSONRPC_VERSION@,
        id: None,
        method: None,
        params: None,
        service_params: None,
        cancel_stream: None,
    }
}

impl Default for WsRequestEnvelope {
    fn default() -> (r: Self)
        ensures
            r@ == bare_request(),
    {
        WsRequestEnvelope {
            jsonrpc: JSONRPC_VERSION.to_owned(),
            id: None,
            method: None,
            params: None,
            service_params: None,
            cancel_stream: None,
        }
    }
}

/// The JSON form of an optional identifier.
pub open spec fn opt_id_json(o: Option<IdView>) -> Option<Json> {
    match o {
        Some(i) => Some(id_json(i)),
        None => None,
    }
}

/// The JSON form of an optional text.
pub open spec fn opt_text_json(o: Option<Seq<char>>) -> Option<Json> {
    match o {
        Some(s) => Some(Json::Text(s)),
        None => None,
    }
}

/// The JSON form of an optional truth value.
pub open spec fn opt_bool_json(o: Option<bool>) -> Option<Json> {
    match o {
        Some(b) => Some(Json::Bool(b)),
        None => None,
    }
}

/// The JSON form of an optional map of strings.
pub open spec fn opt_flat_json(o: Option<Map<Seq<char>, Seq<char>>>) -> Option<Json> {
    match o {
        Some(m) => Some(flat_json(m)),
        None => None,
    }
}

/// The JSON form of an optional error.
pub open spec fn opt_error_json(o: Option<ErrorView>) -> Option<Json> {
    match o {
        Some(e) => Some(error_json(e)),
        None => None,
    }
}

/// The JSON form of an optional number.
pub open spec fn opt_u64_json(o: Option<u64>) -> Option<Json> {
    match o {
        Some(n) => Some(Json::Num(NumberModel::Int(n as int))),
        None => None,
    }
}

/// The JSON form of an optional identifier.
pub fn opt_id_value(o: &Option<JsonRpcId>) -> (r: Option<JsonValue>)
    ensures
        opt_model(r) == opt_id_json(opt_id(*o)),
{
    match o {
        Some(i) => Some(i.to_value()),
        None => None,
    }
}

/// The JSON form of an optional text.
pub fn opt_text_value(o: &Option<String>) -> (r: Option<JsonValue>)
    ensures
        opt_model(r) == opt_text_json(opt_text(*o)),
{
    match o {
        Some(s) => Some(JsonValue::Text(s.clone())),
        None => None,
    }
}

/// The JSON form of an optional truth value.
pub fn opt_bool_value(o: Option<bool>) -> (r: Option<JsonValue>)
    ensures
        opt_model(r) == opt_bool_json(o),
{
    match o {
        Some(b) => Some(JsonValue::Bool(b)),
        None => None,
    }
}

/// The JSON form of an optional error.
pub fn opt_error_value(o: &Option<JsonRpcError>) -> (r: Option<JsonValue>)
    ensures
        opt_model(r) == opt_error_json(opt_error(*o)),
{
    match o {
        Some(e) => Some(e.to_value()),
        None => None,
    }
}

/// The JSON form of a request envelope: what is absent is left out.
pub open spec fn ws_request_json(e: WsRequestView) -> Json {
    let a = Map::<Seq<char>, Json>::empty().insert("jsonrpc"@, Json::Text(e.jsonrpc));
    let b = put(a, "id"@, opt_id_json(e.id));
    let c = put(b, "method"@, opt_text_json(e.method));
    let d = put(c, "params"@, e.params);
    let f = put(d, "serviceParams"@, opt_flat_json(e.service_params));
    Json::Object(put(f, "cancelStream"@, opt_bool_json(e.cancel_stream)))
}

/// The request envelope that a JSON value is, if it is one.
pub open spec fn ws_request_read(j: Json) -> Option<WsRequestView> {
    if !is_record(j, 6) {
        None
    } else {
        match (
            text_or(j, 0, "jsonrpc"@, JSONRPC_VERSION@),
            opt_id_field(j, 1, "id"@),
            opt_text_field(j, 2, "method"@),
            opt_flat_field(j, 4, "serviceParams"@),
            opt_bool_field(j, 5, "cancelStream"@),
        ) {
            (Some(jsonrpc), Some(id), Some(method), Some(service_params), Some(cancel_stream)) => Some(
                WsRequestView {
                    jsonrpc,
                    id,
                    method,
                    params: given(j, 3, "params"@),
                    service_params,
                    cancel_stream,
                },
            ),
            _ => None,
        }
    }
}

/// The contents of an optional request envelope.
pub open spec fn opt_ws_request(o: Option<WsRequestEnvelope>) -> Option<WsRequestView> {
    match o {
        Some(e) => Some(e@),
        None => None,
    }
}

/// What is read in a text frame: the envelope, or what is wrong with it.
pub open spec fn ws_request_in(payload: Seq<u8>) -> Result<WsRequestView, Seq<char>> {
    match json_read(payload) {
        Err(e) => Err(e),
        Ok(j) => match ws_request_read(j) {
            Some(v) => Ok(v),
            None => Err(SHAPE_ERROR@),
        },
    }
}

/// The contents of what reading a request envelope gives.
pub open spec fn ws_request_result(r: Result<WsRequestEnvelope, String>) -> Result<
    WsRequestView,
    Seq<char>,
> {
    match r {
        Ok(e) => Ok(e@),
        Err(e) => Err(e@),
    }
}

impl WsRequestEnvelope {
    /// The JSON form of this envelope.
    pub fn to_value(&self) -> (r: JsonValue)
        ensures
            model(r) == ws_request_json(self@),
    {
        let mut out: Vec<(String, JsonValue)> = Vec::new();
        assert(object(out@) =~= Map::<Seq<char>, Json>::empty());
        set_member(&mut out, "jsonrpc".to_owned(), JsonValue::Text(self.jsonrpc.clone()));
        put_member(&mut out, "id", opt_id_value(&self.id));
        put_member(&mut out, "method", opt_text_value(&self.method));
        put_member(&mut out, "params", copy_opt(&self.params));
        let service_params = match &self.service_params {
            Some(m) => Some(flat_to_value(m)),
            None => None,
        };
        put_member(&mut out, "serviceParams", service_params);
        put_member(&mut out, "cancelStream", opt_bool_value(self.cancel_stream));
        JsonValue::Object(out)
    }

    /// The envelope that `v` is, if it is one.
    pub fn from_value(v: &JsonValue) -> (r: Option<WsRequestEnvelope>)
        ensures
            opt_ws_request(r) == ws_request_read(model(*v)),
    {
        if !record_like(v, 6) {
            return None;
        }
        match (
            get_text_or(v, 0, "jsonrpc", JSONRPC_VERSION),
            get_opt_id(v, 1, "id"),
            get_opt_text(v, 2, "method"),
            get_opt_flat(v, 4, "serviceParams"),
            get_opt_bool(v, 5, "cancelStream"),
        ) {
            (Some(jsonrpc), Some(id), Some(method), Some(service_params), Some(cancel_stream)) => Some(
                WsRequestEnvelope {
                    jsonrpc,
                    id,
                    method,
                    params: get_opt_value(v, 3, "params"),
                    service_params,
                    cancel_stream,
                },
            ),
            _ => None,
        }
    }

    /// The envelope in a text frame.
    pub fn from_slice(payload: &[u8]) -> (r: Result<WsRequestEnvelope, String>)
        ensures
            ws_request_result(r) == ws_request_in(payload@),
    {
        match read_json(payload) {
            Err(e) => Err(e),
            Ok(v) => match WsRequestEnvelope::from_value(&v) {
                Some(e) => Ok(e),
                None => Err(SHAPE_ERROR.to_owned()),
            },
        }
    }

    /// The text frame of this envelope, which reads as this envelope.
    pub fn to_vec(&self) -> (r: Result<Vec<u8>, String>)
        ensures
            r is Ok,
            bytes_result(r) == json_written(ws_request_json(self@)),
            plain_json(ws_request_json(self@), depth_limit()) ==> json_read(r->Ok_0@) == Ok::<
                Json,
                Seq<char>,
            >(ws_request_json(self@)),
            ws_request_plain(self@) ==> ws_request_in(r->Ok_0@)
                == Ok::<WsRequestView, Seq<char>>(self@),
    {
        proof {
            if ws_request_whole(self@) {
                law_request_envelopes_read_back(self@);
            }
        }
        write_json(&self.to_value())
    }
}

/// Whether an envelope can be told from its JSON form: nothing in it is null, which
/// reads as absent.
pub open spec fn ws_request_whole(e: WsRequestView) -> bool {
    &&& !(e.id matches Some(i) && i is Null)
    &&& !(e.params matches Some(p) && p is Null)
}

/// Whether an envelope can be told from its bytes: from its JSON form, which holds
/// no numbers but integers and is not nested too deeply.
pub open spec fn ws_request_plain(e: WsRequestView) -> bool {
    ws_request_whole(e) && plain_json(ws_request_json(e), depth_limit())
}

/// The JSON form of a request envelope reads as that envelope. (An identifier or
/// parameters that are null read as absent.)
pub proof fn law_request_envelopes_read_back(e: WsRequestView)
    requires
        ws_request_whole(e),
    ensures
        ws_request_read(ws_request_json(e)) == Some(e),
{
    reveal_strlit("jsonrpc");
    reveal_strlit("id");
    reveal_strlit("method");
    reveal_strlit("params");
    reveal_strlit("serviceParams");
    reveal_strlit("cancelStream");
    assert("jsonrpc"@.len() == 7 && "id"@.len() == 2 && "method"@.len() == 6);
    assert("params"@.len() == 6 && "serviceParams"@.len() == 13 && "cancelStream"@.len() == 12);
    assert("method"@[0] == 'm' && "params"@[0] == 'p');
    if let Some(i) = e.id {
        law_id_reads_back(i);
    }
    if let Some(m) = e.service_params {
        law_flat_reads_back(m);
    }
    let j = ws_request_json(e);
    assert(field(j, 0, "jsonrpc"@) == Some(Json::Text(e.jsonrpc)));
    assert(field(j, 1, "id"@) == opt_id_json(e.id));
    assert(field(j, 2, "method"@) == opt_text_json(e.method));
    assert(field(j, 3, "params"@) == e.params);
    assert(field(j, 4, "serviceParams"@) == opt_flat_json(e.service_params));
    assert(field(j, 5, "cancelStream"@) == opt_bool_json(e.cancel_stream));
}

// ---------------------------------------------------------------------------
// Responses.
// ---------------------------------------------------------------------------

/// What a server sends: a result, an error, the end of a stream, or a control
/// frame. A control frame has no identifier.
#[derive(Debug, PartialEq)]
pub struct WsResponseEnvelope {
    pub jsonrpc: String,
    pub id: Option<JsonRpcId>,
    pub result: Option<JsonValue>,
    pub error: Option<JsonRpcError>,
    pub stream_end: Option<bool>,
    pub control: Option<String>,
    pub reason: Option<String>,
    pub retry_after_ms: Option<u64>,
}

/// A response envelope in terms of contents.
#[verifier::ext_equal]
pub struct WsResponseView {
    pub jsonrpc: Seq<char>,
    pub id: Option<IdView>,
    pub result: Option<Json>,
    pub error: Option<ErrorView>,
    pub stream_end: Option<bool>,
    pub control: Option<Seq<char>>,
    pub reason: Option<Seq<char>>,
    pub retry_after_ms: Option<u64>,
}

impl View for WsResponseEnvelope {
    type V = WsResponseView;

    open spec fn view(&self) -> WsResponseView {
        WsResponseView {
            jsonrpc: self.jsonrpc@,
            id: opt_id(self.id),
            result: opt_model(self.result),
            error: opt_error(self.error),
            stream_end: self.stream_end,
            control: opt_text(self.control),
            reason: opt_text(self.reason),
            retry_after_ms: self.retry_after_ms,
        }
    }
}

/// A response envelope with nothing in it but its version.
pub open spec fn bare_response() -> WsResponseView {
    WsResponseView {
        jsonrpc: JSONRPC_VERSION@,
        id: None,
        result: None,
        error: None,
        stream_end: None,
        control: None,
        reason: None,
        retry_after_ms: None,
    }
}

/// A result.
pub open spec fn ws_result(id: IdView, value: Json) -> WsResponseView {
    WsResponseView { id: Some(id), result: Some(value), ..bare_response() }
}

/// The end of a stream.
pub open spec fn ws_stream_end(id: IdView) -> WsResponseView {
    WsResponseView { id: Some(id), stream_end: Some(true), ..bare_response() }
}

/// An error.
pub open spec fn ws_error(id: Option<IdView>, error: ErrorView) -> WsResponseView {
    WsResponseView { id, error: Some(error), ..bare_response() }
}

/// The control frame that asks for new credentials.
pub open spec fn ws_reauth(reason: Seq<char>, retry_after_ms: u64) -> WsResponseView {
    WsResponseView {
        control: Some(CONTROL_REAUTH_REQUIRED@),
        reason: Some(reason),
        retry_after_ms: Some(retry_after_ms),
        ..bare_response()
    }
}

impl Default for WsResponseEnvelope {
    fn default() -> (r: Self)
        ensures
            r@ == bare_response(),
    {
        WsResponseEnvelope {
            jsonrpc: JSONRPC_VERSION.to_owned(),
            id: None,
            result: None,
            error: None,
            stream_end: None,
            control: None,
            reason: None,
            retry_after_ms: None,
        }
    }
}

/// The JSON form of a response envelope: what is absent is left out.
pub open spec fn ws_response_json(e: WsResponseView) -> Json {
    let a = Map::<Seq<char>, Json>::empty().insert("jsonrpc"@, Json::Text(e.jsonrpc));
    let b = put(a, "id"@, opt_id_json(e.id));
    let c = put(b, "result"@, e.result);
    let d = put(c, "error"@, opt_error_json(e.error));
    let f = put(d, "streamEnd"@, opt_bool_json(e.stream_end));
    let g = put(f, "control"@, opt_text_json(e.control));
    let h = put(g, "reason"@, opt_text_json(e.reason));
    Json::Object(put(h, "retryAfterMs"@, opt_u64_json(e.retry_after_ms)))
}

/// The response envelope that a JSON value is, if it is one.
pub open spec fn ws_response_read(j: Json) -> Option<WsResponseView> {
    if !is_record(j, 8) {
        None
    } else {
        match (
            text_or(j, 0, "jsonrpc"@, JSONRPC_VERSION@),
            opt_id_field(j, 1, "id"@),
            opt_error_field(j, 3, "error"@),
            opt_bool_field(j, 4, "streamEnd"@),
            opt_text_field(j, 5, "control"@),
            opt_text_field(j, 6, "reason"@),
            opt_u64_field(j, 7, "retryAfterMs"@),
        ) {
            (
                Some(jsonrpc),
                Some(id),
                Some(error),
                Some(stream_end),
                Some(control),
                Some(reason),
                Some(retry_after_ms),
            ) => Some(
                WsResponseView {
                    jsonrpc,
                    id,
                    result: given(j, 2, "result"@),
                    error,
                    stream_end,
                    control,
                    reason,
                    retry_after_ms,
                },
            ),
            _ => None,
        }
    }
}

/// The contents of an optional response envelope.
pub open spec fn opt_ws_response(o: Option<WsResponseEnvelope>) -> Option<WsResponseView> {
    match o {
        Some(e) => Some(e@),
        None => None,
    }
}

/// What is read in a text frame: the envelope, or what is wrong with it.
pub open spec fn ws_response_in(payload: Seq<u8>) -> Result<WsResponseView, Seq<char>> {
    match json_read(payload) {
        Err(e) => Err(e),
        Ok(j) => match ws_response_read(j) {
            Some(v) => Ok(v),
            None => Err(SHAPE_ERROR@),
        },
    }
}

/// The contents of what reading a response envelope gives.
pub open spec fn ws_response_result(r: Result<WsResponseEnvelope, String>) -> Result<
    WsResponseView,
    Seq<char>,
> {
    match r {
        Ok(e) => Ok(e@),
        Err(e) => Err(e@),
    }
}

impl WsResponseEnvelope {
    /// A result.
    pub fn result(id: JsonRpcId, value: JsonValue) -> (r: Self)
        ensures
            r@ == ws_result(id@, model(value)),
    {
        let mut r = WsResponseEnvelope::default();
        r.id = Some(id);
        r.result = Some(value);
        r
    }

    /// One item of a stream. It has the form of a result: which it is, the
    /// client knows by what it asked for.
    pub fn stream_chunk(id: JsonRpcId, value: JsonValue) -> (r: Self)
        ensures
            r@ == ws_result(id@, model(value)),
    {
        WsResponseEnvelope::result(id, value)
    }

    /// The end of a stream.
    pub fn stream_end(id: JsonRpcId) -> (r: Self)
        ensures
            r@ == ws_stream_end(id@),
    {
        let mut r = WsResponseEnvelope::default();
        r.id = Some(id);
        r.stream_end = Some(true);
        r
    }

    /// An error, for a request or for one whose identifier could not be read.
    pub fn error(id: Option<JsonRpcId>, error: JsonRpcError) -> (r: Self)
        ensures
            r@ == ws_error(opt_id(id), error@),
    {
        let mut r = WsResponseEnvelope::default();
        r.id = id;
        r.error = Some(error);
        r
    }

    /// The control frame that asks for new credentials.
    pub fn reauth_required(reason: String, retry_after_ms: u64) -> (r: Self)
        ensures
            r@ == ws_reauth(reason@, retry_after_ms),
    {
        let mut r = WsResponseEnvelope::default();
        r.control = Some(CONTROL_REAUTH_REQUIRED.to_owned());
        r.reason = Some(reason);
        r.retry_after_ms = Some(retry_after_ms);
        r
    }

    /// The JSON form of this envelope.
    pub fn to_value(&self) -> (r: JsonValue)
        ensures
            model(r) == ws_response_json(self@),
    {
        let mut out: Vec<(String, JsonValue)> = Vec::new();
        assert(object(out@) =~= Map::<Seq<char>, Json>::empty());
        set_member(&mut out, "jsonrpc".to_owned(), JsonValue::Text(self.jsonrpc.clone()));
        put_member(&mut out, "id", opt_id_value(&self.id));
        put_member(&mut out, "result", copy_opt(&self.result));
        put_member(&mut out, "error", opt_error_value(&self.error));
        put_member(&mut out, "streamEnd", opt_bool_value(self.stream_end));
        put_member(&mut out, "control", opt_text_value(&self.control));
        put_member(&mut out, "reason", opt_text_value(&self.reason));
        let retry = match self.retry_after_ms {
            Some(n) => Some(u64_value(n)),
            None => None,
        };
        put_member(&mut out, "retryAfterMs", retry);
        JsonValue::Object(out)
    }

    /// The envelope that `v` is, if it is one.
    pub fn from_value(v: &JsonValue) -> (r: Option<WsResponseEnvelope>)
        ensures
            opt_ws_response(r) == ws_response_read(model(*v)),
    {
        if !record_like(v, 8) {
            return None;
        }
        match (
            get_text_or(v, 0, "jsonrpc", JSONRPC_VERSION),
            get_opt_id(v, 1, "id"),
            get_opt_error(v, 3, "error"),
            get_opt_bool(v, 4, "streamEnd"),
            get_opt_text(v, 5, "control"),
            get_opt_text(v, 6, "reason"),
            get_opt_u64(v, 7, "retryAfterMs"),
        ) {
            (
                Some(jsonrpc),
                Some(id),
                Some(error),
                Some(stream_end),
                Some(control),
                Some(reason),
                Some(retry_after_ms),
            ) => Some(
                WsResponseEnvelope {
                    jsonrpc,
                    id,
                    result: get_opt_value(v, 2, "result"),
                    error,
                    stream_end,
                    control,
                    reason,
                    retry_after_ms,
                },
            ),
            _ => None,
        }
    }

    /// The envelope in a text frame.
    pub fn from_slice(payload: &[u8]) -> (r: Result<WsResponseEnvelope, String>)
        ensures
            ws_response_result(r) == ws_response_in(payload@),
    {
        match read_json(payload) {
            Err(e) => Err(e),
            Ok(v) => match WsResponseEnvelope::from_value(&v) {
                Some(e) => Ok(e),
                None => Err(SHAPE_ERROR.to_owned()),
            },
        }
    }

    /// The text frame of this envelope, which reads as this envelope.
    pub fn to_vec(&self) -> (r: Result<Vec<u8>, String>)
        ensures
            r is Ok,
            bytes_result(r) == json_written(ws_response_json(self@)),
            plain_json(ws_response_json(self@), depth_limit()) ==> json_read(r->Ok_0@) == Ok::<
                Json,
                Seq<char>,
            >(ws_response_json(self@)),
            ws_response_plain(self@) ==> ws_response_in(r->Ok_0@)
                == Ok::<WsResponseView, Seq<char>>(self@),
    {
        proof {
            if ws_response_whole(self@) {
                law_response_envelopes_read_back(self@);
            }
        }
        write_json(&self.to_value())
    }
}

/// Whether an envelope can be told from its JSON form: nothing in it is null, which
/// reads as absent.
pub open spec fn ws_response_whole(e: WsResponseView) -> bool {
    &&& !(e.id matches Some(i) && i is Null)
    &&& !(e.result matches Some(v) && v is Null)
    &&& e.error matches Some(x) ==> !(x.data matches Some(d) && d is Null)
}

/// Whether an envelope can be told from its bytes: from its JSON form, which holds
/// no numbers but integers and is not nested too deeply.
pub open spec fn ws_response_plain(e: WsResponseView) -> bool {
    ws_response_whole(e) && plain_json(ws_response_json(e), depth_limit())
}

/// The JSON form of a response envelope reads as that envelope. (An identifier,
/// a result or an error's data that is null reads as absent.)
pub proof fn law_response_envelopes_read_back(e: WsResponseView)
    requires
        ws_response_whole(e),
    ensures
        ws_response_read(ws_response_json(e)) == Some(e),
{
    reveal_strlit("jsonrpc");
    reveal_strlit("id");
    reveal_strlit("result");
    reveal_strlit("error");
    reveal_strlit("streamEnd");
    reveal_strlit("control");
    reveal_strlit("reason");
    reveal_strlit("retryAfterMs");
    assert("jsonrpc"@.len() == 7 && "id"@.len() == 2 && "result"@.len() == 6);
    assert("error"@.len() == 5 && "streamEnd"@.len() == 9 && "control"@.len() == 7);
    assert("reason"@.len() == 6 && "retryAfterMs"@.len() == 12);
    assert("jsonrpc"@[0] == 'j' && "control"@[0] == 'c');
    assert("result"@[2] == 's' && "reason"@[2] == 'a');
    if let Some(i) = e.id {
        law_id_reads_back(i);
    }
    if let Some(x) = e.error {
        law_error_reads_back(x);
    }
    let j = ws_response_json(e);
    assert(field(j, 0, "jsonrpc"@) == Some(Json::Text(e.jsonrpc)));
    assert(field(j, 1, "id"@) == opt_id_json(e.id));
    assert(field(j, 2, "result"@) == e.result);
    assert(field(j, 3, "error"@) == opt_error_json(e.error));
    assert(field(j, 4, "streamEnd"@) == opt_bool_json(e.stream_end));
    assert(field(j, 5, "control"@) == opt_text_json(e.control));
    assert(field(j, 6, "reason"@) == opt_text_json(e.reason));
    assert(field(j, 7, "retryAfterMs"@) == opt_u64_json(e.retry_after_ms));
}

// ---------------------------------------------------------------------------
// Service parameters.
// ---------------------------------------------------------------------------

/// What flat service parameters stand for: each name in small letters, with one
/// value.
pub open spec fn envelope_params(e: Seq<(Seq<char>, String)>) -> Map<Seq<char>, Seq<Seq<char>>>
    decreases e.len(),
{
    if e.len() == 0 {
        Map::empty()
    } else {
        envelope_params(e.drop_last()).insert(lowered(e.last().0), seq![e.last().1@])
    }
}

/// What flat service parameters stand for.
pub fn service_params_from_envelope(map: &TextMap<String>) -> (r: ServiceParams)
    ensures
        lists(r@) == envelope_params(map.spec_entries()),
{
    let n: usize = map.len();
    let ghost es = map.spec_entries();
    let mut out: ServiceParams = TextMap::new();
    let mut i: usize = 0;
    assert(lists(out@) =~= envelope_params(es.take(0)));
    while i < n
        invariant
            i <= n,
            n == es.len(),
            es == map.spec_entries(),
            lists(out@) == envelope_params(es.take(i as int)),
        decreases n - i,
    {
        let key = lower_text(map.key_at(i));
        let values = one_text(map.value_at(i).clone());
        proof {
            let t = es.take(i + 1);
            assert(t.drop_last() =~= es.take(i as int));
            lemma_lists_insert(out@, key@, values);
        }
        out.insert(key, values);
        i = i + 1;
    }
    assert(es.take(n as int) =~= es);
    out
}

/// How service parameters are carried: the values of a name are joined.
pub open spec fn envelope_of(m: Map<Seq<char>, Seq<Seq<char>>>) -> Map<Seq<char>, Seq<char>> {
    Map::new(|k: Seq<char>| m.contains_key(k), |k: Seq<char>| join(m[k], ", "@))
}

/// How service parameters are carried: not at all where there are none.
pub open spec fn opt_envelope_of(m: Map<Seq<char>, Seq<Seq<char>>>) -> Option<
    Map<Seq<char>, Seq<char>>,
> {
    if m =~= Map::<Seq<char>, Seq<Seq<char>>>::empty() {
        None
    } else {
        Some(envelope_of(m))
    }
}

/// How service parameters are carried.
pub fn service_params_to_envelope(map: &ServiceParams) -> (r: Option<TextMap<String>>)
    ensures
        opt_flat(r) == opt_envelope_of(lists(map@)),
{
    if map.is_empty() {
        assert(lists(map@) =~= Map::<Seq<char>, Seq<Seq<char>>>::empty());
        return None;
    }
    let n: usize = map.len();
    let ghost es = map.spec_entries();
    let mut out: TextMap<String> = TextMap::new();
    let mut i: usize = 0;
    assert(flat(out@) =~= envelope_of(lists(map_of(es.take(0)))));
    while i < n
        invariant
            i <= n,
            n == es.len(),
            es == map.spec_entries(),
            flat(out@) == envelope_of(lists(map_of(es.take(i as int)))),
        decreases n - i,
    {
        let key = map.key_at(i).to_owned();
        let value = join_texts(map.value_at(i), ", ");
        proof {
            let t = es.take(i + 1);
            assert(t.drop_last() =~= es.take(i as int));
            lemma_lists_insert(map_of(es.take(i as int)), es[i as int].0, es[i as int].1);
            lemma_flat_insert(out@, key@, value);
            assert(flat(out@).insert(key@, value@) =~= envelope_of(lists(map_of(t))));
        }
        out.insert(key, value);
        i = i + 1;
    }
    assert(es.take(n as int) =~= es);
    proof {
        assert(!(map@ =~= Map::<Seq<char>, Vec<String>>::empty()));
        let k = choose|k: Seq<char>| map@.contains_key(k);
        assert(map@.contains_key(k));
        assert(lists(map@).contains_key(k));
    }
    Some(out)
}

/// Whether `name` is one of the names and no other of them agrees with it but for
/// ASCII case.
pub open spec fn stands_alone(sent: Map<Seq<char>, Seq<Seq<char>>>, name: Seq<char>) -> bool {
    &&& sent.contains_key(name)
    &&& forall|k: Seq<char>| #[trigger]
        sent.contains_key(k) && lowered(k) == lowered(name) ==> k == name
}

proof fn lemma_envelope_params(e: Seq<(Seq<char>, String)>, x: Seq<char>)
    ensures
        envelope_params(e).contains_key(x) <==> exists|i: int|
            0 <= i < e.len() && lowered(#[trigger] e[i].0) == x,
    decreases e.len(),
{
    if e.len() > 0 {
        let d = e.drop_last();
        let last = e.len() - 1;
        lemma_envelope_params(d, x);
        if envelope_params(d).contains_key(x) {
            let i = choose|i: int| 0 <= i < d.len() && lowered(#[trigger] d[i].0) == x;
            assert(lowered(e[i].0) == x);
        }
        if lowered(e.last().0) == x {
            assert(lowered(e[last].0) == x);
        }
        if exists|i: int| 0 <= i < e.len() && lowered(#[trigger] e[i].0) == x {
            let i = choose|i: int| 0 <= i < e.len() && lowered(#[trigger] e[i].0) == x;
            if i < last {
                assert(lowered(d[i].0) == x);
            }
        }
    }
}

proof fn lemma_envelope_param(e: Seq<(Seq<char>, String)>, i: int)
    requires
        0 <= i < e.len(),
        forall|j: int| 0 <= j < e.len() && j != i ==> lowered(#[trigger] e[j].0) != lowered(e[i].0),
    ensures
        envelope_params(e)[lowered(e[i].0)] == seq![e[i].1@],
    decreases e.len(),
{
    let d = e.drop_last();
    let last = e.len() - 1;
    if i < last {
        assert(d[i] == e[i]);
        assert forall|j: int| 0 <= j < d.len() && j != i implies lowered(#[trigger] d[j].0)
            != lowered(d[i].0) by {
            assert(lowered(e[j].0) != lowered(e[i].0));
        }
        lemma_envelope_param(d, i);
        assert(lowered(e[last].0) != lowered(e[i].0));
    }
}

/// Service parameters come out of an envelope under the names they went in with, in
/// small letters, and nothing else comes out. The values of a name come out joined to
/// one, where no other name agrees with it but for ASCII case.
pub proof fn law_params_keep_their_names(
    sent: Map<Seq<char>, Seq<Seq<char>>>,
    e: Seq<(Seq<char>, String)>,
    name: Seq<char>,
)
    requires
        opt_envelope_of(sent) == Some(flat(map_of(e))),
        distinct_keys(e),
    ensures
        envelope_params(e).contains_key(name) <==> exists|k: Seq<char>| #[trigger]
            sent.contains_key(k) && lowered(k) == name,
        stands_alone(sent, name) ==> envelope_params(e)[lowered(name)] == seq![
            join(sent[name], ", "@),
        ],
{
    let f = flat(map_of(e));
    lemma_envelope_params(e, name);
    assert(f == envelope_of(sent));
    assert forall|i: int| 0 <= i < e.len() implies sent.contains_key(#[trigger] e[i].0) && e[i].1@
        == join(sent[e[i].0], ", "@) by {
        let k = e[i].0;
        lemma_map_of_value(e, i);
        assert(f.contains_key(k));
        assert(f[k] == e[i].1@);
        assert(envelope_of(sent).contains_key(k));
    }
    assert forall|k: Seq<char>| #[trigger] sent.contains_key(k) implies has_key(e, k) by {
        assert(envelope_of(sent).contains_key(k));
        assert(f.contains_key(k));
        lemma_map_of_keys(e, k);
    }
    if exists|k: Seq<char>| #[trigger] sent.contains_key(k) && lowered(k) == name {
        let k = choose|k: Seq<char>| #[trigger] sent.contains_key(k) && lowered(k) == name;
        assert(has_key(e, k));
        let i = choose|i: int| 0 <= i < e.len() && #[trigger] e[i].0 == k;
        assert(lowered(e[i].0) == name);
    }
    if stands_alone(sent, name) {
        assert(has_key(e, name));
        let i = choose|i: int| 0 <= i < e.len() && #[trigger] e[i].0 == name;
        assert forall|j: int| 0 <= j < e.len() && j != i implies lowered(#[trigger] e[j].0)
            != lowered(e[i].0) by {
            assert(sent.contains_key(e[j].0));
        }
        lemma_envelope_param(e, i);
    }
}

} // verus!
