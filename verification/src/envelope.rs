//! The envelopes of plain WebSocket transport: one for each text frame. Events,
//! errors and the end of a stream have members of their own.
//!
//! A frame is read as a JSON value first, so what is no JSON is refused wherever it
//! stands. Unknown members are ignored, and of a member that is repeated the last
//! counts.
use crate::json_value::{
    depth_limit, plain_json, json_read, json_written, model, object, read_json, set_member,
    write_json, Json, JsonValue,
};
use crate::params::ServiceParams;
use crate::protocol::{
    copy_opt, id_json, law_error_reads_back, law_id_reads_back, opt_error, opt_model, ErrorView,
    IdView, JsonRpcError, JsonRpcId,
};
use crate::record::{
    field, get_id_field, get_opt_bool, get_opt_error, get_opt_lists, get_opt_value, get_text_field,
    given, id_field, is_record, law_lists_read_back, lists_json, lists_to_value, opt_bool_field,
    opt_error_field, opt_lists, opt_lists_field, put, put_member, record_like, text_field,
};
use crate::stdio::json::{bytes_result, SHAPE_ERROR};
use crate::websocket::common::{
    opt_bool_json, opt_bool_value, opt_error_json, opt_error_value, JSONRPC_VERSION,
};
use vstd::prelude::*;

verus! {

/// What messages say of themselves.
pub type WebSocketServiceParams = ServiceParams;

// ---------------------------------------------------------------------------
// Requests.
// ---------------------------------------------------------------------------

/// What a client sends.
#[derive(Debug, PartialEq)]
pub struct WebSocketRequestEnvelope {
    pub jsonrpc: String,
    pub id: JsonRpcId,
    pub method: String,
    pub params: Option<JsonValue>,
    pub service_params: Option<WebSocketServiceParams>,
}

/// A request envelope in terms of contents.
#[verifier::ext_equal]
pub struct RequestView {
    pub jsonrpc: Seq<char>,
    pub id: IdView,
    pub method: Seq<char>,
    pub params: Option<Json>,
    pub service_params: Option<Map<Seq<char>, Seq<Seq<char>>>>,
}

impl View for WebSocketRequestEnvelope {
    type V = RequestView;

    open spec fn view(&self) -> RequestView {
        RequestView {
            jsonrpc: self.jsonrpc@,
            id: self.id@,
            method: self.method@,
            params: opt_model(self.params),
            service_params: opt_lists(self.service_params),
        }
    }
}

/// The JSON form of optional service parameters.
pub open spec fn opt_lists_json(o: Option<Map<Seq<char>, Seq<Seq<char>>>>) -> Option<Json> {
    match o {
        Some(m) => Some(lists_json(m)),
        None => None,
    }
}

/// The JSON form of a request envelope: what is absent is left out.
pub open spec fn request_json(e: RequestView) -> Json {
    let a = Map::<Seq<char>, Json>::empty().insert("jsonrpc"@, Json::Text(e.jsonrpc)).insert(
        "id"@,
        id_json(e.id),
    ).insert("method"@, Json::Text(e.method));
    let b = put(a, "params"@, e.params);
    Json::Object(put(b, "serviceParams"@, opt_lists_json(e.service_params)))
}

/// The request envelope that a JSON value is, if it is one.
pub open spec fn request_read(j: Json) -> Option<RequestView> {
    if !is_record(j, 5) {
        None
    } else {
        match (
            text_field(j, 0, "jsonrpc"@),
            id_field(j, 1, "id"@),
            text_field(j, 2, "method"@),
            opt_lists_field(j, 4, "serviceParams"@),
        ) {
            (Some(jsonrpc), Some(id), Some(method), Some(service_params)) => Some(
                RequestView {
                    jsonrpc,
                    id,
                    method,
                    params: given(j, 3, "params"@),
                    service_params,
                },
            ),
            _ => None,
        }
    }
}

/// What is read in a text frame: the envelope, or what is wrong with it.
pub open spec fn request_in(frame: Seq<u8>) -> Result<RequestView, Seq<char>> {
    match json_read(frame) {
        Err(e) => Err(e),
        Ok(j) => match request_read(j) {
            Some(v) => Ok(v),
            None => Err(SHAPE_ERROR@),
        },
    }
}

/// The contents of what reading a request envelope gives.
pub open spec fn request_result(r: Result<WebSocketRequestEnvelope, String>) -> Result<
    RequestView,
    Seq<char>,
> {
    match r {
        Ok(e) => Ok(e@),
        Err(e) => Err(e@),
    }
}

/// The contents of an optional request envelope.
pub open spec fn opt_request(o: Option<WebSocketRequestEnvelope>) -> Option<RequestView> {
    match o {
        Some(e) => Some(e@),
        None => None,
    }
}

impl WebSocketRequestEnvelope {
    /// A request.
    pub fn new(
        id: JsonRpcId,
        method: &str,
        params: Option<JsonValue>,
        service_params: Option<WebSocketServiceParams>,
    ) -> (r: Self)
        ensures
            r@ == (RequestView {
                jsonrpc: JSONRPC_VERSION@,
                id: id@,
                method: method@,
                params: opt_model(params),
                service_params: opt_lists(service_params),
            }),
    {
        WebSocketRequestEnvelope {
            jsonrpc: JSONRPC_VERSION.to_owned(),
            id,
            method: method.to_owned(),
            params,
            service_params,
        }
    }

    /// The JSON form of this envelope.
    pub fn to_value(&self) -> (r: JsonValue)
        ensures
            model(r) == request_json(self@),
    {
        let mut out: Vec<(String, JsonValue)> = Vec::new();
        assert(object(out@) =~= Map::<Seq<char>, Json>::empty());
        set_member(&mut out, "jsonrpc".to_owned(), JsonValue::Text(self.jsonrpc.clone()));
        set_member(&mut out, "id".to_owned(), self.id.to_value());
        set_member(&mut out, "method".to_owned(), JsonValue::Text(self.method.clone()));
        put_member(&mut out, "params", copy_opt(&self.params));
        let service_params = match &self.service_params {
            Some(m) => Some(lists_to_value(m)),
            None => None,
        };
        put_member(&mut out, "serviceParams", service_params);
        JsonValue::Object(out)
    }

    /// The envelope that `v` is, if it is one.
    pub fn from_value(v: &JsonValue) -> (r: Option<WebSocketRequestEnvelope>)
        ensures
            opt_request(r) == request_read(model(*v)),
    {
        if !record_like(v, 5) {
            return None;
        }
        match (
            get_text_field(v, 0, "jsonrpc"),
            get_id_field(v, 1, "id"),
            get_text_field(v, 2, "method"),
            get_opt_lists(v, 4, "serviceParams"),
        ) {
            (Some(jsonrpc), Some(id), Some(method), Some(service_params)) => Some(
                WebSocketRequestEnvelope {
                    jsonrpc,
                    id,
                    method,
                    params: get_opt_value(v, 3, "params"),
                    service_params,
                },
            ),
            _ => None,
        }
    }

    /// The envelope in a text frame.
    pub fn from_slice(frame: &[u8]) -> (r: Result<WebSocketRequestEnvelope, String>)
        ensures
            request_result(r) == request_in(frame@),
    {
        match read_json(frame) {
            Err(e) => Err(e),
            Ok(v) => match WebSocketRequestEnvelope::from_value(&v) {
                Some(e) => Ok(e),
                None => Err(SHAPE_ERROR.to_owned()),
            },
        }
    }

    /// The text frame of this envelope, which reads as this envelope.
    pub fn to_vec(&self) -> (r: Result<Vec<u8>, String>)
        ensures
            r is Ok,
            bytes_result(r) == json_written(request_json(self@)),
            request_read_in(r->Ok_0@, self@),
    {
        proof {
            if request_whole(self@) {
                law_requests_read_back(self@);
            }
        }
        write_json(&self.to_value())
    }
}

/// Whether an envelope can be told from its JSON form: nothing in it is null, which
/// reads as absent.
pub open spec fn request_whole(e: RequestView) -> bool {
    &&& !(e.params matches Some(p) && p is Null)
}

/// Whether a frame reads as this envelope, as far as the envelope can be told from
/// it: its JSON form holds no numbers but integers and is not nested too deeply.
pub open spec fn request_read_in(frame: Seq<u8>, e: RequestView) -> bool {
    request_whole(e) && plain_json(request_json(e), depth_limit()) ==> request_in(frame) == Ok::<
        RequestView,
        Seq<char>,
    >(e)
}

/// The JSON form of a request envelope reads as that envelope. (Parameters that
/// are null read as absent.)
pub proof fn law_requests_read_back(e: RequestView)
    requires
        request_whole(e),
    ensures
        request_read(request_json(e)) == Some(e),
{
    reveal_strlit("jsonrpc");
    reveal_strlit("id");
    reveal_strlit("method");
    reveal_strlit("params");
    reveal_strlit("serviceParams");
    assert("jsonrpc"@.len() == 7 && "id"@.len() == 2 && "method"@.len() == 6);
    assert("params"@.len() == 6 && "serviceParams"@.len() == 13);
    assert("method"@[0] == 'm' && "params"@[0] == 'p');
    law_id_reads_back(e.id);
    if let Some(m) = e.service_params {
        law_lists_read_back(m);
    }
    let j = request_json(e);
    assert(field(j, 0, "jsonrpc"@) == Some(Json::Text(e.jsonrpc)));
    assert(field(j, 1, "id"@) == Some(id_json(e.id)));
    assert(field(j, 2, "method"@) == Some(Json::Text(e.method)));
    assert(field(j, 3, "params"@) == e.params);
    assert(field(j, 4, "serviceParams"@) == opt_lists_json(e.service_params));
}

// ---------------------------------------------------------------------------
// Responses.
// ---------------------------------------------------------------------------

/// What a server sends.
#[derive(Debug, PartialEq)]
pub struct WebSocketResponseEnvelope {
    pub jsonrpc: String,
    pub id: JsonRpcId,
    pub result: Option<JsonValue>,
    pub error: Option<JsonRpcError>,
    pub stream_event: Option<JsonValue>,
    pub stream_error: Option<JsonRpcError>,
    pub stream_end: Option<bool>,
}

/// A response envelope in terms of contents.
#[verifier::ext_equal]
pub struct ResponseView {
    pub jsonrpc: Seq<char>,
    pub id: IdView,
    pub result: Option<Json>,
    pub error: Option<ErrorView>,
    pub stream_event: Option<Json>,
    pub stream_error: Option<ErrorView>,
    pub stream_end: Option<bool>,
}

impl View for WebSocketResponseEnvelope {
    type V = ResponseView;

    open spec fn view(&self) -> ResponseView {
        ResponseView {
            jsonrpc: self.jsonrpc@,
            id: self.id@,
            result: opt_model(self.result),
            error: opt_error(self.error),
            stream_event: opt_model(self.stream_event),
            stream_error: opt_error(self.stream_error),
            stream_end: self.stream_end,
        }
    }
}

/// A response envelope with nothing in it but its version and identifier.
pub open spec fn bare(id: IdView) -> ResponseView {
    ResponseView {
        jsonrpc: JSONRPC_VERSION@,
        id,
        result: None,
        error: None,
        stream_event: None,
        stream_error: None,
        stream_end: None,
    }
}

/// A result.
pub open spec fn success_view(id: IdView, result: Json) -> ResponseView {
    ResponseView { result: Some(result), ..bare(id) }
}

/// An error.
pub open spec fn error_view(id: IdView, error: ErrorView) -> ResponseView {
    ResponseView { error: Some(error), ..bare(id) }
}

/// An event of a stream.
pub open spec fn event_view(id: IdView, event: Json) -> ResponseView {
    ResponseView { stream_event: Some(event), ..bare(id) }
}

/// The failure of a stream.
pub open spec fn stream_error_view(id: IdView, error: ErrorView) -> ResponseView {
    ResponseView { stream_error: Some(error), ..bare(id) }
}

/// The end of a stream.
pub open spec fn end_view(id: IdView) -> ResponseView {
    ResponseView { stream_end: Some(true), ..bare(id) }
}

/// The JSON form of a response envelope: what is absent is left out.
pub open spec fn response_json(e: ResponseView) -> Json {
    let a = Map::<Seq<char>, Json>::empty().insert("jsonrpc"@, Json::Text(e.jsonrpc)).insert(
        "id"@,
        id_json(e.id),
    );
    let b = put(a, "result"@, e.result);
    let c = put(b, "error"@, opt_error_json(e.error));
    let d = put(c, "streamEvent"@, e.stream_event);
    let f = put(d, "streamError"@, opt_error_json(e.stream_error));
    Json::Object(put(f, "streamEnd"@, opt_bool_json(e.stream_end)))
}

/// The response envelope that a JSON value is, if it is one.
pub open spec fn response_read(j: Json) -> Option<ResponseView> {
    if !is_record(j, 7) {
        None
    } else {
        match (
            text_field(j, 0, "jsonrpc"@),
            id_field(j, 1, "id"@),
            opt_error_field(j, 3, "error"@),
            opt_error_field(j, 5, "streamError"@),
            opt_bool_field(j, 6, "streamEnd"@),
        ) {
            (Some(jsonrpc), Some(id), Some(error), Some(stream_error), Some(stream_end)) => Some(
                ResponseView {
                    jsonrpc,
                    id,
                    result: given(j, 2, "result"@),
                    error,
                    stream_event: given(j, 4, "streamEvent"@),
                    stream_error,
                    stream_end,
                },
            ),
            _ => None,
        }
    }
}

/// What is read in a text frame: the envelope, or what is wrong with it.
pub open spec fn response_in(frame: Seq<u8>) -> Result<ResponseView, Seq<char>> {
    match json_read(frame) {
        Err(e) => Err(e),
        Ok(j) => match response_read(j) {
            Some(v) => Ok(v),
            None => Err(SHAPE_ERROR@),
        },
    }
}

/// The contents of what reading a response envelope gives.
pub open spec fn response_result(r: Result<WebSocketResponseEnvelope, String>) -> Result<
    ResponseView,
    Seq<char>,
> {
    match r {
        Ok(e) => Ok(e@),
        Err(e) => Err(e@),
    }
}

/// The contents of an optional response envelope.
pub open spec fn opt_response(o: Option<WebSocketResponseEnvelope>) -> Option<ResponseView> {
    match o {
        Some(e) => Some(e@),
        None => None,
    }
}

impl WebSocketResponseEnvelope {
    fn empty(id: JsonRpcId) -> (r: Self)
        ensures
            r@ == bare(id@),
    {
        WebSocketResponseEnvelope {
            jsonrpc: JSONRPC_VERSION.to_owned(),
            id,
            result: None,
            error: None,
            stream_event: None,
            stream_error: None,
            stream_end: None,
        }
    }

    /// A result.
    pub fn success(id: JsonRpcId, result: JsonValue) -> (r: Self)
        ensures
            r@ == success_view(id@, model(result)),
    {
        let mut r = WebSocketResponseEnvelope::empty(id);
        r.result = Some(result);
        r
    }

    /// An error.
    pub fn error(id: JsonRpcId, error: JsonRpcError) -> (r: Self)
        ensures
            r@ == error_view(id@, error@),
    {
        let mut r = WebSocketResponseEnvelope::empty(id);
        r.error = Some(error);
        r
    }

    /// An event of a stream.
    pub fn stream_event(id: JsonRpcId, stream_event: JsonValue) -> (r: Self)
        ensures
            r@ == event_view(id@, model(stream_event)),
    {
        let mut r = WebSocketResponseEnvelope::empty(id);
        r.stream_event = Some(stream_event);
        r
    }

    /// The failure of a stream.
    pub fn stream_error(id: JsonRpcId, stream_error: JsonRpcError) -> (r: Self)
        ensures
            r@ == stream_error_view(id@, stream_error@),
    {
        let mut r = WebSocketResponseEnvelope::empty(id);
        r.stream_error = Some(stream_error);
        r
    }

    /// The end of a stream.
    pub fn stream_end(id: JsonRpcId) -> (r: Self)
        ensures
            r@ == end_view(id@),
    {
        let mut r = WebSocketResponseEnvelope::empty(id);
        r.stream_end = Some(true);
        r
    }

    /// The JSON form of this envelope.
    pub fn to_value(&self) -> (r: JsonValue)
        ensures
            model(r) == response_json(self@),
    {
        let mut out: Vec<(String, JsonValue)> = Vec::new();
        assert(object(out@) =~= Map::<Seq<char>, Json>::empty());
        set_member(&mut out, "jsonrpc".to_owned(), JsonValue::Text(self.jsonrpc.clone()));
        set_member(&mut out, "id".to_owned(), self.id.to_value());
        put_member(&mut out, "result", copy_opt(&self.result));
        put_member(&mut out, "error", opt_error_value(&self.error));
        put_member(&mut out, "streamEvent", copy_opt(&self.stream_event));
        put_member(&mut out, "streamError", opt_error_value(&self.stream_error));
        put_member(&mut out, "streamEnd", opt_bool_value(self.stream_end));
        JsonValue::Object(out)
    }

    /// The envelope that `v` is, if it is one.
    pub fn from_value(v: &JsonValue) -> (r: Option<WebSocketResponseEnvelope>)
        ensures
            opt_response(r) == response_read(model(*v)),
    {
        if !record_like(v, 7) {
            return None;
        }
        match (
            get_text_field(v, 0, "jsonrpc"),
            get_id_field(v, 1, "id"),
            get_opt_error(v, 3, "error"),
            get_opt_error(v, 5, "streamError"),
            get_opt_bool(v, 6, "streamEnd"),
        ) {
            (Some(jsonrpc), Some(id), Some(error), Some(stream_error), Some(stream_end)) => Some(
                WebSocketResponseEnvelope {
                    jsonrpc,
                    id,
                    result: get_opt_value(v, 2, "result"),
                    error,
                    stream_event: get_opt_value(v, 4, "streamEvent"),
                    stream_error,
                    stream_end,
                },
            ),
            _ => None,
        }
    }

    /// The envelope in a text frame.
    pub fn from_slice(frame: &[u8]) -> (r: Result<WebSocketResponseEnvelope, String>)
        ensures
            response_result(r) == response_in(frame@),
    {
        match read_json(frame) {
            Err(e) => Err(e),
            Ok(v) => match WebSocketResponseEnvelope::from_value(&v) {
                Some(e) => Ok(e),
                None => Err(SHAPE_ERROR.to_owned()),
            },
        }
    }

    /// The text frame of this envelope, which reads as this envelope.
    pub fn to_vec(&self) -> (r: Result<Vec<u8>, String>)
        ensures
            r is Ok,
            bytes_result(r) == json_written(response_json(self@)),
            response_read_in(r->Ok_0@, self@),
    {
        proof {
            if response_whole(self@) {
                law_responses_read_back(self@);
            }
        }
        write_json(&self.to_value())
    }
}

/// Whether an envelope can be told from its JSON form: nothing in it is null, which
/// reads as absent.
pub open spec fn response_whole(e: ResponseView) -> bool {
    &&& !(e.result matches Some(v) && v is Null)
    &&& !(e.stream_event matches Some(v) && v is Null)
    &&& e.error matches Some(x) ==> !(x.data matches Some(d) && d is Null)
    &&& e.stream_error matches Some(x) ==> !(x.data matches Some(d) && d is Null)
}

/// Whether a frame reads as this envelope, as far as the envelope can be told from
/// it.
pub open spec fn response_read_in(frame: Seq<u8>, e: ResponseView) -> bool {
    response_whole(e) && plain_json(response_json(e), depth_limit()) ==> response_in(frame) == Ok::<
        ResponseView,
        Seq<char>,
    >(e)
}

/// The JSON form of a response envelope reads as that envelope. (A result, an
/// event or an error's data that is null reads as absent.)
pub proof fn law_responses_read_back(e: ResponseView)
    requires
        response_whole(e),
    ensures
        response_read(response_json(e)) == Some(e),
{
    reveal_strlit("jsonrpc");
    reveal_strlit("id");
    reveal_strlit("result");
    reveal_strlit("error");
    reveal_strlit("streamEvent");
    reveal_strlit("streamError");
    reveal_strlit("streamEnd");
    assert("jsonrpc"@.len() == 7 && "id"@.len() == 2 && "result"@.len() == 6);
    assert("error"@.len() == 5 && "streamEvent"@.len() == 11 && "streamError"@.len() == 11);
    assert("streamEnd"@.len() == 9);
    assert("streamEvent"@[7] == 'v' && "streamError"@[7] == 'r');
    law_id_reads_back(e.id);
    if let Some(x) = e.error {
        law_error_reads_back(x);
    }
    if let Some(x) = e.stream_error {
        law_error_reads_back(x);
    }
    let j = response_json(e);
    assert(field(j, 0, "jsonrpc"@) == Some(Json::Text(e.jsonrpc)));
    assert(field(j, 1, "id"@) == Some(id_json(e.id)));
    assert(field(j, 2, "result"@) == e.result);
    assert(field(j, 3, "error"@) == opt_error_json(e.error));
    assert(field(j, 4, "streamEvent"@) == e.stream_event);
    assert(field(j, 5, "streamError"@) == opt_error_json(e.stream_error));
    assert(field(j, 6, "streamEnd"@) == opt_bool_json(e.stream_end));
}

} // verus!
