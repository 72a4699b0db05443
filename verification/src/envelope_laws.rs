//! What the envelopes of both WebSocket transports promise: which members they are
//! written with, and what is read from which.
use crate::envelope::{
    request_json, request_read, response_json, response_read, RequestView, ResponseView,
};
use crate::json_value::{Json, NumberModel};
use crate::protocol::{error_json, error_read, flat_json, flat_read, id_json, id_read};
use crate::record::{lists_json, lists_read};
use crate::websocket::common::{
    ws_request_json, ws_request_read, ws_response_json, ws_response_read, WsRequestView,
    WsResponseView,
};
use vstd::prelude::*;

verus! {

/// Whether a member is left out of an object: it is absent or null.
pub open spec fn left_out(m: Map<Seq<char>, Json>, k: Seq<char>) -> bool {
    !m.contains_key(k) || m[k] is Null
}

proof fn lemma_envelope_names()
    ensures
        "jsonrpc"@ != "id"@,
        "jsonrpc"@ != "method"@,
        "jsonrpc"@ != "params"@,
        "jsonrpc"@ != "serviceParams"@,
        "jsonrpc"@ != "cancelStream"@,
        "jsonrpc"@ != "result"@,
        "jsonrpc"@ != "error"@,
        "jsonrpc"@ != "streamEnd"@,
        "jsonrpc"@ != "control"@,
        "jsonrpc"@ != "reason"@,
        "jsonrpc"@ != "retryAfterMs"@,
        "jsonrpc"@ != "streamEvent"@,
        "jsonrpc"@ != "streamError"@,
        "id"@ != "method"@,
        "id"@ != "params"@,
        "id"@ != "serviceParams"@,
        "id"@ != "cancelStream"@,
        "id"@ != "result"@,
        "id"@ != "error"@,
        "id"@ != "streamEnd"@,
        "id"@ != "control"@,
        "id"@ != "reason"@,
        "id"@ != "retryAfterMs"@,
        "id"@ != "streamEvent"@,
        "id"@ != "streamError"@,
        "method"@ != "params"@,
        "method"@ != "serviceParams"@,
        "method"@ != "cancelStream"@,
        "method"@ != "result"@,
        "method"@ != "error"@,
        "method"@ != "streamEnd"@,
        "method"@ != "control"@,
        "method"@ != "reason"@,
        "method"@ != "retryAfterMs"@,
        "method"@ != "streamEvent"@,
        "method"@ != "streamError"@,
        "params"@ != "serviceParams"@,
        "params"@ != "cancelStream"@,
        "params"@ != "result"@,
        "params"@ != "error"@,
        "params"@ != "streamEnd"@,
        "params"@ != "control"@,
        "params"@ != "reason"@,
        "params"@ != "retryAfterMs"@,
        "params"@ != "streamEvent"@,
        "params"@ != "streamError"@,
        "serviceParams"@ != "cancelStream"@,
        "serviceParams"@ != "result"@,
        "serviceParams"@ != "error"@,
        "serviceParams"@ != "streamEnd"@,
        "serviceParams"@ != "control"@,
        "serviceParams"@ != "reason"@,
        "serviceParams"@ != "retryAfterMs"@,
        "serviceParams"@ != "streamEvent"@,
        "serviceParams"@ != "streamError"@,
        "cancelStream"@ != "result"@,
        "cancelStream"@ != "error"@,
        "cancelStream"@ != "streamEnd"@,
        "cancelStream"@ != "control"@,
        "cancelStream"@ != "reason"@,
        "cancelStream"@ != "retryAfterMs"@,
        "cancelStream"@ != "streamEvent"@,
        "cancelStream"@ != "streamError"@,
        "result"@ != "error"@,
        "result"@ != "streamEnd"@,
        "result"@ != "control"@,
        "result"@ != "reason"@,
        "result"@ != "retryAfterMs"@,
        "result"@ != "streamEvent"@,
        "result"@ != "streamError"@,
        "error"@ != "streamEnd"@,
        "error"@ != "control"@,
        "error"@ != "reason"@,
        "error"@ != "retryAfterMs"@,
        "error"@ != "streamEvent"@,
        "error"@ != "streamError"@,
        "streamEnd"@ != "control"@,
        "streamEnd"@ != "reason"@,
        "streamEnd"@ != "retryAfterMs"@,
        "streamEnd"@ != "streamEvent"@,
        "streamEnd"@ != "streamError"@,
        "control"@ != "reason"@,
        "control"@ != "retryAfterMs"@,
        "control"@ != "streamEvent"@,
        "control"@ != "streamError"@,
        "reason"@ != "retryAfterMs"@,
        "reason"@ != "streamEvent"@,
        "reason"@ != "streamError"@,
        "retryAfterMs"@ != "streamEvent"@,
        "retryAfterMs"@ != "streamError"@,
        "streamEvent"@ != "streamError"@,
{
    reveal_strlit("jsonrpc");
    reveal_strlit("id");
    reveal_strlit("method");
    reveal_strlit("params");
    reveal_strlit("serviceParams");
    reveal_strlit("cancelStream");
    reveal_strlit("result");
    reveal_strlit("error");
    reveal_strlit("streamEnd");
    reveal_strlit("control");
    reveal_strlit("reason");
    reveal_strlit("retryAfterMs");
    reveal_strlit("streamEvent");
    reveal_strlit("streamError");
    assert("jsonrpc"@.len() == 7);
    assert("id"@.len() == 2);
    assert("method"@.len() == 6);
    assert("params"@.len() == 6);
    assert("serviceParams"@.len() == 13);
    assert("cancelStream"@.len() == 12);
    assert("result"@.len() == 6);
    assert("error"@.len() == 5);
    assert("streamEnd"@.len() == 9);
    assert("control"@.len() == 7);
    assert("reason"@.len() == 6);
    assert("retryAfterMs"@.len() == 12);
    assert("streamEvent"@.len() == 11);
    assert("streamError"@.len() == 11);
    assert("jsonrpc"@[0] == 'j' && "control"@[0] == 'c');
    assert("method"@[0] == 'm' && "params"@[0] == 'p');
    assert("method"@[0] == 'm' && "result"@[0] == 'r');
    assert("method"@[0] == 'm' && "reason"@[0] == 'r');
    assert("params"@[0] == 'p' && "result"@[0] == 'r');
    assert("params"@[0] == 'p' && "reason"@[0] == 'r');
    assert("result"@[2] == 's' && "reason"@[2] == 'a');
    assert("cancelStream"@[0] == 'c' && "retryAfterMs"@[0] == 'r');
    assert("streamEvent"@[7] == 'v' && "streamError"@[7] == 'r');
}

/// A request of the binding is written with a member for each thing that it has, and no
/// others.
pub proof fn law_ws_request_members_are_written(e: WsRequestView)
    ensures
        ws_request_json(e) is Object,
        forall|k: Seq<char>| #[trigger]
            ws_request_json(e)->Object_0.contains_key(k) ==> k == "jsonrpc"@ || (k == "id"@
                && e.id is Some) || (k == "method"@ && e.method is Some) || (k == "params"@
                && e.params is Some) || (k == "serviceParams"@ && e.service_params is Some) || (k
                == "cancelStream"@ && e.cancel_stream is Some),
        ws_request_json(e)->Object_0.contains_key("jsonrpc"@),
        ws_request_json(e)->Object_0["jsonrpc"@] == Json::Text(e.jsonrpc),
        e.id matches Some(x) ==> ws_request_json(e)->Object_0.contains_key("id"@)
            && ws_request_json(e)->Object_0["id"@] == id_json(x),
        e.method matches Some(x) ==> ws_request_json(e)->Object_0.contains_key("method"@)
            && ws_request_json(e)->Object_0["method"@] == Json::Text(x),
        e.params matches Some(x) ==> ws_request_json(e)->Object_0.contains_key("params"@)
            && ws_request_json(e)->Object_0["params"@] == x,
        e.service_params matches Some(x)
            ==> ws_request_json(e)->Object_0.contains_key("serviceParams"@)
            && ws_request_json(e)->Object_0["serviceParams"@] == flat_json(x),
        e.cancel_stream matches Some(x)
            ==> ws_request_json(e)->Object_0.contains_key("cancelStream"@)
            && ws_request_json(e)->Object_0["cancelStream"@] == Json::Bool(x),
{
    lemma_envelope_names();
}

/// A request of the binding is read from an object by the names of its members. A member
/// that may be left out is absent just where it is left out, or null.
pub proof fn law_ws_request_members_are_read(m: Map<Seq<char>, Json>, v: WsRequestView)
    requires
        ws_request_read(Json::Object(m)) == Some(v),
    ensures
        m.contains_key("jsonrpc"@) ==> m["jsonrpc"@] == Json::Text(v.jsonrpc),
        !m.contains_key("jsonrpc"@) ==> v.jsonrpc == "2.0"@,
        v.id is None <==> left_out(m, "id"@),
        v.id matches Some(x) ==> id_read(m["id"@]) == Some(x),
        v.method is None <==> left_out(m, "method"@),
        v.method matches Some(x) ==> m["method"@] == Json::Text(x),
        v.params is None <==> left_out(m, "params"@),
        v.params matches Some(x) ==> m["params"@] == x,
        v.service_params is None <==> left_out(m, "serviceParams"@),
        v.service_params matches Some(x) ==> flat_read(m["serviceParams"@]) == Some(x),
        v.cancel_stream is None <==> left_out(m, "cancelStream"@),
        v.cancel_stream matches Some(x) ==> m["cancelStream"@] == Json::Bool(x),
{
}

/// An object is read as a request of the binding just where each of its members is what
/// it must be. Members of other names do not matter.
pub proof fn law_ws_requests_are_told_by_their_members(m: Map<Seq<char>, Json>)
    ensures
        ws_request_read(Json::Object(m)) is Some <==> (!m.contains_key("jsonrpc"@)
            || m["jsonrpc"@] is Text) && (left_out(m, "id"@) || id_read(m["id"@]) is Some)
            && (left_out(m, "method"@) || m["method"@] is Text) && (left_out(m, "serviceParams"@)
            || flat_read(m["serviceParams"@]) is Some) && (left_out(m, "cancelStream"@)
            || m["cancelStream"@] is Bool),
{
}

/// A list is read like the object whose members are its items, in their order. One that
/// is too long is not read, and neither is what is no list and no object.
pub proof fn law_ws_requests_are_read_from_lists(s: Seq<Json>, m: Map<Seq<char>, Json>, other: Json)
    requires
        m.contains_key("jsonrpc"@) <==> s.len() > 0,
        s.len() > 0 ==> m["jsonrpc"@] == s[0],
        m.contains_key("id"@) <==> s.len() > 1,
        s.len() > 1 ==> m["id"@] == s[1],
        m.contains_key("method"@) <==> s.len() > 2,
        s.len() > 2 ==> m["method"@] == s[2],
        m.contains_key("params"@) <==> s.len() > 3,
        s.len() > 3 ==> m["params"@] == s[3],
        m.contains_key("serviceParams"@) <==> s.len() > 4,
        s.len() > 4 ==> m["serviceParams"@] == s[4],
        m.contains_key("cancelStream"@) <==> s.len() > 5,
        s.len() > 5 ==> m["cancelStream"@] == s[5],
        !(other is Array),
        !(other is Object),
    ensures
        s.len() <= 6 ==> ws_request_read(Json::Array(s)) == ws_request_read(Json::Object(m)),
        s.len() > 6 ==> ws_request_read(Json::Array(s)) is None,
        ws_request_read(other) is None,
{
}

/// A response of the binding is written with a member for each thing that it has, and no
/// others.
pub proof fn law_ws_response_members_are_written(e: WsResponseView)
    ensures
        ws_response_json(e) is Object,
        forall|k: Seq<char>| #[trigger]
            ws_response_json(e)->Object_0.contains_key(k) ==> k == "jsonrpc"@ || (k == "id"@
                && e.id is Some) || (k == "result"@ && e.result is Some) || (k == "error"@
                && e.error is Some) || (k == "streamEnd"@ && e.stream_end is Some) || (k
                == "control"@ && e.control is Some) || (k == "reason"@ && e.reason is Some) || (k
                == "retryAfterMs"@ && e.retry_after_ms is Some),
        ws_response_json(e)->Object_0.contains_key("jsonrpc"@),
        ws_response_json(e)->Object_0["jsonrpc"@] == Json::Text(e.jsonrpc),
        e.id matches Some(x) ==> ws_response_json(e)->Object_0.contains_key("id"@)
            && ws_response_json(e)->Object_0["id"@] == id_json(x),
        e.result matches Some(x) ==> ws_response_json(e)->Object_0.contains_key("result"@)
            && ws_response_json(e)->Object_0["result"@] == x,
        e.error matches Some(x) ==> ws_response_json(e)->Object_0.contains_key("error"@)
            && ws_response_json(e)->Object_0["error"@] == error_json(x),
        e.stream_end matches Some(x) ==> ws_response_json(e)->Object_0.contains_key("streamEnd"@)
            && ws_response_json(e)->Object_0["streamEnd"@] == Json::Bool(x),
        e.control matches Some(x) ==> ws_response_json(e)->Object_0.contains_key("control"@)
            && ws_response_json(e)->Object_0["control"@] == Json::Text(x),
        e.reason matches Some(x) ==> ws_response_json(e)->Object_0.contains_key("reason"@)
            && ws_response_json(e)->Object_0["reason"@] == Json::Text(x),
        e.retry_after_ms matches Some(x)
            ==> ws_response_json(e)->Object_0.contains_key("retryAfterMs"@)
            && ws_response_json(e)->Object_0["retryAfterMs"@]
            == Json::Num(NumberModel::Int(x as int)),
{
    lemma_envelope_names();
}

/// A response of the binding is read from an object by the names of its members. A member
/// that may be left out is absent just where it is left out, or null.
pub proof fn law_ws_response_members_are_read(m: Map<Seq<char>, Json>, v: WsResponseView)
    requires
        ws_response_read(Json::Object(m)) == Some(v),
    ensures
        m.contains_key("jsonrpc"@) ==> m["jsonrpc"@] == Json::Text(v.jsonrpc),
        !m.contains_key("jsonrpc"@) ==> v.jsonrpc == "2.0"@,
        v.id is None <==> left_out(m, "id"@),
        v.id matches Some(x) ==> id_read(m["id"@]) == Some(x),
        v.result is None <==> left_out(m, "result"@),
        v.result matches Some(x) ==> m["result"@] == x,
        v.error is None <==> left_out(m, "error"@),
        v.error matches Some(x) ==> error_read(m["error"@]) == Some(x),
        v.stream_end is None <==> left_out(m, "streamEnd"@),
        v.stream_end matches Some(x) ==> m["streamEnd"@] == Json::Bool(x),
        v.control is None <==> left_out(m, "control"@),
        v.control matches Some(x) ==> m["control"@] == Json::Text(x),
        v.reason is None <==> left_out(m, "reason"@),
        v.reason matches Some(x) ==> m["reason"@] == Json::Text(x),
        v.retry_after_ms is None <==> left_out(m, "retryAfterMs"@),
        v.retry_after_ms matches Some(x) ==> m["retryAfterMs"@]
            == Json::Num(NumberModel::Int(x as int)),
{
}

/// An object is read as a response of the binding just where each of its members is what
/// it must be. Members of other names do not matter.
pub proof fn law_ws_responses_are_told_by_their_members(m: Map<Seq<char>, Json>)
    ensures
        ws_response_read(Json::Object(m)) is Some <==> (!m.contains_key("jsonrpc"@)
            || m["jsonrpc"@] is Text) && (left_out(m, "id"@) || id_read(m["id"@]) is Some)
            && (left_out(m, "error"@) || error_read(m["error"@]) is Some)
            && (left_out(m, "streamEnd"@) || m["streamEnd"@] is Bool) && (left_out(m, "control"@)
            || m["control"@] is Text) && (left_out(m, "reason"@) || m["reason"@] is Text)
            && (left_out(m, "retryAfterMs"@)
            || (m["retryAfterMs"@] matches Json::Num(NumberModel::Int(n)) && 0 <= n <= u64::MAX)),
{
}

/// A list is read like the object whose members are its items, in their order. One that
/// is too long is not read, and neither is what is no list and no object.
pub proof fn law_ws_responses_are_read_from_lists(
    s: Seq<Json>,
    m: Map<Seq<char>, Json>,
    other: Json,
)
    requires
        m.contains_key("jsonrpc"@) <==> s.len() > 0,
        s.len() > 0 ==> m["jsonrpc"@] == s[0],
        m.contains_key("id"@) <==> s.len() > 1,
        s.len() > 1 ==> m["id"@] == s[1],
        m.contains_key("result"@) <==> s.len() > 2,
        s.len() > 2 ==> m["result"@] == s[2],
        m.contains_key("error"@) <==> s.len() > 3,
        s.len() > 3 ==> m["error"@] == s[3],
        m.contains_key("streamEnd"@) <==> s.len() > 4,
        s.len() > 4 ==> m["streamEnd"@] == s[4],
        m.contains_key("control"@) <==> s.len() > 5,
        s.len() > 5 ==> m["control"@] == s[5],
        m.contains_key("reason"@) <==> s.len() > 6,
        s.len() > 6 ==> m["reason"@] == s[6],
        m.contains_key("retryAfterMs"@) <==> s.len() > 7,
        s.len() > 7 ==> m["retryAfterMs"@] == s[7],
        !(other is Array),
        !(other is Object),
    ensures
        s.len() <= 8 ==> ws_response_read(Json::Array(s)) == ws_response_read(Json::Object(m)),
        s.len() > 8 ==> ws_response_read(Json::Array(s)) is None,
        ws_response_read(other) is None,
{
}

/// A request of plain transport is written with a member for each thing that it has, and
/// no others.
pub proof fn law_request_members_are_written(e: RequestView)
    ensures
        request_json(e) is Object,
        forall|k: Seq<char>| #[trigger]
            request_json(e)->Object_0.contains_key(k) ==> k == "jsonrpc"@ || k == "id"@ || k
                == "method"@ || (k == "params"@ && e.params is Some) || (k == "serviceParams"@
                && e.service_params is Some),
        request_json(e)->Object_0.contains_key("jsonrpc"@),
        request_json(e)->Object_0["jsonrpc"@] == Json::Text(e.jsonrpc),
        request_json(e)->Object_0.contains_key("id"@),
        request_json(e)->Object_0["id"@] == id_json(e.id),
        request_json(e)->Object_0.contains_key("method"@),
        request_json(e)->Object_0["method"@] == Json::Text(e.method),
        e.params matches Some(x) ==> request_json(e)->Object_0.contains_key("params"@)
            && request_json(e)->Object_0["params"@] == x,
        e.service_params matches Some(x)
            ==> request_json(e)->Object_0.contains_key("serviceParams"@)
            && request_json(e)->Object_0["serviceParams"@] == lists_json(x),
{
    lemma_envelope_names();
}

/// A request of plain transport is read from an object by the names of its members. A
/// member that may be left out is absent just where it is left out, or null.
pub proof fn law_request_members_are_read(m: Map<Seq<char>, Json>, v: RequestView)
    requires
        request_read(Json::Object(m)) == Some(v),
    ensures
        m.contains_key("jsonrpc"@),
        m["jsonrpc"@] == Json::Text(v.jsonrpc),
        m.contains_key("id"@),
        id_read(m["id"@]) == Some(v.id),
        m.contains_key("method"@),
        m["method"@] == Json::Text(v.method),
        v.params is None <==> left_out(m, "params"@),
        v.params matches Some(x) ==> m["params"@] == x,
        v.service_params is None <==> left_out(m, "serviceParams"@),
        v.service_params matches Some(x) ==> lists_read(m["serviceParams"@]) == Some(x),
{
}

/// An object is read as a request of plain transport just where each of its members is
/// what it must be. Members of other names do not matter.
pub proof fn law_requests_are_told_by_their_members(m: Map<Seq<char>, Json>)
    ensures
        request_read(Json::Object(m)) is Some <==> (m.contains_key("jsonrpc"@)
            && m["jsonrpc"@] is Text) && (m.contains_key("id"@) && id_read(m["id"@]) is Some)
            && (m.contains_key("method"@) && m["method"@] is Text)
            && (left_out(m, "serviceParams"@) || lists_read(m["serviceParams"@]) is Some),
{
}

/// A list is read like the object whose members are its items, in their order. One that
/// is too long is not read, and neither is what is no list and no object.
pub proof fn law_requests_are_read_from_lists(s: Seq<Json>, m: Map<Seq<char>, Json>, other: Json)
    requires
        m.contains_key("jsonrpc"@) <==> s.len() > 0,
        s.len() > 0 ==> m["jsonrpc"@] == s[0],
        m.contains_key("id"@) <==> s.len() > 1,
        s.len() > 1 ==> m["id"@] == s[1],
        m.contains_key("method"@) <==> s.len() > 2,
        s.len() > 2 ==> m["method"@] == s[2],
        m.contains_key("params"@) <==> s.len() > 3,
        s.len() > 3 ==> m["params"@] == s[3],
        m.contains_key("serviceParams"@) <==> s.len() > 4,
        s.len() > 4 ==> m["serviceParams"@] == s[4],
        !(other is Array),
        !(other is Object),
    ensures
        s.len() <= 5 ==> request_read(Json::Array(s)) == request_read(Json::Object(m)),
        s.len() > 5 ==> request_read(Json::Array(s)) is None,
        request_read(other) is None,
{
}

/// A response of plain transport is written with a member for each thing that it has, and
/// no others.
pub proof fn law_response_members_are_written(e: ResponseView)
    ensures
        response_json(e) is Object,
        forall|k: Seq<char>| #[trigger]
            response_json(e)->Object_0.contains_key(k) ==> k == "jsonrpc"@ || k == "id"@ || (k
                == "result"@ && e.result is Some) || (k == "error"@ && e.error is Some) || (k
                == "streamEvent"@ && e.stream_event is Some) || (k == "streamError"@
                && e.stream_error is Some) || (k == "streamEnd"@ && e.stream_end is Some),
        response_json(e)->Object_0.contains_key("jsonrpc"@),
        response_json(e)->Object_0["jsonrpc"@] == Json::Text(e.jsonrpc),
        response_json(e)->Object_0.contains_key("id"@),
        response_json(e)->Object_0["id"@] == id_json(e.id),
        e.result matches Some(x) ==> response_json(e)->Object_0.contains_key("result"@)
            && response_json(e)->Object_0["result"@] == x,
        e.error matches Some(x) ==> response_json(e)->Object_0.contains_key("error"@)
            && response_json(e)->Object_0["error"@] == error_json(x),
        e.stream_event matches Some(x) ==> response_json(e)->Object_0.contains_key("streamEvent"@)
            && response_json(e)->Object_0["streamEvent"@] == x,
        e.stream_error matches Some(x) ==> response_json(e)->Object_0.contains_key("streamError"@)
            && response_json(e)->Object_0["streamError"@] == error_json(x),
        e.stream_end matches Some(x) ==> response_json(e)->Object_0.contains_key("streamEnd"@)
            && response_json(e)->Object_0["streamEnd"@] == Json::Bool(x),
{
    lemma_envelope_names();
}

/// A response of plain transport is read from an object by the names of its members. A
/// member that may be left out is absent just where it is left out, or null.
pub proof fn law_response_members_are_read(m: Map<Seq<char>, Json>, v: ResponseView)
    requires
        response_read(Json::Object(m)) == Some(v),
    ensures
        m.contains_key("jsonrpc"@),
        m["jsonrpc"@] == Json::Text(v.jsonrpc),
        m.contains_key("id"@),
        id_read(m["id"@]) == Some(v.id),
        v.result is None <==> left_out(m, "result"@),
        v.result matches Some(x) ==> m["result"@] == x,
        v.error is None <==> left_out(m, "error"@),
        v.error matches Some(x) ==> error_read(m["error"@]) == Some(x),
        v.stream_event is None <==> left_out(m, "streamEvent"@),
        v.stream_event matches Some(x) ==> m["streamEvent"@] == x,
        v.stream_error is None <==> left_out(m, "streamError"@),
        v.stream_error matches Some(x) ==> error_read(m["streamError"@]) == Some(x),
        v.stream_end is None <==> left_out(m, "streamEnd"@),
        v.stream_end matches Some(x) ==> m["streamEnd"@] == Json::Bool(x),
{
}

/// An object is read as a response of plain transport just where each of its members is
/// what it must be. Members of other names do not matter.
pub proof fn law_responses_are_told_by_their_members(m: Map<Seq<char>, Json>)
    ensures
        response_read(Json::Object(m)) is Some <==> (m.contains_key("jsonrpc"@)
            && m["jsonrpc"@] is Text) && (m.contains_key("id"@) && id_read(m["id"@]) is Some)
            && (left_out(m, "error"@) || error_read(m["error"@]) is Some)
            && (left_out(m, "streamError"@) || error_read(m["streamError"@]) is Some)
            && (left_out(m, "streamEnd"@) || m["streamEnd"@] is Bool),
{
}

/// A list is read like the object whose members are its items, in their order. One that
/// is too long is not read, and neither is what is no list and no object.
pub proof fn law_responses_are_read_from_lists(s: Seq<Json>, m: Map<Seq<char>, Json>, other: Json)
    requires
        m.contains_key("jsonrpc"@) <==> s.len() > 0,
        s.len() > 0 ==> m["jsonrpc"@] == s[0],
        m.contains_key("id"@) <==> s.len() > 1,
        s.len() > 1 ==> m["id"@] == s[1],
        m.contains_key("result"@) <==> s.len() > 2,
        s.len() > 2 ==> m["result"@] == s[2],
        m.contains_key("error"@) <==> s.len() > 3,
        s.len() > 3 ==> m["error"@] == s[3],
        m.contains_key("streamEvent"@) <==> s.len() > 4,
        s.len() > 4 ==> m["streamEvent"@] == s[4],
        m.contains_key("streamError"@) <==> s.len() > 5,
        s.len() > 5 ==> m["streamError"@] == s[5],
        m.contains_key("streamEnd"@) <==> s.len() > 6,
        s.len() > 6 ==> m["streamEnd"@] == s[6],
        !(other is Array),
        !(other is Object),
    ensures
        s.len() <= 7 ==> response_read(Json::Array(s)) == response_read(Json::Object(m)),
        s.len() > 7 ==> response_read(Json::Array(s)) is None,
        response_read(other) is None,
{
}

} // verus!
