//! What identifiers, errors, methods and service parameters promise, whichever transport
//! carries them.
use crate::dispatch::{
    call_outcome, no_such_method, operation_name, outcome, stream_operation_name, unwritable_item,
    HandledView, Operation, StreamOperation,
};
use crate::error_code::reason;
use crate::json_value::{
    lemma_members_has, lemma_members_last, model, Json, JsonNum, JsonValue, NumberModel,
};
use crate::methods::{answers_once, known, streams};
use crate::params::{lists, with_value};
use crate::protocol::{
    error_json, error_read, flat, flat_json, flat_read, id_json, id_read, key_text, opt_error,
    opt_id, opt_model, plain_error, reported, A2AError, ErrorView, IdView, JsonRpcError, JsonRpcId,
};
use crate::protojson::{law_finishing_adds_only_a_token, normalized};
use crate::record::{lists_json, lists_read, texts_json, texts_read};
use crate::text::{int_digits, opt_text, texts};
use crate::websocket::errors::{fatal_code, read_fault_code, ReadFault};
use vstd::prelude::*;

verus! {

// ---------------------------------------------------------------------------
// Identifiers.
// ---------------------------------------------------------------------------

/// An identifier is written as the text, the integer or the null that it is.
pub proof fn law_ids_are_written_as_they_are(s: Seq<char>, n: i64)
    ensures
        id_json(IdView::Text(s)) == Json::Text(s),
        id_json(IdView::Int(n)) == Json::Num(NumberModel::Int(n as int)),
        id_json(IdView::Null) == Json::Null,
{
}

/// What is read as an identifier is a text, a null, or an integer that fits, and it is
/// read as that. Nothing else is an identifier.
pub proof fn law_only_texts_integers_and_null_are_ids(j: Json)
    ensures
        id_read(j) is Some <==> j is Text || j is Null || (j matches Json::Num(NumberModel::Int(n))
            && -0x8000_0000_0000_0000 <= n <= 0x7fff_ffff_ffff_ffff),
        id_read(j) matches Some(i) ==> match i {
            IdView::Text(s) => j == Json::Text(s),
            IdView::Int(n) => j == Json::Num(NumberModel::Int(n as int)),
            IdView::Null => j == Json::Null,
        },
{
}

// ---------------------------------------------------------------------------
// Errors.
// ---------------------------------------------------------------------------

/// An error is written with its code, its message, and its data where it has any. Nothing
/// else is written.
pub proof fn law_errors_are_written_whole(e: ErrorView)
    ensures
        error_json(e) matches Json::Object(m) && {
            &&& forall|k: Seq<char>| #[trigger]
                m.contains_key(k) <==> k == "code"@ || k == "message"@ || (k == "data"@
                    && e.data is Some)
            &&& m["code"@] == Json::Num(NumberModel::Int(e.code as int))
            &&& m["message"@] == Json::Text(e.message)
            &&& e.data matches Some(d) ==> m["data"@] == d
        },
{
    reveal_strlit("code");
    reveal_strlit("message");
    reveal_strlit("data");
    assert("code"@.len() == 4 && "message"@.len() == 7 && "data"@.len() == 4);
    assert("code"@[0] == 'c' && "data"@[0] == 'd');
}

/// An error is read from an object with a code that fits and a message. Its data is what
/// is there, unless that is null. Whatever else is there does not matter, and nothing
/// else is an error.
pub proof fn law_errors_are_read_by_name(j: Json)
    ensures
        error_read(j) is Some <==> (j matches Json::Object(m) && m.contains_key("code"@)
            && m.contains_key("message"@) && m["message"@] is Text && (m["code"@]
            matches Json::Num(NumberModel::Int(n)) && -0x8000_0000 <= n <= 0x7fff_ffff)),
        error_read(j) matches Some(e) ==> (j matches Json::Object(m) && {
            &&& m["code"@] == Json::Num(NumberModel::Int(e.code as int))
            &&& m["message"@] == Json::Text(e.message)
            &&& e.data == (if m.contains_key("data"@) && !(m["data"@] is Null) {
                Some(m["data"@])
            } else {
                None
            })
        }),
{
}

/// An error that is made here has just the code and the message that it is made of.
pub proof fn law_plain_errors_have_no_data(code: i32, message: Seq<char>)
    ensures
        plain_error(code, message).code == code,
        plain_error(code, message).message == message,
        plain_error(code, message).data is None,
{
}

/// The codes that have names, and their names. No other code has one.
pub proof fn law_codes_have_names(code: i32)
    ensures
        reason(code) == (if code == -32700 {
            Some("PARSE_ERROR"@)
        } else if code == -32600 {
            Some("INVALID_REQUEST"@)
        } else if code == -32601 {
            Some("METHOD_NOT_FOUND"@)
        } else if code == -32602 {
            Some("INVALID_PARAMS"@)
        } else if code == -32603 {
            Some("INTERNAL_ERROR"@)
        } else if code == -32001 {
            Some("TASK_NOT_FOUND"@)
        } else if code == -32002 {
            Some("TASK_NOT_CANCELABLE"@)
        } else if code == -32003 {
            Some("PUSH_NOTIFICATION_NOT_SUPPORTED"@)
        } else if code == -32004 {
            Some("UNSUPPORTED_OPERATION"@)
        } else if code == -32005 {
            Some("CONTENT_TYPE_NOT_SUPPORTED"@)
        } else if code == -32006 {
            Some("INVALID_AGENT_RESPONSE"@)
        } else if code == -32007 {
            Some("EXTENDED_CARD_NOT_CONFIGURED"@)
        } else if code == -32008 {
            Some("EXTENSION_SUPPORT_REQUIRED"@)
        } else if code == -32009 {
            Some("VERSION_NOT_SUPPORTED"@)
        } else {
            None
        }),
{
}

/// Reporting an error changes neither its code nor its message. An error without a name
/// is reported as it is. One with a name gets a list for its data: its own data, which
/// stays as it was where it was a list and is the only item where it was anything else,
/// and after that one object that holds the name and nothing else.
pub proof fn law_errors_are_reported_whole(e: ErrorView)
    ensures
        reported(e).code == e.code,
        reported(e).message == e.message,
        reason(e.code) is None ==> reported(e) == e,
        reason(e.code) matches Some(name) ==> (reported(e).data matches Some(Json::Array(s)) && {
            &&& s.len() > 0
            &&& s.last() == Json::Object(map!["reason"@ => Json::Text(name)])
            &&& e.data is None ==> s.len() == 1
            &&& e.data matches Some(Json::Array(own)) ==> s == own.push(s.last())
            &&& e.data is Some && !(e.data->0 is Array) ==> s == seq![e.data->0, s.last()]
        }),
{
    if let Some(name) = reason(e.code) {
        let s = reported(e).data->0->Array_0;
        if e.data is Some && !(e.data->0 is Array) {
            assert(s =~= seq![e.data->0, s.last()]);
        }
    }
}

/// The only errors that end a connection are that a message could not be read, and that
/// its version is not spoken.
pub proof fn law_few_errors_are_fatal(code: i32)
    ensures
        fatal_code(code) == (if code == -32700 {
            Some(1002u16)
        } else if code == -32009 {
            Some(4002u16)
        } else {
            None
        }),
{
}

/// A peer that has gone is told nothing, one whose message was too big is told that, and
/// every other one that it broke the protocol.
pub proof fn law_faults_are_told_by_their_code(f: ReadFault)
    ensures
        read_fault_code(f) is None <==> f == ReadFault::ConnectionClosed || f
            == ReadFault::UnexpectedEof || f == ReadFault::Broken,
        read_fault_code(f) matches Some(code) ==> code == (if f == ReadFault::FrameTooLarge {
            1009u16
        } else {
            1002u16
        }),
{
}

// ---------------------------------------------------------------------------
// Maps and lists of texts.
// ---------------------------------------------------------------------------

/// A map of texts is read from an object all of whose members are texts, and from nothing
/// else. It has the same names, each with the same text.
pub proof fn law_flat_maps_are_read_whole(j: Json)
    ensures
        flat_read(j) is Some <==> (j matches Json::Object(m) && forall|k: Seq<char>|
            m.contains_key(k) ==> (#[trigger] m[k]) is Text),
        flat_read(j) matches Some(r) ==> (j matches Json::Object(m) && r.dom() == m.dom() && (
        forall|k: Seq<char>| r.contains_key(k) ==> m[k] == Json::Text(#[trigger] r[k]))),
{
    if let Some(r) = flat_read(j) {
        assert(r.dom() =~= j->Object_0.dom());
    }
}

/// A map of texts is written as an object with the same names, each with its text.
pub proof fn law_flat_maps_are_written_whole(m: Map<Seq<char>, Seq<char>>)
    ensures
        flat_json(m) matches Json::Object(o) && o.dom() == m.dom() && (forall|k: Seq<char>|
            m.contains_key(k) ==> #[trigger] o[k] == Json::Text(m[k])),
{
    assert(flat_json(m)->Object_0.dom() =~= m.dom());
}

/// A list of texts is read from an array all of whose items are texts, and from nothing
/// else. It has the same length, and each text stands where it stood.
pub proof fn law_texts_are_read_whole(j: Json)
    ensures
        texts_read(j) is Some <==> (j matches Json::Array(a) && forall|i: int|
            0 <= i < a.len() ==> (#[trigger] a[i]) is Text),
        texts_read(j) matches Some(r) ==> (j matches Json::Array(a) && r.len() == a.len() && (
        forall|i: int| 0 <= i < r.len() ==> a[i] == Json::Text(#[trigger] r[i]))),
{
}

/// A list of texts is written as an array of the same length, with each text where it
/// stood.
pub proof fn law_texts_are_written_whole(s: Seq<Seq<char>>)
    ensures
        texts_json(s) matches Json::Array(a) && a.len() == s.len() && (forall|i: int|
            0 <= i < s.len() ==> #[trigger] a[i] == Json::Text(s[i])),
{
}

/// Service parameters are read from an object all of whose members are lists of texts,
/// and from nothing else. They have the same names, each with its list.
pub proof fn law_lists_are_read_whole(j: Json)
    ensures
        lists_read(j) is Some <==> (j matches Json::Object(m) && forall|k: Seq<char>|
            m.contains_key(k) ==> texts_read(#[trigger] m[k]) is Some),
        lists_read(j) matches Some(r) ==> (j matches Json::Object(m) && r.dom() == m.dom() && (
        forall|k: Seq<char>| r.contains_key(k) ==> texts_read(m[k]) == Some(#[trigger] r[k]))),
{
    if let Some(r) = lists_read(j) {
        let m = j->Object_0;
        assert(r.dom() =~= m.dom());
        assert forall|k: Seq<char>| r.contains_key(k) implies texts_read(m[k]) == Some(
            #[trigger] r[k],
        ) by {
            assert(m.contains_key(k));
        }
    }
}

/// Service parameters are written as an object with the same names, each with its list.
pub proof fn law_lists_are_written_whole(m: Map<Seq<char>, Seq<Seq<char>>>)
    ensures
        lists_json(m) matches Json::Object(o) && o.dom() == m.dom() && (forall|k: Seq<char>|
            m.contains_key(k) ==> #[trigger] o[k] == texts_json(m[k])),
{
    assert(lists_json(m)->Object_0.dom() =~= m.dom());
}

/// Adding a value puts it at the end of the list of its name, after all that was there.
/// Every other list stays as it was.
pub proof fn law_values_are_added_at_the_end(
    m: Map<Seq<char>, Seq<Seq<char>>>,
    k: Seq<char>,
    v: Seq<char>,
    other: Seq<char>,
)
    ensures
        with_value(m, k, v).contains_key(k),
        m.contains_key(k) ==> with_value(m, k, v)[k] == m[k].push(v),
        !m.contains_key(k) ==> with_value(m, k, v)[k] == seq![v],
        other != k ==> (with_value(m, k, v).contains_key(other) <==> m.contains_key(other)) && (
        m.contains_key(other) ==> with_value(m, k, v)[other] == m[other]),
{
    if !m.contains_key(k) {
        assert(with_value(m, k, v)[k] =~= seq![v]);
    }
}

// ---------------------------------------------------------------------------
// Methods.
// ---------------------------------------------------------------------------

/// The methods that stream, those that answer once, and no others, are known.
pub proof fn law_methods_are_these(method: Seq<char>)
    ensures
        streams(method) <==> method == "SendStreamingMessage"@ || method == "SubscribeToTask"@,
        answers_once(method) <==> method == "SendMessage"@ || method == "GetTask"@ || method
            == "ListTasks"@ || method == "CancelTask"@ || method
            == "CreateTaskPushNotificationConfig"@ || method == "GetTaskPushNotificationConfig"@
            || method == "ListTaskPushNotificationConfigs"@ || method
            == "DeleteTaskPushNotificationConfig"@ || method == "GetExtendedAgentCard"@,
        known(method) <==> streams(method) || answers_once(method),
{
}

/// Each operation is that of its method: it answers once where the method does, and every
/// method that answers once has an operation.
pub proof fn law_operations_cover_the_methods(o: Operation, s: StreamOperation)
    ensures
        answers_once(operation_name(o)),
        streams(stream_operation_name(s)),
        operation_name(Operation::SendMessage) == "SendMessage"@,
        operation_name(Operation::GetTask) == "GetTask"@,
        operation_name(Operation::ListTasks) == "ListTasks"@,
        operation_name(Operation::CancelTask) == "CancelTask"@,
        operation_name(Operation::CreatePushConfig) == "CreateTaskPushNotificationConfig"@,
        operation_name(Operation::GetPushConfig) == "GetTaskPushNotificationConfig"@,
        operation_name(Operation::ListPushConfigs) == "ListTaskPushNotificationConfigs"@,
        operation_name(Operation::DeletePushConfig) == "DeleteTaskPushNotificationConfig"@,
        operation_name(Operation::GetExtendedAgentCard) == "GetExtendedAgentCard"@,
        stream_operation_name(StreamOperation::SendStreamingMessage) == "SendStreamingMessage"@,
        stream_operation_name(StreamOperation::SubscribeToTask) == "SubscribeToTask"@,
{
}

/// A method that is not known is named in the error that says so.
pub proof fn law_unknown_methods_are_named(method: Seq<char>)
    ensures
        no_such_method(method).code == -32601,
        no_such_method(method).message == "method not found: "@ + method,
        no_such_method(method).data is None,
{
}

/// Whatever the method, a call comes to the value that its handler gave, made ready to be
/// sent: its times are put right, and a page of tasks, which answers `ListTasks` alone,
/// gets a token where it has none.
pub proof fn law_calls_come_to_the_value_given(method: Seq<char>, j: Json)
    ensures
        call_outcome(method, HandledView::Value(j)) is Ok,
        method != "ListTasks"@ || !(j is Object) ==> call_outcome(
            method,
            HandledView::Value(j),
        )->Ok_0 == normalized(j),
        method == "ListTasks"@ && j is Object ==> call_outcome(method, HandledView::Value(j))->Ok_0
            == (if normalized(j)->Object_0.contains_key("nextPageToken"@) {
            normalized(j)
        } else {
            Json::Object(
                normalized(j)->Object_0.insert("nextPageToken"@, Json::Text(Seq::empty())),
            )
        }),
{
    law_finishing_adds_only_a_token(j, method);
}

/// A call that gives no value comes to what its handler says: null where it was done, the
/// error where it failed, and else an error that says what could not be read or written.
pub proof fn law_calls_without_a_value_are_told(method: Seq<char>, text: Seq<char>, e: ErrorView)
    ensures
        call_outcome(method, HandledView::Done) == Ok::<Json, ErrorView>(Json::Null),
        call_outcome(method, HandledView::Failed(e)) == Err::<Json, ErrorView>(e),
        call_outcome(method, HandledView::Unreadable(text)) == Err::<Json, ErrorView>(
            ErrorView { code: (-32700) as i32, message: "invalid params: "@ + text, data: None },
        ),
        call_outcome(method, HandledView::Unwritable(text)) == Err::<Json, ErrorView>(
            ErrorView {
                code: (-32603) as i32,
                message: "failed to serialize ProtoJSON payload: "@ + text,
                data: None,
            },
        ),
        unwritable_item(text) == (ErrorView {
            code: (-32603) as i32,
            message: "failed to serialize ProtoJSON stream payload: "@ + text,
            data: None,
        }),
{
}

// ---------------------------------------------------------------------------
// What values stand for.
// ---------------------------------------------------------------------------

/// A value stands for what it says: a null, a truth value, an integer, a text, or an
/// array of what its items stand for, each in its place.
pub proof fn law_values_stand_for_what_they_say(
    b: bool,
    i: i64,
    u: u64,
    s: String,
    a: Vec<JsonValue>,
)
    ensures
        model(JsonValue::Null) == Json::Null,
        model(JsonValue::Bool(b)) == Json::Bool(b),
        model(JsonValue::Num(JsonNum::Int(i))) == Json::Num(NumberModel::Int(i as int)),
        model(JsonValue::Num(JsonNum::UInt(u))) == Json::Num(NumberModel::Int(u as int)),
        model(JsonValue::Text(s)) == Json::Text(s@),
        model(JsonValue::Array(a)) matches Json::Array(t) && t.len() == a@.len() && (forall|k: int|
            0 <= k < a@.len() ==> #[trigger] t[k] == model(a@[k])),
{
}

/// An object stands for its members: each name that it has, with what its last entry of
/// that name stands for.
pub proof fn law_objects_stand_for_their_members(
    e: Vec<(String, JsonValue)>,
    i: int,
    name: Seq<char>,
)
    ensures
        model(JsonValue::Object(e)) matches Json::Object(m) && {
            &&& m.contains_key(name) <==> exists|k: int|
                0 <= k < e@.len() && #[trigger] e@[k].0@ == name
            &&& 0 <= i < e@.len() && (forall|j: int|
                i < j < e@.len() ==> #[trigger] e@[j].0@ != e@[i].0@) ==> m[e@[i].0@] == model(
                e@[i].1,
            )
        },
{
    lemma_members_has(e@, e@.len() as int, name);
    if 0 <= i < e@.len() && (forall|j: int|
        i < j < e@.len() ==> #[trigger] e@[j].0@ != e@[i].0@) {
        lemma_members_last(e@, e@.len() as int, i);
    }
}

/// What may be absent stands for what it holds, or for nothing.
pub proof fn law_optional_values_stand_for_what_they_hold(
    s: String,
    i: JsonRpcId,
    e: JsonRpcError,
    v: JsonValue,
    f: A2AError,
)
    ensures
        opt_text(Some(s)) == Some(s@),
        opt_text(None) is None,
        opt_id(Some(i)) == Some(i@),
        opt_id(None) is None,
        opt_error(Some(e)) == Some(e@),
        opt_error(None) is None,
        opt_model(Some(v)) == Some(model(v)),
        opt_model(None) is None,
        outcome(Ok(v)) == Ok::<Json, ErrorView>(model(v)),
        outcome(Err(f)) == Err::<Json, ErrorView>(f@),
        e@.code == e.code,
        e@.message == e.message@,
        f@.code == f.code,
        f@.message == f.message@,
{
}

/// Lists and maps of texts stand for the same texts, in the same places and under the
/// same names.
pub proof fn law_collections_stand_for_what_they_hold(
    s: Seq<String>,
    m: Map<Seq<char>, String>,
    l: Map<Seq<char>, Vec<String>>,
)
    ensures
        texts(s).len() == s.len(),
        forall|i: int| 0 <= i < s.len() ==> #[trigger] texts(s)[i] == s[i]@,
        flat(m).dom() == m.dom(),
        forall|k: Seq<char>| m.contains_key(k) ==> #[trigger] flat(m)[k] == m[k]@,
        lists(l).dom() == l.dom(),
        forall|k: Seq<char>| l.contains_key(k) ==> #[trigger] lists(l)[k] == texts(l[k]@),
{
    assert(flat(m).dom() =~= m.dom());
    assert(lists(l).dom() =~= l.dom());
}

/// An identifier is kept under a key that says what it is: a text after one mark, an
/// integer after another, and null by a word of its own.
pub proof fn law_keys_say_what_an_id_is(s: Seq<char>, n: i64)
    ensures
        key_text(IdView::Text(s)) == "s:"@ + s,
        key_text(IdView::Int(n)) == "n:"@ + int_digits(n as int),
        key_text(IdView::Null) == "null"@,
{
}

} // verus!
