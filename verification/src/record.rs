//! Records in JSON: objects with named members, some of which may be absent.
use crate::json_value::{
    copy_value, entry, items, lemma_array_model, lemma_members_has, lemma_reserved_name, model,
    object, set_member, Json, JsonNum, JsonValue, NumberModel, RESERVED_NAME,
};
use crate::params::{lemma_lists_insert, lists, ServiceParams};
use crate::protocol::{
    error_read, flat_from_value, flat_read, id_read, opt_error, opt_flat, opt_id, opt_model,
    ErrorView, IdView, JsonRpcError, JsonRpcId,
};
use crate::text::{opt_text, texts};
use crate::text_map::{map_of, TextMap};
use vstd::prelude::*;

verus! {

// ---------------------------------------------------------------------------
// Lists of strings and numbers.
// ---------------------------------------------------------------------------

/// The list of strings that a value is, if it is one.
pub open spec fn texts_read(j: Json) -> Option<Seq<Seq<char>>> {
    match j {
        Json::Array(s) => if forall|i: int| 0 <= i < s.len() ==> (#[trigger] s[i]) is Text {
            Some(Seq::new(s.len(), |i: int| s[i]->Text_0))
        } else {
            None
        },
        _ => None,
    }
}

/// The texts of an optional list.
pub open spec fn opt_texts(o: Option<Vec<String>>) -> Option<Seq<Seq<char>>> {
    match o {
        Some(v) => Some(texts(v@)),
        None => None,
    }
}

/// The list of strings that `v` is, if it is one.
pub fn texts_from_value(v: &JsonValue) -> (r: Option<Vec<String>>)
    ensures
        opt_texts(r) == texts_read(model(*v)),
{
    let a = match v {
        JsonValue::Array(a) => a,
        _ => {
            return None;
        },
    };
    proof {
        lemma_array_model(*a);
    }
    let ghost s = items(a@);
    let mut out: Vec<String> = Vec::new();
    let mut i: usize = 0;
    while i < a.len()
        invariant
            i <= a.len(),
            out.len() == i,
            s == items(a@),
            model(*v) == Json::Array(s),
            forall|j: int| 0 <= j < i ==> #[trigger] s[j] == Json::Text(out@[j]@),
        decreases a.len() - i,
    {
        match &a[i] {
            JsonValue::Text(t) => {
                out.push(t.clone());
            },
            _ => {
                assert(!(s[i as int] is Text));
                return None;
            },
        }
        i = i + 1;
    }
    assert(texts(out@) =~= texts_read(model(*v))->0);
    Some(out)
}

/// The JSON form of a list of strings.
pub open spec fn texts_json(s: Seq<Seq<char>>) -> Json {
    Json::Array(Seq::new(s.len(), |i: int| Json::Text(s[i])))
}

/// The JSON form of a list of strings.
pub fn texts_to_value(s: &Vec<String>) -> (r: JsonValue)
    ensures
        model(r) == texts_json(texts(s@)),
{
    let mut out: Vec<JsonValue> = Vec::new();
    let mut i: usize = 0;
    while i < s.len()
        invariant
            i <= s.len(),
            out.len() == i,
            forall|j: int| 0 <= j < i ==> model(#[trigger] out@[j]) == Json::Text(s@[j]@),
        decreases s.len() - i,
    {
        out.push(JsonValue::Text(s[i].clone()));
        i = i + 1;
    }
    proof {
        lemma_array_model(out);
        assert(items(out@) =~= texts_json(texts(s@))->Array_0);
    }
    JsonValue::Array(out)
}

/// The JSON form of a number.
pub fn u64_value(n: u64) -> (r: JsonValue)
    ensures
        model(r) == Json::Num(NumberModel::Int(n as int)),
{
    if n <= i64::MAX as u64 {
        JsonValue::Num(JsonNum::Int(n as i64))
    } else {
        JsonValue::Num(JsonNum::UInt(n))
    }
}

// ---------------------------------------------------------------------------
// Maps of lists of strings.
// ---------------------------------------------------------------------------

/// The JSON form of service parameters.
pub open spec fn lists_json(m: Map<Seq<char>, Seq<Seq<char>>>) -> Json {
    Json::Object(Map::new(|k: Seq<char>| m.contains_key(k), |k: Seq<char>| texts_json(m[k])))
}

/// The service parameters that a JSON value holds, if it does.
pub open spec fn lists_read(j: Json) -> Option<Map<Seq<char>, Seq<Seq<char>>>> {
    match j {
        Json::Object(m) => if forall|k: Seq<char>|
            m.contains_key(k) ==> texts_read(#[trigger] m[k]) is Some {
            Some(Map::new(|k: Seq<char>| m.contains_key(k), |k: Seq<char>| texts_read(m[k])->0))
        } else {
            None
        },
        _ => None,
    }
}

/// The JSON form of a list of strings reads as that list.
pub proof fn law_texts_read_back(s: Seq<Seq<char>>)
    ensures
        texts_read(texts_json(s)) == Some(s),
{
    let a = texts_json(s)->Array_0;
    assert(texts_read(texts_json(s))->0 =~= s);
}

/// The JSON form of service parameters reads as those parameters.
pub proof fn law_lists_read_back(m: Map<Seq<char>, Seq<Seq<char>>>)
    ensures
        lists_read(lists_json(m)) == Some(m),
{
    let j = lists_json(m)->Object_0;
    assert forall|k: Seq<char>| j.contains_key(k) implies texts_read(#[trigger] j[k]) == Some(
        m[k],
    ) by {
        law_texts_read_back(m[k]);
    }
    assert(lists_read(lists_json(m))->0 =~= m);
}

/// The contents of optional service parameters.
pub open spec fn opt_lists(o: Option<ServiceParams>) -> Option<Map<Seq<char>, Seq<Seq<char>>>> {
    match o {
        Some(m) => Some(lists(m@)),
        None => None,
    }
}

/// The JSON form of service parameters.
pub fn lists_to_value(m: &ServiceParams) -> (r: JsonValue)
    ensures
        model(r) == lists_json(lists(m@)),
{
    let n: usize = m.len();
    let ghost es = m.spec_entries();
    let mut out: Vec<(String, JsonValue)> = Vec::new();
    let mut i: usize = 0;
    assert(object(out@) =~= lists_json(lists(map_of(es.take(0))))->Object_0);
    while i < n
        invariant
            i <= n,
            n == es.len(),
            es == m.spec_entries(),
            object(out@) == lists_json(lists(map_of(es.take(i as int))))->Object_0,
        decreases n - i,
    {
        let key = m.key_at(i).to_owned();
        let value = texts_to_value(m.value_at(i));
        set_member(&mut out, key, value);
        proof {
            let t = es.take(i + 1);
            assert(t.drop_last() =~= es.take(i as int));
            lemma_lists_insert(map_of(es.take(i as int)), es[i as int].0, es[i as int].1);
            assert(object(out@) =~= lists_json(lists(map_of(t)))->Object_0);
        }
        i = i + 1;
    }
    assert(es.take(n as int) =~= es);
    JsonValue::Object(out)
}

/// The service parameters that `v` holds, if it does.
pub fn lists_from_value(v: &JsonValue) -> (r: Option<ServiceParams>)
    ensures
        opt_lists(r) == lists_read(model(*v)),
{
    let e = match v {
        JsonValue::Object(e) => e,
        _ => {
            return None;
        },
    };
    let ghost m = object(e@);
    let mut out: ServiceParams = TextMap::new();
    let mut i: usize = 0;
    while i < e.len()
        invariant
            i <= e.len(),
            m == object(e@),
            *v == JsonValue::Object(*e),
            forall|k: Seq<char>| #[trigger]
                out@.contains_key(k) <==> exists|j: int| 0 <= j < i && (#[trigger] e@[j]).0@ == k,
            forall|k: Seq<char>| #[trigger]
                out@.contains_key(k) ==> m.contains_key(k) && texts_read(m[k]) == Some(
                    texts(out@[k]@),
                ),
        decreases e.len() - i,
    {
        let ghost key = e@[i as int].0@;
        proof {
            lemma_members_has(e@, e@.len() as int, key);
            assert(e@[i as int].0@ == key);
            assert(m.contains_key(key));
        }
        let found = match entry(e, e[i].0.as_str()) {
            Some(x) => texts_from_value(x),
            None => None,
        };
        match found {
            Some(values) => {
                let ghost before = out@;
                out.insert(e[i].0.clone(), values);
                proof {
                    assert forall|k: Seq<char>| #[trigger] out@.contains_key(k) <==> exists|j: int|
                        0 <= j < i + 1 && (#[trigger] e@[j]).0@ == k by {
                        if before.contains_key(k) {
                            let j = choose|j: int| 0 <= j < i && (#[trigger] e@[j]).0@ == k;
                            assert(e@[j].0@ == k);
                        }
                        if k == key {
                            assert(e@[i as int].0@ == k);
                        }
                    }
                }
            },
            None => {
                assert(texts_read(m[key]) is None);
                return None;
            },
        }
        i = i + 1;
    }
    proof {
        assert forall|k: Seq<char>| m.contains_key(k) <==> #[trigger] out@.contains_key(k) by {
            lemma_members_has(e@, e@.len() as int, k);
            if m.contains_key(k) {
                let j = choose|j: int| 0 <= j < e@.len() && #[trigger] e@[j].0@ == k;
                assert(e@[j].0@ == k);
            }
        }
        assert forall|k: Seq<char>| m.contains_key(k) implies texts_read(#[trigger] m[k]) is Some by {
            assert(out@.contains_key(k));
        }
        assert(lists(out@) =~= lists_read(model(*v))->0);
    }
    Some(out)
}

// ---------------------------------------------------------------------------
// Fields.
// ---------------------------------------------------------------------------

/// An object's members with one more, if there is one.
pub open spec fn put(m: Map<Seq<char>, Json>, k: Seq<char>, o: Option<Json>) -> Map<
    Seq<char>,
    Json,
> {
    match o {
        Some(j) => m.insert(k, j),
        None => m,
    }
}

/// Whether a value can be a record of `n` fields: an object, or the list of its
/// first fields in order.
pub open spec fn is_record(j: Json, n: nat) -> bool {
    match j {
        Json::Object(_) => true,
        Json::Array(s) => s.len() <= n,
        _ => false,
    }
}

/// The field of a record that has this place and this name.
pub open spec fn field(j: Json, i: nat, k: Seq<char>) -> Option<Json> {
    match j {
        Json::Object(m) => if m.contains_key(k) {
            Some(m[k])
        } else {
            None
        },
        Json::Array(s) => if i < s.len() {
            Some(s[i as int])
        } else {
            None
        },
        _ => None,
    }
}

/// A field, unless it is absent or null.
pub open spec fn given(j: Json, i: nat, k: Seq<char>) -> Option<Json> {
    match field(j, i, k) {
        Some(Json::Null) => None,
        o => o,
    }
}

/// Whether `v` can be a record of `n` fields.
pub fn record_like(v: &JsonValue, n: usize) -> (r: bool)
    ensures
        r == is_record(model(*v), n as nat),
{
    match v {
        JsonValue::Object(_) => true,
        JsonValue::Array(a) => {
            proof {
                lemma_array_model(*a);
            }
            a.len() <= n
        },
        _ => false,
    }
}

/// The field of `v` that has this place and this name.
pub fn field_of<'a>(v: &'a JsonValue, i: usize, key: &str) -> (r: Option<&'a JsonValue>)
    ensures
        r is Some <==> field(model(*v), i as nat, key@) is Some,
        r matches Some(x) ==> field(model(*v), i as nat, key@) == Some(model(*x)),
{
    match v {
        JsonValue::Object(e) => entry(e, key),
        JsonValue::Array(a) => {
            proof {
                lemma_array_model(*a);
            }
            if i < a.len() {
                Some(&a[i])
            } else {
                None
            }
        },
        _ => None,
    }
}

/// The field of `v` that has this place and this name, unless it is null.
pub fn given_of<'a>(v: &'a JsonValue, i: usize, key: &str) -> (r: Option<&'a JsonValue>)
    ensures
        r is Some <==> given(model(*v), i as nat, key@) is Some,
        r matches Some(x) ==> given(model(*v), i as nat, key@) == Some(model(*x)),
{
    match field_of(v, i, key) {
        Some(x) => if x.is_null() {
            None
        } else {
            Some(x)
        },
        None => None,
    }
}

/// A text that must be there.
pub open spec fn text_field(j: Json, i: nat, k: Seq<char>) -> Option<Seq<char>> {
    match field(j, i, k) {
        Some(Json::Text(s)) => Some(s),
        _ => None,
    }
}

/// A text that may be absent: then it is `usual`.
pub open spec fn text_or(j: Json, i: nat, k: Seq<char>, usual: Seq<char>) -> Option<Seq<char>> {
    match field(j, i, k) {
        None => Some(usual),
        Some(Json::Text(s)) => Some(s),
        _ => None,
    }
}

/// An identifier that must be there.
pub open spec fn id_field(j: Json, i: nat, k: Seq<char>) -> Option<IdView> {
    match field(j, i, k) {
        Some(v) => id_read(v),
        None => None,
    }
}

/// An identifier that may be absent or null. The outer `None` says that the
/// field is something else.
pub open spec fn opt_id_field(j: Json, i: nat, k: Seq<char>) -> Option<Option<IdView>> {
    match given(j, i, k) {
        None => Some(None),
        Some(v) => match id_read(v) {
            Some(x) => Some(Some(x)),
            None => None,
        },
    }
}

/// A text that may be absent or null.
pub open spec fn opt_text_field(j: Json, i: nat, k: Seq<char>) -> Option<Option<Seq<char>>> {
    match given(j, i, k) {
        None => Some(None),
        Some(Json::Text(s)) => Some(Some(s)),
        _ => None,
    }
}

/// A truth value that may be absent or null.
pub open spec fn opt_bool_field(j: Json, i: nat, k: Seq<char>) -> Option<Option<bool>> {
    match given(j, i, k) {
        None => Some(None),
        Some(Json::Bool(b)) => Some(Some(b)),
        _ => None,
    }
}

/// A number of 64 bits that may be absent or null.
pub open spec fn opt_u64_field(j: Json, i: nat, k: Seq<char>) -> Option<Option<u64>> {
    match given(j, i, k) {
        None => Some(None),
        Some(Json::Num(NumberModel::Int(n))) => if 0 <= n <= u64::MAX {
            Some(Some(n as u64))
        } else {
            None
        },
        _ => None,
    }
}

/// An error that may be absent or null.
pub open spec fn opt_error_field(j: Json, i: nat, k: Seq<char>) -> Option<Option<ErrorView>> {
    match given(j, i, k) {
        None => Some(None),
        Some(v) => match error_read(v) {
            Some(x) => Some(Some(x)),
            None => None,
        },
    }
}

/// A map of strings that may be absent or null.
pub open spec fn opt_flat_field(j: Json, i: nat, k: Seq<char>) -> Option<
    Option<Map<Seq<char>, Seq<char>>>,
> {
    match given(j, i, k) {
        None => Some(None),
        Some(v) => match flat_read(v) {
            Some(x) => Some(Some(x)),
            None => None,
        },
    }
}

/// Service parameters that may be absent or null.
pub open spec fn opt_lists_field(j: Json, i: nat, k: Seq<char>) -> Option<
    Option<Map<Seq<char>, Seq<Seq<char>>>>,
> {
    match given(j, i, k) {
        None => Some(None),
        Some(v) => match lists_read(v) {
            Some(x) => Some(Some(x)),
            None => None,
        },
    }
}

/// A text that must be there.
pub fn get_text_field(v: &JsonValue, i: usize, key: &str) -> (r: Option<String>)
    ensures
        opt_text(r) == text_field(model(*v), i as nat, key@),
{
    match field_of(v, i, key) {
        Some(x) => match x.as_str() {
            Some(s) => Some(s.to_owned()),
            None => None,
        },
        None => None,
    }
}

/// A text that may be absent: then it is `usual`.
pub fn get_text_or(v: &JsonValue, i: usize, key: &str, usual: &str) -> (r: Option<String>)
    ensures
        opt_text(r) == text_or(model(*v), i as nat, key@, usual@),
{
    match field_of(v, i, key) {
        Some(x) => match x.as_str() {
            Some(s) => Some(s.to_owned()),
            None => None,
        },
        None => Some(usual.to_owned()),
    }
}

/// An identifier that must be there.
pub fn get_id_field(v: &JsonValue, i: usize, key: &str) -> (r: Option<JsonRpcId>)
    ensures
        opt_id(r) == id_field(model(*v), i as nat, key@),
{
    match field_of(v, i, key) {
        Some(x) => JsonRpcId::from_value(x),
        None => None,
    }
}

/// An identifier that may be absent or null.
pub fn get_opt_id(v: &JsonValue, i: usize, key: &str) -> (r: Option<Option<JsonRpcId>>)
    ensures
        match r {
            Some(o) => opt_id_field(model(*v), i as nat, key@) == Some(opt_id(o)),
            None => opt_id_field(model(*v), i as nat, key@) is None,
        },
{
    match given_of(v, i, key) {
        Some(x) => match JsonRpcId::from_value(x) {
            Some(id) => Some(Some(id)),
            None => None,
        },
        None => Some(None),
    }
}

/// A text that may be absent or null.
pub fn get_opt_text(v: &JsonValue, i: usize, key: &str) -> (r: Option<Option<String>>)
    ensures
        match r {
            Some(o) => opt_text_field(model(*v), i as nat, key@) == Some(opt_text(o)),
            None => opt_text_field(model(*v), i as nat, key@) is None,
        },
{
    match given_of(v, i, key) {
        Some(x) => match x.as_str() {
            Some(s) => Some(Some(s.to_owned())),
            None => None,
        },
        None => Some(None),
    }
}

/// A truth value that may be absent or null.
pub fn get_opt_bool(v: &JsonValue, i: usize, key: &str) -> (r: Option<Option<bool>>)
    ensures
        r == opt_bool_field(model(*v), i as nat, key@),
{
    match given_of(v, i, key) {
        Some(x) => match x.as_bool() {
            Some(b) => Some(Some(b)),
            None => None,
        },
        None => Some(None),
    }
}

/// A number of 64 bits that may be absent or null.
pub fn get_opt_u64(v: &JsonValue, i: usize, key: &str) -> (r: Option<Option<u64>>)
    ensures
        r == opt_u64_field(model(*v), i as nat, key@),
{
    match given_of(v, i, key) {
        Some(x) => match x.as_u64() {
            Some(n) => Some(Some(n)),
            None => None,
        },
        None => Some(None),
    }
}

/// An error that may be absent or null.
pub fn get_opt_error(v: &JsonValue, i: usize, key: &str) -> (r: Option<Option<JsonRpcError>>)
    ensures
        match r {
            Some(o) => opt_error_field(model(*v), i as nat, key@) == Some(opt_error(o)),
            None => opt_error_field(model(*v), i as nat, key@) is None,
        },
{
    match given_of(v, i, key) {
        Some(x) => match JsonRpcError::from_value(x) {
            Some(e) => Some(Some(e)),
            None => None,
        },
        None => Some(None),
    }
}

/// A map of strings that may be absent or null.
pub fn get_opt_flat(v: &JsonValue, i: usize, key: &str) -> (r: Option<Option<TextMap<String>>>)
    ensures
        match r {
            Some(o) => opt_flat_field(model(*v), i as nat, key@) == Some(opt_flat(o)),
            None => opt_flat_field(model(*v), i as nat, key@) is None,
        },
{
    match given_of(v, i, key) {
        Some(x) => match flat_from_value(x) {
            Some(m) => Some(Some(m)),
            None => None,
        },
        None => Some(None),
    }
}

/// Service parameters that may be absent or null.
pub fn get_opt_lists(v: &JsonValue, i: usize, key: &str) -> (r: Option<Option<ServiceParams>>)
    ensures
        match r {
            Some(o) => opt_lists_field(model(*v), i as nat, key@) == Some(opt_lists(o)),
            None => opt_lists_field(model(*v), i as nat, key@) is None,
        },
{
    match given_of(v, i, key) {
        Some(x) => match lists_from_value(x) {
            Some(m) => Some(Some(m)),
            None => None,
        },
        None => Some(None),
    }
}

/// A value that may be absent or null.
pub fn get_opt_value(v: &JsonValue, i: usize, key: &str) -> (r: Option<JsonValue>)
    ensures
        opt_model(r) == given(model(*v), i as nat, key@),
{
    match given_of(v, i, key) {
        Some(x) => Some(copy_value(x)),
        None => None,
    }
}

/// Puts a member in, if there is one.
pub fn put_member(e: &mut Vec<(String, JsonValue)>, key: &str, value: Option<JsonValue>)
    ensures
        object(final(e)@) == put(object(old(e)@), key@, opt_model(value)),
{
    match value {
        Some(v) => {
            set_member(e, key.to_owned(), v);
        },
        None => {},
    }
}

/// None of the members of a message has the reserved name.
pub proof fn lemma_members_are_not_reserved()
    ensures
        "jsonrpc"@ != RESERVED_NAME@,
        "id"@ != RESERVED_NAME@,
        "method"@ != RESERVED_NAME@,
        "params"@ != RESERVED_NAME@,
        "serviceParams"@ != RESERVED_NAME@,
        "cancelStream"@ != RESERVED_NAME@,
        "result"@ != RESERVED_NAME@,
        "error"@ != RESERVED_NAME@,
        "streamEnd"@ != RESERVED_NAME@,
        "control"@ != RESERVED_NAME@,
        "reason"@ != RESERVED_NAME@,
        "retryAfterMs"@ != RESERVED_NAME@,
        "streamEvent"@ != RESERVED_NAME@,
        "streamError"@ != RESERVED_NAME@,
        "code"@ != RESERVED_NAME@,
        "message"@ != RESERVED_NAME@,
        "data"@ != RESERVED_NAME@,
        "scheme"@ != RESERVED_NAME@,
        "credentials"@ != RESERVED_NAME@,
        "type"@ != RESERVED_NAME@,
        "protocol"@ != RESERVED_NAME@,
        "protocolVersion"@ != RESERVED_NAME@,
        "sessionId"@ != RESERVED_NAME@,
        "supportedVariants"@ != RESERVED_NAME@,
        "features"@ != RESERVED_NAME@,
        "pid"@ != RESERVED_NAME@,
        "selectVariant"@ != RESERVED_NAME@,
        "accept"@ != RESERVED_NAME@,
        "ts"@ != RESERVED_NAME@,
{
    lemma_reserved_name();
    reveal_strlit("jsonrpc");
    reveal_strlit("id");
    reveal_strlit("method");
    reveal_strlit("params");
    reveal_strlit("serviceParams");
    reveal_strlit("cancelStream");
    reveal_strlit("result");
    reveal_strlit("error");
    reveal_strlit("streamEnd");
    reveal_strlit("control");
    reveal_strlit("reason");
    reveal_strlit("retryAfterMs");
    reveal_strlit("streamEvent");
    reveal_strlit("streamError");
    reveal_strlit("code");
    reveal_strlit("message");
    reveal_strlit("data");
    reveal_strlit("scheme");
    reveal_strlit("credentials");
    reveal_strlit("type");
    reveal_strlit("protocol");
    reveal_strlit("protocolVersion");
    reveal_strlit("sessionId");
    reveal_strlit("supportedVariants");
    reveal_strlit("features");
    reveal_strlit("pid");
    reveal_strlit("selectVariant");
    reveal_strlit("accept");
    reveal_strlit("ts");
    assert("jsonrpc"@.len() == 7);
    assert("id"@.len() == 2);
    assert("method"@.len() == 6);
    assert("params"@.len() == 6);
    assert("serviceParams"@.len() == 13);
    assert("cancelStream"@.len() == 12);
    assert("result"@.len() == 6);
    assert("error"@.len() == 5);
    assert("streamEnd"@.len() == 9);
    assert("control"@.len() == 7);
    assert("reason"@.len() == 6);
    assert("retryAfterMs"@.len() == 12);
    assert("streamEvent"@.len() == 11);
    assert("streamError"@.len() == 11);
    assert("code"@.len() == 4);
    assert("message"@.len() == 7);
    assert("data"@.len() == 4);
    assert("scheme"@.len() == 6);
    assert("credentials"@.len() == 11);
    assert("type"@.len() == 4);
    assert("protocol"@.len() == 8);
    assert("protocolVersion"@.len() == 15);
    assert("sessionId"@.len() == 9);
    assert("supportedVariants"@.len() == 17);
    assert("features"@.len() == 8);
    assert("pid"@.len() == 3);
    assert("selectVariant"@.len() == 13);
    assert("accept"@.len() == 6);
    assert("ts"@.len() == 2);
}

} // verus!
