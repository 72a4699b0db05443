//! Request identifiers and errors, and their JSON forms.
use crate::error_code;
use crate::json_value::{
    copy_value, entry, items, lemma_array_model, lemma_members_has, lemma_plain_deeper, member,
    model, object, plain_json, set_member, Json, JsonNum, JsonValue, NumberModel,
};
use crate::record::lemma_members_are_not_reserved;
use crate::text::{int_digits, int_text, joined, lemma_int_digits_injective};
use crate::text_map::{
    distinct_keys, has_key, lemma_map_of_keys, lemma_map_of_value, map_of, TextMap,
};
use vstd::prelude::*;

verus! {

// ---------------------------------------------------------------------------
// Identifiers.
// ---------------------------------------------------------------------------

/// The identifier of a request.
#[derive(Debug, PartialEq)]
pub enum JsonRpcId {
    Text(String),
    Int(i64),
    Null,
}

/// An identifier in terms of contents.
pub enum IdView {
    Text(Seq<char>),
    Int(i64),
    Null,
}

impl View for JsonRpcId {
    type V = IdView;

    open spec fn view(&self) -> IdView {
        match *self {
            JsonRpcId::Text(s) => IdView::Text(s@),
            JsonRpcId::Int(i) => IdView::Int(i),
            JsonRpcId::Null => IdView::Null,
        }
    }
}

impl Clone for JsonRpcId {
    fn clone(&self) -> (r: Self)
        ensures
            r@ == self@,
    {
        match self {
            JsonRpcId::Text(s) => JsonRpcId::Text(s.clone()),
            JsonRpcId::Int(i) => JsonRpcId::Int(*i),
            JsonRpcId::Null => JsonRpcId::Null,
        }
    }
}

/// The contents of an optional identifier.
pub open spec fn opt_id(o: Option<JsonRpcId>) -> Option<IdView> {
    match o {
        Some(i) => Some(i@),
        None => None,
    }
}

/// The JSON form of an identifier.
pub open spec fn id_json(i: IdView) -> Json {
    match i {
        IdView::Text(s) => Json::Text(s),
        IdView::Int(n) => Json::Num(NumberModel::Int(n as int)),
        IdView::Null => Json::Null,
    }
}

/// The identifier that a JSON value is, if it is one.
pub open spec fn id_read(j: Json) -> Option<IdView> {
    match j {
        Json::Text(s) => Some(IdView::Text(s)),
        Json::Null => Some(IdView::Null),
        Json::Num(NumberModel::Int(n)) => if i64::MIN <= n <= i64::MAX {
            Some(IdView::Int(n as i64))
        } else {
            None
        },
        _ => None,
    }
}

/// The JSON form of an identifier reads as that identifier.
pub proof fn law_id_reads_back(i: IdView)
    ensures
        id_read(id_json(i)) == Some(i),
{
}

impl JsonRpcId {
    /// The JSON form of this identifier.
    pub fn to_value(&self) -> (r: JsonValue)
        ensures
            model(r) == id_json(self@),
    {
        match self {
            JsonRpcId::Text(s) => JsonValue::Text(s.clone()),
            JsonRpcId::Int(i) => JsonValue::Num(JsonNum::Int(*i)),
            JsonRpcId::Null => JsonValue::Null,
        }
    }

    /// The identifier that `v` is, if it is one.
    pub fn from_value(v: &JsonValue) -> (r: Option<JsonRpcId>)
        ensures
            opt_id(r) == id_read(model(*v)),
    {
        match v {
            JsonValue::Text(s) => Some(JsonRpcId::Text(s.clone())),
            JsonValue::Null => Some(JsonRpcId::Null),
            _ => match v.as_i64() {
                Some(i) => Some(JsonRpcId::Int(i)),
                None => None,
            },
        }
    }
}

/// A text that stands for an identifier, and for no other.
pub open spec fn key_text(i: IdView) -> Seq<char> {
    match i {
        IdView::Text(s) => "s:"@ + s,
        IdView::Int(n) => "n:"@ + int_digits(n as int),
        IdView::Null => "null"@,
    }
}

/// The text that stands for an identifier in tables of open requests. It keeps
/// strings and numbers apart, so that `"1"` and `1` never meet.
pub fn id_key(id: &JsonRpcId) -> (r: String)
    ensures
        r@ == key_text(id@),
{
    match id {
        JsonRpcId::Text(s) => joined("s:", s.as_str()),
        JsonRpcId::Int(n) => joined("n:", int_text(*n).as_str()),
        JsonRpcId::Null => "null".to_owned(),
    }
}

/// Different identifiers have different keys.
pub proof fn law_id_keys_differ(a: IdView, b: IdView)
    requires
        key_text(a) == key_text(b),
    ensures
        a == b,
{
    reveal_strlit("s:");
    reveal_strlit("n:");
    reveal_strlit("null");
    assert("s:"@.len() == 2 && "n:"@.len() == 2 && "null"@.len() == 4);
    assert("null"@[1] == 'u' && "n:"@[1] == ':' && "n:"@[0] == 'n' && "s:"@[0] == 's');
    let k = key_text(a);
    match a {
        IdView::Text(s) => {
            assert(k[0] == 's');
            assert(k.skip(2) =~= s);
        },
        IdView::Int(n) => {
            assert(k[0] == 'n' && k[1] == ':');
            assert(k.skip(2) =~= int_digits(n as int));
        },
        IdView::Null => {},
    }
    match b {
        IdView::Text(s) => {
            assert(k[0] == 's');
            assert(k.skip(2) =~= s);
        },
        IdView::Int(n) => {
            assert(k[0] == 'n' && k[1] == ':');
            assert(k.skip(2) =~= int_digits(n as int));
            if let IdView::Int(m) = a {
                lemma_int_digits_injective(m as int, n as int);
            }
        },
        IdView::Null => {},
    }
}

// ---------------------------------------------------------------------------
// Errors.
// ---------------------------------------------------------------------------

/// The model of an optional value.
pub open spec fn opt_model(o: Option<JsonValue>) -> Option<Json> {
    match o {
        Some(v) => Some(model(v)),
        None => None,
    }
}

/// Whether each identifier stands under its own key.
pub open spec fn keyed(m: Map<Seq<char>, JsonRpcId>) -> bool {
    forall|k: Seq<char>| #[trigger] m.contains_key(k) ==> key_text(m[k]@) == k
}

/// Whether these are the identifiers with these keys, all of them and no others.
pub open spec fn ids_with(ids: Seq<JsonRpcId>, keys: Set<Seq<char>>) -> bool {
    forall|k: Seq<char>|
        keys.contains(k) <==> exists|i: int|
            0 <= i < ids.len() && key_text(#[trigger] ids[i]@) == k
}

/// The identifiers of a map, each of which stands under its own key.
pub fn ids_in(map: &TextMap<JsonRpcId>) -> (r: Vec<JsonRpcId>)
    requires
        keyed(map@),
    ensures
        ids_with(r@, map@.dom()),
        r@.len() == map@.dom().len(),
{
    let n: usize = map.len();
    let ghost es = map.spec_entries();
    let mut out: Vec<JsonRpcId> = Vec::new();
    let mut i: usize = 0;
    while i < n
        invariant
            i <= n,
            n == es.len(),
            es == map.spec_entries(),
            distinct_keys(es),
            keyed(map@),
            map@ == map_of(es),
            out.len() == i,
            forall|j: int| 0 <= j < i ==> key_text(#[trigger] out@[j]@) == es[j].0,
        decreases n - i,
    {
        proof {
            lemma_map_of_value(es, i as int);
        }
        out.push(map.value_at(i).clone());
        i = i + 1;
    }
    proof {
        assert forall|k: Seq<char>|
            map@.dom().contains(k) <==> exists|j: int|
                0 <= j < out@.len() && key_text(#[trigger] out@[j]@) == k by {
            lemma_map_of_keys(es, k);
            if has_key(es, k) {
                let j = choose|j: int| 0 <= j < es.len() && #[trigger] es[j].0 == k;
                assert(key_text(out@[j]@) == k);
            }
            if exists|j: int| 0 <= j < out@.len() && key_text(#[trigger] out@[j]@) == k {
                let j = choose|j: int| 0 <= j < out@.len() && key_text(#[trigger] out@[j]@) == k;
                assert(es[j].0 == k);
            }
        }
    }
    out
}

/// A copy of an optional value.
pub fn copy_opt(o: &Option<JsonValue>) -> (r: Option<JsonValue>)
    ensures
        opt_model(r) == opt_model(*o),
{
    match o {
        Some(v) => Some(copy_value(v)),
        None => None,
    }
}

/// The error object of a response.
#[derive(Debug, PartialEq)]
pub struct JsonRpcError {
    pub code: i32,
    pub message: String,
    pub data: Option<JsonValue>,
}

/// An error in terms of contents.
#[verifier::ext_equal]
pub struct ErrorView {
    pub code: i32,
    pub message: Seq<char>,
    pub data: Option<Json>,
}

impl View for JsonRpcError {
    type V = ErrorView;

    open spec fn view(&self) -> ErrorView {
        ErrorView { code: self.code, message: self.message@, data: opt_model(self.data) }
    }
}

/// The contents of an optional error.
pub open spec fn opt_error(o: Option<JsonRpcError>) -> Option<ErrorView> {
    match o {
        Some(e) => Some(e@),
        None => None,
    }
}

impl Clone for JsonRpcError {
    fn clone(&self) -> (r: Self)
        ensures
            r@ == self@,
    {
        JsonRpcError {
            code: self.code,
            message: self.message.clone(),
            data: copy_opt(&self.data),
        }
    }
}

/// The JSON form of an error: what is absent is left out.
pub open spec fn error_json(e: ErrorView) -> Json {
    let m = Map::<Seq<char>, Json>::empty().insert(
        "code"@,
        Json::Num(NumberModel::Int(e.code as int)),
    ).insert("message"@, Json::Text(e.message));
    Json::Object(
        match e.data {
            Some(d) => m.insert("data"@, d),
            None => m,
        },
    )
}

/// A member that may be absent or null.
pub open spec fn present(j: Json, k: Seq<char>) -> Option<Json> {
    match member(j, k) {
        Some(Json::Null) => None,
        o => o,
    }
}

/// The error that a JSON value is, if it is one.
pub open spec fn error_read(j: Json) -> Option<ErrorView> {
    match (member(j, "code"@), member(j, "message"@)) {
        (Some(Json::Num(NumberModel::Int(code))), Some(Json::Text(message))) => if i32::MIN <= code
            <= i32::MAX {
            Some(ErrorView { code: code as i32, message, data: present(j, "data"@) })
        } else {
            None
        },
        _ => None,
    }
}

/// The JSON form of an error reads as that error. (An error whose data is null
/// reads as one without data.)
pub proof fn law_error_reads_back(e: ErrorView)
    requires
        e.data matches Some(d) ==> !(d is Null),
    ensures
        error_read(error_json(e)) == Some(e),
{
    reveal_strlit("code");
    reveal_strlit("message");
    reveal_strlit("data");
    assert("code"@.len() == 4 && "message"@.len() == 7 && "data"@.len() == 4);
    assert("code"@[0] == 'c' && "data"@[0] == 'd');
}

/// The member `key`, unless it is absent or null.
pub fn present_member<'a>(v: &'a JsonValue, key: &str) -> (r: Option<&'a JsonValue>)
    ensures
        r is Some <==> present(model(*v), key@) is Some,
        r matches Some(x) ==> present(model(*v), key@) == Some(model(*x)),
{
    match v.get(key) {
        Some(x) => if x.is_null() {
            None
        } else {
            Some(x)
        },
        None => None,
    }
}

impl JsonRpcError {
    /// The JSON form of this error.
    pub fn to_value(&self) -> (r: JsonValue)
        ensures
            model(r) == error_json(self@),
    {
        let mut out: Vec<(String, JsonValue)> = Vec::new();
        assert(object(out@) =~= Map::<Seq<char>, Json>::empty());
        set_member(&mut out, "code".to_owned(), JsonValue::Num(JsonNum::Int(self.code as i64)));
        set_member(&mut out, "message".to_owned(), JsonValue::Text(self.message.clone()));
        if let Some(d) = &self.data {
            set_member(&mut out, "data".to_owned(), copy_value(d));
        }
        JsonValue::Object(out)
    }

    /// The error that `v` is, if it is one.
    pub fn from_value(v: &JsonValue) -> (r: Option<JsonRpcError>)
        ensures
            opt_error(r) == error_read(model(*v)),
    {
        let code: i32 = match v.get("code") {
            Some(c) => match c.as_i64() {
                Some(i) => if i32::MIN as i64 <= i && i <= i32::MAX as i64 {
                    i as i32
                } else {
                    return None;
                },
                None => {
                    return None;
                },
            },
            None => {
                return None;
            },
        };
        let message = match v.get("message") {
            Some(m) => match m.as_str() {
                Some(s) => s.to_owned(),
                None => {
                    return None;
                },
            },
            None => {
                return None;
            },
        };
        let data = match present_member(v, "data") {
            Some(d) => Some(copy_value(d)),
            None => None,
        };
        Some(JsonRpcError { code, message, data })
    }
}

/// An error of a call.
#[derive(Debug, PartialEq)]
pub struct A2AError {
    pub code: i32,
    pub message: String,
    pub details: Option<JsonValue>,
}

impl View for A2AError {
    type V = ErrorView;

    open spec fn view(&self) -> ErrorView {
        ErrorView { code: self.code, message: self.message@, data: opt_model(self.details) }
    }
}

impl Clone for A2AError {
    fn clone(&self) -> (r: Self)
        ensures
            r@ == self@,
    {
        A2AError {
            code: self.code,
            message: self.message.clone(),
            details: copy_opt(&self.details),
        }
    }
}

/// An error without details.
pub open spec fn plain_error(code: i32, message: Seq<char>) -> ErrorView {
    ErrorView { code, message, data: None }
}

impl A2AError {
    /// An error without details.
    pub fn new(code: i32, message: String) -> (r: Self)
        ensures
            r@ == plain_error(code, message@),
    {
        A2AError { code, message, details: None }
    }

    /// Something went wrong on this side.
    pub fn internal(message: &str) -> (r: Self)
        ensures
            r@ == plain_error(error_code::INTERNAL_ERROR, message@),
    {
        A2AError::new(error_code::INTERNAL_ERROR, message.to_owned())
    }

    /// The request is malformed.
    pub fn invalid_request(message: &str) -> (r: Self)
        ensures
            r@ == plain_error(error_code::INVALID_REQUEST, message@),
    {
        A2AError::new(error_code::INVALID_REQUEST, message.to_owned())
    }

    /// The parameters of a request do not fit its method.
    pub fn invalid_params(message: &str) -> (r: Self)
        ensures
            r@ == plain_error(error_code::INVALID_PARAMS, message@),
    {
        A2AError::new(error_code::INVALID_PARAMS, message.to_owned())
    }

    /// The text is no JSON.
    pub fn parse_error(message: &str) -> (r: Self)
        ensures
            r@ == plain_error(error_code::PARSE_ERROR, message@),
    {
        A2AError::new(error_code::PARSE_ERROR, message.to_owned())
    }

    /// There is no such method.
    pub fn method_not_found(method: &str) -> (r: Self)
        ensures
            r@ == plain_error(error_code::METHOD_NOT_FOUND, "method not found: "@ + method@),
    {
        A2AError::new(error_code::METHOD_NOT_FOUND, joined("method not found: ", method))
    }

    /// The peer's version cannot be talked to.
    pub fn version_not_supported(version: &str) -> (r: Self)
        ensures
            r@ == plain_error(
                error_code::VERSION_NOT_SUPPORTED,
                "version not supported: "@ + version@,
            ),
    {
        A2AError::new(error_code::VERSION_NOT_SUPPORTED, joined("version not supported: ", version))
    }

    /// The operation cannot be done here.
    pub fn unsupported_operation(message: &str) -> (r: Self)
        ensures
            r@ == plain_error(error_code::UNSUPPORTED_OPERATION, message@),
    {
        A2AError::new(error_code::UNSUPPORTED_OPERATION, message.to_owned())
    }

    /// The error object of a response with this error.
    pub fn to_jsonrpc_error(&self) -> (r: JsonRpcError)
        ensures
            r@ == reported(self@),
    {
        let details = copy_opt(&self.details);
        let data = match error_code::reason_text(self.code) {
            None => details,
            Some(reason) => Some(with_reason(details, reason)),
        };
        JsonRpcError { code: self.code, message: self.message.clone(), data }
    }
}

/// What an error object says of the reason for an error.
pub open spec fn reason_detail(reason: Seq<char>) -> Json {
    Json::Object(map!["reason"@ => Json::Text(reason)])
}

/// The details of an error as a list.
pub open spec fn details_listed(d: Option<Json>) -> Seq<Json> {
    match d {
        Some(Json::Array(s)) => s,
        Some(j) => seq![j],
        None => Seq::empty(),
    }
}

/// An error as error objects carry it: the details, and after them the reason
/// where the code has a name.
pub open spec fn reported(e: ErrorView) -> ErrorView {
    match error_code::reason(e.code) {
        Some(reason) => ErrorView {
            data: Some(Json::Array(details_listed(e.data).push(reason_detail(reason)))),
            ..e
        },
        None => e,
    }
}

fn with_reason(details: Option<JsonValue>, reason: &str) -> (r: JsonValue)
    ensures
        model(r) == Json::Array(details_listed(opt_model(details)).push(reason_detail(reason@))),
{
    let mut fields: Vec<(String, JsonValue)> = Vec::new();
    assert(object(fields@) =~= Map::<Seq<char>, Json>::empty());
    set_member(&mut fields, "reason".to_owned(), JsonValue::Text(reason.to_owned()));
    let detail = JsonValue::Object(fields);
    assert(model(detail) =~= reason_detail(reason@));
    let mut list: Vec<JsonValue> = Vec::new();
    match details {
        Some(d) => match d {
            JsonValue::Array(a) => {
                proof {
                    lemma_array_model(a);
                }
                list = a;
            },
            _ => {
                list.push(d);
                assert(items(list@) =~= seq![model(d)]);
            },
        },
        None => {
            assert(items(list@) =~= Seq::<Json>::empty());
        },
    }
    let ghost before = items(list@);
    list.push(detail);
    proof {
        assert(items(list@) =~= before.push(model(detail)));
        lemma_array_model(list);
    }
    JsonValue::Array(list)
}

/// Whether an error arrives as it was sent: its details are not null, which reads as
/// absent, hold no numbers but integers and no member of the reserved name, and are
/// not nested too deeply to stand in a message.
pub open spec fn error_crosses(e: ErrorView) -> bool {
    e.data matches Some(d) ==> !(d is Null) && plain_json(d, 124)
}

/// An error whose details are not nested too deeply is reported as an object that
/// is not either.
pub proof fn lemma_reported_is_plain(e: ErrorView, n: nat)
    requires
        n >= 2,
        e.data matches Some(d) ==> plain_json(d, n),
    ensures
        plain_json(error_json(reported(e)), n + 2),
{
    lemma_members_are_not_reserved();
    let r = reported(e);
    if let Some(d) = r.data {
        assert(plain_json(d, n + 1)) by {
            if let Some(given) = e.data {
                lemma_plain_deeper(given, n, n + 1);
            }
            if let Some(reason) = error_code::reason(e.code) {
                assert(plain_json(reason_detail(reason), n)) by {
                    reveal_with_fuel(plain_json, 2);
                }
                let s = details_listed(e.data);
                assert forall|i: int| 0 <= i < s.push(reason_detail(reason)).len() implies plain_json(
                    #[trigger] s.push(reason_detail(reason))[i],
                    n,
                ) by {
                    if i < s.len() {
                        if let Some(Json::Array(a)) = e.data {
                            assert(plain_json(a[i], (n - 1) as nat));
                            lemma_plain_deeper(a[i], (n - 1) as nat, n);
                        }
                    }
                }
            }
        }
    }
    let m = error_json(r)->Object_0;
    assert forall|k: Seq<char>| #[trigger] m.contains_key(k) implies plain_json(m[k], n + 1) by {}
}

/// An error whose code has a name is reported with that name as the reason, after
/// all of its details; its code and its message are kept.
pub proof fn law_reasons_are_reported(e: ErrorView, reason: Seq<char>)
    requires
        error_code::reason(e.code) == Some(reason),
    ensures
        reported(e).code == e.code,
        reported(e).message == e.message,
        reported(e).data matches Some(Json::Array(s)) && s.len() == details_listed(e.data).len() + 1
            && s.drop_last() == details_listed(e.data) && member(s.last(), "reason"@) == Some(
            Json::Text(reason),
        ),
{
    let s = details_listed(e.data).push(reason_detail(reason));
    assert(s.drop_last() =~= details_listed(e.data));
}

// ---------------------------------------------------------------------------
// Flat maps of strings.
// ---------------------------------------------------------------------------

/// The texts of a map of strings.
pub open spec fn flat(m: Map<Seq<char>, String>) -> Map<Seq<char>, Seq<char>> {
    Map::new(|k: Seq<char>| m.contains_key(k), |k: Seq<char>| m[k]@)
}

/// The texts of an optional map of strings.
pub open spec fn opt_flat(o: Option<TextMap<String>>) -> Option<Map<Seq<char>, Seq<char>>> {
    match o {
        Some(m) => Some(flat(m@)),
        None => None,
    }
}

/// Putting a string in shows in the texts as putting its text in.
pub proof fn lemma_flat_insert(m: Map<Seq<char>, String>, k: Seq<char>, v: String)
    ensures
        flat(m.insert(k, v)) == flat(m).insert(k, v@),
{
    assert(flat(m.insert(k, v)) =~= flat(m).insert(k, v@));
}

/// The JSON form of a map of strings.
pub open spec fn flat_json(m: Map<Seq<char>, Seq<char>>) -> Json {
    Json::Object(Map::new(|k: Seq<char>| m.contains_key(k), |k: Seq<char>| Json::Text(m[k])))
}

/// The map of strings that a JSON value is, if it is one.
pub open spec fn flat_read(j: Json) -> Option<Map<Seq<char>, Seq<char>>> {
    match j {
        Json::Object(m) => if forall|k: Seq<char>|
            m.contains_key(k) ==> (#[trigger] m[k]) is Text {
            Some(Map::new(|k: Seq<char>| m.contains_key(k), |k: Seq<char>| m[k]->Text_0))
        } else {
            None
        },
        _ => None,
    }
}

/// The JSON form of a map of strings reads as that map.
pub proof fn law_flat_reads_back(m: Map<Seq<char>, Seq<char>>)
    ensures
        flat_read(flat_json(m)) == Some(m),
{
    let j = flat_json(m)->Object_0;
    assert(flat_read(flat_json(m))->0 =~= m);
}

/// The JSON form of a map of strings.
pub fn flat_to_value(m: &TextMap<String>) -> (r: JsonValue)
    ensures
        model(r) == flat_json(flat(m@)),
{
    let n: usize = m.len();
    let ghost es = m.spec_entries();
    let mut out: Vec<(String, JsonValue)> = Vec::new();
    let mut i: usize = 0;
    assert(object(out@) =~= flat_json(flat(map_of(es.take(0))))->Object_0);
    while i < n
        invariant
            i <= n,
            n == es.len(),
            es == m.spec_entries(),
            object(out@) == flat_json(flat(map_of(es.take(i as int))))->Object_0,
        decreases n - i,
    {
        let key = m.key_at(i).to_owned();
        let value = m.value_at(i).clone();
        set_member(&mut out, key, JsonValue::Text(value));
        proof {
            let t = es.take(i + 1);
            assert(t.drop_last() =~= es.take(i as int));
            lemma_flat_insert(map_of(es.take(i as int)), es[i as int].0, es[i as int].1);
            assert(object(out@) =~= flat_json(flat(map_of(t)))->Object_0);
        }
        i = i + 1;
    }
    assert(es.take(i as int) =~= es);
    JsonValue::Object(out)
}

/// The map of strings that `v` is, if it is one.
pub fn flat_from_value(v: &JsonValue) -> (r: Option<TextMap<String>>)
    ensures
        opt_flat(r) == flat_read(model(*v)),
{
    let e = match v {
        JsonValue::Object(e) => e,
        _ => {
            return None;
        },
    };
    let ghost m = object(e@);
    let mut out: TextMap<String> = TextMap::new();
    let mut i: usize = 0;
    while i < e.len()
        invariant
            i <= e.len(),
            m == object(e@),
            *v == JsonValue::Object(*e),
            forall|j: int| 0 <= j < i ==> m[(#[trigger] e@[j]).0@] is Text,
            forall|k: Seq<char>| #[trigger]
                out@.contains_key(k) <==> exists|j: int| 0 <= j < i && (#[trigger] e@[j]).0@ == k,
            forall|k: Seq<char>| #[trigger]
                out@.contains_key(k) ==> m[k] == Json::Text(out@[k]@),
        decreases e.len() - i,
    {
        proof {
            lemma_members_has(e@, e@.len() as int, e@[i as int].0@);
        }
        match entry(e, e[i].0.as_str()) {
            Some(JsonValue::Text(s)) => {
                let ghost before = out@;
                out.insert(e[i].0.clone(), s.clone());
                proof {
                    assert forall|k: Seq<char>| #[trigger] out@.contains_key(k) <==> exists|j: int|
                        0 <= j < i + 1 && (#[trigger] e@[j]).0@ == k by {
                        if before.contains_key(k) {
                            let j = choose|j: int| 0 <= j < i && (#[trigger] e@[j]).0@ == k;
                            assert(e@[j].0@ == k);
                        }
                        if k == e@[i as int].0@ {
                            assert(e@[i as int].0@ == k);
                        }
                    }
                }
            },
            _ => {
                assert(m.contains_key(e@[i as int].0@));
                assert(!(m[e@[i as int].0@] is Text));
                return None;
            },
        }
        i = i + 1;
    }
    proof {
        assert forall|k: Seq<char>| m.contains_key(k) implies (#[trigger] m[k]) is Text by {
            lemma_members_has(e@, e@.len() as int, k);
            let j = choose|j: int| 0 <= j < e@.len() && #[trigger] e@[j].0@ == k;
            assert(m[e@[j].0@] is Text);
        }
        assert forall|k: Seq<char>| m.contains_key(k) <==> out@.contains_key(k) by {
            lemma_members_has(e@, e@.len() as int, k);
            if m.contains_key(k) {
                let j = choose|j: int| 0 <= j < e@.len() && #[trigger] e@[j].0@ == k;
                assert(e@[j].0@ == k);
            }
            if out@.contains_key(k) {
                let j = choose|j: int| 0 <= j < e@.len() && (#[trigger] e@[j]).0@ == k;
                assert(e@[j].0@ == k);
            }
        }
        assert(flat(out@) =~= flat_read(model(*v))->0);
    }
    Some(out)
}

} // verus!
