//! What is changed in the JSON form of a message after it was made: times get
//! the ending that the mapping asks for, and a page always has its token.
use crate::json_value::{
    crosses, find_member, items, lemma_array_model, lemma_reserved_name, members, model, plain_json,
    set_member, Json, JsonValue,
};
use crate::methods::LIST_TASKS;
use crate::text::{chars_of, joined, same_chars, same_text, string_of};
use vstd::prelude::*;
use vstd::slice::slice_subrange;

verus! {

/// Whether a member of this name is a time.
pub open spec fn is_time(name: Seq<char>) -> bool {
    name == "timestamp"@ || name == "statusTimestampAfter"@
}

/// A time with its ending put right: `Z`, where it was `+00:00`.
pub open spec fn z_time(t: Seq<char>) -> Seq<char> {
    if "+00:00"@.is_suffix_of(t) {
        t.take(t.len() - "+00:00"@.len()) + "Z"@
    } else {
        t
    }
}

/// A member with its ending put right, if it is a time.
pub open spec fn timed(name: Seq<char>, j: Json) -> Json {
    match j {
        Json::Text(t) => if is_time(name) {
            Json::Text(z_time(t))
        } else {
            j
        },
        _ => j,
    }
}

/// A value with every time in it put right.
pub open spec fn normalized(j: Json) -> Json
    decreases j,
{
    match j {
        Json::Array(s) => Json::Array(
            Seq::new(
                s.len(),
                |i: int|
                    if 0 <= i < s.len() {
                        normalized(s[i])
                    } else {
                        Json::Null
                    },
            ),
        ),
        Json::Object(m) => Json::Object(
            Map::new(
                |k: Seq<char>| m.contains_key(k),
                |k: Seq<char>|
                    if m.contains_key(k) {
                        timed(k, normalized(m[k]))
                    } else {
                        Json::Null
                    },
            ),
        ),
        _ => j,
    }
}

fn put_right(name: &str, t: &str) -> (r: String)
    ensures
        Json::Text(r@) == timed(name@, Json::Text(t@)),
{
    if !same_text(name, "timestamp") && !same_text(name, "statusTimestampAfter") {
        return t.to_owned();
    }
    let cs = chars_of(t);
    let ending = chars_of("+00:00");
    if cs.len() < ending.len() {
        return t.to_owned();
    }
    let n: usize = cs.len() - ending.len();
    let tail = slice_subrange(cs.as_slice(), n, cs.len());
    assert(tail@ =~= t@.subrange(t@.len() - ending@.len(), t@.len() as int));
    if same_chars(tail, ending.as_slice()) {
        let head = string_of(slice_subrange(cs.as_slice(), 0, n));
        assert(head@ =~= t@.take(n as int));
        joined(head.as_str(), "Z")
    } else {
        t.to_owned()
    }
}

proof fn lemma_members_normalized(
    out: Seq<(String, JsonValue)>,
    e: Seq<(String, JsonValue)>,
    n: int,
)
    requires
        0 <= n <= e.len(),
        out.len() == e.len(),
        forall|j: int|
            0 <= j < e.len() ==> (#[trigger] out[j]).0@ == e[j].0@ && model(out[j].1) == timed(
                e[j].0@,
                normalized(model(e[j].1)),
            ),
    ensures
        Json::Object(members(out, n)) == normalized(Json::Object(members(e, n))),
    decreases n,
{
    if n == 0 {
        assert(members(out, 0) =~= normalized(Json::Object(members(e, 0)))->Object_0);
    } else {
        lemma_members_normalized(out, e, n - 1);
        assert(out[n - 1].0@ == e[n - 1].0@);
        assert(members(out, n) =~= normalized(Json::Object(members(e, n)))->Object_0);
    }
}

/// A value with every time in it put right.
pub fn normalize(v: &JsonValue) -> (r: JsonValue)
    ensures
        model(r) == normalized(model(*v)),
    decreases v,
{
    match v {
        JsonValue::Array(a) => {
            let mut out: Vec<JsonValue> = Vec::new();
            let mut i: usize = 0;
            while i < a.len()
                invariant
                    i <= a.len(),
                    out.len() == i,
                    *v == JsonValue::Array(*a),
                    forall|j: int|
                        0 <= j < i ==> model(#[trigger] out@[j]) == normalized(model(a@[j])),
                decreases a.len() - i,
            {
                assert(decreases_to!(*v => v->Array_0));
                assert(decreases_to!(v->Array_0 => v->Array_0@));
                assert(decreases_to!(v->Array_0@ => v->Array_0@[i as int]));
                out.push(normalize(&a[i]));
                i = i + 1;
            }
            proof {
                lemma_array_model(out);
                lemma_array_model(*a);
                assert(items(out@) =~= normalized(model(*v))->Array_0);
            }
            JsonValue::Array(out)
        },
        JsonValue::Object(e) => {
            let mut out: Vec<(String, JsonValue)> = Vec::new();
            let mut i: usize = 0;
            while i < e.len()
                invariant
                    i <= e.len(),
                    out.len() == i,
                    *v == JsonValue::Object(*e),
                    forall|j: int|
                        0 <= j < i ==> (#[trigger] out@[j]).0@ == e@[j].0@ && model(out@[j].1)
                            == timed(e@[j].0@, normalized(model(e@[j].1))),
                decreases e.len() - i,
            {
                assert(decreases_to!(*v => v->Object_0));
                assert(decreases_to!(v->Object_0 => v->Object_0@));
                assert(decreases_to!(v->Object_0@ => v->Object_0@[i as int]));
                assert(decreases_to!(v->Object_0@[i as int] => v->Object_0@[i as int].1));
                let inner = normalize(&e[i].1);
                let fixed = match inner {
                    JsonValue::Text(t) => JsonValue::Text(put_right(e[i].0.as_str(), t.as_str())),
                    x => x,
                };
                assert(model(fixed) == timed(e@[i as int].0@, model(inner)));
                out.push((e[i].0.clone(), fixed));
                i = i + 1;
            }
            proof {
                lemma_members_normalized(out@, e@, e@.len() as int);
            }
            JsonValue::Object(out)
        },
        _ => crate::json_value::copy_value(v),
    }
}

/// Puts every time in a value right. It goes by the names of members, so that a
/// text that merely ends like a time is left alone.
pub fn normalize_timestamp_strings(value: &mut JsonValue)
    ensures
        model(*final(value)) == normalized(model(*old(value))),
{
    let fixed = normalize(&*value);
    *value = fixed;
}

/// A page of tasks with its token, which is there even where it is empty.
pub open spec fn page_normalized(j: Json) -> Json {
    match j {
        Json::Object(m) => if m.contains_key("nextPageToken"@) {
            j
        } else {
            Json::Object(m.insert("nextPageToken"@, Json::Text(Seq::empty())))
        },
        _ => j,
    }
}

/// Puts the token of a page of tasks in, if it is not there. A value that is no
/// object is left alone.
pub fn normalize_list_tasks_response(value: &mut JsonValue)
    ensures
        model(*final(value)) == page_normalized(model(*old(value))),
{
    let mut taken = JsonValue::Null;
    std::mem::swap(&mut taken, value);
    match taken {
        JsonValue::Object(e) => {
            let mut e = e;
            let there = match find_member(&e, "nextPageToken") {
                Some(_) => true,
                None => false,
            };
            if !there {
                let empty = String::new();
                assert(empty@ =~= Seq::<char>::empty());
                set_member(&mut e, "nextPageToken".to_owned(), JsonValue::Text(empty));
            }
            *value = JsonValue::Object(e);
        },
        other => {
            *value = other;
        },
    }
}

/// A message as it is sent: times are put right, and a page of tasks has its
/// token.
pub open spec fn finished(j: Json, page: bool) -> Json {
    if page {
        page_normalized(normalized(j))
    } else {
        normalized(j)
    }
}

/// Whether what a method answers with is a page of tasks.
pub open spec fn is_page(method: Seq<char>) -> bool {
    method == LIST_TASKS@
}

/// Makes a message ready to be sent. `page` says whether it is a page of tasks.
pub fn finish_value(value: &mut JsonValue, page: bool)
    ensures
        model(*final(value)) == finished(model(*old(value)), page),
{
    normalize_timestamp_strings(value);
    if page {
        normalize_list_tasks_response(value);
    }
}

/// The result of a method, ready to be sent.
pub fn finish_result(method: &str, result: JsonValue) -> (r: JsonValue)
    ensures
        model(r) == finished(model(result), is_page(method@)),
{
    let mut result = result;
    finish_value(&mut result, same_text(method, LIST_TASKS));
    result
}

/// An item of a stream or the payload of a call, ready to be sent.
pub fn finish_payload(payload: JsonValue) -> (r: JsonValue)
    ensures
        model(r) == finished(model(payload), false),
{
    let mut payload = payload;
    finish_value(&mut payload, false);
    payload
}

/// What can go wrong between a message and its JSON form.
#[derive(Debug)]
pub enum ProtoJsonPayloadError {
    /// The JSON does not fit.
    Json(String),
    /// One form of the message cannot be read as the other.
    Decode(String),
    /// Something that must be there is not.
    MissingPayload(String),
}

impl ProtoJsonPayloadError {
    /// What went wrong, in words.
    pub fn message(&self) -> (r: String)
        ensures
            r@ == (match *self {
                ProtoJsonPayloadError::Json(e) => "ProtoJSON error: "@ + e@,
                ProtoJsonPayloadError::Decode(e) => "protobuf transcode error: "@ + e@,
                ProtoJsonPayloadError::MissingPayload(n) =>
                    "ProtoJSON payload missing required data for "@ + n@,
            }),
    {
        match self {
            ProtoJsonPayloadError::Json(e) => joined("ProtoJSON error: ", e.as_str()),
            ProtoJsonPayloadError::Decode(e) => joined("protobuf transcode error: ", e.as_str()),
            ProtoJsonPayloadError::MissingPayload(n) => joined(
                "ProtoJSON payload missing required data for ",
                n.as_str(),
            ),
        }
    }
}

proof fn lemma_z_time_fixed(t: Seq<char>)
    ensures
        z_time(z_time(t)) == z_time(t),
{
    lemma_z_time_ends(t);
}

/// Putting times right twice is putting them right once.
pub proof fn law_normalizing_is_idempotent(j: Json)
    ensures
        normalized(normalized(j)) == normalized(j),
    decreases j,
{
    match j {
        Json::Array(s) => {
            assert forall|i: int| 0 <= i < s.len() implies normalized(normalized(#[trigger] s[i]))
                == normalized(s[i]) by {
                law_normalizing_is_idempotent(s[i]);
            }
            assert(normalized(normalized(j))->Array_0 =~= normalized(j)->Array_0);
        },
        Json::Object(m) => {
            assert forall|k: Seq<char>| m.contains_key(k) implies timed(
                k,
                normalized(timed(k, normalized(#[trigger] m[k]))),
            ) == timed(k, normalized(m[k])) by {
                law_normalizing_is_idempotent(m[k]);
                if let Json::Text(t) = normalized(m[k]) {
                    lemma_z_time_fixed(t);
                }
            }
            assert(normalized(normalized(j))->Object_0 =~= normalized(j)->Object_0);
        },
        _ => {},
    }
}

/// A member that is no time keeps its text.
pub proof fn law_other_texts_are_kept(m: Map<Seq<char>, Json>, name: Seq<char>, t: Seq<char>)
    requires
        m.contains_key(name),
        m[name] == Json::Text(t),
        !is_time(name),
    ensures
        normalized(Json::Object(m)) matches Json::Object(n) && n.contains_key(name) && n[name]
            == Json::Text(t),
{
    assert(normalized(Json::Text(t)) == Json::Text(t));
}

/// A page of tasks always has its token. One that it has is kept, as is all else.
pub proof fn law_pages_have_a_token(m: Map<Seq<char>, Json>)
    ensures
        page_normalized(Json::Object(m)) matches Json::Object(n) && n.contains_key(
            "nextPageToken"@,
        ) && n.remove("nextPageToken"@) == m.remove("nextPageToken"@) && (m.contains_key(
            "nextPageToken"@,
        ) ==> n == m),
{
    let n = page_normalized(Json::Object(m))->Object_0;
    assert(n.remove("nextPageToken"@) =~= m.remove("nextPageToken"@));
}

proof fn lemma_normalized_is_plain(j: Json, n: nat)
    requires
        plain_json(j, n),
    ensures
        plain_json(normalized(j), n),
    decreases n,
{
    match j {
        Json::Array(s) => {
            let t = normalized(j)->Array_0;
            assert forall|i: int| 0 <= i < t.len() implies plain_json(
                #[trigger] t[i],
                (n - 1) as nat,
            ) by {
                lemma_normalized_is_plain(s[i], (n - 1) as nat);
            }
        },
        Json::Object(m) => {
            let t = normalized(j)->Object_0;
            assert forall|k: Seq<char>| #[trigger] t.contains_key(k) implies plain_json(
                t[k],
                (n - 1) as nat,
            ) by {
                assert(m.contains_key(k));
                lemma_normalized_is_plain(m[k], (n - 1) as nat);
            }
        },
        _ => {},
    }
}

/// What arrives as it was sent still does so when it was made ready to be sent.
pub proof fn law_finished_values_cross(j: Json, page: bool)
    requires
        crosses(j),
    ensures
        crosses(finished(j, page)),
{
    lemma_normalized_is_plain(j, 126);
    if page {
        lemma_reserved_name();
        reveal_strlit("nextPageToken");
        assert("nextPageToken"@.len() == 13);
        if let Json::Object(m) = normalized(j) {
            if !m.contains_key("nextPageToken"@) {
                let t = page_normalized(normalized(j))->Object_0;
                assert forall|k: Seq<char>| #[trigger] t.contains_key(k) implies plain_json(
                    t[k],
                    125,
                ) by {
                    if k != "nextPageToken"@ {
                        assert(m.contains_key(k));
                    }
                }
            }
        }
    }
}

/// Making a message ready to be sent twice is making it so once.
pub proof fn law_finishing_is_idempotent(j: Json, page: bool)
    ensures
        finished(finished(j, page), page) == finished(j, page),
{
    law_normalizing_is_idempotent(j);
    if page {
        let once = normalized(j);
        if let Json::Object(m) = once {
            if !m.contains_key("nextPageToken"@) {
                let t = page_normalized(once)->Object_0;
                reveal_strlit("nextPageToken");
                reveal_strlit("timestamp");
                reveal_strlit("statusTimestampAfter");
                assert("nextPageToken"@.len() == 13 && "timestamp"@.len() == 9);
                assert("statusTimestampAfter"@.len() == 20);
                let again = normalized(once)->Object_0;
                assert(normalized(Json::Object(t))->Object_0 =~= t) by {
                    assert forall|k: Seq<char>| t.contains_key(k) implies timed(
                        k,
                        normalized(#[trigger] t[k]),
                    ) == t[k] by {
                        if k != "nextPageToken"@ {
                            assert(again[k] == m[k]);
                        }
                    }
                }
            }
        }
    }
}

/// Whether no time in a value ends in an offset of zero.
pub open spec fn times_are_right(j: Json) -> bool
    decreases j,
{
    match j {
        Json::Array(s) => forall|i: int| 0 <= i < s.len() ==> times_are_right(#[trigger] s[i]),
        Json::Object(m) => forall|k: Seq<char>| #[trigger]
            m.contains_key(k) ==> times_are_right(m[k]) && (is_time(k) && m[k] is Text
                ==> !"+00:00"@.is_suffix_of(m[k]->Text_0)),
        _ => true,
    }
}

proof fn lemma_normalized_times(j: Json)
    ensures
        times_are_right(normalized(j)),
    decreases j,
{
    match j {
        Json::Array(s) => {
            let t = normalized(j)->Array_0;
            assert forall|i: int| 0 <= i < t.len() implies times_are_right(#[trigger] t[i]) by {
                lemma_normalized_times(s[i]);
            }
        },
        Json::Object(m) => {
            let t = normalized(j)->Object_0;
            assert forall|k: Seq<char>| #[trigger] t.contains_key(k) implies times_are_right(t[k])
                && (is_time(k) && t[k] is Text ==> !"+00:00"@.is_suffix_of(t[k]->Text_0)) by {
                assert(m.contains_key(k));
                lemma_normalized_times(m[k]);
                if let Json::Text(x) = normalized(m[k]) {
                    lemma_z_time_ends(x);
                }
            }
        },
        _ => {},
    }
}

proof fn lemma_z_time_ends(t: Seq<char>)
    ensures
        !"+00:00"@.is_suffix_of(z_time(t)),
{
    reveal_strlit("+00:00");
    reveal_strlit("Z");
    let z = z_time(t);
    if "+00:00"@.is_suffix_of(t) && "+00:00"@.is_suffix_of(z) {
        assert(z.last() == 'Z');
        assert(z.subrange(z.len() - 6, z.len() as int)[5] == z[z.len() - 1]);
        assert("+00:00"@[5] == '0');
    }
}

/// What is sent names no time by an offset of zero, and a page of tasks that is sent
/// has its token.
pub proof fn law_what_is_sent_is_right(j: Json, page: bool)
    ensures
        times_are_right(finished(j, page)),
        page && j is Object ==> finished(j, page)->Object_0.contains_key("nextPageToken"@),
{
    lemma_normalized_times(j);
    if page {
        if let Json::Object(m) = normalized(j) {
            if !m.contains_key("nextPageToken"@) {
                reveal_strlit("nextPageToken");
                reveal_strlit("timestamp");
                reveal_strlit("statusTimestampAfter");
                assert("nextPageToken"@.len() == 13 && "timestamp"@.len() == 9);
                assert("statusTimestampAfter"@.len() == 20);
                let t = page_normalized(normalized(j))->Object_0;
                assert forall|k: Seq<char>| #[trigger] t.contains_key(k) implies times_are_right(
                    t[k],
                ) && (is_time(k) && t[k] is Text ==> !"+00:00"@.is_suffix_of(t[k]->Text_0)) by {
                    if k != "nextPageToken"@ {
                        assert(m.contains_key(k));
                    }
                }
            }
        }
    }
}

/// What is neither an array nor an object is no time by itself: it is kept.
pub proof fn law_normalizing_keeps_scalars(j: Json)
    requires
        !(j is Array),
        !(j is Object),
    ensures
        normalized(j) == j,
{
}

/// An array keeps its length, and its times are put right item by item.
pub proof fn law_normalizing_goes_item_by_item(s: Seq<Json>)
    ensures
        normalized(Json::Array(s)) matches Json::Array(t) && t.len() == s.len() && (forall|i: int|
            0 <= i < s.len() ==> #[trigger] t[i] == normalized(s[i])),
{
}

/// An object keeps its names, and a member that is not a text under the name of a time
/// is what it would be anywhere else.
pub proof fn law_normalizing_changes_only_times(m: Map<Seq<char>, Json>, k: Seq<char>)
    ensures
        normalized(Json::Object(m)) matches Json::Object(n) && (n.contains_key(k)
            <==> m.contains_key(k)) && (m.contains_key(k) && (!(m[k] is Text) || (k
            != "timestamp"@ && k != "statusTimestampAfter"@)) ==> n[k] == normalized(m[k])),
{
}

/// A time that ends in an offset of zero ends in `Z` instead, with all before it kept.
pub proof fn law_times_end_in_z(m: Map<Seq<char>, Json>, k: Seq<char>, head: Seq<char>)
    requires
        k == "timestamp"@ || k == "statusTimestampAfter"@,
        m.contains_key(k),
        m[k] == Json::Text(head + "+00:00"@),
    ensures
        normalized(Json::Object(m)) matches Json::Object(n) && n[k] == Json::Text(head + "Z"@),
{
    let t = head + "+00:00"@;
    assert(t.subrange(t.len() - "+00:00"@.len(), t.len() as int) =~= "+00:00"@);
    assert(t.take(t.len() - "+00:00"@.len()) =~= head);
    assert(normalized(m[k]) == m[k]);
}

/// A time that ends in anything else is kept.
pub proof fn law_other_times_are_kept(m: Map<Seq<char>, Json>, k: Seq<char>, t: Seq<char>)
    requires
        m.contains_key(k),
        m[k] == Json::Text(t),
        forall|head: Seq<char>| #[trigger] (head + "+00:00"@) != t,
    ensures
        normalized(Json::Object(m)) matches Json::Object(n) && n[k] == Json::Text(t),
{
    if "+00:00"@.is_suffix_of(t) {
        let head = t.take(t.len() - "+00:00"@.len());
        assert(head + "+00:00"@ =~= t);
    }
    assert(normalized(m[k]) == m[k]);
}

/// What is sent differs from what was made by its times alone, but for a page of tasks:
/// one that has no token gets an empty one. What answers `ListTasks` is such a page, and
/// nothing else is.
pub proof fn law_finishing_adds_only_a_token(j: Json, method: Seq<char>)
    ensures
        method != "ListTasks"@ || !(j is Object) ==> finished(j, is_page(method)) == normalized(j),
        method == "ListTasks"@ && j is Object ==> finished(j, is_page(method)) == (
        if normalized(j)->Object_0.contains_key("nextPageToken"@) {
            normalized(j)
        } else {
            Json::Object(
                normalized(j)->Object_0.insert("nextPageToken"@, Json::Text(Seq::empty())),
            )
        }),
        finished(j, false) == normalized(j),
{
}

} // verus!
