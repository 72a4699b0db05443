//! The session binding that is stamped into emitted output.
//!
//! It records which session produced a result, as a local fact: a reader may
//! match it with a spawn, but it proves no identity across hosts.
use crate::json_value::{
    copy_value, entry, items, lemma_array_model, member, members, model, object, set_member, Json,
    JsonNum, JsonValue, NumberModel,
};
use crate::stdio::wire::{variant_token, Variant};
use crate::text::opt_text;
use vstd::prelude::*;

verus! {

/// The metadata key of the session binding.
pub const BINDING_URI: &'static str = "https://a2a-protocol.org/bindings/stdio/v1";

/// Which session produced a result.
#[derive(Debug, PartialEq)]
pub struct SessionBinding {
    pub session_id: String,
    pub pid: Option<u32>,
    pub variant: Variant,
    /// A digest of the launch descriptor; never a secret.
    pub launch_digest: Option<String>,
}

/// The JSON form of a binding's contents: what is absent is left out.
pub open spec fn binding_of(
    session_id: Seq<char>,
    pid: Option<u32>,
    variant: Variant,
    launch_digest: Option<Seq<char>>,
) -> Json {
    let m0 = Map::<Seq<char>, Json>::empty().insert("sessionId"@, Json::Text(session_id));
    let m1 = match pid {
        Some(p) => m0.insert("pid"@, Json::Num(NumberModel::Int(p as int))),
        None => m0,
    };
    let m2 = m1.insert("variant"@, Json::Text(variant_token(variant)));
    let m3 = match launch_digest {
        Some(d) => m2.insert("launchDigest"@, Json::Text(d)),
        None => m2,
    };
    Json::Object(m3)
}

/// The JSON form of a binding.
pub open spec fn binding_json(b: SessionBinding) -> Json {
    binding_of(b.session_id@, b.pid, b.variant, opt_text(b.launch_digest))
}

impl SessionBinding {
    /// The JSON form of this binding.
    pub fn to_value(&self) -> (r: JsonValue)
        ensures
            model(r) == binding_json(*self),
    {
        let mut out: Vec<(String, JsonValue)> = Vec::new();
        assert(object(out@) =~= Map::<Seq<char>, Json>::empty());
        set_member(&mut out, "sessionId".to_owned(), JsonValue::Text(self.session_id.clone()));
        if let Some(pid) = self.pid {
            set_member(&mut out, "pid".to_owned(), JsonValue::Num(JsonNum::Int(pid as i64)));
        }
        set_member(
            &mut out,
            "variant".to_owned(),
            JsonValue::Text(self.variant.as_str().to_owned()),
        );
        if let Some(digest) = &self.launch_digest {
            set_member(&mut out, "launchDigest".to_owned(), JsonValue::Text(digest.clone()));
        }
        JsonValue::Object(out)
    }
}

/// Whether an object is a task, a message or an artifact.
///
/// Each of these names belongs to one kind of object only; `status` goes with
/// `id` because update events have `taskId` instead.
pub open spec fn is_emitted(m: Map<Seq<char>, Json>) -> bool {
    m.contains_key("messageId"@) || m.contains_key("artifactId"@) || (m.contains_key("id"@)
        && m.contains_key("status"@))
}

/// The metadata with the binding in it, unless there is one already or the
/// metadata is no object.
pub open spec fn bound(slot: Option<Json>, b: Json) -> Json {
    match slot {
        Some(Json::Object(m)) => if m.contains_key(BINDING_URI@) {
            Json::Object(m)
        } else {
            Json::Object(m.insert(BINDING_URI@, b))
        },
        Some(Json::Null) | None => Json::Object(
            Map::<Seq<char>, Json>::empty().insert(BINDING_URI@, b),
        ),
        Some(j) => j,
    }
}

/// An object with the binding in its metadata, if it is emitted.
pub open spec fn marked(m: Map<Seq<char>, Json>, b: Json) -> Map<Seq<char>, Json> {
    if is_emitted(m) {
        m.insert("metadata"@, bound(member(Json::Object(m), "metadata"@), b))
    } else {
        m
    }
}

/// A value with the binding in every task, message and artifact in it.
pub open spec fn stamped(j: Json, b: Json) -> Json
    decreases j,
{
    match j {
        Json::Array(s) => Json::Array(
            Seq::new(
                s.len(),
                |i: int|
                    if 0 <= i < s.len() {
                        stamped(s[i], b)
                    } else {
                        Json::Null
                    },
            ),
        ),
        Json::Object(m) => Json::Object(
            marked(
                Map::new(
                    |k: Seq<char>| m.contains_key(k),
                    |k: Seq<char>|
                        if m.contains_key(k) {
                            stamped(m[k], b)
                        } else {
                            Json::Null
                        },
                ),
                b,
            ),
        ),
        _ => j,
    }
}

/// The members of an object, each stamped.
pub open spec fn each_stamped(m: Map<Seq<char>, Json>, b: Json) -> Map<Seq<char>, Json> {
    Map::new(|k: Seq<char>| m.contains_key(k), |k: Seq<char>| stamped(m[k], b))
}

/// How stamping goes down into an object.
pub proof fn lemma_stamped_object(m: Map<Seq<char>, Json>, b: Json)
    ensures
        stamped(Json::Object(m), b) == Json::Object(marked(each_stamped(m, b), b)),
{
    let x = each_stamped(m, b);
    assert(stamped(Json::Object(m), b)->Object_0 =~= marked(x, b));
}

fn emitted_object(e: &Vec<(String, JsonValue)>) -> (r: bool)
    ensures
        r == is_emitted(object(e@)),
{
    entry(e, "messageId").is_some() || entry(e, "artifactId").is_some() || (entry(
        e,
        "id",
    ).is_some() && entry(e, "status").is_some())
}

fn bind_metadata(slot: Option<&JsonValue>, binding: &JsonValue) -> (r: JsonValue)
    ensures
        model(r) == bound(
            match slot {
                Some(v) => Some(model(*v)),
                None => None,
            },
            model(*binding),
        ),
{
    let mut metadata: Vec<(String, JsonValue)> = match slot {
        Some(v) => match copy_value(v) {
            JsonValue::Object(e) => {
                assert(model(JsonValue::Object(e)) == model(*v));
                e
            },
            JsonValue::Null => {
                let e: Vec<(String, JsonValue)> = Vec::new();
                assert(object(e@) =~= Map::<Seq<char>, Json>::empty());
                e
            },
            other => {
                return other;
            },
        },
        None => {
            let e: Vec<(String, JsonValue)> = Vec::new();
            assert(object(e@) =~= Map::<Seq<char>, Json>::empty());
            e
        },
    };
    if entry(&metadata, BINDING_URI).is_none() {
        set_member(&mut metadata, BINDING_URI.to_owned(), copy_value(binding));
    }
    JsonValue::Object(metadata)
}

fn stamp_copy(v: &JsonValue, binding: &JsonValue) -> (r: JsonValue)
    ensures
        model(r) == stamped(model(*v), model(*binding)),
    decreases v,
{
    match v {
        JsonValue::Array(a) => {
            let mut out: Vec<JsonValue> = Vec::new();
            let mut i: usize = 0;
            while i < a.len()
                invariant
                    i <= a.len(),
                    out.len() == i,
                    *v == JsonValue::Array(*a),
                    forall|j: int|
                        0 <= j < i ==> model(#[trigger] out@[j]) == stamped(
                            model(a@[j]),
                            model(*binding),
                        ),
                decreases a.len() - i,
            {
                assert(decreases_to!(*v => v->Array_0));
                assert(decreases_to!(v->Array_0 => v->Array_0@));
                assert(decreases_to!(v->Array_0@ => v->Array_0@[i as int]));
                out.push(stamp_copy(&a[i], binding));
                i = i + 1;
            }
            proof {
                lemma_array_model(out);
                lemma_array_model(*a);
                assert(items(out@) =~= stamped(model(*v), model(*binding))->Array_0);
            }
            JsonValue::Array(out)
        },
        JsonValue::Object(e) => {
            let mut out: Vec<(String, JsonValue)> = Vec::new();
            let mut i: usize = 0;
            while i < e.len()
                invariant
                    i <= e.len(),
                    out.len() == i,
                    *v == JsonValue::Object(*e),
                    forall|j: int|
                        0 <= j < i ==> (#[trigger] out@[j]).0@ == e@[j].0@ && model(out@[j].1)
                            == stamped(model(e@[j].1), model(*binding)),
                decreases e.len() - i,
            {
                assert(decreases_to!(*v => v->Object_0));
                assert(decreases_to!(v->Object_0 => v->Object_0@));
                assert(decreases_to!(v->Object_0@ => v->Object_0@[i as int]));
                assert(decreases_to!(v->Object_0@[i as int] => v->Object_0@[i as int].1));
                out.push((e[i].0.clone(), stamp_copy(&e[i].1, binding)));
                i = i + 1;
            }
            proof {
                lemma_members_stamped(e@, out@, e@.len() as int, model(*binding));
                lemma_stamped_object(object(e@), model(*binding));
            }
            if emitted_object(&out) {
                let slot = bind_metadata(entry(&out, "metadata"), binding);
                set_member(&mut out, "metadata".to_owned(), slot);
            }
            JsonValue::Object(out)
        },
        _ => copy_value(v),
    }
}

proof fn lemma_members_stamped(
    e: Seq<(String, JsonValue)>,
    out: Seq<(String, JsonValue)>,
    n: int,
    b: Json,
)
    requires
        0 <= n <= e.len(),
        out.len() == e.len(),
        forall|j: int|
            0 <= j < e.len() ==> (#[trigger] out[j]).0@ == e[j].0@ && model(out[j].1) == stamped(
                model(e[j].1),
                b,
            ),
    ensures
        members(out, n) == each_stamped(members(e, n), b),
    decreases n,
{
    if n > 0 {
        lemma_members_stamped(e, out, n - 1, b);
        assert(out[n - 1].0@ == e[n - 1].0@);
        assert(members(out, n) =~= each_stamped(members(e, n), b));
    } else {
        assert(members(out, n) =~= each_stamped(members(e, n), b));
    }
}

/// Puts `binding` into every task, message and artifact of a response.
///
/// The walk does not depend on the response's layout. An entry that is there
/// already is never replaced: history can outlive a spawn, and restamping would
/// credit this session with older output.
pub fn stamp(value: &mut JsonValue, binding: &JsonValue)
    ensures
        model(*final(value)) == stamped(model(*old(value)), model(*binding)),
{
    let out = stamp_copy(value, binding);
    *value = out;
}

/// A session binding has nothing in it to stamp.
pub proof fn law_binding_is_not_stamped(s: SessionBinding, b: Json)
    ensures
        stamped(binding_json(s), b) == binding_json(s),
{
    let m = binding_json(s)->Object_0;
    lemma_stamped_object(m, b);
    assert(!is_emitted(m)) by {
        reveal_strlit("sessionId");
        reveal_strlit("pid");
        reveal_strlit("variant");
        reveal_strlit("launchDigest");
        reveal_strlit("messageId");
        reveal_strlit("artifactId");
        reveal_strlit("id");
        reveal_strlit("status");
        assert("messageId"@.len() == 9 && "messageId"@[0] == 'm');
        assert("artifactId"@.len() == 10);
        assert("id"@.len() == 2);
        assert("sessionId"@[0] == 's' && "sessionId"@.len() == 9);
        assert("pid"@.len() == 3 && "variant"@.len() == 7 && "launchDigest"@.len() == 12);
    }
    assert(each_stamped(m, b) =~= m);
}

/// An entry that is there already is kept: where the metadata of a task,
/// message or artifact holds a binding, stamping leaves that binding there, with
/// nothing of it changed but what it holds to be stamped itself.
pub proof fn law_stamp_keeps_an_existing_binding(m: Map<Seq<char>, Json>, b: Json, older: Json)
    requires
        member(Json::Object(m), "metadata"@) matches Some(meta) && member(meta, BINDING_URI@)
            == Some(older),
    ensures
        member(stamped(Json::Object(m), b), "metadata"@) matches Some(meta) && member(
            meta,
            BINDING_URI@,
        ) == Some(stamped(older, b)),
{
    lemma_stamped_object(m, b);
    let meta = m["metadata"@]->Object_0;
    lemma_stamped_object(meta, b);
    let x = each_stamped(meta, b);
    assert(x.contains_key(BINDING_URI@));
    assert(BINDING_URI@ != "metadata"@) by {
        reveal_strlit("https://a2a-protocol.org/bindings/stdio/v1");
        reveal_strlit("metadata");
        assert("metadata"@.len() == 8);
    }
}

/// Every task, message and artifact without a binding gets this one, unless its
/// metadata is neither absent, nor null, nor an object.
pub proof fn law_stamp_binds_what_is_emitted(m: Map<Seq<char>, Json>, b: Json)
    requires
        is_emitted(m),
        member(Json::Object(m), "metadata"@) matches Some(meta) ==> meta is Null || (meta is Object
            && !meta->Object_0.contains_key(BINDING_URI@)),
    ensures
        member(stamped(Json::Object(m), b), "metadata"@) matches Some(meta) && member(
            meta,
            BINDING_URI@,
        ) == Some(b),
{
    lemma_stamped_object(m, b);
    let x = each_stamped(m, b);
    assert(is_emitted(x));
    if m.contains_key("metadata"@) && m["metadata"@] is Object {
        let meta = m["metadata"@]->Object_0;
        lemma_stamped_object(meta, b);
        assert(BINDING_URI@ != "metadata"@) by {
            reveal_strlit("https://a2a-protocol.org/bindings/stdio/v1");
            reveal_strlit("metadata");
            assert("metadata"@.len() == 8);
        }
    }
}

proof fn lemma_names_differ()
    ensures
        BINDING_URI@ != "metadata"@,
        BINDING_URI@ != "messageId"@,
        BINDING_URI@ != "artifactId"@,
        BINDING_URI@ != "id"@,
        BINDING_URI@ != "status"@,
        "metadata"@ != "messageId"@,
        "metadata"@ != "artifactId"@,
        "metadata"@ != "id"@,
        "metadata"@ != "status"@,
{
    reveal_strlit("https://a2a-protocol.org/bindings/stdio/v1");
    reveal_strlit("metadata");
    reveal_strlit("messageId");
    reveal_strlit("artifactId");
    reveal_strlit("id");
    reveal_strlit("status");
    assert("metadata"@.len() == 8 && "messageId"@.len() == 9 && "artifactId"@.len() == 10);
    assert("id"@.len() == 2 && "status"@.len() == 6);
}

/// The first binding stays: what a session has stamped, a later session does not
/// change, nor does the same one, for a binding that has nothing in it to stamp.
pub proof fn law_the_first_binding_stays(j: Json, b: Json, later: Json)
    requires
        stamped(b, later) == b,
    ensures
        stamped(stamped(j, b), later) == stamped(j, b),
    decreases j,
{
    match j {
        Json::Array(s) => {
            let once = stamped(j, b)->Array_0;
            let twice = stamped(stamped(j, b), later)->Array_0;
            assert forall|i: int| 0 <= i < s.len() implies twice[i] == once[i] by {
                law_the_first_binding_stays(s[i], b, later);
            }
            assert(twice =~= once);
        },
        Json::Object(m) => {
            lemma_names_differ();
            let x = each_stamped(m, b);
            let y = marked(x, b);
            lemma_stamped_object(m, b);
            lemma_stamped_object(y, later);
            assert forall|k: Seq<char>| m.contains_key(k) implies #[trigger] stamped(x[k], later)
                == x[k] by {
                law_the_first_binding_stays(m[k], b, later);
            }
            let z = each_stamped(y, later);
            if is_emitted(x) {
                let slot = bound(member(Json::Object(x), "metadata"@), b);
                assert(stamped(slot, later) == slot) by {
                    lemma_bound_is_stamped(member(Json::Object(x), "metadata"@), b, later);
                }
                assert(z =~= y);
                assert(is_emitted(y));
                assert(bound(Some(slot), later) == slot);
                assert(marked(z, later) =~= y);
            } else {
                assert(z =~= y);
            }
        },
        _ => {},
    }
}

/// Stamping twice is stamping once, for the binding of a session.
pub proof fn law_stamp_is_idempotent(j: Json, s: SessionBinding)
    ensures
        stamped(stamped(j, binding_json(s)), binding_json(s)) == stamped(j, binding_json(s)),
{
    law_binding_is_not_stamped(s, binding_json(s));
    law_the_first_binding_stays(j, binding_json(s), binding_json(s));
}

/// Metadata that was bound after it was stamped is not changed by stamping.
proof fn lemma_bound_is_stamped(slot: Option<Json>, b: Json, later: Json)
    requires
        stamped(b, later) == b,
        slot matches Some(j) ==> stamped(j, later) == j,
    ensures
        stamped(bound(slot, b), later) == bound(slot, b),
{
    lemma_names_differ();
    match slot {
        Some(Json::Object(m)) => {
            if !m.contains_key(BINDING_URI@) {
                let w = m.insert(BINDING_URI@, b);
                lemma_stamped_object(m, later);
                lemma_stamped_object(w, later);
                let x = each_stamped(m, later);
                assert(each_stamped(w, later) =~= x.insert(BINDING_URI@, b));
                assert(is_emitted(x) == is_emitted(x.insert(BINDING_URI@, b)));
                assert(marked(x.insert(BINDING_URI@, b), later) =~= marked(x, later).insert(
                    BINDING_URI@,
                    b,
                ));
            }
        },
        Some(Json::Null) | None => {
            let w = Map::<Seq<char>, Json>::empty().insert(BINDING_URI@, b);
            lemma_stamped_object(w, later);
            assert(each_stamped(w, later) =~= w);
        },
        Some(other) => {},
    }
}

/// Stamping changes nothing but metadata: every other member of an object is there
/// just where it was, and holds what it held, stamped itself.
pub proof fn law_stamp_changes_nothing_but_metadata(
    m: Map<Seq<char>, Json>,
    b: Json,
    k: Seq<char>,
)
    requires
        k != "metadata"@,
    ensures
        stamped(Json::Object(m), b) matches Json::Object(n) && (n.contains_key(k)
            <==> m.contains_key(k)) && (m.contains_key(k) ==> n[k] == stamped(m[k], b)),
{
    lemma_stamped_object(m, b);
}

/// An object that is neither a message, nor an artifact, nor a task gets no metadata:
/// it keeps its names, and each of its members is stamped by itself.
pub proof fn law_stamp_marks_nothing_else(m: Map<Seq<char>, Json>, b: Json)
    requires
        !m.contains_key("messageId"@),
        !m.contains_key("artifactId"@),
        !m.contains_key("id"@) || !m.contains_key("status"@),
    ensures
        stamped(Json::Object(m), b) matches Json::Object(n) && n.dom() == m.dom() && (forall|
            k: Seq<char>,
        |
            m.contains_key(k) ==> #[trigger] n[k] == stamped(m[k], b)),
{
    lemma_stamped_object(m, b);
    assert(stamped(Json::Object(m), b)->Object_0.dom() =~= m.dom());
}

/// A message, an artifact or a task that has no metadata, or null for it, gets metadata
/// that holds the binding and nothing else.
pub proof fn law_stamp_makes_metadata(m: Map<Seq<char>, Json>, b: Json)
    requires
        m.contains_key("messageId"@) || m.contains_key("artifactId"@) || (m.contains_key("id"@)
            && m.contains_key("status"@)),
        m.contains_key("metadata"@) ==> m["metadata"@] is Null,
    ensures
        stamped(Json::Object(m), b) matches Json::Object(n) && n.contains_key("metadata"@)
            && n["metadata"@] == Json::Object(
            map!["https://a2a-protocol.org/bindings/stdio/v1"@ => b],
        ),
{
    lemma_stamped_object(m, b);
    let n = stamped(Json::Object(m), b)->Object_0;
    assert(n["metadata"@]->Object_0 =~= map!["https://a2a-protocol.org/bindings/stdio/v1"@ => b]);
}

/// The metadata of a message, an artifact or a task keeps all that it holds. What it
/// held is stamped as it would be anywhere else, and all that is added is the binding,
/// where there was none.
pub proof fn law_stamp_keeps_what_metadata_holds(
    m: Map<Seq<char>, Json>,
    meta: Map<Seq<char>, Json>,
    b: Json,
)
    requires
        m.contains_key("messageId"@) || m.contains_key("artifactId"@) || (m.contains_key("id"@)
            && m.contains_key("status"@)),
        m.contains_key("metadata"@),
        m["metadata"@] == Json::Object(meta),
    ensures
        stamped(Json::Object(meta), b) is Object,
        stamped(Json::Object(m), b) matches Json::Object(n) && n.contains_key("metadata"@)
            && n["metadata"@] == Json::Object(
            if meta.contains_key("https://a2a-protocol.org/bindings/stdio/v1"@) {
                stamped(Json::Object(meta), b)->Object_0
            } else {
                stamped(Json::Object(meta), b)->Object_0.insert(
                    "https://a2a-protocol.org/bindings/stdio/v1"@,
                    b,
                )
            },
        ),
{
    lemma_names_differ();
    lemma_stamped_object(m, b);
    lemma_stamped_object(meta, b);
    law_stamp_changes_nothing_but_metadata(meta, b, BINDING_URI@);
}

/// Metadata that is neither null nor an object is left as it is stamped anywhere else:
/// nothing can be put into it.
pub proof fn law_stamp_leaves_other_metadata(m: Map<Seq<char>, Json>, b: Json)
    requires
        m.contains_key("metadata"@),
        !(m["metadata"@] is Null),
        !(m["metadata"@] is Object),
    ensures
        stamped(Json::Object(m), b) matches Json::Object(n) && n.contains_key("metadata"@)
            && n["metadata"@] == stamped(m["metadata"@], b),
{
    lemma_stamped_object(m, b);
}

/// An array keeps its length, and is stamped item by item.
pub proof fn law_stamp_goes_item_by_item(s: Seq<Json>, b: Json)
    ensures
        stamped(Json::Array(s), b) matches Json::Array(t) && t.len() == s.len() && (forall|i: int|
            0 <= i < s.len() ==> #[trigger] t[i] == stamped(s[i], b)),
{
}

/// A value that is neither an array nor an object has nothing in it to stamp.
pub proof fn law_stamp_leaves_scalars(j: Json, b: Json)
    requires
        !(j is Array),
        !(j is Object),
    ensures
        stamped(j, b) == j,
{
}

/// A binding names its session and its variant, and the process and the digest just
/// where they are known. It holds nothing else.
pub proof fn law_binding_names_its_session(
    session_id: Seq<char>,
    pid: Option<u32>,
    variant: Variant,
    launch_digest: Option<Seq<char>>,
)
    ensures
        binding_of(session_id, pid, variant, launch_digest) matches Json::Object(m) && {
            &&& forall|k: Seq<char>| #[trigger]
                m.contains_key(k) <==> k == "sessionId"@ || k == "variant"@ || (k == "pid"@
                    && pid is Some) || (k == "launchDigest"@ && launch_digest is Some)
            &&& m["sessionId"@] == Json::Text(session_id)
            &&& m["variant"@] == Json::Text(
                match variant {
                    Variant::Json => "stdio-json"@,
                    Variant::Proto => "stdio-proto"@,
                },
            )
            &&& pid matches Some(p) ==> m["pid"@] == Json::Num(NumberModel::Int(p as int))
            &&& launch_digest matches Some(d) ==> m["launchDigest"@] == Json::Text(d)
        },
{
    reveal_strlit("sessionId");
    reveal_strlit("pid");
    reveal_strlit("variant");
    reveal_strlit("launchDigest");
    assert("sessionId"@.len() == 9 && "pid"@.len() == 3);
    assert("variant"@.len() == 7 && "launchDigest"@.len() == 12);
}

} // verus!
