//! JSON values, and the text that they are read from and written to.
use crate::text::same_text;
use vstd::prelude::*;

verus! {

/// A JSON number: an integer, or a number that only `serde_json` can hold.
#[derive(Debug, PartialEq)]
pub enum JsonNum {
    Int(i64),
    /// An integer above `i64::MAX`.
    UInt(u64),
    Float(serde_json::Number),
}

/// A JSON value. Where an object has two members of one name the later one counts.
#[derive(Debug, PartialEq)]
pub enum JsonValue {
    Null,
    Bool(bool),
    Num(JsonNum),
    Text(String),
    Array(Vec<JsonValue>),
    Object(Vec<(String, JsonValue)>),
}

/// What a JSON number is.
pub enum NumberModel {
    Int(int),
    Float(serde_json::Number),
}

/// What a JSON value is.
pub enum Json {
    Null,
    Bool(bool),
    Num(NumberModel),
    Text(Seq<char>),
    Array(Seq<Json>),
    Object(Map<Seq<char>, Json>),
}

/// What a number stands for.
pub open spec fn number_model(n: JsonNum) -> NumberModel {
    match n {
        JsonNum::Int(i) => NumberModel::Int(i as int),
        JsonNum::UInt(u) => NumberModel::Int(u as int),
        JsonNum::Float(f) => NumberModel::Float(f),
    }
}

/// What a value stands for.
pub open spec fn model(v: JsonValue) -> Json
    decreases v,
{
    match v {
        JsonValue::Null => Json::Null,
        JsonValue::Bool(b) => Json::Bool(b),
        JsonValue::Num(n) => Json::Num(number_model(n)),
        JsonValue::Text(s) => Json::Text(s@),
        JsonValue::Array(a) => Json::Array(
            Seq::new(
                a@.len(),
                |i: int|
                    if 0 <= i < a@.len() {
                        model(a@[i])
                    } else {
                        Json::Null
                    },
            ),
        ),
        JsonValue::Object(e) => Json::Object(members(e@, e@.len() as int)),
    }
}

/// The members that the first `n` entries of an object stand for.
pub open spec fn members(e: Seq<(String, JsonValue)>, n: int) -> Map<Seq<char>, Json>
    decreases e, n,
{
    if n <= 0 || n > e.len() {
        Map::empty()
    } else {
        members(e, n - 1).insert(e[n - 1].0@, model(e[n - 1].1))
    }
}

/// The members of an object.
pub open spec fn object(e: Seq<(String, JsonValue)>) -> Map<Seq<char>, Json> {
    members(e, e.len() as int)
}

/// The items of an array.
pub open spec fn items(a: Seq<JsonValue>) -> Seq<Json> {
    Seq::new(a.len(), |i: int| model(a[i]))
}

/// The member `k` of a value, if it is an object that has one.
pub open spec fn member(j: Json, k: Seq<char>) -> Option<Json> {
    match j {
        Json::Object(m) => if m.contains_key(k) {
            Some(m[k])
        } else {
            None
        },
        _ => None,
    }
}

/// The integer that a value is.
pub open spec fn int_value(j: Json) -> Option<int> {
    match j {
        Json::Num(NumberModel::Int(i)) => Some(i),
        _ => None,
    }
}

/// An array's model is made of its items' models.
pub proof fn lemma_array_model(a: Vec<JsonValue>)
    ensures
        model(JsonValue::Array(a)) == Json::Array(items(a@)),
{
    assert(model(JsonValue::Array(a))->Array_0 =~= items(a@));
}

/// The first entries of an object do not depend on the later ones.
pub proof fn lemma_members_prefix(a: Seq<(String, JsonValue)>, b: Seq<(String, JsonValue)>, n: int)
    requires
        0 <= n <= a.len(),
        n <= b.len(),
        forall|i: int|
            0 <= i < n ==> (#[trigger] a[i]).0@ == b[i].0@ && model(a[i].1) == model(b[i].1),
    ensures
        members(a, n) == members(b, n),
    decreases n,
{
    if n > 0 {
        lemma_members_prefix(a, b, n - 1);
        assert(a[n - 1].0@ == b[n - 1].0@);
    }
}

/// A name is a member's name just when it is an entry's.
pub proof fn lemma_members_has(e: Seq<(String, JsonValue)>, n: int, k: Seq<char>)
    requires
        0 <= n <= e.len(),
    ensures
        members(e, n).contains_key(k) <==> exists|i: int| 0 <= i < n && #[trigger] e[i].0@ == k,
    decreases n,
{
    if n > 0 {
        lemma_members_has(e, n - 1, k);
        if e[n - 1].0@ == k {
        } else if members(e, n).contains_key(k) {
            let i = choose|i: int| 0 <= i < n - 1 && #[trigger] e[i].0@ == k;
            assert(e[i].0@ == k);
        }
    }
}

/// The last entry of a name gives the member.
pub proof fn lemma_members_last(e: Seq<(String, JsonValue)>, n: int, i: int)
    requires
        0 <= i < n <= e.len(),
        forall|j: int| i < j < n ==> #[trigger] e[j].0@ != e[i].0@,
    ensures
        members(e, n).contains_key(e[i].0@),
        members(e, n)[e[i].0@] == model(e[i].1),
    decreases n,
{
    if i < n - 1 {
        lemma_members_last(e, n - 1, i);
        assert(e[n - 1].0@ != e[i].0@);
    }
}

/// The place of the entry that gives the member `key`.
pub fn find_member(e: &Vec<(String, JsonValue)>, key: &str) -> (r: Option<usize>)
    ensures
        r matches Some(i) ==> i < e.len() && e@[i as int].0@ == key@ && object(e@).contains_key(
            key@,
        ) && object(e@)[key@] == model(e@[i as int].1) && forall|j: int|
            i < j < e.len() ==> #[trigger] e@[j].0@ != key@,
        r is None ==> !object(e@).contains_key(key@),
{
    let mut i: usize = e.len();
    while i > 0
        invariant
            i <= e.len(),
            forall|j: int| i <= j < e.len() ==> #[trigger] e@[j].0@ != key@,
        decreases i,
    {
        i = i - 1;
        if same_text(e[i].0.as_str(), key) {
            proof {
                lemma_members_last(e@, e@.len() as int, i as int);
            }
            return Some(i);
        }
    }
    proof {
        lemma_members_has(e@, e@.len() as int, key@);
    }
    None
}

/// The member `key` of an object's entries.
pub fn entry<'a>(e: &'a Vec<(String, JsonValue)>, key: &str) -> (r: Option<&'a JsonValue>)
    ensures
        r is Some <==> object(e@).contains_key(key@),
        r matches Some(v) ==> model(*v) == object(e@)[key@],
{
    match find_member(e, key) {
        Some(i) => Some(&e[i].1),
        None => None,
    }
}

impl JsonValue {
    /// The member `key`, if this is an object that has one.
    pub fn get(&self, key: &str) -> (r: Option<&JsonValue>)
        ensures
            r is Some <==> member(model(*self), key@) is Some,
            r matches Some(v) ==> member(model(*self), key@) == Some(model(*v)),
    {
        match self {
            JsonValue::Object(e) => entry(e, key),
            _ => None,
        }
    }

    /// Whether this is `null`.
    pub fn is_null(&self) -> (r: bool)
        ensures
            r == (model(*self) is Null),
    {
        match self {
            JsonValue::Null => true,
            _ => false,
        }
    }

    /// The text, if this is a string.
    pub fn as_str(&self) -> (r: Option<&str>)
        ensures
            r is Some <==> model(*self) is Text,
            r matches Some(s) ==> model(*self) == Json::Text(s@),
    {
        match self {
            JsonValue::Text(s) => Some(s.as_str()),
            _ => None,
        }
    }

    /// The truth value, if this is one.
    pub fn as_bool(&self) -> (r: Option<bool>)
        ensures
            r is Some <==> model(*self) is Bool,
            r matches Some(b) ==> model(*self) == Json::Bool(b),
    {
        match self {
            JsonValue::Bool(b) => Some(*b),
            _ => None,
        }
    }

    /// The integer, if this is one that `i64` holds.
    pub fn as_i64(&self) -> (r: Option<i64>)
        ensures
            match r {
                Some(i) => int_value(model(*self)) == Some(i as int),
                None => int_value(model(*self)) matches Some(i) ==> !(i64::MIN <= i <= i64::MAX),
            },
    {
        match self {
            JsonValue::Num(n) => match n {
                JsonNum::Int(i) => Some(*i),
                JsonNum::UInt(u) => if *u <= i64::MAX as u64 {
                    Some(*u as i64)
                } else {
                    None
                },
                JsonNum::Float(_) => None,
            },
            _ => None,
        }
    }

    /// The integer, if this is one that `u64` holds.
    pub fn as_u64(&self) -> (r: Option<u64>)
        ensures
            match r {
                Some(u) => int_value(model(*self)) == Some(u as int),
                None => int_value(model(*self)) matches Some(u) ==> !(0 <= u <= u64::MAX),
            },
    {
        match self {
            JsonValue::Num(n) => match n {
                JsonNum::Int(i) => if *i >= 0 {
                    Some(*i as u64)
                } else {
                    None
                },
                JsonNum::UInt(u) => Some(*u),
                JsonNum::Float(_) => None,
            },
            _ => None,
        }
    }
}

/// Puts `value` under `key`, in place of the member that was there.
pub fn set_member(e: &mut Vec<(String, JsonValue)>, key: String, value: JsonValue)
    ensures
        object(final(e)@) == object(old(e)@).insert(key@, model(value)),
{
    let ghost before = e@;
    match find_member(e, key.as_str()) {
        Some(i) => {
            let k = key.clone();
            e.set(i, (k, value));
            proof {
                lemma_members_update(before, i as int, e@[i as int]);
                assert(e@ =~= before.update(i as int, e@[i as int]));
            }
        },
        None => {
            e.push((key, value));
            proof {
                lemma_members_prefix(e@, before, before.len() as int);
            }
        },
    }
}

/// Replacing the last entry of a name replaces the member.
pub proof fn lemma_members_update(e: Seq<(String, JsonValue)>, i: int, entry: (String, JsonValue))
    requires
        0 <= i < e.len(),
        entry.0@ == e[i].0@,
        forall|j: int| i < j < e.len() ==> #[trigger] e[j].0@ != e[i].0@,
    ensures
        object(e.update(i, entry)) == object(e).insert(e[i].0@, model(entry.1)),
{
    let u = e.update(i, entry);
    let k = e[i].0@;
    assert(object(u) =~= object(e).insert(k, model(entry.1))) by {
        assert forall|j: int| i < j < u.len() implies #[trigger] u[j].0@ != u[i].0@ by {
            assert(u[j] == e[j]);
            assert(u[i] == entry);
        }
        lemma_members_last(u, u.len() as int, i);
        assert forall|x: Seq<char>| x != k implies #[trigger] object(u).contains_key(x) == object(
            e,
        ).contains_key(x) && (object(u).contains_key(x) ==> object(u)[x] == object(e)[x]) by {
            lemma_members_other(e, u, e.len() as int, k, x);
        }
    }
}

proof fn lemma_members_other(
    a: Seq<(String, JsonValue)>,
    b: Seq<(String, JsonValue)>,
    n: int,
    k: Seq<char>,
    x: Seq<char>,
)
    requires
        0 <= n <= a.len(),
        a.len() == b.len(),
        x != k,
        forall|j: int|
            0 <= j < a.len() ==> #[trigger] a[j].0@ == b[j].0@ && (a[j].0@ != k ==> model(a[j].1)
                == model(b[j].1)) || (a[j].0@ == k && b[j].0@ == k),
    ensures
        members(a, n).contains_key(x) == members(b, n).contains_key(x),
        members(a, n).contains_key(x) ==> members(a, n)[x] == members(b, n)[x],
    decreases n,
{
    if n > 0 {
        lemma_members_other(a, b, n - 1, k, x);
        assert(a[n - 1].0@ == b[n - 1].0@);
    }
}

/// A copy of a number.
fn copy_number(n: &JsonNum) -> (r: JsonNum)
    ensures
        r == *n,
{
    match n {
        JsonNum::Int(i) => JsonNum::Int(*i),
        JsonNum::UInt(u) => JsonNum::UInt(*u),
        JsonNum::Float(f) => JsonNum::Float(f.clone()),
    }
}

/// A copy of a value.
pub fn copy_value(v: &JsonValue) -> (r: JsonValue)
    ensures
        model(r) == model(*v),
    decreases v,
{
    match v {
        JsonValue::Null => JsonValue::Null,
        JsonValue::Bool(b) => JsonValue::Bool(*b),
        JsonValue::Num(n) => JsonValue::Num(copy_number(n)),
        JsonValue::Text(s) => JsonValue::Text(s.clone()),
        JsonValue::Array(a) => {
            let mut out: Vec<JsonValue> = Vec::new();
            let mut i: usize = 0;
            while i < a.len()
                invariant
                    i <= a.len(),
                    out.len() == i,
                    *v == JsonValue::Array(*a),
                    forall|j: int| 0 <= j < i ==> model(#[trigger] out@[j]) == model(a@[j]),
                decreases a.len() - i,
            {
                assert(decreases_to!(*v => v->Array_0));
                assert(decreases_to!(v->Array_0 => v->Array_0@));
                assert(decreases_to!(v->Array_0@ => v->Array_0@[i as int]));
                out.push(copy_value(&a[i]));
                i = i + 1;
            }
            proof {
                lemma_array_model(out);
                lemma_array_model(*a);
                assert(items(out@) =~= items(a@));
            }
            JsonValue::Array(out)
        },
        JsonValue::Object(e) => {
            let mut out: Vec<(String, JsonValue)> = Vec::new();
            let mut i: usize = 0;
            while i < e.len()
                invariant
                    i <= e.len(),
                    out.len() == i,
                    *v == JsonValue::Object(*e),
                    forall|j: int|
                        0 <= j < i ==> (#[trigger] out@[j]).0@ == e@[j].0@ && model(out@[j].1)
                            == model(e@[j].1),
                decreases e.len() - i,
            {
                assert(decreases_to!(*v => v->Object_0));
                assert(decreases_to!(v->Object_0 => v->Object_0@));
                assert(decreases_to!(v->Object_0@ => v->Object_0@[i as int]));
                assert(decreases_to!(v->Object_0@[i as int] => v->Object_0@[i as int].1));
                out.push((e[i].0.clone(), copy_value(&e[i].1)));
                i = i + 1;
            }
            proof {
                lemma_members_prefix(out@, e@, e@.len() as int);
            }
            JsonValue::Object(out)
        },
    }
}

impl Clone for JsonValue {
    fn clone(&self) -> (r: Self)
        ensures
            model(r) == model(*self),
    {
        copy_value(self)
    }
}

// ---------------------------------------------------------------------------
// Trusted: serde_json.
// ---------------------------------------------------------------------------

/// `serde_json::Number`, which carries the numbers that are no integers.
#[verifier::external_type_specification]
#[verifier::external_body]
pub struct ExNumber(serde_json::Number);

/// `serde_json::Value`, the value that `serde_json` reads and writes.
#[verifier::external_type_specification]
#[verifier::external_body]
pub struct ExValue(serde_json::Value);

/// A clone of a `serde_json::Number` is the same number.
pub assume_specification[ <serde_json::Number as Clone>::clone ](n: &serde_json::Number) -> (r:
    serde_json::Number)
    ensures
        r == *n,
;

/// What `serde_json::from_slice` reads: the value, or the text of its error.
pub uninterp spec fn json_read(bytes: Seq<u8>) -> Result<Json, Seq<char>>;

/// What `serde_json::to_vec` writes: the bytes, or the text of its error.
pub uninterp spec fn json_written(j: Json) -> Result<Seq<u8>, Seq<char>>;

/// Takes a `serde_json::Value` apart, variant for variant.
#[verifier::external_body]
fn from_serde(v: serde_json::Value) -> JsonValue {
    match v {
        serde_json::Value::Null => JsonValue::Null,
        serde_json::Value::Bool(b) => JsonValue::Bool(b),
        serde_json::Value::Number(n) => JsonValue::Num(number_from_serde(n)),
        serde_json::Value::String(s) => JsonValue::Text(s),
        serde_json::Value::Array(a) => JsonValue::Array(a.into_iter().map(from_serde).collect()),
        serde_json::Value::Object(m) => JsonValue::Object(
            m.into_iter().map(|(k, v)| (k, from_serde(v))).collect(),
        ),
    }
}

/// Takes a `serde_json::Number` apart by `as_i64` and `as_u64`, which tell its
/// variants from each other.
#[verifier::external_body]
fn number_from_serde(n: serde_json::Number) -> JsonNum {
    match (n.as_i64(), n.as_u64()) {
        (Some(i), _) => JsonNum::Int(i),
        (None, Some(u)) => JsonNum::UInt(u),
        (None, None) => JsonNum::Float(n),
    }
}

/// Makes a `serde_json::Number`, variant for variant.
#[verifier::external_body]
fn number_to_serde(n: &JsonNum) -> serde_json::Number {
    match n {
        JsonNum::Int(i) => serde_json::Number::from(*i),
        JsonNum::UInt(u) => serde_json::Number::from(*u),
        JsonNum::Float(f) => f.clone(),
    }
}

/// Makes a `serde_json::Value`, variant for variant.
#[verifier::external_body]
fn to_serde(v: &JsonValue) -> serde_json::Value {
    match v {
        JsonValue::Null => serde_json::Value::Null,
        JsonValue::Bool(b) => serde_json::Value::Bool(*b),
        JsonValue::Num(n) => serde_json::Value::Number(number_to_serde(n)),
        JsonValue::Text(s) => serde_json::Value::String(s.clone()),
        JsonValue::Array(a) => serde_json::Value::Array(a.iter().map(to_serde).collect()),
        JsonValue::Object(e) => serde_json::Value::Object(
            e.iter().map(|(k, v)| (k.clone(), to_serde(v))).collect(),
        ),
    }
}

/// `serde_json::from_slice` to a `serde_json::Value`: what it gives depends on
/// the bytes alone.
#[verifier::external_body]
pub(crate) fn read_json(bytes: &[u8]) -> (r: Result<JsonValue, String>)
    ensures
        match r {
            Ok(v) => json_read(bytes@) == Ok::<Json, Seq<char>>(model(v)),
            Err(e) => json_read(bytes@) == Err::<Json, Seq<char>>(e@),
        },
{
    match serde_json::from_slice::<serde_json::Value>(bytes) {
        Ok(v) => Ok(from_serde(v)),
        Err(e) => Err(e.to_string()),
    }
}

/// How many arrays and objects may stand inside each other for `serde_json` to
/// read them.
pub open spec fn depth_limit() -> nat {
    127
}

/// The name that `serde_json` keeps for itself: an object whose first member has it
/// is read as the JSON in that member's text.
pub const RESERVED_NAME: &'static str = "$serde_json::private::RawValue";

/// How the reserved name is told from others.
pub proof fn lemma_reserved_name()
    ensures
        RESERVED_NAME@.len() == 30,
        RESERVED_NAME@[0] == '$',
{
    reveal_strlit("$serde_json::private::RawValue");
}

/// Whether a value holds no numbers but integers and no member of the reserved name,
/// and has at most `n` arrays and objects inside each other.
pub open spec fn plain_json(j: Json, n: nat) -> bool
    decreases n,
{
    match j {
        Json::Num(NumberModel::Float(_)) => false,
        Json::Array(s) => n > 0 && forall|i: int|
            0 <= i < s.len() ==> plain_json(#[trigger] s[i], (n - 1) as nat),
        Json::Object(m) => n > 0 && !m.contains_key(RESERVED_NAME@) && (forall|k: Seq<char>|
            #[trigger]
            m.contains_key(k) ==> plain_json(m[k], (n - 1) as nat)),
        _ => true,
    }
}

/// Whether a value arrives as it was sent: it is not null, which reads as absent,
/// holds no numbers but integers and no member of the reserved name, and is not
/// nested too deeply to stand in a message.
pub open spec fn crosses(j: Json) -> bool {
    !(j is Null) && plain_json(j, 126)
}

/// A value that is not nested too deeply for one depth is not for a greater one.
pub proof fn lemma_plain_deeper(j: Json, n: nat, m: nat)
    requires
        plain_json(j, n),
        n <= m,
    ensures
        plain_json(j, m),
    decreases n,
{
    match j {
        Json::Array(s) => {
            assert forall|i: int| 0 <= i < s.len() implies plain_json(
                #[trigger] s[i],
                (m - 1) as nat,
            ) by {
                lemma_plain_deeper(s[i], (n - 1) as nat, (m - 1) as nat);
            }
        },
        Json::Object(o) => {
            assert forall|k: Seq<char>| #[trigger] o.contains_key(k) implies plain_json(
                o[k],
                (m - 1) as nat,
            ) by {
                lemma_plain_deeper(o[k], (n - 1) as nat, (m - 1) as nat);
            }
        },
        _ => {},
    }
}

/// `serde_json::to_vec` of a `serde_json::Value`: it does not fail, since the
/// keys of such a value are texts and its numbers are finite, and what it gives
/// depends on the value alone. `serde_json::from_slice` reads from it the value
/// that was written, if that is not nested too deeply. Nothing is said of values
/// with numbers that are no integers, which may come back as a neighbouring
/// number, nor of values with a member of the name that `serde_json` keeps for raw
/// JSON, which come back as what that member holds, or not at all.
#[verifier::external_body]
pub(crate) fn write_json(v: &JsonValue) -> (r: Result<Vec<u8>, String>)
    ensures
        r is Ok,
        match r {
            Ok(b) => json_written(model(*v)) == Ok::<Seq<u8>, Seq<char>>(b@) && (plain_json(
                model(*v),
                depth_limit(),
            ) ==> json_read(b@) == Ok::<Json, Seq<char>>(model(*v))),
            Err(_) => true,
        },
{
    serde_json::to_vec(&to_serde(v)).map_err(|e| e.to_string())
}

} // verus!
