//! Service parameters: names, each with a list of values.
use crate::text::texts;
use crate::text_map::{map_of, TextMap};
use vstd::prelude::*;

verus! {

/// Service parameters: each name with its list of values.
pub type ServiceParams = TextMap<Vec<String>>;

/// The texts of a map of string lists.
pub open spec fn lists(m: Map<Seq<char>, Vec<String>>) -> Map<Seq<char>, Seq<Seq<char>>> {
    Map::new(|k: Seq<char>| m.contains_key(k), |k: Seq<char>| texts(m[k]@))
}

/// What is under `k`, or nothing.
pub open spec fn values_under(m: Map<Seq<char>, Seq<Seq<char>>>, k: Seq<char>) -> Seq<Seq<char>> {
    if m.contains_key(k) {
        m[k]
    } else {
        Seq::empty()
    }
}

/// The map with `v` added at the end of what is under `k`.
pub open spec fn with_value(
    m: Map<Seq<char>, Seq<Seq<char>>>,
    k: Seq<char>,
    v: Seq<char>,
) -> Map<Seq<char>, Seq<Seq<char>>> {
    m.insert(k, values_under(m, k).push(v))
}

/// Putting a list in shows in the texts as putting its texts in.
pub proof fn lemma_lists_insert(m: Map<Seq<char>, Vec<String>>, k: Seq<char>, v: Vec<String>)
    ensures
        lists(m.insert(k, v)) == lists(m).insert(k, texts(v@)),
{
    assert(lists(m.insert(k, v)) =~= lists(m).insert(k, texts(v@)));
}

/// A copy of a list of strings.
pub fn copy_texts(v: &Vec<String>) -> (r: Vec<String>)
    ensures
        texts(r@) == texts(v@),
{
    let mut out: Vec<String> = Vec::new();
    let mut i: usize = 0;
    while i < v.len()
        invariant
            i <= v.len(),
            texts(out@) == texts(v@.take(i as int)),
        decreases v.len() - i,
    {
        let ghost before = out@;
        out.push(v[i].clone());
        i = i + 1;
        assert(texts(out@) =~= texts(before).push(v@[i - 1]@));
        assert(texts(v@.take(i as int)) =~= texts(v@.take(i - 1)).push(v@[i - 1]@));
    }
    assert(v@.take(i as int) =~= v@);
    out
}

/// A list of one string.
pub fn one_text(s: String) -> (r: Vec<String>)
    ensures
        texts(r@) == seq![s@],
{
    let mut out: Vec<String> = Vec::new();
    out.push(s);
    assert(texts(out@) =~= seq![s@]);
    out
}

/// Adds `value` at the end of what is under `key`.
pub fn append_value(params: &mut ServiceParams, key: String, value: String)
    ensures
        lists(final(params)@) == with_value(lists(old(params)@), key@, value@),
{
    let mut values: Vec<String> = match params.get(key.as_str()) {
        Some(vs) => copy_texts(vs),
        None => Vec::new(),
    };
    let ghost had = texts(values@);
    proof {
        assert(had =~= values_under(lists(params@), key@));
        lemma_lists_insert(params@, key@, values);
    }
    values.push(value);
    assert(texts(values@) =~= had.push(value@));
    proof {
        lemma_lists_insert(params@, key@, values);
    }
    params.insert(key, values);
}

/// Puts every entry of `over` into `base`, in place of what was there.
pub fn overlay_onto(base: &mut ServiceParams, over: &ServiceParams)
    ensures
        lists(final(base)@) == lists(old(base)@).union_prefer_right(lists(over@)),
{
    let ghost start = lists(base@);
    let n: usize = over.len();
    let ghost es = over.spec_entries();
    let mut i: usize = 0;
    assert(start.union_prefer_right(lists(map_of(es.take(0)))) =~= start);
    while i < n
        invariant
            i <= n,
            n == es.len(),
            es == over.spec_entries(),
            lists(base@) == start.union_prefer_right(lists(map_of(es.take(i as int)))),
        decreases n - i,
    {
        let values = copy_texts(over.value_at(i));
        let key = over.key_at(i).to_owned();
        proof {
            let t = es.take(i + 1);
            assert(t.drop_last() =~= es.take(i as int));
            assert(t.last() == es[i as int]);
            lemma_lists_insert(map_of(es.take(i as int)), es[i as int].0, es[i as int].1);
            lemma_lists_insert(base@, key@, values);
        }
        base.insert(key, values);
        i = i + 1;
        assert(lists(base@) =~= start.union_prefer_right(lists(map_of(es.take(i as int)))));
    }
    assert(es.take(i as int) =~= es);
}

/// A copy of service parameters.
pub fn copy_params(params: &ServiceParams) -> (r: ServiceParams)
    ensures
        lists(r@) == lists(params@),
{
    let mut out: ServiceParams = TextMap::new();
    overlay_onto(&mut out, params);
    assert(lists(out@) =~= lists(params@));
    out
}

/// A pair of texts.
pub open spec fn pair(p: (String, String)) -> (Seq<char>, Seq<char>) {
    (p.0@, p.1@)
}

/// The texts of a list of pairs.
pub open spec fn pairs(s: Seq<(String, String)>) -> Seq<(Seq<char>, Seq<char>)> {
    Seq::new(s.len(), |i: int| pair(s[i]))
}

/// Puts copies of pairs at the end of others.
pub fn copy_pairs(v: &Vec<(String, String)>, out: &mut Vec<(String, String)>)
    ensures
        pairs(final(out)@) == pairs(old(out)@) + pairs(v@),
{
    let ghost start = pairs(out@);
    let mut i: usize = 0;
    assert(start + pairs(v@.take(0)) =~= start);
    while i < v.len()
        invariant
            i <= v.len(),
            pairs(out@) == start + pairs(v@.take(i as int)),
        decreases v.len() - i,
    {
        let ghost before = out@;
        out.push((v[i].0.clone(), v[i].1.clone()));
        i = i + 1;
        assert(pairs(out@) =~= pairs(before).push(pair(v@[i - 1])));
        assert(pairs(v@.take(i as int)) =~= pairs(v@.take(i - 1)).push(pair(v@[i - 1])));
        assert(pairs(out@) =~= start + pairs(v@.take(i as int)));
    }
    assert(v@.take(i as int) =~= v@);
}

} // verus!
