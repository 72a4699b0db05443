//! A map keyed by text, kept as a list of entries in the order in which their
//! keys were first inserted.
use crate::text::same_text;
use vstd::prelude::*;

verus! {

/// A map from text to values of type `V`.
#[derive(Debug, PartialEq)]
pub struct TextMap<V> {
    entries: Vec<(String, V)>,
}

/// The map that a list of entries stands for; a later entry wins over an
/// earlier one with the same key.
pub open spec fn map_of<V>(e: Seq<(Seq<char>, V)>) -> Map<Seq<char>, V>
    decreases e.len(),
{
    if e.len() == 0 {
        Map::empty()
    } else {
        map_of(e.drop_last()).insert(e.last().0, e.last().1)
    }
}

/// Whether no key occurs twice in a list of entries.
pub open spec fn distinct_keys<V>(e: Seq<(Seq<char>, V)>) -> bool {
    forall|i: int, j: int| 0 <= i < j < e.len() ==> #[trigger] e[i].0 != #[trigger] e[j].0
}

/// Whether `k` is the key of one of the entries.
pub open spec fn has_key<V>(e: Seq<(Seq<char>, V)>, k: Seq<char>) -> bool {
    exists|i: int| 0 <= i < e.len() && #[trigger] e[i].0 == k
}

/// The keys of the map are the keys of the entries.
pub proof fn lemma_map_of_keys<V>(e: Seq<(Seq<char>, V)>, k: Seq<char>)
    ensures
        map_of(e).contains_key(k) <==> has_key(e, k),
    decreases e.len(),
{
    if e.len() > 0 {
        let d = e.drop_last();
        lemma_map_of_keys(d, k);
        if has_key(d, k) {
            let i = choose|i: int| 0 <= i < d.len() && #[trigger] d[i].0 == k;
            assert(e[i].0 == k);
        }
        if has_key(e, k) && e.last().0 != k {
            let i = choose|i: int| 0 <= i < e.len() && #[trigger] e[i].0 == k;
            assert(d[i].0 == k);
        }
        if e.last().0 == k {
            assert(e[e.len() - 1].0 == k);
        }
    }
}

/// With distinct keys, each entry's key leads to its value.
pub proof fn lemma_map_of_value<V>(e: Seq<(Seq<char>, V)>, i: int)
    requires
        distinct_keys(e),
        0 <= i < e.len(),
    ensures
        map_of(e).contains_key(e[i].0),
        map_of(e)[e[i].0] == e[i].1,
    decreases e.len(),
{
    if i < e.len() - 1 {
        let d = e.drop_last();
        assert(distinct_keys(d)) by {
            assert forall|a: int, b: int| 0 <= a < b < d.len() implies #[trigger] d[a].0
                != #[trigger] d[b].0 by {
                assert(e[a].0 != e[b].0);
            }
        }
        lemma_map_of_value(d, i);
        assert(d[i] == e[i]);
        assert(e[i].0 != e[e.len() - 1].0);
    }
}

proof fn lemma_map_of_len<V>(e: Seq<(Seq<char>, V)>)
    requires
        distinct_keys(e),
    ensures
        map_of(e).dom().finite(),
        map_of(e).dom().len() == e.len(),
    decreases e.len(),
{
    if e.len() > 0 {
        let d = e.drop_last();
        assert(distinct_keys(d)) by {
            assert forall|a: int, b: int| 0 <= a < b < d.len() implies #[trigger] d[a].0
                != #[trigger] d[b].0 by {
                assert(e[a].0 != e[b].0);
            }
        }
        lemma_map_of_len(d);
        lemma_map_of_keys(d, e.last().0);
        if has_key(d, e.last().0) {
            let i = choose|i: int| 0 <= i < d.len() && #[trigger] d[i].0 == e.last().0;
            assert(e[i].0 != e[e.len() - 1].0);
        }
    }
}

/// Two entry lists with the same keys and values stand for the same map.
proof fn lemma_map_of_update<V>(e: Seq<(Seq<char>, V)>, i: int, v: V)
    requires
        distinct_keys(e),
        0 <= i < e.len(),
    ensures
        distinct_keys(e.update(i, (e[i].0, v))),
        map_of(e.update(i, (e[i].0, v))) == map_of(e).insert(e[i].0, v),
{
    let u = e.update(i, (e[i].0, v));
    assert forall|a: int, b: int| 0 <= a < b < u.len() implies #[trigger] u[a].0
        != #[trigger] u[b].0 by {
        assert(e[a].0 != e[b].0);
    }
    assert(map_of(u) =~= map_of(e).insert(e[i].0, v)) by {
        assert forall|k: Seq<char>| #[trigger] map_of(u).contains_key(k) == map_of(e).insert(
            e[i].0,
            v,
        ).contains_key(k) by {
            lemma_map_of_keys(u, k);
            lemma_map_of_keys(e, k);
            if has_key(u, k) {
                let j = choose|j: int| 0 <= j < u.len() && #[trigger] u[j].0 == k;
                assert(e[j].0 == k);
            }
            if has_key(e, k) {
                let j = choose|j: int| 0 <= j < e.len() && #[trigger] e[j].0 == k;
                assert(u[j].0 == k);
            }
            assert(u[i].0 == e[i].0);
        }
        assert forall|k: Seq<char>| #[trigger] map_of(u).contains_key(k) implies map_of(u)[k]
            == map_of(e).insert(e[i].0, v)[k] by {
            lemma_map_of_keys(u, k);
            let j = choose|j: int| 0 <= j < u.len() && #[trigger] u[j].0 == k;
            lemma_map_of_value(u, j);
            lemma_map_of_value(e, j);
            if j != i {
                if j < i {
                    assert(e[j].0 != e[i].0);
                } else {
                    assert(e[i].0 != e[j].0);
                }
            }
        }
    }
}

proof fn lemma_map_of_remove<V>(e: Seq<(Seq<char>, V)>, i: int)
    requires
        distinct_keys(e),
        0 <= i < e.len(),
    ensures
        distinct_keys(e.remove(i)),
        map_of(e.remove(i)) == map_of(e).remove(e[i].0),
{
    let u = e.remove(i);
    let from = |j: int| if j < i { j } else { j + 1 };
    assert forall|j: int| 0 <= j < u.len() implies #[trigger] u[j] == e[from(j)] by {
    }
    assert forall|a: int, b: int| 0 <= a < b < u.len() implies #[trigger] u[a].0
        != #[trigger] u[b].0 by {
        assert(e[from(a)].0 != e[from(b)].0);
    }
    assert(map_of(u) =~= map_of(e).remove(e[i].0)) by {
        assert forall|k: Seq<char>| #[trigger] map_of(u).contains_key(k) == map_of(e).remove(
            e[i].0,
        ).contains_key(k) by {
            lemma_map_of_keys(u, k);
            lemma_map_of_keys(e, k);
            if has_key(u, k) {
                let j = choose|j: int| 0 <= j < u.len() && #[trigger] u[j].0 == k;
                assert(e[from(j)].0 == k);
                if from(j) < i {
                    assert(e[from(j)].0 != e[i].0);
                } else {
                    assert(e[i].0 != e[from(j)].0);
                }
            }
            if has_key(e, k) && k != e[i].0 {
                let j = choose|j: int| 0 <= j < e.len() && #[trigger] e[j].0 == k;
                let b = if j < i { j } else { j - 1 };
                assert(u[b].0 == k);
            }
        }
        assert forall|k: Seq<char>| #[trigger] map_of(u).contains_key(k) implies map_of(u)[k]
            == map_of(e).remove(e[i].0)[k] by {
            lemma_map_of_keys(u, k);
            let j = choose|j: int| 0 <= j < u.len() && #[trigger] u[j].0 == k;
            lemma_map_of_value(u, j);
            lemma_map_of_value(e, from(j));
            lemma_map_of_keys(e, k);
            if from(j) < i {
                assert(e[from(j)].0 != e[i].0);
            } else {
                assert(e[i].0 != e[from(j)].0);
            }
        }
    }
}

spec fn entries_of<V>(e: Seq<(String, V)>) -> Seq<(Seq<char>, V)> {
    Seq::new(e.len(), |i: int| (e[i].0@, e[i].1))
}

impl<V> View for TextMap<V> {
    type V = Map<Seq<char>, V>;

    open spec fn view(&self) -> Map<Seq<char>, V> {
        map_of(self.spec_entries())
    }
}

impl<V> TextMap<V> {
    /// The entries, in order.
    pub closed spec fn spec_entries(&self) -> Seq<(Seq<char>, V)> {
        entries_of(self.entries@)
    }

    #[verifier::type_invariant]
    spec fn keys_are_distinct(self) -> bool {
        distinct_keys(entries_of(self.entries@))
    }

    /// The empty map.
    pub fn new() -> (r: Self)
        ensures
            r@ == Map::<Seq<char>, V>::empty(),
            r.spec_entries().len() == 0,
    {
        let r = TextMap { entries: Vec::new() };
        assert(r.spec_entries() =~= Seq::empty());
        r
    }

    /// The number of keys.
    pub fn len(&self) -> (r: usize)
        ensures
            r == self.spec_entries().len(),
            r == self@.dom().len(),
            self@.dom().finite(),
            distinct_keys(self.spec_entries()),
    {
        proof {
            use_type_invariant(self);
            lemma_map_of_len(self.spec_entries());
        }
        self.entries.len()
    }

    /// Whether there is no key.
    pub fn is_empty(&self) -> (r: bool)
        ensures
            r == (self@ == Map::<Seq<char>, V>::empty()),
            r == (self.spec_entries().len() == 0),
    {
        proof {
            use_type_invariant(self);
            if self.spec_entries().len() > 0 {
                lemma_map_of_value(self.spec_entries(), 0);
            }
        }
        self.entries.len() == 0
    }

    /// The key of the entry at `i`.
    pub fn key_at(&self, i: usize) -> (r: &str)
        requires
            i < self.spec_entries().len(),
        ensures
            r@ == self.spec_entries()[i as int].0,
    {
        self.entries[i].0.as_str()
    }

    /// The value of the entry at `i`.
    pub fn value_at(&self, i: usize) -> (r: &V)
        requires
            i < self.spec_entries().len(),
        ensures
            *r == self.spec_entries()[i as int].1,
    {
        &self.entries[i].1
    }

    fn position(&self, key: &str) -> (r: Option<usize>)
        ensures
            r matches Some(i) ==> i < self.spec_entries().len() && self.spec_entries()[i as int].0
                == key@,
            r is None ==> !has_key(self.spec_entries(), key@),
    {
        let mut i: usize = 0;
        while i < self.entries.len()
            invariant
                i <= self.entries.len(),
                forall|j: int|
                    0 <= j < i ==> #[trigger] self.spec_entries()[j].0 != key@,
            decreases self.entries.len() - i,
        {
            if same_text(self.entries[i].0.as_str(), key) {
                return Some(i);
            }
            i = i + 1;
        }
        None
    }

    /// The value under `key`.
    pub fn get(&self, key: &str) -> (r: Option<&V>)
        ensures
            r is Some <==> self@.contains_key(key@),
            r matches Some(v) ==> *v == self@[key@],
    {
        proof {
            use_type_invariant(self);
            lemma_map_of_keys(self.spec_entries(), key@);
        }
        match self.position(key) {
            Some(i) => {
                proof {
                    lemma_map_of_value(self.spec_entries(), i as int);
                    assert(has_key(self.spec_entries(), key@));
                }
                Some(&self.entries[i].1)
            },
            None => None,
        }
    }

    /// Whether there is a value under `key`.
    pub fn contains_key(&self, key: &str) -> (r: bool)
        ensures
            r == self@.contains_key(key@),
    {
        self.get(key).is_some()
    }

    /// Puts `value` under `key`, in place of what was there.
    pub fn insert(&mut self, key: String, value: V)
        ensures
            final(self)@ == old(self)@.insert(key@, value),
            !old(self)@.contains_key(key@) ==> final(self).spec_entries()
                == old(self).spec_entries().push((key@, value)),
    {
        proof {
            use_type_invariant(&*self);
            lemma_map_of_keys(self.spec_entries(), key@);
        }
        let ghost before = self.spec_entries();
        let at = self.position(key.as_str());
        let mut es: Vec<(String, V)> = Vec::new();
        std::mem::swap(&mut es, &mut self.entries);
        match at {
            Some(i) => {
                proof {
                    assert(has_key(before, key@));
                    lemma_map_of_update(before, i as int, value);
                }
                es.set(i, (key, value));
                assert(entries_of(es@) =~= before.update(i as int, (key@, value)));
            },
            None => {
                es.push((key, value));
                proof {
                    let after = entries_of(es@);
                    assert(after =~= before.push((key@, value)));
                    assert(after.drop_last() =~= before);
                    assert forall|a: int, b: int| 0 <= a < b < after.len() implies #[trigger] after[a].0
                        != #[trigger] after[b].0 by {
                        if b < before.len() {
                            assert(before[a].0 != before[b].0);
                        } else {
                            assert(before[a].0 == after[a].0);
                        }
                    }
                }
            },
        }
        self.entries = es;
    }

    /// Takes out what is under `key`.
    pub fn remove(&mut self, key: &str) -> (r: Option<V>)
        ensures
            final(self)@ == old(self)@.remove(key@),
            r is Some <==> old(self)@.contains_key(key@),
            r matches Some(v) ==> v == old(self)@[key@],
    {
        proof {
            use_type_invariant(&*self);
            lemma_map_of_keys(self.spec_entries(), key@);
        }
        let ghost before = self.spec_entries();
        match self.position(key) {
            Some(i) => {
                proof {
                    assert(has_key(before, key@));
                    lemma_map_of_value(before, i as int);
                    lemma_map_of_remove(before, i as int);
                }
                let mut es: Vec<(String, V)> = Vec::new();
                std::mem::swap(&mut es, &mut self.entries);
                let (_, v) = es.remove(i);
                assert(entries_of(es@) =~= before.remove(i as int));
                self.entries = es;
                Some(v)
            },
            None => {
                assert(self@.remove(key@) =~= self@);
                None
            },
        }
    }
}

impl<V: Clone> Clone for TextMap<V> {
    fn clone(&self) -> (r: Self)
        ensures
            r.spec_entries().len() == self.spec_entries().len(),
            forall|i: int|
                0 <= i < self.spec_entries().len() ==> #[trigger] r.spec_entries()[i].0
                    == self.spec_entries()[i].0 && cloned::<V>(
                    self.spec_entries()[i].1,
                    r.spec_entries()[i].1,
                ),
    {
        let mut es: Vec<(String, V)> = Vec::new();
        let mut i: usize = 0;
        while i < self.entries.len()
            invariant
                i <= self.entries.len(),
                es.len() == i,
                forall|j: int|
                    0 <= j < i ==> #[trigger] es@[j].0@ == self.entries@[j].0@ && cloned::<V>(
                        self.entries@[j].1,
                        es@[j].1,
                    ),
            decreases self.entries.len() - i,
        {
            es.push((self.entries[i].0.clone(), self.entries[i].1.clone()));
            i = i + 1;
        }
        proof {
            use_type_invariant(self);
            let x = entries_of(es@);
            let y = entries_of(self.entries@);
            assert forall|a: int, b: int| 0 <= a < b < x.len() implies #[trigger] x[a].0
                != #[trigger] x[b].0 by {
                assert(y[a].0 != y[b].0);
                assert(es@[a].0@ == y[a].0);
                assert(es@[b].0@ == y[b].0);
            }
        }
        TextMap { entries: es }
    }
}

} // verus!
