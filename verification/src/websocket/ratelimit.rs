//! How many messages a peer may send.
use crate::span::Span;
use crate::text_map::TextMap;
use vstd::prelude::*;

verus! {

/// How many messages a connection, and an identity over all its connections, may
/// send. `max_messages` may come at once; then that many in each window.
///
/// Zero messages refuses every message: to have no limit, use
/// [`RateLimitPolicy::Disabled`].
#[derive(Debug, Clone, Copy, PartialEq, Eq, Structural)]
pub struct RateLimit {
    pub max_messages: u32,
    pub window: Span,
}

/// A limit with its window in nanoseconds.
#[verifier::ext_equal]
pub struct RateLimitView {
    pub max_messages: u32,
    pub window: nat,
}

impl View for RateLimit {
    type V = RateLimitView;

    open spec fn view(&self) -> RateLimitView {
        RateLimitView { max_messages: self.max_messages, window: self.window@ }
    }
}

impl RateLimit {
    /// So many messages in each window.
    pub fn new(max_messages: u32, window: Span) -> (r: Self)
        ensures
            r == (RateLimit { max_messages, window }),
    {
        RateLimit { max_messages, window }
    }

    /// So many messages in each second.
    pub fn per_second(max_messages: u32) -> (r: Self)
        ensures
            r@ == (RateLimitView { max_messages, window: 1_000_000_000 }),
    {
        RateLimit::new(max_messages, Span::from_secs(1))
    }
}

/// The limit that holds where none is given: a hundred messages in each second.
pub fn default_rate_limit() -> (r: RateLimit)
    ensures
        r@ == (RateLimitView { max_messages: 100, window: 1_000_000_000 }),
{
    RateLimit::per_second(100)
}

/// Whether messages are limited, and how. A server that says nothing has a
/// limit.
#[derive(Debug, Clone, Copy, PartialEq, Eq, Structural)]
pub enum RateLimitPolicy {
    /// [`default_rate_limit`].
    Default,
    /// This.
    Custom(RateLimit),
    /// Not at all. Fit only behind a layer that has its own.
    Disabled,
}

impl Default for RateLimitPolicy {
    fn default() -> (r: Self)
        ensures
            r == RateLimitPolicy::Default,
    {
        RateLimitPolicy::Default
    }
}

/// The contents of an optional limit.
pub open spec fn opt_limit(o: Option<RateLimit>) -> Option<RateLimitView> {
    match o {
        Some(l) => Some(l@),
        None => None,
    }
}

impl RateLimitPolicy {
    /// The limit that holds, if any.
    pub fn limit(&self) -> (r: Option<RateLimit>)
        ensures
            opt_limit(r) == (match *self {
                RateLimitPolicy::Default => Some(
                    RateLimitView { max_messages: 100, window: 1_000_000_000 },
                ),
                RateLimitPolicy::Custom(l) => Some(l@),
                RateLimitPolicy::Disabled => None,
            }),
            *self matches RateLimitPolicy::Custom(l) ==> r == Some(l),
    {
        match self {
            RateLimitPolicy::Default => Some(default_rate_limit()),
            RateLimitPolicy::Custom(l) => Some(*l),
            RateLimitPolicy::Disabled => None,
        }
    }
}

/// How many identities may be tracked before those with nothing to remember are
/// forgotten.
pub const MAX_TRACKED_IDENTITIES: usize = 10000;

/// The buckets of the identities that sent messages, shared by all connections.
/// What a bucket is, and when it has recovered, is up to its user.
#[derive(Debug)]
pub struct IdentityRateLimiter<B> {
    limit: RateLimit,
    buckets: TextMap<B>,
}

/// Whether `k` is the key of an entry that is marked.
pub open spec fn marked<B>(e: Seq<(Seq<char>, B)>, marks: Seq<bool>, k: Seq<char>) -> bool {
    exists|i: int| 0 <= i < e.len() && i < marks.len() && #[trigger] e[i].0 == k && marks[i]
}

/// The entries that are not marked.
pub open spec fn unmarked<B>(
    m: Map<Seq<char>, B>,
    e: Seq<(Seq<char>, B)>,
    marks: Seq<bool>,
) -> Map<Seq<char>, B> {
    Map::new(|k: Seq<char>| m.contains_key(k) && !marked(e, marks, k), |k: Seq<char>| m[k])
}

impl<B> IdentityRateLimiter<B> {
    /// The bucket of each identity.
    pub closed spec fn buckets(&self) -> Map<Seq<char>, B> {
        self.buckets@
    }

    /// The identities and their buckets, in the order in which they are counted
    /// off.
    pub closed spec fn listed(&self) -> Seq<(Seq<char>, B)> {
        self.buckets.spec_entries()
    }

    /// The limit that holds for each identity.
    pub closed spec fn spec_limit(&self) -> RateLimit {
        self.limit
    }

    /// No identity has sent anything yet.
    pub fn new(limit: RateLimit) -> (r: Self)
        ensures
            r.spec_limit() == limit,
            r.buckets() == Map::<Seq<char>, B>::empty(),
    {
        IdentityRateLimiter { limit, buckets: TextMap::new() }
    }

    /// The limit that holds for each identity.
    pub fn limit(&self) -> (r: RateLimit)
        ensures
            r == self.spec_limit(),
    {
        self.limit
    }

    /// How many identities are tracked.
    pub fn tracked_count(&self) -> (r: usize)
        ensures
            r == self.listed().len(),
            r == self.buckets().dom().len(),
    {
        self.buckets.len()
    }

    /// The bucket of the identity at place `i`.
    pub fn bucket_at(&self, i: usize) -> (r: &B)
        requires
            i < self.listed().len(),
        ensures
            *r == self.listed()[i as int].1,
    {
        self.buckets.value_at(i)
    }

    /// Whether so many identities are tracked that some must be forgotten.
    pub fn needs_pruning(&self) -> (r: bool)
        ensures
            r == (self.listed().len() >= MAX_TRACKED_IDENTITIES),
    {
        self.buckets.len() >= MAX_TRACKED_IDENTITIES
    }

    /// Forgets the identities whose buckets have recovered. `recovered` says of
    /// each place whether the bucket there has.
    pub fn prune(&mut self, recovered: &Vec<bool>)
        ensures
            final(self).buckets() == unmarked(
                old(self).buckets(),
                old(self).listed(),
                recovered@,
            ),
            final(self).spec_limit() == old(self).spec_limit(),
    {
        let n: usize = self.buckets.len();
        let ghost e = self.listed();
        let mut doomed: Vec<String> = Vec::new();
        let mut i: usize = 0;
        while i < n && i < recovered.len()
            invariant
                i <= n,
                i <= recovered.len(),
                n == e.len(),
                e == self.buckets.spec_entries(),
                self.buckets@ == old(self).buckets(),
                self.limit == old(self).spec_limit(),
                forall|k: Seq<char>|
                    (exists|j: int| 0 <= j < doomed.len() && #[trigger] doomed@[j]@ == k)
                        <==> #[trigger] marked(e, recovered@.take(i as int), k),
            decreases n - i,
        {
            let ghost had = doomed@;
            if recovered[i] {
                doomed.push(self.buckets.key_at(i).to_owned());
            }
            proof {
                let short = recovered@.take(i as int);
                let long = recovered@.take(i + 1);
                assert forall|k: Seq<char>|
                    (exists|j: int| 0 <= j < doomed.len() && #[trigger] doomed@[j]@ == k)
                        <==> #[trigger] marked(e, long, k) by {
                    if marked(e, long, k) {
                        let j = choose|j: int|
                            0 <= j < e.len() && j < long.len() && #[trigger] e[j].0 == k && long[j];
                        if j < i {
                            assert(short[j]);
                            assert(marked(e, short, k));
                            let x = choose|x: int| 0 <= x < had.len() && #[trigger] had[x]@ == k;
                            assert(doomed@[x]@ == k);
                        } else {
                            assert(doomed@[doomed.len() - 1]@ == k);
                        }
                    }
                    if exists|j: int| 0 <= j < doomed.len() && #[trigger] doomed@[j]@ == k {
                        let j = choose|j: int| 0 <= j < doomed.len() && #[trigger] doomed@[j]@ == k;
                        if j < had.len() {
                            assert(had[j]@ == k);
                            assert(marked(e, short, k));
                            let x = choose|x: int|
                                0 <= x < e.len() && x < short.len() && #[trigger] e[x].0 == k
                                    && short[x];
                            assert(long[x]);
                        } else {
                            assert(e[i as int].0 == k && long[i as int]);
                        }
                    }
                }
            }
            i = i + 1;
        }
        proof {
            let seen = recovered@.take(i as int);
            assert forall|k: Seq<char>| #[trigger] marked(e, seen, k) <==> marked(
                e,
                recovered@,
                k,
            ) by {
                if marked(e, recovered@, k) {
                    let j = choose|j: int|
                        0 <= j < e.len() && j < recovered@.len() && #[trigger] e[j].0 == k
                            && recovered@[j];
                    assert(seen[j]);
                }
                if marked(e, seen, k) {
                    let j = choose|j: int|
                        0 <= j < e.len() && j < seen.len() && #[trigger] e[j].0 == k && seen[j];
                    assert(recovered@[j]);
                }
            }
        }
        let mut d: usize = 0;
        while d < doomed.len()
            invariant
                d <= doomed.len(),
                self.limit == old(self).spec_limit(),
                forall|k: Seq<char>| #[trigger]
                    self.buckets@.contains_key(k) <==> old(self).buckets().contains_key(k) && !(
                    exists|j: int| 0 <= j < d && #[trigger] doomed@[j]@ == k),
                forall|k: Seq<char>| #[trigger]
                    self.buckets@.contains_key(k) ==> self.buckets@[k] == old(self).buckets()[k],
            decreases doomed.len() - d,
        {
            let ghost before = self.buckets@;
            let _ = self.buckets.remove(doomed[d].as_str());
            proof {
                assert forall|k: Seq<char>| #[trigger]
                    self.buckets@.contains_key(k) <==> old(self).buckets().contains_key(k) && !(
                    exists|j: int| 0 <= j < d + 1 && #[trigger] doomed@[j]@ == k) by {
                    if exists|j: int| 0 <= j < d + 1 && #[trigger] doomed@[j]@ == k {
                        let j = choose|j: int| 0 <= j < d + 1 && #[trigger] doomed@[j]@ == k;
                        if j < d {
                            assert(!before.contains_key(k));
                        }
                    } else {
                        assert(doomed@[d as int]@ != k);
                        assert(self.buckets@.contains_key(k) == before.contains_key(k));
                    }
                }
            }
            d = d + 1;
        }
        proof {
            let kept = unmarked(old(self).buckets(), e, recovered@);
            let seen = recovered@.take(i as int);
            assert forall|k: Seq<char>| #[trigger]
                self.buckets@.contains_key(k) == kept.contains_key(k) by {
                assert(marked(e, seen, k) == marked(e, recovered@, k));
            }
            assert(self.buckets@ =~= kept);
        }
    }

    /// Takes out the bucket of an identity, if it has one.
    pub fn take(&mut self, identity: &str) -> (r: Option<B>)
        ensures
            match r {
                Some(b) => old(self).buckets().contains_key(identity@) && b
                    == old(self).buckets()[identity@],
                None => !old(self).buckets().contains_key(identity@),
            },
            final(self).buckets() == old(self).buckets().remove(identity@),
            final(self).spec_limit() == old(self).spec_limit(),
    {
        self.buckets.remove(identity)
    }

    /// Puts the bucket of an identity back.
    pub fn put(&mut self, identity: &str, bucket: B)
        ensures
            final(self).buckets() == old(self).buckets().insert(identity@, bucket),
            final(self).spec_limit() == old(self).spec_limit(),
    {
        self.buckets.insert(identity.to_owned(), bucket);
    }
}

/// Forgetting identities loses nothing but buckets that have recovered: every
/// other identity keeps the bucket that it had.
pub proof fn law_pruning_is_lossless<B>(
    m: Map<Seq<char>, B>,
    e: Seq<(Seq<char>, B)>,
    recovered: Seq<bool>,
    identity: Seq<char>,
)
    requires
        m.contains_key(identity),
        !marked(e, recovered, identity),
    ensures
        unmarked(m, e, recovered).contains_key(identity),
        unmarked(m, e, recovered)[identity] == m[identity],
{
}

/// Whether a message is admitted: its connection must admit it, and so must its
/// identity where it has one that is counted. `by_identity` is nothing where the
/// message belongs to no counted identity.
pub fn admits(by_connection: bool, by_identity: Option<bool>) -> (r: bool)
    ensures
        r == (by_connection && by_identity != Some(false)),
{
    if !by_connection {
        return false;
    }
    match by_identity {
        Some(b) => b,
        None => true,
    }
}

/// Forgetting identities forgets just those whose buckets have recovered: each place that
/// is marked loses its identity, and no other identity is lost, or gained, or gets
/// another bucket.
pub proof fn law_pruning_forgets_what_is_marked<B>(
    m: Map<Seq<char>, B>,
    e: Seq<(Seq<char>, B)>,
    recovered: Seq<bool>,
    identity: Seq<char>,
    i: int,
)
    ensures
        0 <= i < e.len() && i < recovered.len() && recovered[i] ==> !unmarked(
            m,
            e,
            recovered,
        ).contains_key(e[i].0),
        unmarked(m, e, recovered).contains_key(identity) ==> m.contains_key(identity) && unmarked(
            m,
            e,
            recovered,
        )[identity] == m[identity],
        m.contains_key(identity) && (forall|j: int|
            0 <= j < e.len() && #[trigger] e[j].0 == identity ==> !(j < recovered.len()
                && recovered[j])) ==> unmarked(m, e, recovered).contains_key(identity),
{
    if 0 <= i < e.len() && i < recovered.len() && recovered[i] {
        assert(marked(e, recovered, e[i].0));
    }
}

} // verus!
