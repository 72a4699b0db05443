//! How many connections one identity may hold, and how many streams one
//! connection may carry.
use crate::text_map::TextMap;
use vstd::prelude::*;

verus! {

/// The limits of a server.
#[derive(Debug, Clone, Copy, PartialEq, Eq, Structural)]
pub struct ConnectionLimits {
    /// How many connections one authenticated identity may hold at a time.
    /// Anonymous connections are not counted: they share no identity.
    pub max_connections_per_identity: usize,
    /// How many streams one connection may carry at a time.
    pub max_streams_per_connection: usize,
}

/// The limits that hold where none are given. They are there to keep one
/// identity from exhausting a server, not to shape ordinary traffic.
pub fn default_connection_limits() -> (r: ConnectionLimits)
    ensures
        r == usual_limits(),
{
    ConnectionLimits { max_connections_per_identity: 256, max_streams_per_connection: 128 }
}

/// The limits that hold where none are given.
pub open spec fn usual_limits() -> ConnectionLimits {
    ConnectionLimits { max_connections_per_identity: 256, max_streams_per_connection: 128 }
}

/// Whether a server has limits, and which.
#[derive(Debug, Clone, Copy, PartialEq, Eq, Structural)]
pub enum ConnectionLimitPolicy {
    /// Those of [`default_connection_limits`].
    Default,
    /// These.
    Custom(ConnectionLimits),
    /// None. Fit only behind a layer that has its own.
    Disabled,
}

impl Default for ConnectionLimitPolicy {
    fn default() -> (r: Self)
        ensures
            r == ConnectionLimitPolicy::Default,
    {
        ConnectionLimitPolicy::Default
    }
}

impl ConnectionLimitPolicy {
    /// The limits that hold, if any.
    pub fn limits(&self) -> (r: Option<ConnectionLimits>)
        ensures
            r == (match *self {
                ConnectionLimitPolicy::Default => Some(usual_limits()),
                ConnectionLimitPolicy::Custom(l) => Some(l),
                ConnectionLimitPolicy::Disabled => None,
            }),
    {
        match self {
            ConnectionLimitPolicy::Default => Some(default_connection_limits()),
            ConnectionLimitPolicy::Custom(l) => Some(*l),
            ConnectionLimitPolicy::Disabled => None,
        }
    }
}

/// How many connections an identity holds.
pub open spec fn held(counts: Map<Seq<char>, usize>, identity: Seq<char>) -> nat {
    if counts.contains_key(identity) {
        counts[identity] as nat
    } else {
        0
    }
}

/// The counts after an identity has taken a connection: unchanged where it
/// already holds as many as it may.
pub open spec fn acquired(counts: Map<Seq<char>, usize>, max: usize, identity: Seq<char>) -> Map<
    Seq<char>,
    usize,
> {
    if held(counts, identity) >= max {
        counts
    } else {
        counts.insert(identity, (held(counts, identity) + 1) as usize)
    }
}

/// The counts after an identity has given a connection back. An identity that
/// holds none is not kept.
pub open spec fn released(counts: Map<Seq<char>, usize>, identity: Seq<char>) -> Map<
    Seq<char>,
    usize,
> {
    if held(counts, identity) <= 1 {
        counts.remove(identity)
    } else {
        counts.insert(identity, (held(counts, identity) - 1) as usize)
    }
}

/// Whether every identity that is kept holds a connection, and none holds more
/// than it may.
pub open spec fn within(counts: Map<Seq<char>, usize>, max: usize) -> bool {
    forall|k: Seq<char>| #[trigger] counts.contains_key(k) ==> 1 <= counts[k] <= max
}

/// Counts the connections of each authenticated identity.
#[derive(Debug)]
pub struct IdentityConnectionCounter {
    max: usize,
    counts: TextMap<usize>,
}

/// One connection of an identity. Giving it to
/// [`IdentityConnectionCounter::release`] gives it back.
#[derive(Debug)]
pub struct ConnectionSlot {
    identity: String,
}

impl ConnectionSlot {
    /// Whose connection this is.
    pub closed spec fn identity(&self) -> Seq<char> {
        self.identity@
    }
}

impl IdentityConnectionCounter {
    #[verifier::type_invariant]
    spec fn well_counted(self) -> bool {
        within(self.counts@, self.max)
    }

    /// How many connections one identity may hold.
    pub closed spec fn max(&self) -> usize {
        self.max
    }

    /// How many connections each identity holds.
    pub closed spec fn counts(&self) -> Map<Seq<char>, usize> {
        self.counts@
    }

    /// A counter at its start.
    pub fn new(max: usize) -> (r: Self)
        ensures
            r.max() == max,
            r.counts() == Map::<Seq<char>, usize>::empty(),
    {
        IdentityConnectionCounter { max, counts: TextMap::new() }
    }

    /// No identity holds more connections than it may, and one that holds none
    /// is not kept.
    pub fn count_for(&self, identity: &str) -> (r: usize)
        ensures
            r == held(self.counts(), identity@),
            r <= self.max(),
            within(self.counts(), self.max()),
    {
        proof {
            use_type_invariant(self);
        }
        match self.counts.get(identity) {
            Some(n) => *n,
            None => 0,
        }
    }

    /// Whether no identity holds a connection.
    pub fn is_empty(&self) -> (r: bool)
        ensures
            r <==> self.counts() == Map::<Seq<char>, usize>::empty(),
    {
        let r = self.counts.is_empty();
        r
    }

    /// A connection for an identity, unless it already holds as many as it may.
    pub fn try_acquire(&mut self, identity: &str) -> (r: Option<ConnectionSlot>)
        ensures
            r is Some <==> held(old(self).counts(), identity@) < old(self).max(),
            r matches Some(s) ==> s.identity() == identity@,
            final(self).counts() == acquired(old(self).counts(), old(self).max(), identity@),
            final(self).max() == old(self).max(),
    {
        let count: usize = self.count_for(identity);
        if count >= self.max {
            return None;
        }
        let mut counts: TextMap<usize> = TextMap::new();
        std::mem::swap(&mut counts, &mut self.counts);
        counts.insert(identity.to_owned(), count + 1);
        self.counts = counts;
        Some(ConnectionSlot { identity: identity.to_owned() })
    }

    /// Gives a connection back.
    pub fn release(&mut self, slot: ConnectionSlot)
        ensures
            final(self).counts() == released(old(self).counts(), slot.identity()),
            final(self).max() == old(self).max(),
    {
        let count: usize = self.count_for(slot.identity.as_str());
        let mut counts: TextMap<usize> = TextMap::new();
        std::mem::swap(&mut counts, &mut self.counts);
        if count <= 1 {
            let _ = counts.remove(slot.identity.as_str());
        } else {
            counts.insert(slot.identity, count - 1);
        }
        self.counts = counts;
    }
}

/// No identity ever holds more connections than it may.
pub proof fn law_no_identity_exceeds_its_share(
    counts: Map<Seq<char>, usize>,
    max: usize,
    taking: Seq<char>,
    giving: Seq<char>,
    identity: Seq<char>,
)
    requires
        within(counts, max),
    ensures
        within(acquired(counts, max, taking), max),
        within(released(counts, giving), max),
        held(acquired(counts, max, taking), identity) <= max,
        held(released(counts, giving), identity) <= max,
{
}

/// Giving a connection back undoes taking it.
pub proof fn law_release_undoes_acquire(
    counts: Map<Seq<char>, usize>,
    max: usize,
    identity: Seq<char>,
)
    requires
        within(counts, max),
        held(counts, identity) < max,
    ensures
        released(acquired(counts, max, identity), identity) == counts,
{
    assert(released(acquired(counts, max, identity), identity) =~= counts);
}

/// What one identity takes and gives back is nothing to another.
pub proof fn law_identities_are_counted_apart(
    counts: Map<Seq<char>, usize>,
    max: usize,
    identity: Seq<char>,
    other: Seq<char>,
)
    requires
        identity != other,
    ensures
        held(acquired(counts, max, identity), other) == held(counts, other),
        held(released(counts, identity), other) == held(counts, other),
{
}

/// An identity that is not kept holds nothing; one that is kept holds what is counted.
pub proof fn law_counts_are_what_is_held(
    counts: Map<Seq<char>, usize>,
    identity: Seq<char>,
    n: usize,
)
    ensures
        held(Map::empty(), identity) == 0,
        held(counts.insert(identity, n), identity) == n,
        held(counts.remove(identity), identity) == 0,
{
}

/// Taking a connection counts one more, and giving one back counts one less. Where an
/// identity holds as many as it may, taking changes nothing, and where it holds none,
/// giving back does not.
pub proof fn law_connections_are_counted_one_by_one(
    counts: Map<Seq<char>, usize>,
    max: usize,
    identity: Seq<char>,
)
    ensures
        held(counts, identity) < max ==> held(acquired(counts, max, identity), identity) == held(
            counts,
            identity,
        ) + 1,
        held(counts, identity) >= max ==> acquired(counts, max, identity) == counts,
        held(counts, identity) > 0 ==> held(released(counts, identity), identity) == held(
            counts,
            identity,
        ) - 1,
        held(counts, identity) == 0 ==> held(released(counts, identity), identity) == 0,
        held(released(counts, identity), identity) == 0 ==> !released(
            counts,
            identity,
        ).contains_key(identity),
{
}

/// Where no limits are given, an identity may hold 256 connections, and a connection
/// carry 128 streams.
pub proof fn law_usual_limits_are_these()
    ensures
        usual_limits().max_connections_per_identity == 256,
        usual_limits().max_streams_per_connection == 128,
{
}

} // verus!
