//! The client that calls go through: which parameters they carry, which tenant
//! they are for, and what comes of them.
use crate::params::{copy_params, lemma_lists_insert, lists, one_text, ServiceParams};
use crate::protocol::A2AError;
use crate::text::{chars_of, joined, opt_text, string_of};
use crate::text_map::TextMap;
use crate::websocket::endpoint::internal;
use vstd::prelude::*;
use vstd::slice::slice_subrange;

verus! {

/// The service parameter that says which version a call is made in.
pub const SVC_PARAM_VERSION: &'static str = "A2A-Version";

/// The version that calls are made in.
pub const VERSION: &'static str = "1.0";

/// A client: what carries its calls, what looks at them, and what they are made
/// with.
#[derive(Debug)]
pub struct A2AClient<T, I> {
    transport: T,
    interceptors: Vec<I>,
    default_params: ServiceParams,
    tenant: Option<String>,
}

/// The parameters that every call carries.
pub open spec fn usual_params() -> Map<Seq<char>, Seq<Seq<char>>> {
    Map::<Seq<char>, Seq<Seq<char>>>::empty().insert(SVC_PARAM_VERSION@, seq![VERSION@])
}

/// The tenant that a request is for: the one it names, else the client's.
pub open spec fn tenant_used(client: Option<Seq<char>>, requested: Option<Seq<char>>) -> Option<
    Seq<char>,
> {
    match requested {
        Some(t) => Some(t),
        None => client,
    }
}

impl<T, I> A2AClient<T, I> {
    /// The parameters that every call of this client carries.
    pub closed spec fn default_params(&self) -> Map<Seq<char>, Seq<Seq<char>>> {
        lists(self.default_params@)
    }

    /// The tenant that calls are for, if the client has one.
    pub closed spec fn tenant_text(&self) -> Option<Seq<char>> {
        opt_text(self.tenant)
    }

    /// What carries the calls of this client.
    pub closed spec fn carrier(&self) -> T {
        self.transport
    }

    /// What looks at the calls of this client, in its order.
    pub closed spec fn watchers(&self) -> Seq<I> {
        self.interceptors@
    }

    /// A client whose calls this carries.
    pub fn new(transport: T) -> (r: Self)
        ensures
            r.carrier() == transport,
            r.watchers() == Seq::<I>::empty(),
            r.default_params() == usual_params(),
            r.tenant_text() is None,
    {
        let mut default_params: ServiceParams = TextMap::new();
        let values = one_text(VERSION.to_owned());
        proof {
            lemma_lists_insert(default_params@, SVC_PARAM_VERSION@, values);
            assert(lists(default_params@) =~= Map::<Seq<char>, Seq<Seq<char>>>::empty());
        }
        default_params.insert(SVC_PARAM_VERSION.to_owned(), values);
        A2AClient { transport, interceptors: Vec::new(), default_params, tenant: None }
    }

    /// The same client, with these looking at its calls.
    pub fn with_interceptors(self, interceptors: Vec<I>) -> (r: Self)
        ensures
            r.carrier() == self.carrier(),
            r.watchers() == interceptors@,
            r.default_params() == self.default_params(),
            r.tenant_text() == self.tenant_text(),
    {
        A2AClient {
            transport: self.transport,
            interceptors,
            default_params: self.default_params,
            tenant: self.tenant,
        }
    }

    /// The same client, with its calls for this tenant.
    pub fn with_tenant(self, tenant: &str) -> (r: Self)
        ensures
            r.carrier() == self.carrier(),
            r.watchers() == self.watchers(),
            r.default_params() == self.default_params(),
            r.tenant_text() == Some(tenant@),
    {
        A2AClient {
            transport: self.transport,
            interceptors: self.interceptors,
            default_params: self.default_params,
            tenant: Some(tenant.to_owned()),
        }
    }

    /// The tenant that calls are for, if the client has one.
    pub fn tenant(&self) -> (r: Option<&str>)
        ensures
            match r {
                Some(t) => self.tenant_text() == Some(t@),
                None => self.tenant_text() is None,
            },
    {
        match &self.tenant {
            Some(t) => Some(t.as_str()),
            None => None,
        }
    }

    /// What carries the calls of this client.
    pub fn transport(&self) -> (r: &T)
        ensures
            *r == self.carrier(),
    {
        &self.transport
    }

    /// What looks at the calls of this client, in its order.
    pub fn interceptors(&self) -> (r: &Vec<I>)
        ensures
            r@ == self.watchers(),
    {
        &self.interceptors
    }

    /// The tenant that a request is for. One that it names is never replaced.
    pub fn apply_tenant(&self, requested: Option<String>) -> (r: Option<String>)
        ensures
            opt_text(r) == tenant_used(self.tenant_text(), opt_text(requested)),
    {
        match requested {
            Some(t) => Some(t),
            None => match &self.tenant {
                Some(t) => Some(t.clone()),
                None => None,
            },
        }
    }

    /// The parameters that a call starts with.
    pub fn params(&self) -> (r: ServiceParams)
        ensures
            lists(r@) == self.default_params(),
    {
        copy_params(&self.default_params)
    }

    /// What a call of this client starts with.
    pub fn start_call(&self) -> (r: CallStage)
        ensures
            r == stage_at(self.watchers().len() as int, 0),
    {
        if self.interceptors.len() == 0 {
            CallStage::Send
        } else {
            CallStage::Before(0)
        }
    }

    /// What comes after a step of a call, which went well or did not. An
    /// interceptor that refuses a call ends it before it is made; the others are
    /// asked about what came of it, last first, until one of them objects.
    pub fn next_stage(&self, stage: CallStage, went_well: bool) -> (r: CallStage)
        requires
            stage matches CallStage::Before(i) ==> i < self.watchers().len(),
            stage matches CallStage::After(i) ==> i < self.watchers().len(),
        ensures
            r == stage_after(self.watchers().len() as int, stage, went_well),
            r matches CallStage::Before(i) ==> i < self.watchers().len(),
            r matches CallStage::After(i) ==> i < self.watchers().len(),
    {
        let n: usize = self.interceptors.len();
        match stage {
            CallStage::Before(i) => if !went_well {
                CallStage::Done
            } else if i + 1 < n {
                CallStage::Before(i + 1)
            } else {
                CallStage::Send
            },
            CallStage::Send => if n == 0 {
                CallStage::Done
            } else {
                CallStage::After(n - 1)
            },
            CallStage::After(i) => if went_well && i > 0 {
                CallStage::After(i - 1)
            } else {
                CallStage::Done
            },
            CallStage::Done => CallStage::Done,
        }
    }
}

/// A step of a call.
#[derive(Debug, Clone, Copy, PartialEq, Eq, Structural)]
pub enum CallStage {
    /// Ask this interceptor about the call.
    Before(usize),
    /// Make the call.
    Send,
    /// Ask this interceptor about what came of it.
    After(usize),
    /// Nothing more.
    Done,
}

/// What comes after a step of a call of a client with `n` interceptors.
pub open spec fn stage_after(n: int, stage: CallStage, went_well: bool) -> CallStage {
    match stage {
        CallStage::Before(i) => if !went_well {
            CallStage::Done
        } else if i + 1 < n {
            CallStage::Before((i + 1) as usize)
        } else {
            CallStage::Send
        },
        CallStage::Send => if n == 0 {
            CallStage::Done
        } else {
            CallStage::After((n - 1) as usize)
        },
        CallStage::After(i) => if went_well && i > 0 {
            CallStage::After((i - 1) as usize)
        } else {
            CallStage::Done
        },
        CallStage::Done => CallStage::Done,
    }
}

/// Step `k` of a call that nobody objects to: the interceptors in their order,
/// the call, the interceptors in the reverse order.
pub open spec fn stage_at(n: int, k: int) -> CallStage {
    if k < n {
        CallStage::Before(k as usize)
    } else if k == n {
        CallStage::Send
    } else if k <= 2 * n {
        CallStage::After((2 * n - k) as usize)
    } else {
        CallStage::Done
    }
}

/// Interceptors nest: a call that nobody objects to goes through all of them in
/// their order, is made once, and goes back through all of them in the reverse
/// order.
pub proof fn law_interceptors_nest(n: int, k: int)
    requires
        0 <= n <= usize::MAX,
        0 <= k,
    ensures
        stage_after(n, stage_at(n, k), true) == stage_at(n, k + 1),
        (stage_at(n, k) is Send) == (k == n),
{
}

/// A call that an interceptor refuses is not made, and nobody is asked about it
/// afterwards.
pub proof fn law_refused_calls_are_not_made(n: int, i: usize)
    ensures
        stage_after(n, CallStage::Before(i), false) == CallStage::Done,
{
}

/// What a call comes to, after the interceptors have looked at it: its own error
/// comes before theirs.
pub fn finish_call<R>(result: Result<R, A2AError>, after: Result<(), A2AError>) -> (r: Result<
    R,
    A2AError,
>)
    ensures
        r == (match (result, after) {
            (Ok(value), Ok(_)) => Ok(value),
            (Err(error), _) => Err(error),
            (Ok(_), Err(error)) => Err(error),
        }),
{
    match (result, after) {
        (Ok(value), Ok(_)) => Ok(value),
        (Err(error), _) => Err(error),
        (Ok(_), Err(error)) => Err(error),
    }
}

/// A tenant that a request names is the one that it is for, and a request that
/// names none is for the client's.
pub proof fn law_explicit_tenants_win(client: Option<Seq<char>>, named: Seq<char>)
    ensures
        tenant_used(client, Some(named)) == Some(named),
        tenant_used(client, None) == client,
{
}

// ---------------------------------------------------------------------------
// Agent cards.
// ---------------------------------------------------------------------------

/// A text without the slashes at its end.
pub open spec fn unslashed(s: Seq<char>) -> Seq<char>
    decreases s.len(),
{
    if s.len() > 0 && s.last() == '/' {
        unslashed(s.drop_last())
    } else {
        s
    }
}

/// Where the card of an agent is found.
pub fn agent_card_url(base_url: &str) -> (r: String)
    ensures
        r@ == unslashed(base_url@) + "/.well-known/agent-card.json"@,
{
    let cs = chars_of(base_url);
    let mut n: usize = cs.len();
    assert(cs@.take(n as int) =~= base_url@);
    while n > 0 && cs[n - 1] == '/'
        invariant
            n <= cs.len(),
            unslashed(cs@.take(n as int)) == unslashed(base_url@),
        decreases n,
    {
        assert(cs@.take(n as int).drop_last() =~= cs@.take(n - 1));
        n = n - 1;
    }
    let head = string_of(slice_subrange(cs.as_slice(), 0, n));
    assert(head@ =~= cs@.take(n as int));
    joined(head.as_str(), "/.well-known/agent-card.json")
}

/// What came of a request for the card of an agent.
#[derive(Debug)]
pub enum CardReply<C> {
    /// Nothing came back.
    Unreachable(String),
    /// A response with this status, as a number and as a text, and with a card or
    /// with the reason why it holds none.
    Response { status: u16, shown: String, card: Result<C, String> },
}

/// The card of an agent, or why there is none.
pub fn card_outcome<C>(reply: CardReply<C>) -> (r: Result<C, A2AError>)
    ensures
        match reply {
            CardReply::Unreachable(e) => r matches Err(x) && x@ == internal(
                "failed to fetch agent card: "@ + e@,
            ),
            CardReply::Response { status, shown, card } => if !(200 <= status < 300) {
                r matches Err(x) && x@ == internal("agent card fetch returned HTTP "@ + shown@)
            } else {
                match card {
                    Ok(c) => r == Ok::<C, A2AError>(c),
                    Err(e) => r matches Err(x) && x@ == internal(
                        "failed to parse agent card: "@ + e@,
                    ),
                }
            },
        },
{
    match reply {
        CardReply::Unreachable(e) => Err(
            A2AError::internal(joined("failed to fetch agent card: ", e.as_str()).as_str()),
        ),
        CardReply::Response { status, shown, card } => if status < 200 || status >= 300 {
            Err(A2AError::internal(
                joined("agent card fetch returned HTTP ", shown.as_str()).as_str(),
            ))
        } else {
            match card {
                Ok(c) => Ok(c),
                Err(e) => Err(
                    A2AError::internal(joined("failed to parse agent card: ", e.as_str()).as_str()),
                ),
            }
        },
    }
}

/// Slashes at the end of a base make no difference to where a card is found.
pub proof fn law_a_base_url_may_end_in_slashes(base: Seq<char>)
    ensures
        unslashed(base.push('/')) == unslashed(base),
{
    assert(base.push('/').drop_last() =~= base);
}

/// Every call carries the version that it is made in, and nothing else.
pub proof fn law_calls_carry_their_version(name: Seq<char>)
    ensures
        usual_params().contains_key(name) <==> name == "A2A-Version"@,
        usual_params()["A2A-Version"@] == seq!["1.0"@],
{
}

/// The steps of a call that nobody objects to: each interceptor before it, in order, then
/// the call, then each interceptor after it, from the last to the first.
pub proof fn law_calls_go_there_and_back(n: int, i: int)
    requires
        0 <= i < n <= usize::MAX,
    ensures
        stage_at(n, i) == CallStage::Before(i as usize),
        stage_at(n, n) == CallStage::Send,
        stage_at(n, 2 * n - i) == CallStage::After(i as usize),
        stage_at(n, 2 * n + 1) == CallStage::Done,
        stage_at(0, 0) == CallStage::Send,
        stage_at(0, 1) == CallStage::Done,
{
}

/// What a call comes to is looked at whether it went well or not. Where an interceptor
/// objects to it, the others are not asked.
pub proof fn law_failed_calls_are_looked_at(n: int, i: usize, went_well: bool)
    requires
        0 <= n <= usize::MAX,
    ensures
        n > 0 ==> stage_after(n, CallStage::Send, went_well) == CallStage::After((n - 1) as usize),
        n == 0 ==> stage_after(n, CallStage::Send, went_well) == CallStage::Done,
        stage_after(n, CallStage::After(i), false) == CallStage::Done,
        stage_after(n, CallStage::Done, went_well) == CallStage::Done,
{
}

/// Only slashes are taken off the end of a base, and all of them.
pub proof fn law_only_slashes_are_taken_off(base: Seq<char>)
    ensures
        unslashed(base).len() <= base.len(),
        unslashed(base) == base.take(unslashed(base).len() as int),
        forall|i: int| unslashed(base).len() <= i < base.len() ==> #[trigger] base[i] == '/',
        unslashed(base).len() > 0 ==> unslashed(base).last() != '/',
    decreases base.len(),
{
    if base.len() > 0 && base.last() == '/' {
        let d = base.drop_last();
        law_only_slashes_are_taken_off(d);
        assert(d.take(unslashed(d).len() as int) =~= base.take(unslashed(d).len() as int));
        assert forall|i: int| unslashed(base).len() <= i < base.len() implies #[trigger] base[i]
            == '/' by {
            if i < d.len() {
                assert(d[i] == base[i]);
            }
        }
    } else {
        assert(base.take(base.len() as int) =~= base);
    }
}

} // verus!
