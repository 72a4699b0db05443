//! The life of a session: its startup context and its handshake.
//!
//! The roles are those of processes: the client is the parent that spawns, the
//! server the child that was spawned. The server speaks first: it sends the
//! handshake and the client answers it. Both halves stand here, so that they
//! stay consistent, though a process runs only one of them.
use crate::params::{lemma_lists_insert, lists, ServiceParams};
use crate::stdio::wire::{AckView, Handshake, HandshakeAck, HandshakeView, Variant};
use crate::text::{
    chars_of, find_char, first_at, joined, listed, lower_text, lowered, quoted, quoted_text,
    replace_char, replaced, same_chars, same_text, split_and_trim, string_of, texts,
};
use crate::text_map::TextMap;
use vstd::prelude::*;
use vstd::slice::slice_subrange;

verus! {

/// The environment variable of the session's identifier, which is required.
pub const ENV_SESSION_ID: &'static str = "A2A_SESSION_ID";

pub const ENV_PROTOCOL_VERSION: &'static str = "A2A_PROTOCOL_VERSION";

pub const ENV_LOG_LEVEL: &'static str = "A2A_LOG_LEVEL";

/// What the environment variables of service parameters start with.
pub const ENV_SERVICE_PARAM_PREFIX: &'static str = "A2A_SP_";

pub const PROTOCOL_NAME: &'static str = "a2a-stdio";

pub const PROTOCOL_VERSION: &'static str = "1.0";

/// What a handshake advertises when streams can be asked for.
pub const FEATURE_STREAMING: &'static str = "streaming";

/// Reserved: nothing sends or checks heartbeats yet.
pub const FEATURE_HEARTBEATS: &'static str = "heartbeats";

/// How a server process ends.
#[derive(Debug, Clone, Copy, PartialEq, Eq, Structural)]
pub enum ExitCode {
    /// An orderly shutdown, or a declined handshake.
    Success,
    GenericError,
    /// Malformed framing, or a broken handshake.
    ProtocolError,
    VersionNotSupported,
    /// The startup context is missing or wrong.
    StartupDenied,
}

/// The number of an exit code.
pub open spec fn exit_number(c: ExitCode) -> i32 {
    match c {
        ExitCode::Success => 0,
        ExitCode::GenericError => 1,
        ExitCode::ProtocolError => 2,
        ExitCode::VersionNotSupported => 3,
        ExitCode::StartupDenied => 4,
    }
}

impl ExitCode {
    /// The number that the process ends with.
    pub fn as_i32(self) -> (r: i32)
        ensures
            r == exit_number(self),
    {
        match self {
            ExitCode::Success => 0,
            ExitCode::GenericError => 1,
            ExitCode::ProtocolError => 2,
            ExitCode::VersionNotSupported => 3,
            ExitCode::StartupDenied => 4,
        }
    }
}

// ---------------------------------------------------------------------------
// The startup context.
// ---------------------------------------------------------------------------

/// The parameter that an environment variable names: what follows the prefix,
/// in lower case, with hyphens for underscores.
pub open spec fn env_key(name: Seq<char>) -> Option<Seq<char>> {
    if ENV_SERVICE_PARAM_PREFIX@.is_prefix_of(name) {
        Some(replaced(lowered(name.skip(ENV_SERVICE_PARAM_PREFIX@.len() as int)), '_', '-'))
    } else {
        None
    }
}

/// The service parameters among environment variables. Of two variables for
/// one parameter the later counts.
pub open spec fn env_params(vars: Seq<(String, String)>) -> Map<Seq<char>, Seq<Seq<char>>>
    decreases vars.len(),
{
    if vars.len() == 0 {
        Map::empty()
    } else {
        let rest = env_params(vars.drop_last());
        match env_key(vars.last().0@) {
            Some(k) => rest.insert(k, listed(vars.last().1@)),
            None => rest,
        }
    }
}

fn key_from_env(name: &str) -> (r: Option<String>)
    ensures
        match r {
            Some(k) => env_key(name@) == Some(k@),
            None => env_key(name@) is None,
        },
{
    let cs = chars_of(name);
    let prefix = chars_of(ENV_SERVICE_PARAM_PREFIX);
    if cs.len() < prefix.len() {
        return None;
    }
    let head = slice_subrange(cs.as_slice(), 0, prefix.len());
    if !same_chars(head, prefix.as_slice()) {
        assert(!ENV_SERVICE_PARAM_PREFIX@.is_prefix_of(name@));
        return None;
    }
    let rest = slice_subrange(cs.as_slice(), prefix.len(), cs.len());
    assert(rest@ =~= name@.skip(ENV_SERVICE_PARAM_PREFIX@.len() as int));
    assert(ENV_SERVICE_PARAM_PREFIX@.is_prefix_of(name@));
    let low = lower_text(string_of(rest).as_str());
    Some(replace_char(low.as_str(), '_', '-'))
}

/// The service parameters among environment variables.
pub fn service_params_from_env(vars: &Vec<(String, String)>) -> (r: ServiceParams)
    ensures
        lists(r@) == env_params(vars@),
{
    let mut out: ServiceParams = TextMap::new();
    let mut i: usize = 0;
    assert(lists(out@) =~= env_params(vars@.take(0)));
    while i < vars.len()
        invariant
            i <= vars.len(),
            lists(out@) == env_params(vars@.take(i as int)),
        decreases vars.len() - i,
    {
        assert(vars@.take(i + 1).drop_last() =~= vars@.take(i as int));
        match key_from_env(vars[i].0.as_str()) {
            Some(key) => {
                let values = split_and_trim(vars[i].1.as_str());
                proof {
                    lemma_lists_insert(out@, key@, values);
                }
                out.insert(key, values);
            },
            None => {},
        }
        i = i + 1;
    }
    assert(vars@.take(i as int) =~= vars@);
    out
}

/// The session's identifier, which `get` must find, and not empty.
pub fn session_id_from_env(get: impl Fn(&str) -> Option<String>) -> (r: Result<String, ExitCode>)
    requires
        call_requires(get, (ENV_SESSION_ID,)),
    ensures
        exists|found: Option<String>| #[trigger]
            call_ensures(get, (ENV_SESSION_ID,), found) && session_id_found(found, r),
{
    let found = get(ENV_SESSION_ID);
    let ghost given = found;
    let r = match found {
        None => Err(ExitCode::StartupDenied),
        Some(s) => if s.as_str().is_empty() {
            Err(ExitCode::StartupDenied)
        } else {
            Ok(s)
        },
    };
    assert(call_ensures(get, (ENV_SESSION_ID,), given) && session_id_found(given, r));
    r
}

/// What comes of an identifier that was or was not found.
pub open spec fn session_id_found(
    found: Option<String>,
    r: Result<String, ExitCode>,
) -> bool {
    match found {
        None => r == Err::<String, ExitCode>(ExitCode::StartupDenied),
        Some(s) => if s@.len() == 0 {
            r == Err::<String, ExitCode>(ExitCode::StartupDenied)
        } else {
            r == Ok::<String, ExitCode>(s)
        },
    }
}

// ---------------------------------------------------------------------------
// Negotiation.
// ---------------------------------------------------------------------------

/// Why a handshake failed.
#[derive(Debug, PartialEq)]
pub enum NegotiationError {
    UnknownProtocol(String),
    SessionIdMismatch { expected: String, actual: String },
    VariantNotOffered(Variant),
    NoCommonVariant,
    VersionNotSupported(String),
}

/// Why a handshake failed, in terms of contents.
pub enum NegotiationFault {
    UnknownProtocol(Seq<char>),
    SessionIdMismatch { expected: Seq<char>, actual: Seq<char> },
    VariantNotOffered(Variant),
    NoCommonVariant,
    VersionNotSupported(Seq<char>),
}

impl View for NegotiationError {
    type V = NegotiationFault;

    open spec fn view(&self) -> NegotiationFault {
        match *self {
            NegotiationError::UnknownProtocol(s) => NegotiationFault::UnknownProtocol(s@),
            NegotiationError::SessionIdMismatch { expected, actual } =>
                NegotiationFault::SessionIdMismatch { expected: expected@, actual: actual@ },
            NegotiationError::VariantNotOffered(v) => NegotiationFault::VariantNotOffered(v),
            NegotiationError::NoCommonVariant => NegotiationFault::NoCommonVariant,
            NegotiationError::VersionNotSupported(s) => NegotiationFault::VersionNotSupported(s@),
        }
    }
}

/// The exit code of a failed handshake.
pub open spec fn fault_exit_code(f: NegotiationFault) -> ExitCode {
    match f {
        NegotiationFault::VersionNotSupported(_) => ExitCode::VersionNotSupported,
        _ => ExitCode::ProtocolError,
    }
}

/// How a failed handshake reads.
pub open spec fn negotiation_message(f: NegotiationFault) -> Seq<char> {
    match f {
        NegotiationFault::UnknownProtocol(s) => "peer reported protocol "@ + quoted(s)
            + ", expected \"a2a-stdio\""@,
        NegotiationFault::SessionIdMismatch { expected, actual } =>
            "session id mismatch: expected "@ + quoted(expected) + ", got "@ + quoted(actual),
        NegotiationFault::VariantNotOffered(v) => "peer selected variant "@ + variant_name(v)
            + " which was not offered"@,
        NegotiationFault::NoCommonVariant => "no serialization variant in common"@,
        NegotiationFault::VersionNotSupported(s) => "protocol version "@ + quoted(s)
            + " is not supported"@,
    }
}

/// The name of a variant.
pub open spec fn variant_name(v: Variant) -> Seq<char> {
    match v {
        Variant::Json => "Json"@,
        Variant::Proto => "Proto"@,
    }
}

impl NegotiationError {
    /// The exit code that this failure calls for.
    pub fn exit_code(&self) -> (r: ExitCode)
        ensures
            r == fault_exit_code(self@),
    {
        match self {
            NegotiationError::VersionNotSupported(_) => ExitCode::VersionNotSupported,
            _ => ExitCode::ProtocolError,
        }
    }

    /// The failure as a message for people.
    pub fn message(&self) -> (r: String)
        ensures
            r@ == negotiation_message(self@),
    {
        match self {
            NegotiationError::UnknownProtocol(s) => {
                let mut out = joined("peer reported protocol ", quoted_text(s.as_str()).as_str());
                out.append(", expected \"a2a-stdio\"");
                out
            },
            NegotiationError::SessionIdMismatch { expected, actual } => {
                let mut out = joined(
                    "session id mismatch: expected ",
                    quoted_text(expected.as_str()).as_str(),
                );
                out.append(", got ");
                out.append(quoted_text(actual.as_str()).as_str());
                out
            },
            NegotiationError::VariantNotOffered(v) => {
                let name = match v {
                    Variant::Json => "Json",
                    Variant::Proto => "Proto",
                };
                let mut out = joined("peer selected variant ", name);
                out.append(" which was not offered");
                out
            },
            NegotiationError::NoCommonVariant => "no serialization variant in common".to_owned(),
            NegotiationError::VersionNotSupported(s) => {
                let mut out = joined("protocol version ", quoted_text(s.as_str()).as_str());
                out.append(" is not supported");
                out
            },
        }
    }
}

/// What the answer to a handshake means for the server.
#[derive(Debug, Clone, Copy, PartialEq, Eq, Structural)]
pub enum AckOutcome {
    /// Go on in this variant.
    Accepted(Variant),
    /// The client refused; end in order.
    Declined,
}

/// The handshake of a server.
///
/// `supported` is in the server's order of preference and must hold
/// `Variant::Json`, which every server speaks.
pub fn build_handshake(
    session_id: String,
    supported: Vec<Variant>,
    features: Vec<String>,
    pid: Option<u32>,
) -> (r: Handshake)
    requires
        supported@.contains(Variant::Json),
    ensures
        r@ == (HandshakeView {
            protocol: PROTOCOL_NAME@,
            protocol_version: PROTOCOL_VERSION@,
            session_id: session_id@,
            supported_variants: supported@,
            features: texts(features@),
            pid,
        }),
{
    Handshake {
        protocol: PROTOCOL_NAME.to_owned(),
        protocol_version: PROTOCOL_VERSION.to_owned(),
        session_id,
        supported_variants: supported,
        features,
        pid,
    }
}

/// What a server makes of an answer to its handshake. Whose answer it is comes
/// before what it says; and a refusal is an orderly end.
pub open spec fn ack_taken(offered: HandshakeView, ack: AckView) -> Result<
    AckOutcome,
    NegotiationFault,
> {
    if ack.session_id != offered.session_id {
        Err(
            NegotiationFault::SessionIdMismatch {
                expected: offered.session_id,
                actual: ack.session_id,
            },
        )
    } else if !ack.accept {
        Ok(AckOutcome::Declined)
    } else if !offered.supported_variants.contains(ack.select_variant) {
        Err(NegotiationFault::VariantNotOffered(ack.select_variant))
    } else {
        Ok(AckOutcome::Accepted(ack.select_variant))
    }
}

fn has_variant(vs: &[Variant], v: Variant) -> (r: bool)
    ensures
        r == vs@.contains(v),
{
    let mut i: usize = 0;
    while i < vs.len()
        invariant
            i <= vs.len(),
            forall|j: int| 0 <= j < i ==> vs@[j] != v,
        decreases vs.len() - i,
    {
        if vs[i] == v {
            assert(vs@[i as int] == v);
            return true;
        }
        i = i + 1;
    }
    false
}

/// What a server makes of the answer to the handshake that it offered.
pub fn accept_ack(offered: &Handshake, ack: &HandshakeAck) -> (r: Result<
    AckOutcome,
    NegotiationError,
>)
    ensures
        match r {
            Ok(o) => ack_taken(offered@, ack@) == Ok::<AckOutcome, NegotiationFault>(o),
            Err(e) => ack_taken(offered@, ack@) == Err::<AckOutcome, NegotiationFault>(e@),
        },
{
    if !same_text(ack.session_id.as_str(), offered.session_id.as_str()) {
        return Err(
            NegotiationError::SessionIdMismatch {
                expected: offered.session_id.clone(),
                actual: ack.session_id.clone(),
            },
        );
    }
    if !ack.accept {
        return Ok(AckOutcome::Declined);
    }
    if !has_variant(offered.supported_variants.as_slice(), ack.select_variant) {
        return Err(NegotiationError::VariantNotOffered(ack.select_variant));
    }
    Ok(AckOutcome::Accepted(ack.select_variant))
}

/// The major part of a version: what stands before the first dot.
pub open spec fn major(v: Seq<char>) -> Seq<char> {
    v.take(first_at(v, '.'))
}

/// Whether a peer of this version can be talked to: its major version is ours.
pub open spec fn compatible(peer: Seq<char>) -> bool {
    major(peer).len() > 0 && major(peer) == major(PROTOCOL_VERSION@)
}

fn version_compatible(peer: &str) -> (r: bool)
    ensures
        r == compatible(peer@),
{
    let p = chars_of(peer);
    let own = chars_of(PROTOCOL_VERSION);
    let i: usize = find_char(p.as_slice(), '.');
    let j: usize = find_char(own.as_slice(), '.');
    let a = slice_subrange(p.as_slice(), 0, i);
    let b = slice_subrange(own.as_slice(), 0, j);
    assert(a@ =~= major(peer@));
    assert(b@ =~= major(PROTOCOL_VERSION@));
    a.len() > 0 && same_chars(a, b)
}

/// The first of `offered` that is among `spoken`.
pub open spec fn first_common(offered: Seq<Variant>, spoken: Seq<Variant>) -> Option<Variant>
    decreases offered.len(),
{
    if offered.len() == 0 {
        None
    } else if spoken.contains(offered[0]) {
        Some(offered[0])
    } else {
        first_common(offered.drop_first(), spoken)
    }
}

/// What a client makes of a handshake: it takes the first variant of the
/// server's list that it speaks.
pub open spec fn handshake_taken(
    hs: HandshakeView,
    expected: Seq<char>,
    spoken: Seq<Variant>,
) -> Result<Variant, NegotiationFault> {
    if hs.protocol != PROTOCOL_NAME@ {
        Err(NegotiationFault::UnknownProtocol(hs.protocol))
    } else if hs.session_id != expected {
        Err(NegotiationFault::SessionIdMismatch { expected, actual: hs.session_id })
    } else if !compatible(hs.protocol_version) {
        Err(NegotiationFault::VersionNotSupported(hs.protocol_version))
    } else {
        match first_common(hs.supported_variants, spoken) {
            Some(v) => Ok(v),
            None => Err(NegotiationFault::NoCommonVariant),
        }
    }
}

/// The answer of a client that takes part.
pub open spec fn accepting(session_id: Seq<char>, v: Variant) -> AckView {
    AckView { session_id, select_variant: v, accept: true }
}

/// What a client answers to a handshake, and the variant that was agreed on.
pub fn respond_to_handshake(
    hs: &Handshake,
    expected_session_id: &str,
    client_supported: &[Variant],
) -> (r: Result<(HandshakeAck, Variant), NegotiationError>)
    ensures
        match r {
            Ok((ack, v)) => handshake_taken(hs@, expected_session_id@, client_supported@) == Ok::<
                Variant,
                NegotiationFault,
            >(v) && ack@ == accepting(hs@.session_id, v),
            Err(e) => handshake_taken(hs@, expected_session_id@, client_supported@) == Err::<
                Variant,
                NegotiationFault,
            >(e@),
        },
{
    if !same_text(hs.protocol.as_str(), PROTOCOL_NAME) {
        return Err(NegotiationError::UnknownProtocol(hs.protocol.clone()));
    }
    if !same_text(hs.session_id.as_str(), expected_session_id) {
        return Err(
            NegotiationError::SessionIdMismatch {
                expected: expected_session_id.to_owned(),
                actual: hs.session_id.clone(),
            },
        );
    }
    if !version_compatible(hs.protocol_version.as_str()) {
        return Err(NegotiationError::VersionNotSupported(hs.protocol_version.clone()));
    }
    let ghost all = hs.supported_variants@;
    let mut i: usize = 0;
    assert(all.skip(0) =~= all);
    while i < hs.supported_variants.len()
        invariant
            i <= hs.supported_variants.len(),
            all == hs.supported_variants@,
            first_common(all, client_supported@) == first_common(
                all.skip(i as int),
                client_supported@,
            ),
            handshake_taken(hs@, expected_session_id@, client_supported@) == (match first_common(
                all,
                client_supported@,
            ) {
                Some(v) => Ok::<Variant, NegotiationFault>(v),
                None => Err::<Variant, NegotiationFault>(NegotiationFault::NoCommonVariant),
            }),
        decreases hs.supported_variants.len() - i,
    {
        let v = hs.supported_variants[i];
        assert(all.skip(i as int)[0] == v);
        assert(all.skip(i as int).drop_first() =~= all.skip(i + 1));
        if has_variant(client_supported, v) {
            let ack = HandshakeAck {
                session_id: hs.session_id.clone(),
                select_variant: v,
                accept: true,
            };
            return Ok((ack, v));
        }
        i = i + 1;
    }
    Err(NegotiationError::NoCommonVariant)
}

/// The answer of a client that does not take part.
pub open spec fn declining(session_id: Seq<char>) -> AckView {
    AckView { session_id, select_variant: Variant::Json, accept: false }
}

/// Refuses the session. The server ends in order; the variant means nothing.
pub fn decline(session_id: &str) -> (r: HandshakeAck)
    ensures
        r@ == declining(session_id@),
{
    HandshakeAck {
        session_id: session_id.to_owned(),
        select_variant: Variant::Json,
        accept: false,
    }
}

proof fn lemma_first_common(offered: Seq<Variant>, spoken: Seq<Variant>)
    ensures
        first_common(offered, spoken) matches Some(v) ==> offered.contains(v) && spoken.contains(v),
        first_common(offered, spoken) is None ==> forall|v: Variant|
            offered.contains(v) ==> !spoken.contains(v),
    decreases offered.len(),
{
    if offered.len() > 0 {
        let rest = offered.drop_first();
        if spoken.contains(offered[0]) {
            assert(offered.contains(offered[0]));
        } else {
            lemma_first_common(rest, spoken);
            if let Some(v) = first_common(rest, spoken) {
                let i = choose|i: int| 0 <= i < rest.len() && rest[i] == v;
                assert(offered[i + 1] == v);
            }
            assert forall|v: Variant|
                first_common(offered, spoken) is None && offered.contains(
                    v,
                ) implies !spoken.contains(v) by {
                let i = choose|i: int| 0 <= i < offered.len() && offered[i] == v;
                if i > 0 {
                    assert(rest[i - 1] == v);
                }
            }
        }
    }
}

/// The two halves agree: where a client takes part in a session, the server
/// accepts its answer in the very variant that the client chose, which both of
/// them speak.
pub proof fn law_the_halves_agree(hs: HandshakeView, spoken: Seq<Variant>, v: Variant)
    requires
        handshake_taken(hs, hs.session_id, spoken) == Ok::<Variant, NegotiationFault>(v),
    ensures
        ack_taken(hs, accepting(hs.session_id, v)) == Ok::<AckOutcome, NegotiationFault>(
            AckOutcome::Accepted(v),
        ),
        hs.supported_variants.contains(v),
        spoken.contains(v),
{
    lemma_first_common(hs.supported_variants, spoken);
}

/// A server and a client of this library that know the same session always come
/// to an agreement: every server speaks the JSON variant, and so does the client.
pub proof fn law_negotiation_succeeds(hs: HandshakeView, spoken: Seq<Variant>)
    requires
        hs.protocol == PROTOCOL_NAME@,
        hs.protocol_version == PROTOCOL_VERSION@,
        hs.supported_variants.contains(Variant::Json),
        spoken.contains(Variant::Json),
    ensures
        handshake_taken(hs, hs.session_id, spoken) is Ok,
{
    lemma_first_common(hs.supported_variants, spoken);
    reveal_strlit("1.0");
    crate::text::lemma_first_at(PROTOCOL_VERSION@, '.');
    crate::text::lemma_first_at_is(PROTOCOL_VERSION@, '.', 1);
}

/// A client that declines is seen as an orderly end of the session.
pub proof fn law_a_decline_is_an_orderly_end(hs: HandshakeView)
    ensures
        ack_taken(hs, declining(hs.session_id)) == Ok::<AckOutcome, NegotiationFault>(
            AckOutcome::Declined,
        ),
{
}

/// Only the major version counts: with the major version of this library, a peer
/// of whatever minor version can be talked to.
pub proof fn law_minor_versions_are_compatible(minor: Seq<char>)
    ensures
        compatible(major(PROTOCOL_VERSION@).push('.') + minor),
{
    reveal_strlit("1.0");
    crate::text::lemma_first_at_is(PROTOCOL_VERSION@, '.', 1);
    let own = major(PROTOCOL_VERSION@);
    let peer = own.push('.') + minor;
    assert(own =~= seq!['1']);
    crate::text::lemma_first_at_is(peer, '.', 1);
    assert(major(peer) =~= own);
}

/// The server's order decides: the variant that is agreed on is the first of the
/// server's list that the client speaks, whatever the order of the client's.
pub proof fn law_the_server_ranks_the_variants(
    hs: HandshakeView,
    expected: Seq<char>,
    spoken: Seq<Variant>,
    other: Seq<Variant>,
)
    requires
        forall|v: Variant| #[trigger] spoken.contains(v) <==> other.contains(v),
    ensures
        handshake_taken(hs, expected, spoken) == handshake_taken(hs, expected, other),
        handshake_taken(hs, expected, spoken) matches Ok(v) ==> exists|i: int|
            0 <= i < hs.supported_variants.len() && #[trigger] hs.supported_variants[i] == v
                && forall|j: int| 0 <= j < i ==> !spoken.contains(#[trigger] hs.supported_variants[j]),
{
    lemma_first_common_is_first(hs.supported_variants, spoken, other);
}

proof fn lemma_first_common_is_first(
    offered: Seq<Variant>,
    spoken: Seq<Variant>,
    other: Seq<Variant>,
)
    requires
        forall|v: Variant| #[trigger] spoken.contains(v) <==> other.contains(v),
    ensures
        first_common(offered, spoken) == first_common(offered, other),
        first_common(offered, spoken) matches Some(v) ==> exists|i: int|
            0 <= i < offered.len() && #[trigger] offered[i] == v && forall|j: int|
                0 <= j < i ==> !spoken.contains(#[trigger] offered[j]),
    decreases offered.len(),
{
    if offered.len() > 0 && !spoken.contains(offered[0]) {
        let rest = offered.drop_first();
        lemma_first_common_is_first(rest, spoken, other);
        if let Some(v) = first_common(rest, spoken) {
            let i = choose|i: int|
                0 <= i < rest.len() && #[trigger] rest[i] == v && forall|j: int|
                    0 <= j < i ==> !spoken.contains(#[trigger] rest[j]);
            assert(offered[i + 1] == v);
            assert forall|j: int| 0 <= j < i + 1 implies !spoken.contains(
                #[trigger] offered[j],
            ) by {
                if j > 0 {
                    assert(offered[j] == rest[j - 1]);
                }
            }
        }
    }
}

} // verus!
