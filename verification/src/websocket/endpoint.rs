//! Where a client connects to.
use crate::error_code;
use crate::protocol::{plain_error, A2AError, ErrorView};
use crate::text::{
    chars_of, decimal, decimal_text, find_char, first_at, joined, parsed_number, same_text,
    string_of,
};
use vstd::prelude::*;
use vstd::slice::slice_subrange;

verus! {

/// Where a client connects to.
#[derive(Debug, PartialEq)]
pub struct ParsedEndpoint {
    pub scheme: String,
    pub host: String,
    pub port: u16,
    pub path: String,
}

/// Where a client connects to, in terms of contents.
#[verifier::ext_equal]
pub struct EndpointView {
    pub scheme: Seq<char>,
    pub host: Seq<char>,
    pub port: u16,
    pub path: Seq<char>,
}

impl View for ParsedEndpoint {
    type V = EndpointView;

    open spec fn view(&self) -> EndpointView {
        EndpointView {
            scheme: self.scheme@,
            host: self.host@,
            port: self.port,
            path: self.path@,
        }
    }
}

/// The port of a scheme where none is given.
pub open spec fn usual_port(scheme: Seq<char>) -> u16 {
    if scheme == "wss"@ {
        443
    } else {
        80
    }
}

/// The port of a scheme where none is given.
pub fn default_port(scheme: &str) -> (r: u16)
    ensures
        r == usual_port(scheme@),
{
    if same_text(scheme, "wss") {
        443
    } else {
        80
    }
}

/// Whether a port need not be given with a scheme.
pub fn uses_default_port(scheme: &str, port: u16) -> (r: bool)
    ensures
        r == (port == usual_port(scheme@)),
{
    port == default_port(scheme)
}

/// What is said of a text that is no port.
pub uninterp spec fn port_error(s: Seq<char>) -> Seq<char>;

/// The port that a text writes down. This calls `str::parse::<u16>`, which takes
/// decimal digits with an optional `+` in front, and is trusted to refuse every
/// other text and every number above 65535; what its error says is named by
/// [`port_error`].
#[verifier::external_body]
fn parse_port(s: &str) -> (r: Result<u16, String>)
    ensures
        match r {
            Ok(p) => parsed_number(s@) == Some(p as nat),
            Err(e) => (parsed_number(s@) matches Some(n) ==> n > 65535) && e@ == port_error(s@),
        },
{
    s.parse::<u16>().map_err(|e| e.to_string())
}

/// Where `://` stands first in a text, if it does.
pub open spec fn scheme_end(s: Seq<char>) -> Option<int>
    decreases s.len(),
{
    if s.len() < 3 {
        None
    } else if s[0] == ':' && s[1] == '/' && s[2] == '/' {
        Some(0)
    } else {
        match scheme_end(s.drop_first()) {
            Some(i) => Some(i + 1),
            None => None,
        }
    }
}

/// Whether `://` stands at a place of a text.
pub open spec fn scheme_at(s: Seq<char>, i: int) -> bool {
    0 <= i && i + 3 <= s.len() && s[i] == ':' && s[i + 1] == '/' && s[i + 2] == '/'
}

proof fn lemma_scheme_end(s: Seq<char>, n: int)
    requires
        0 <= n,
        forall|j: int| 0 <= j < n ==> !#[trigger] scheme_at(s, j),
    ensures
        scheme_at(s, n) ==> scheme_end(s) == Some(n),
        n + 3 > s.len() ==> scheme_end(s) is None,
    decreases s.len(),
{
    if s.len() >= 3 {
        if n > 0 {
            assert(!scheme_at(s, 0));
            let d = s.drop_first();
            assert forall|j: int| 0 <= j < n - 1 implies !#[trigger] scheme_at(d, j) by {
                assert(!scheme_at(s, j + 1));
            }
            if scheme_at(s, n) {
                assert(scheme_at(d, n - 1));
            }
            lemma_scheme_end(d, n - 1);
        }
    }
}

fn find_scheme(cs: &[char]) -> (r: Option<usize>)
    ensures
        match r {
            Some(i) => scheme_end(cs@) == Some(i as int) && i + 3 <= cs.len(),
            None => scheme_end(cs@) is None,
        },
{
    let n: usize = cs.len();
    let mut i: usize = 0;
    while i < n && n - i >= 3
        invariant
            i <= n,
            n == cs.len(),
            forall|j: int| 0 <= j < i ==> !#[trigger] scheme_at(cs@, j),
        decreases n - i,
    {
        if cs[i] == ':' && cs[i + 1] == '/' && cs[i + 2] == '/' {
            proof {
                assert(scheme_at(cs@, i as int));
                lemma_scheme_end(cs@, i as int);
            }
            return Some(i);
        }
        assert(!scheme_at(cs@, i as int));
        i = i + 1;
    }
    proof {
        lemma_scheme_end(cs@, i as int);
    }
    None
}

/// Where a character stands last in a text, if it does.
pub open spec fn last_at(s: Seq<char>, c: char) -> Option<int>
    decreases s.len(),
{
    if s.len() == 0 {
        None
    } else if s.last() == c {
        Some(s.len() - 1)
    } else {
        last_at(s.drop_last(), c)
    }
}

fn find_last(cs: &[char], c: char) -> (r: Option<usize>)
    ensures
        match r {
            Some(i) => last_at(cs@, c) == Some(i as int) && i < cs.len(),
            None => last_at(cs@, c) is None,
        },
{
    let mut i: usize = cs.len();
    assert(cs@.take(i as int) =~= cs@);
    while i > 0
        invariant
            i <= cs.len(),
            last_at(cs@, c) == last_at(cs@.take(i as int), c),
        decreases i,
    {
        assert(cs@.take(i as int).last() == cs@[i - 1]);
        if cs[i - 1] == c {
            return Some(i - 1);
        }
        assert(cs@.take(i as int).drop_last() =~= cs@.take(i - 1));
        i = i - 1;
    }
    None
}

/// An error on this side.
pub open spec fn internal(message: Seq<char>) -> ErrorView {
    plain_error(error_code::INTERNAL_ERROR, message)
}

/// The scheme of an endpoint, and what follows it. An endpoint without a scheme
/// is `ws`.
pub open spec fn scheme_read(s: Seq<char>) -> Result<(Seq<char>, Seq<char>), ErrorView> {
    match scheme_end(s) {
        None => Ok(("ws"@, s)),
        Some(i) => if s.take(i) == "ws"@ || s.take(i) == "wss"@ {
            Ok((s.take(i), s.skip(i + 3)))
        } else {
            Err(
                internal(
                    "unsupported scheme '"@ + s.take(i) + "'; expected ws:// or wss://"@,
                ),
            )
        },
    }
}

/// The host and port of an endpoint.
pub open spec fn host_read(scheme: Seq<char>, s: Seq<char>) -> Result<(Seq<char>, u16), ErrorView> {
    if s.len() == 0 {
        Err(internal("endpoint is missing a host"@))
    } else {
        match last_at(s, ':') {
            None => Ok((s, usual_port(scheme))),
            Some(i) => match parsed_number(s.skip(i + 1)) {
                Some(n) if n <= 65535 => Ok((s.take(i), n as u16)),
                _ => Err(
                    internal(
                        "invalid port '"@ + s.skip(i + 1) + "': "@ + port_error(s.skip(i + 1)),
                    ),
                ),
            },
        }
    }
}

/// Where an endpoint leads: `scheme://host:port/path`, of which only the host
/// must be there.
pub open spec fn endpoint_read(s: Seq<char>) -> Result<EndpointView, ErrorView> {
    match scheme_read(s) {
        Err(e) => Err(e),
        Ok((scheme, rest)) => {
            let slash = first_at(rest, '/');
            match host_read(scheme, rest.take(slash)) {
                Err(e) => Err(e),
                Ok((host, port)) => Ok(
                    EndpointView {
                        scheme,
                        host,
                        port,
                        path: if slash < rest.len() {
                            rest.skip(slash)
                        } else {
                            "/"@
                        },
                    },
                ),
            }
        },
    }
}

/// The contents of what reading an endpoint gives.
pub open spec fn endpoint_result(r: Result<ParsedEndpoint, A2AError>) -> Result<
    EndpointView,
    ErrorView,
> {
    match r {
        Ok(e) => Ok(e@),
        Err(e) => Err(e@),
    }
}

fn read_host(scheme: &str, cs: &[char]) -> (r: Result<(String, u16), A2AError>)
    ensures
        match r {
            Ok((host, port)) => host_read(scheme@, cs@) == Ok::<(Seq<char>, u16), ErrorView>(
                (host@, port),
            ),
            Err(e) => host_read(scheme@, cs@) == Err::<(Seq<char>, u16), ErrorView>(e@),
        },
{
    if cs.len() == 0 {
        return Err(A2AError::internal("endpoint is missing a host"));
    }
    match find_last(cs, ':') {
        None => Ok((string_of(cs), default_port(scheme))),
        Some(i) => {
            let host = string_of(slice_subrange(cs, 0, i));
            let text = string_of(slice_subrange(cs, i + 1, cs.len()));
            proof {
                assert(host@ =~= cs@.take(i as int));
                assert(text@ =~= cs@.skip(i + 1));
            }
            match parse_port(text.as_str()) {
                Ok(port) => Ok((host, port)),
                Err(e) => {
                    let a = joined("invalid port '", text.as_str());
                    let b = joined(a.as_str(), "': ");
                    Err(A2AError::internal(joined(b.as_str(), e.as_str()).as_str()))
                },
            }
        },
    }
}

/// Where an endpoint leads.
pub fn parse_endpoint(endpoint: &str) -> (r: Result<ParsedEndpoint, A2AError>)
    ensures
        endpoint_result(r) == endpoint_read(endpoint@),
{
    let cs = chars_of(endpoint);
    let all = cs.as_slice();
    let (scheme, rest): (String, &[char]) = match find_scheme(all) {
        None => ("ws".to_owned(), all),
        Some(i) => {
            let scheme = string_of(slice_subrange(all, 0, i));
            assert(scheme@ =~= endpoint@.take(i as int));
            if !same_text(scheme.as_str(), "ws") && !same_text(scheme.as_str(), "wss") {
                let a = joined("unsupported scheme '", scheme.as_str());
                return Err(
                    A2AError::internal(
                        joined(a.as_str(), "'; expected ws:// or wss://").as_str(),
                    ),
                );
            }
            let rest = slice_subrange(all, i + 3, all.len());
            assert(rest@ =~= endpoint@.skip(i + 3));
            (scheme, rest)
        },
    };
    let slash: usize = find_char(rest, '/');
    let host_part = slice_subrange(rest, 0, slash);
    assert(host_part@ =~= rest@.take(slash as int));
    match read_host(scheme.as_str(), host_part) {
        Err(e) => Err(e),
        Ok((host, port)) => {
            let path = if slash < rest.len() {
                let p = string_of(slice_subrange(rest, slash, rest.len()));
                assert(p@ =~= rest@.skip(slash as int));
                p
            } else {
                "/".to_owned()
            };
            Ok(ParsedEndpoint { scheme, host, port, path })
        },
    }
}

/// The host header of a request: the port is left out where it need not be
/// given.
pub open spec fn host_line(e: EndpointView) -> Seq<char> {
    if e.port == usual_port(e.scheme) {
        e.host
    } else {
        e.host + ":"@ + decimal(e.port as nat)
    }
}

/// The host header of a request.
pub fn host_header(e: &ParsedEndpoint) -> (r: String)
    ensures
        r@ == host_line(e@),
{
    if uses_default_port(e.scheme.as_str(), e.port) {
        e.host.clone()
    } else {
        let a = joined(e.host.as_str(), ":");
        joined(a.as_str(), decimal_text(e.port as u64).as_str())
    }
}

/// An endpoint that was read leads to a path that begins with a slash, in a
/// scheme that can be spoken.
pub proof fn law_endpoints_are_usable(s: Seq<char>, e: EndpointView)
    requires
        endpoint_read(s) == Ok::<EndpointView, ErrorView>(e),
    ensures
        e.scheme == "ws"@ || e.scheme == "wss"@,
        e.path.len() > 0,
        e.path[0] == '/',
{
    reveal_strlit("/");
    let rest = scheme_read(s)->Ok_0.1;
    crate::text::lemma_first_at(rest, '/');
}

} // verus!
