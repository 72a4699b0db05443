//! Whom a client trusts on an encrypted connection.
use crate::protocol::A2AError;
use crate::text::joined;
use crate::websocket::client::TlsOptions;
use crate::websocket::endpoint::internal;
use vstd::prelude::*;

verus! {

/// The contents of a list of byte strings.
pub open spec fn blobs(s: Seq<Vec<u8>>) -> Seq<Seq<u8>> {
    Seq::new(s.len(), |i: int| s[i]@)
}

/// What `rustls_pemfile::certs` finds in a text: the certificates, up to the
/// first error, or the text of that error.
pub uninterp spec fn pem_read(pem: Seq<u8>) -> Result<Seq<Seq<u8>>, Seq<char>>;

/// `rustls_pemfile::certs`, read to its end or to its first error: what it finds
/// depends on the bytes alone.
#[verifier::external_body]
fn read_pem(pem: &[u8]) -> (r: Result<Vec<Vec<u8>>, String>)
    ensures
        match r {
            Ok(certs) => pem_read(pem@) == Ok::<Seq<Seq<u8>>, Seq<char>>(blobs(certs@)),
            Err(e) => pem_read(pem@) == Err::<Seq<Seq<u8>>, Seq<char>>(e@),
        },
{
    let mut reader = pem;
    let found: Result<Vec<Vec<u8>>, std::io::Error> = rustls_pemfile::certs(&mut reader)
        .map(|c| c.map(|der| der.to_vec()))
        .collect();
    found.map_err(|e| e.to_string())
}

/// All certificates in some texts, or the first error.
pub open spec fn all_certs(pems: Seq<Seq<u8>>) -> Result<Seq<Seq<u8>>, Seq<char>>
    decreases pems.len(),
{
    if pems.len() == 0 {
        Ok(Seq::empty())
    } else {
        match all_certs(pems.drop_last()) {
            Err(e) => Err(e),
            Ok(before) => match pem_read(pems.last()) {
                Err(e) => Err(e),
                Ok(certs) => Ok(before + certs),
            },
        }
    }
}

proof fn lemma_first_error_stays(pems: Seq<Seq<u8>>, n: int)
    requires
        0 <= n <= pems.len(),
        all_certs(pems.take(n)) is Err,
    ensures
        all_certs(pems) == all_certs(pems.take(n)),
    decreases pems.len() - n,
{
    if n < pems.len() {
        assert(pems.take(n + 1).drop_last() =~= pems.take(n));
        lemma_first_error_stays(pems, n + 1);
    } else {
        assert(pems.take(n) =~= pems);
    }
}

/// All certificates in some texts.
pub fn parse_pem_certs(pems: &Vec<Vec<u8>>) -> (r: Result<Vec<Vec<u8>>, A2AError>)
    ensures
        match r {
            Ok(certs) => all_certs(blobs(pems@)) == Ok::<Seq<Seq<u8>>, Seq<char>>(blobs(certs@)),
            Err(e) => all_certs(blobs(pems@)) matches Err(m) && e@ == internal(
                "failed to parse PEM certificate: "@ + m,
            ),
        },
{
    let ghost all = blobs(pems@);
    let mut out: Vec<Vec<u8>> = Vec::new();
    let mut i: usize = 0;
    assert(blobs(out@) =~= Seq::<Seq<u8>>::empty());
    while i < pems.len()
        invariant
            i <= pems.len(),
            all == blobs(pems@),
            all_certs(all.take(i as int)) == Ok::<Seq<Seq<u8>>, Seq<char>>(blobs(out@)),
        decreases pems.len() - i,
    {
        proof {
            assert(all.take(i + 1).drop_last() =~= all.take(i as int));
            assert(all.take(i + 1).last() == pems@[i as int]@);
        }
        match read_pem(pems[i].as_slice()) {
            Err(e) => {
                proof {
                    lemma_first_error_stays(all, i + 1);
                }
                return Err(
                    A2AError::internal(
                        joined("failed to parse PEM certificate: ", e.as_str()).as_str(),
                    ),
                );
            },
            Ok(certs) => {
                let ghost before = out@;
                let mut found = certs;
                out.append(&mut found);
                assert(blobs(out@) =~= blobs(before) + blobs(certs@));
            },
        }
        i = i + 1;
    }
    assert(all.take(i as int) =~= all);
    Ok(out)
}

/// Whether a host can be the name of a server on an encrypted connection.
pub uninterp spec fn names_a_server(host: Seq<char>) -> bool;

/// `ServerName::try_from` of rustls on a host: whether it is the name of a domain or
/// an address, which depends on the host alone.
#[verifier::external_body]
fn read_server_name(host: &str) -> (r: bool)
    ensures
        r == names_a_server(host@),
{
    rustls::pki_types::ServerName::try_from(host).is_ok()
}

/// Whether an encrypted connection to a host can be asked for.
pub fn check_server_name(host: &str) -> (r: Result<(), A2AError>)
    ensures
        match r {
            Ok(_) => names_a_server(host@),
            Err(e) => !names_a_server(host@) && e@ == internal(
                "invalid TLS server name: "@ + host@,
            ),
        },
{
    if read_server_name(host) {
        Ok(())
    } else {
        Err(A2AError::internal(joined("invalid TLS server name: ", host).as_str()))
    }
}

/// Whom a client trusts.
#[derive(Debug)]
pub enum Trust {
    /// Anyone.
    Anyone,
    /// The platform's roots, or the bundled ones where it has none, and these.
    Roots { bundled: bool, extra: Vec<Vec<u8>> },
}

/// Whom a client trusts. `platform_roots` says how many of the platform's roots
/// can be used.
pub fn trust(options: &TlsOptions, platform_roots: usize) -> (r: Result<Trust, A2AError>)
    ensures
        if options.danger_accept_invalid_certs {
            r == Ok::<Trust, A2AError>(Trust::Anyone)
        } else {
            match r {
                Ok(t) => t matches Trust::Roots { bundled, extra } && bundled == (platform_roots
                    == 0) && all_certs(blobs(options.extra_root_certs_pem@)) == Ok::<
                    Seq<Seq<u8>>,
                    Seq<char>,
                >(blobs(extra@)),
                Err(e) => all_certs(blobs(options.extra_root_certs_pem@)) matches Err(m) && e@
                    == internal("failed to parse PEM certificate: "@ + m),
            }
        },
{
    if options.danger_accept_invalid_certs {
        return Ok(Trust::Anyone);
    }
    match parse_pem_certs(&options.extra_root_certs_pem) {
        Ok(extra) => Ok(Trust::Roots { bundled: platform_roots == 0, extra }),
        Err(e) => Err(e),
    }
}

/// The certificates of some texts are those of each text, in order. The first text that
/// cannot be read decides, whatever follows it.
pub proof fn law_certificates_add_up(pems: Seq<Seq<u8>>, last: Seq<u8>)
    ensures
        all_certs(Seq::empty()) == Ok::<Seq<Seq<u8>>, Seq<char>>(Seq::empty()),
        all_certs(pems) is Err ==> all_certs(pems.push(last)) == all_certs(pems),
        all_certs(pems) matches Ok(before) ==> (pem_read(last) matches Err(e) ==> all_certs(
            pems.push(last),
        ) == Err::<Seq<Seq<u8>>, Seq<char>>(e)),
        all_certs(pems) matches Ok(before) ==> (pem_read(last) matches Ok(certs) ==> all_certs(
            pems.push(last),
        ) == Ok::<Seq<Seq<u8>>, Seq<char>>(before + certs)),
{
    assert(pems.push(last).drop_last() =~= pems);
}

} // verus!
