//! Identifiers that nobody else has.
use vstd::prelude::*;

verus! {

/// `uuid::Uuid::now_v7`, in its usual form with hyphens, which has 36
/// characters. Which ones depends on the time and on chance.
#[verifier::external_body]
pub(crate) fn fresh_id() -> (r: String)
    ensures
        r@.len() == 36,
{
    uuid::Uuid::now_v7().to_string()
}

/// `uuid::Uuid::new_v4`, in its usual form with hyphens, which has 36
/// characters. Which ones depends on chance.
#[verifier::external_body]
pub(crate) fn fresh_token() -> (r: String)
    ensures
        r@.len() == 36,
{
    uuid::Uuid::new_v4().to_string()
}

/// `fastwebsockets::handshake::generate_key`: sixteen bytes in base64, which are
/// 24 characters. Which ones depends on chance.
#[verifier::external_body]
pub(crate) fn fresh_key() -> (r: String)
    ensures
        r@.len() == 24,
{
    fastwebsockets::handshake::generate_key()
}

} // verus!
