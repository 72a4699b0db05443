//! Who a connection belongs to.
//!
//! Credentials are shown once, when the connection is made. A connection
//! outlives many requests, so they are looked at again before each of them, and
//! can be replaced on the way.
use crate::json_value::{member, model, object, set_member, Json, JsonValue};
use crate::params::{lists, one_text, ServiceParams};
use crate::text::{decimal, decimal_text, joined, lower_text, lowered};
use crate::text_map::TextMap;
use vstd::prelude::*;

verus! {

/// How long a connection goes on after its peer was asked for new credentials,
/// in milliseconds.
pub const DEFAULT_REAUTH_GRACE_MS: u64 = 5000;

/// Why a connection was refused: 401 where credentials are missing or wrong, 403
/// where they are not enough.
#[derive(Debug)]
pub struct AuthError {
    pub status: u16,
    pub message: String,
}

impl AuthError {
    /// Credentials are missing or cannot be checked.
    pub fn unauthorized(message: &str) -> (r: Self)
        ensures
            r.status == 401,
            r.message@ == message@,
    {
        AuthError { status: 401, message: message.to_owned() }
    }

    /// The principal is known and not allowed.
    pub fn forbidden(message: &str) -> (r: Self)
        ensures
            r.status == 403,
            r.message@ == message@,
    {
        AuthError { status: 403, message: message.to_owned() }
    }

    /// This error as a text.
    pub fn message(&self) -> (r: String)
        ensures
            r@ == self.message@ + " ("@ + decimal(self.status as nat) + ")"@,
    {
        let opened = joined(self.message.as_str(), " (");
        let coded = joined(opened.as_str(), decimal_text(self.status as u64).as_str());
        joined(coded.as_str(), ")")
    }
}

/// An authenticated principal.
#[derive(Debug)]
pub struct User {
    pub name: String,
}

impl User {
    /// The principal of this name.
    pub fn authenticated(name: &str) -> (r: Self)
        ensures
            r.name@ == name@,
    {
        User { name: name.to_owned() }
    }
}

impl Clone for User {
    fn clone(&self) -> (r: Self)
        ensures
            r.name@ == self.name@,
    {
        User { name: self.name.clone() }
    }
}

/// Who a connection belongs to, and what its requests carry on that account.
/// The principal scopes limits; the parameters reach the request handler.
#[derive(Debug)]
pub struct AuthContext {
    pub user: Option<User>,
    /// Carried by every request on the connection. A request cannot replace
    /// them.
    pub service_params: ServiceParams,
}

/// An authenticated context in terms of contents.
#[verifier::ext_equal]
pub struct AuthView {
    pub user: Option<Seq<char>>,
    pub service_params: Map<Seq<char>, Seq<Seq<char>>>,
}

impl View for AuthContext {
    type V = AuthView;

    open spec fn view(&self) -> AuthView {
        AuthView {
            user: match self.user {
                Some(u) => Some(u.name@),
                None => None,
            },
            service_params: lists(self.service_params@),
        }
    }
}

impl Default for AuthContext {
    fn default() -> (r: Self)
        ensures
            r.user is None,
            r.service_params@ == Map::<Seq<char>, Vec<String>>::empty(),
    {
        AuthContext { user: None, service_params: TextMap::new() }
    }
}

impl AuthContext {
    /// A principal without parameters.
    pub fn for_user(user: User) -> (r: Self)
        ensures
            r@ == (AuthView { user: Some(user.name@), service_params: Map::empty() }),
            r.service_params@ == Map::<Seq<char>, Vec<String>>::empty(),
    {
        let r = AuthContext { user: Some(user), service_params: TextMap::new() };
        assert(r@.service_params =~= Map::<Seq<char>, Seq<Seq<char>>>::empty());
        r
    }

    /// One more parameter, in place of one of the same name. Its name is put in
    /// small letters.
    pub fn with_param(self, key: &str, value: &str) -> (r: Self)
        ensures
            r@ == (AuthView {
                service_params: self@.service_params.insert(lowered(key@), seq![value@]),
                ..self@
            }),
    {
        let mut out = self;
        let values = one_text(value.to_owned());
        proof {
            crate::params::lemma_lists_insert(out.service_params@, lowered(key@), values);
        }
        out.service_params.insert(lower_text(key), values);
        out
    }
}

/// How the credentials of a connection stand.
#[derive(Debug)]
pub enum AuthStatus {
    /// They hold.
    Valid,
    /// They will soon not hold: the peer is asked for new ones, and the
    /// connection is closed after a while.
    ReauthRequired { reason: String, retry_after_ms: u64 },
    /// They do not hold any more: the connection is closed.
    Expired { reason: String },
}

/// How credentials stand, in terms of contents.
pub enum StatusView {
    Valid,
    ReauthRequired { reason: Seq<char>, retry_after_ms: u64 },
    Expired { reason: Seq<char> },
}

impl View for AuthStatus {
    type V = StatusView;

    open spec fn view(&self) -> StatusView {
        match *self {
            AuthStatus::Valid => StatusView::Valid,
            AuthStatus::ReauthRequired { reason, retry_after_ms } => StatusView::ReauthRequired {
                reason: reason@,
                retry_after_ms,
            },
            AuthStatus::Expired { reason } => StatusView::Expired { reason: reason@ },
        }
    }
}

/// New credentials for a connection.
#[derive(Debug, PartialEq)]
pub struct AuthenticateParams {
    pub scheme: String,
    pub credentials: String,
}

/// The contents of optional credentials.
pub open spec fn opt_credentials(o: Option<AuthenticateParams>) -> Option<(Seq<char>, Seq<char>)> {
    match o {
        Some(p) => Some((p.scheme@, p.credentials@)),
        None => None,
    }
}

/// The JSON form of credentials.
pub open spec fn credentials_json(scheme: Seq<char>, credentials: Seq<char>) -> Json {
    Json::Object(
        Map::<Seq<char>, Json>::empty().insert("scheme"@, Json::Text(scheme)).insert(
            "credentials"@,
            Json::Text(credentials),
        ),
    )
}

/// The credentials that a JSON value holds, if it does.
pub open spec fn credentials_read(j: Json) -> Option<(Seq<char>, Seq<char>)> {
    match j {
        Json::Array(s) => if s.len() == 2 {
            match (s[0], s[1]) {
                (Json::Text(a), Json::Text(b)) => Some((a, b)),
                _ => None,
            }
        } else {
            None
        },
        _ => match (member(j, "scheme"@), member(j, "credentials"@)) {
            (Some(Json::Text(a)), Some(Json::Text(b))) => Some((a, b)),
            _ => None,
        },
    }
}

/// The JSON form of credentials reads as those credentials.
pub proof fn law_credentials_read_back(scheme: Seq<char>, credentials: Seq<char>)
    ensures
        credentials_read(credentials_json(scheme, credentials)) == Some((scheme, credentials)),
{
    reveal_strlit("scheme");
    reveal_strlit("credentials");
    assert("scheme"@.len() != "credentials"@.len());
}

impl AuthenticateParams {
    /// The JSON form of these credentials.
    pub fn to_value(&self) -> (r: JsonValue)
        ensures
            model(r) == credentials_json(self.scheme@, self.credentials@),
    {
        let mut out: Vec<(String, JsonValue)> = Vec::new();
        assert(object(out@) =~= Map::<Seq<char>, Json>::empty());
        set_member(&mut out, "scheme".to_owned(), JsonValue::Text(self.scheme.clone()));
        set_member(&mut out, "credentials".to_owned(), JsonValue::Text(self.credentials.clone()));
        JsonValue::Object(out)
    }

    /// The credentials that `v` holds, if it does: as an object, or as a list of
    /// the two.
    pub fn from_value(v: &JsonValue) -> (r: Option<AuthenticateParams>)
        ensures
            opt_credentials(r) == credentials_read(model(*v)),
    {
        if let JsonValue::Array(a) = v {
            proof {
                crate::json_value::lemma_array_model(*a);
            }
            if a.len() != 2 {
                return None;
            }
            return match (a[0].as_str(), a[1].as_str()) {
                (Some(s), Some(c)) => Some(
                    AuthenticateParams { scheme: s.to_owned(), credentials: c.to_owned() },
                ),
                _ => None,
            };
        }
        match (v.get("scheme"), v.get("credentials")) {
            (Some(s), Some(c)) => match (s.as_str(), c.as_str()) {
                (Some(s), Some(c)) => Some(
                    AuthenticateParams { scheme: s.to_owned(), credentials: c.to_owned() },
                ),
                _ => None,
            },
            _ => None,
        }
    }
}

/// Credentials are written with their scheme and what proves them, and nothing else.
pub proof fn law_credentials_are_written_whole(scheme: Seq<char>, credentials: Seq<char>)
    ensures
        credentials_json(scheme, credentials) == Json::Object(
            map!["scheme"@ => Json::Text(scheme), "credentials"@ => Json::Text(credentials)],
        ),
{
}

/// Credentials are read from an object that has both as texts, or from a list of the two,
/// the scheme first, and from nothing else. They are read as they stand there.
pub proof fn law_credentials_are_read_as_they_stand(j: Json)
    ensures
        j matches Json::Object(m) ==> match credentials_read(j) {
            Some((s, c)) => m.contains_key("scheme"@) && m["scheme"@] == Json::Text(s)
                && m.contains_key("credentials"@) && m["credentials"@] == Json::Text(c),
            None => !(m.contains_key("scheme"@) && m["scheme"@] is Text && m.contains_key(
                "credentials"@,
            ) && m["credentials"@] is Text),
        },
        j matches Json::Array(a) ==> match credentials_read(j) {
            Some((s, c)) => a == seq![Json::Text(s), Json::Text(c)],
            None => !(a.len() == 2 && a[0] is Text && a[1] is Text),
        },
        !(j is Object) && !(j is Array) ==> credentials_read(j) is None,
{
    if let Json::Array(a) = j {
        if let Some((s, c)) = credentials_read(j) {
            assert(a =~= seq![Json::Text(s), Json::Text(c)]);
        }
    }
}

} // verus!
