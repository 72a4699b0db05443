//! The plugin that stands between a command-line client and a remote transport:
//! who may use it, what it passes on, and what it says of itself.
use crate::client::VERSION;
use crate::error_code;
use crate::json_value::{json_written, model, object, set_member, write_json, Json, JsonValue};
use crate::params::{copy_texts, lemma_lists_insert, lists, ServiceParams};
use crate::protocol::{plain_error, A2AError};
use crate::record::{put, put_member};
use crate::text::{
    chars_of, find_char, first_at, joined, lowered, opt_text, same_text, same_text_ignore_case,
    string_of, texts,
};
use crate::text_map::{map_of, TextMap};
use crate::websocket::common::{opt_text_json, opt_text_value};
use vstd::prelude::*;
use vstd::slice::slice_subrange;

verus! {

/// The service parameter that holds the token of this launch.
pub const TOKEN_HEADER: &'static str = "a2a-plugin-token";

/// The binding that the plugin offers.
pub const TRANSPORT_PROTOCOL_GRPC: &'static str = "GRPC";

/// The environment variable that says where the configuration is.
pub const CONFIG_ENV: &'static str = "A2A_SLIMRPC_PLUGIN_CONFIG";

// ---------------------------------------------------------------------------
// Tokens.
// ---------------------------------------------------------------------------

/// Whether a call may be made: it must carry the token, once.
pub open spec fn token_fits(token: Seq<char>, params: Map<Seq<char>, Seq<Seq<char>>>) -> bool {
    params.contains_key(TOKEN_HEADER@) && params[TOKEN_HEADER@] == seq![token]
}

/// Whether a call may be made.
pub fn check_token(token: &str, params: &ServiceParams) -> (r: Result<(), A2AError>)
    ensures
        match r {
            Ok(_) => token_fits(token@, lists(params@)),
            Err(e) => !token_fits(token@, lists(params@)) && e@ == plain_error(
                error_code::INVALID_REQUEST,
                "invalid or missing plugin token"@,
            ),
        },
{
    if let Some(values) = params.get(TOKEN_HEADER) {
        if values.len() == 1 && same_text(values[0].as_str(), token) {
            assert(texts(values@) =~= seq![token@]);
            return Ok(());
        }
        proof {
            let one = seq![token@];
            if texts(values@) == one {
                assert(one.len() == 1 && one[0] == token@);
                assert(values@.len() == 1 && values@[0]@ == texts(values@)[0]);
            }
        }
    }
    Err(A2AError::invalid_request("invalid or missing plugin token"))
}

/// What is passed on of service parameters: all but the token, in whatever case
/// its name is written.
pub open spec fn forwarded(params: Map<Seq<char>, Seq<Seq<char>>>) -> Map<
    Seq<char>,
    Seq<Seq<char>>,
> {
    Map::new(
        |k: Seq<char>| params.contains_key(k) && lowered(k) != lowered(TOKEN_HEADER@),
        |k: Seq<char>| params[k],
    )
}

/// What is passed on of service parameters.
pub fn forward_params(params: &ServiceParams) -> (r: ServiceParams)
    ensures
        lists(r@) == forwarded(lists(params@)),
{
    let n: usize = params.len();
    let ghost es = params.spec_entries();
    let mut out: ServiceParams = TextMap::new();
    let mut i: usize = 0;
    assert(lists(out@) =~= forwarded(lists(map_of(es.take(0)))));
    while i < n
        invariant
            i <= n,
            n == es.len(),
            es == params.spec_entries(),
            lists(out@) == forwarded(lists(map_of(es.take(i as int)))),
        decreases n - i,
    {
        let key = params.key_at(i);
        let values = copy_texts(params.value_at(i));
        proof {
            let t = es.take(i + 1);
            assert(t.drop_last() =~= es.take(i as int));
            let had = lists(map_of(es.take(i as int)));
            lemma_lists_insert(map_of(es.take(i as int)), es[i as int].0, es[i as int].1);
            lemma_lists_insert(out@, key@, values);
            assert(texts(values@) == texts(es[i as int].1@));
            let has = had.insert(key@, texts(values@));
            assert(has == lists(map_of(t)));
            if lowered(key@) == lowered(TOKEN_HEADER@) {
                assert(forwarded(has) =~= forwarded(had));
            } else {
                assert(forwarded(has) =~= forwarded(had).insert(key@, texts(values@)));
            }
        }
        if !same_text_ignore_case(key, TOKEN_HEADER) {
            out.insert(key.to_owned(), values);
        }
        i = i + 1;
    }
    assert(es.take(n as int) =~= es);
    out
}

/// The token of a launch is never passed on, and everything else is.
pub proof fn law_the_token_stays_here(params: Map<Seq<char>, Seq<Seq<char>>>, name: Seq<char>)
    ensures
        lowered(name) == lowered(TOKEN_HEADER@) ==> !forwarded(params).contains_key(name),
        lowered(name) != lowered(TOKEN_HEADER@) && params.contains_key(name) ==> forwarded(
            params,
        ).contains_key(name) && forwarded(params)[name] == params[name],
{
}

/// What is to be done with a call: it is refused, or passed on with these
/// parameters.
pub fn accept_call(token: &str, params: &ServiceParams) -> (r: Result<ServiceParams, A2AError>)
    ensures
        match r {
            Ok(p) => token_fits(token@, lists(params@)) && lists(p@) == forwarded(lists(params@)),
            Err(e) => !token_fits(token@, lists(params@)) && e@ == plain_error(
                error_code::INVALID_REQUEST,
                "invalid or missing plugin token"@,
            ),
        },
{
    match check_token(token, params) {
        Ok(_) => Ok(forward_params(params)),
        Err(e) => Err(e),
    }
}

// ---------------------------------------------------------------------------
// Names.
// ---------------------------------------------------------------------------

/// What can go wrong.
#[derive(Debug)]
pub enum PluginError {
    /// No configuration is named.
    ConfigEnvMissing,
    /// The configuration cannot be read.
    ConfigRead { path: String, reason: String },
    /// The configuration is not one.
    ConfigParse { path: String, reason: String },
    /// An endpoint or a name is not one.
    InvalidEndpoint(String),
    /// Who the plugin is, or how others are told apart, is not usable.
    Identity(String),
    /// The remote transport failed.
    Slim(String),
    /// No certificate could be made.
    Tls(String),
    /// No address could be had.
    Bind(String),
    /// What the plugin says of itself could not be written.
    Handshake(String),
}

/// The name of an application: three parts, of which the last may hold slashes.
#[derive(Debug, PartialEq)]
pub struct ProtoName {
    pub org: String,
    pub namespace: String,
    pub agent: String,
}

/// The parts of a name, if it has three that are not empty.
pub open spec fn name_read(s: Seq<char>) -> Option<(Seq<char>, Seq<char>, Seq<char>)> {
    let a = first_at(s, '/');
    if a >= s.len() {
        None
    } else {
        let rest = s.skip(a + 1);
        let b = first_at(rest, '/');
        if b >= rest.len() {
            None
        } else if a > 0 && b > 0 && rest.skip(b + 1).len() > 0 {
            Some((s.take(a), rest.take(b), rest.skip(b + 1)))
        } else {
            None
        }
    }
}

fn name_parts(cs: &[char]) -> (r: Option<ProtoName>)
    ensures
        match r {
            Some(n) => name_read(cs@) == Some((n.org@, n.namespace@, n.agent@)),
            None => name_read(cs@) is None,
        },
{
    let a: usize = find_char(cs, '/');
    if a >= cs.len() {
        return None;
    }
    let rest = slice_subrange(cs, a + 1, cs.len());
    assert(rest@ =~= cs@.skip(a + 1));
    let b: usize = find_char(rest, '/');
    if b >= rest.len() {
        return None;
    }
    let last = slice_subrange(rest, b + 1, rest.len());
    assert(last@ =~= rest@.skip(b + 1));
    if a == 0 || b == 0 || last.len() == 0 {
        return None;
    }
    let org = string_of(slice_subrange(cs, 0, a));
    let namespace = string_of(slice_subrange(rest, 0, b));
    let agent = string_of(last);
    assert(org@ =~= cs@.take(a as int));
    assert(namespace@ =~= rest@.take(b as int));
    Some(ProtoName { org, namespace, agent })
}

/// The parts of a name.
pub fn parse_proto_name(name: &str) -> (r: Result<ProtoName, PluginError>)
    ensures
        match r {
            Ok(n) => name_read(name@) == Some((n.org@, n.namespace@, n.agent@)),
            Err(e) => name_read(name@) is None && (e matches PluginError::InvalidEndpoint(m) && m@
                == "app.name '"@ + name@ + "' must be 'org/namespace/agent'"@),
        },
{
    let cs = chars_of(name);
    match name_parts(cs.as_slice()) {
        Some(n) => Ok(n),
        None => {
            let a = joined("app.name '", name);
            Err(
                PluginError::InvalidEndpoint(
                    joined(a.as_str(), "' must be 'org/namespace/agent'"),
                ),
            )
        },
    }
}

// ---------------------------------------------------------------------------
// What the plugin says of itself.
// ---------------------------------------------------------------------------

/// Where the plugin listens.
#[derive(Debug)]
pub struct EndpointPayload {
    pub address: String,
    pub binding: String,
    pub protocol: String,
    pub token: String,
    pub cert_pem: String,
}

/// The first line of the plugin: where it listens, or why it does not.
#[derive(Debug)]
pub struct Handshake {
    pub success: bool,
    pub error: Option<String>,
    pub endpoint: Option<EndpointPayload>,
}

/// The JSON form of where the plugin listens.
pub open spec fn payload_json(p: EndpointPayload) -> Json {
    Json::Object(
        Map::<Seq<char>, Json>::empty().insert("address"@, Json::Text(p.address@)).insert(
            "binding"@,
            Json::Text(p.binding@),
        ).insert("protocol"@, Json::Text(p.protocol@)).insert("token"@, Json::Text(p.token@)).insert(
            "certPem"@,
            Json::Text(p.cert_pem@),
        ),
    )
}

/// The JSON form of the first line: what is absent is left out.
pub open spec fn handshake_json(h: Handshake) -> Json {
    let a = Map::<Seq<char>, Json>::empty().insert("success"@, Json::Bool(h.success));
    let b = put(a, "error"@, opt_text_json(opt_text(h.error)));
    Json::Object(
        put(
            b,
            "payload"@,
            match h.endpoint {
                Some(p) => Some(payload_json(p)),
                None => None,
            },
        ),
    )
}

impl EndpointPayload {
    /// The JSON form of where the plugin listens.
    pub fn to_value(&self) -> (r: JsonValue)
        ensures
            model(r) == payload_json(*self),
    {
        let mut out: Vec<(String, JsonValue)> = Vec::new();
        assert(object(out@) =~= Map::<Seq<char>, Json>::empty());
        set_member(&mut out, "address".to_owned(), JsonValue::Text(self.address.clone()));
        set_member(&mut out, "binding".to_owned(), JsonValue::Text(self.binding.clone()));
        set_member(&mut out, "protocol".to_owned(), JsonValue::Text(self.protocol.clone()));
        set_member(&mut out, "token".to_owned(), JsonValue::Text(self.token.clone()));
        set_member(&mut out, "certPem".to_owned(), JsonValue::Text(self.cert_pem.clone()));
        JsonValue::Object(out)
    }
}

impl Handshake {
    /// The plugin listens here.
    pub fn listening(address: String, token: String, cert_pem: String) -> (r: Self)
        ensures
            r.success,
            r.error is None,
            r.endpoint matches Some(p) && p.address@ == address@ && p.binding@
                == TRANSPORT_PROTOCOL_GRPC@ && p.protocol@ == VERSION@ && p.token@ == token@
                && p.cert_pem@ == cert_pem@,
    {
        Handshake {
            success: true,
            error: None,
            endpoint: Some(
                EndpointPayload {
                    address,
                    binding: TRANSPORT_PROTOCOL_GRPC.to_owned(),
                    protocol: VERSION.to_owned(),
                    token,
                    cert_pem,
                },
            ),
        }
    }

    /// The JSON form of the first line.
    pub fn to_value(&self) -> (r: JsonValue)
        ensures
            model(r) == handshake_json(*self),
    {
        let mut out: Vec<(String, JsonValue)> = Vec::new();
        assert(object(out@) =~= Map::<Seq<char>, Json>::empty());
        set_member(&mut out, "success".to_owned(), JsonValue::Bool(self.success));
        put_member(&mut out, "error", opt_text_value(&self.error));
        let payload = match &self.endpoint {
            Some(p) => Some(p.to_value()),
            None => None,
        };
        put_member(&mut out, "payload", payload);
        JsonValue::Object(out)
    }

    /// The first line.
    pub fn to_vec(&self) -> (r: Result<Vec<u8>, PluginError>)
        ensures
            r is Ok,
            match r {
                Ok(b) => json_written(handshake_json(*self)) == Ok::<Seq<u8>, Seq<char>>(b@),
                Err(e) => json_written(handshake_json(*self)) matches Err(m) && (e matches
                    PluginError::Handshake(t) && t@ == m),
            },
    {
        match write_json(&self.to_value()) {
            Ok(b) => Ok(b),
            Err(e) => Err(PluginError::Handshake(e)),
        }
    }
}

/// What the plugin is.
#[derive(Debug)]
pub struct Info {
    pub name: String,
    pub version: String,
    pub description: String,
    pub protocol: String,
    pub binding: String,
}

/// The JSON form of what the plugin is.
pub open spec fn info_json(i: Info) -> Json {
    Json::Object(
        Map::<Seq<char>, Json>::empty().insert("name"@, Json::Text(i.name@)).insert(
            "version"@,
            Json::Text(i.version@),
        ).insert("description"@, Json::Text(i.description@)).insert(
            "protocol"@,
            Json::Text(i.protocol@),
        ).insert("binding"@, Json::Text(i.binding@)),
    )
}

impl Info {
    /// What the plugin of this version is.
    pub fn new(version: &str) -> (r: Self)
        ensures
            r.name@ == "slimrpc"@,
            r.version@ == version@,
            r.description@ == "SLIMRPC transport plugin for a2a-cli"@,
            r.protocol@ == VERSION@,
            r.binding@ == TRANSPORT_PROTOCOL_GRPC@,
    {
        Info {
            name: "slimrpc".to_owned(),
            version: version.to_owned(),
            description: "SLIMRPC transport plugin for a2a-cli".to_owned(),
            protocol: VERSION.to_owned(),
            binding: TRANSPORT_PROTOCOL_GRPC.to_owned(),
        }
    }

    /// The JSON form of what the plugin is.
    pub fn to_value(&self) -> (r: JsonValue)
        ensures
            model(r) == info_json(*self),
    {
        let mut out: Vec<(String, JsonValue)> = Vec::new();
        assert(object(out@) =~= Map::<Seq<char>, Json>::empty());
        set_member(&mut out, "name".to_owned(), JsonValue::Text(self.name.clone()));
        set_member(&mut out, "version".to_owned(), JsonValue::Text(self.version.clone()));
        set_member(&mut out, "description".to_owned(), JsonValue::Text(self.description.clone()));
        set_member(&mut out, "protocol".to_owned(), JsonValue::Text(self.protocol.clone()));
        set_member(&mut out, "binding".to_owned(), JsonValue::Text(self.binding.clone()));
        JsonValue::Object(out)
    }

    /// The JSON form of what the plugin is, as text.
    pub fn to_vec(&self) -> (r: Result<Vec<u8>, PluginError>)
        ensures
            r is Ok,
            match r {
                Ok(b) => json_written(info_json(*self)) == Ok::<Seq<u8>, Seq<char>>(b@),
                Err(e) => json_written(info_json(*self)) matches Err(m) && (e matches
                    PluginError::Handshake(t) && t@ == m),
            },
    {
        match write_json(&self.to_value()) {
            Ok(b) => Ok(b),
            Err(e) => Err(PluginError::Handshake(e)),
        }
    }
}

// ---------------------------------------------------------------------------
// Starting.
// ---------------------------------------------------------------------------

/// A token for one launch.
pub fn launch_token() -> (r: String)
    ensures
        r@.len() == 36,
{
    crate::ids::fresh_token()
}

/// What the plugin is about to do on its way to serving calls.
#[derive(Debug, Clone, Copy, PartialEq, Eq, Structural)]
pub enum Stage {
    /// Find out where the configuration is.
    FindConfig,
    /// Read it.
    ReadConfig,
    /// Make sense of it.
    ParseConfig,
    /// Make sense of the endpoint.
    ParseTarget,
    /// Find out who the plugin is, and how others are told apart.
    BuildIdentity,
    /// Name the service.
    NameService,
    /// Connect to the gateway.
    Connect,
    /// Join as an application.
    CreateApp,
    /// Make a certificate.
    MakeTls,
    /// Take an address on this machine.
    Bind,
    /// Say where it is.
    Announce,
    /// Serve calls until the input ends.
    Serve,
    /// Nothing more.
    Done,
}

/// The stage that follows, if all went well.
pub open spec fn stage_after(s: Stage) -> Stage {
    match s {
        Stage::FindConfig => Stage::ReadConfig,
        Stage::ReadConfig => Stage::ParseConfig,
        Stage::ParseConfig => Stage::ParseTarget,
        Stage::ParseTarget => Stage::BuildIdentity,
        Stage::BuildIdentity => Stage::NameService,
        Stage::NameService => Stage::Connect,
        Stage::Connect => Stage::CreateApp,
        Stage::CreateApp => Stage::MakeTls,
        Stage::MakeTls => Stage::Bind,
        Stage::Bind => Stage::Announce,
        Stage::Announce => Stage::Serve,
        Stage::Serve => Stage::Done,
        Stage::Done => Stage::Done,
    }
}

/// What a launch goes by.
#[derive(Debug)]
pub struct LaunchInput {
    /// Where the configuration is, once that is known.
    pub config_path: String,
    /// Where calls are to go.
    pub endpoint: String,
    /// What the application is called, once the configuration was read.
    pub app_name: String,
}

/// Whether `e` is the error of a stage that failed with `text`.
pub open spec fn stage_error(s: Stage, input: LaunchInput, text: Seq<char>, e: PluginError) -> bool {
    match s {
        Stage::FindConfig => e is ConfigEnvMissing,
        Stage::ReadConfig => e matches PluginError::ConfigRead { path, reason } && path@
            == input.config_path@ && reason@ == text,
        Stage::ParseConfig => e matches PluginError::ConfigParse { path, reason } && path@
            == input.config_path@ && reason@ == text,
        Stage::ParseTarget => e matches PluginError::InvalidEndpoint(m) && m@ == input.endpoint@
            + ": "@ + text,
        Stage::BuildIdentity => e matches PluginError::Identity(m) && m@ == text,
        Stage::NameService => e matches PluginError::Slim(m) && m@ == "invalid service ID: "@
            + text,
        Stage::Connect => e matches PluginError::Slim(m) && m@
            == "SLIM gateway connect failed: "@ + text,
        Stage::CreateApp => e matches PluginError::Slim(m) && m@ == "create_app failed: "@ + text,
        Stage::MakeTls => e matches PluginError::Tls(m) && m@ == text,
        Stage::Bind => e matches PluginError::Bind(m) && m@ == text,
        Stage::Announce => e matches PluginError::Handshake(m) && m@ == text,
        Stage::Serve | Stage::Done => false,
    }
}

fn stage_failed(s: Stage, input: &LaunchInput, text: String) -> (r: PluginError)
    requires
        !(s is Serve),
        !(s is Done),
    ensures
        stage_error(s, *input, text@, r),
{
    match s {
        Stage::FindConfig => PluginError::ConfigEnvMissing,
        Stage::ReadConfig => PluginError::ConfigRead {
            path: input.config_path.clone(),
            reason: text,
        },
        Stage::ParseConfig => PluginError::ConfigParse {
            path: input.config_path.clone(),
            reason: text,
        },
        Stage::ParseTarget => {
            let a = joined(input.endpoint.as_str(), ": ");
            PluginError::InvalidEndpoint(joined(a.as_str(), text.as_str()))
        },
        Stage::BuildIdentity => PluginError::Identity(text),
        Stage::NameService => PluginError::Slim(joined("invalid service ID: ", text.as_str())),
        Stage::Connect => PluginError::Slim(
            joined("SLIM gateway connect failed: ", text.as_str()),
        ),
        Stage::CreateApp => PluginError::Slim(joined("create_app failed: ", text.as_str())),
        Stage::MakeTls => PluginError::Tls(text),
        Stage::Bind => PluginError::Bind(text),
        Stage::Announce | Stage::Serve | Stage::Done => PluginError::Handshake(text),
    }
}

/// What comes after a stage that went well or failed with a text. A server that
/// stops is the end of the plugin, whether it failed or not. A name that is not
/// one is found out once the gateway is there.
pub fn launch_step(stage: Stage, input: &LaunchInput, outcome: Result<(), String>) -> (r: Result<
    Stage,
    PluginError,
>)
    ensures
        match r {
            Ok(next) => next == stage_after(stage) && (outcome is Ok || stage is Serve || stage
                is Done) && (stage is Connect ==> name_read(input.app_name@) is Some),
            Err(e) => !(stage is Serve) && !(stage is Done) && (match outcome {
                Err(text) => stage_error(stage, *input, text@, e),
                Ok(_) => stage is Connect && name_read(input.app_name@) is None && (e matches
                    PluginError::InvalidEndpoint(m) && m@ == "app.name '"@ + input.app_name@
                    + "' must be 'org/namespace/agent'"@),
            }),
        },
{
    if let Err(text) = outcome {
        return match stage {
            Stage::Serve | Stage::Done => Ok(Stage::Done),
            _ => Err(stage_failed(stage, input, text)),
        };
    }
    match stage {
        Stage::FindConfig => Ok(Stage::ReadConfig),
        Stage::ReadConfig => Ok(Stage::ParseConfig),
        Stage::ParseConfig => Ok(Stage::ParseTarget),
        Stage::ParseTarget => Ok(Stage::BuildIdentity),
        Stage::BuildIdentity => Ok(Stage::NameService),
        Stage::NameService => Ok(Stage::Connect),
        Stage::Connect => match parse_proto_name(input.app_name.as_str()) {
            Ok(_) => Ok(Stage::CreateApp),
            Err(e) => Err(e),
        },
        Stage::CreateApp => Ok(Stage::MakeTls),
        Stage::MakeTls => Ok(Stage::Bind),
        Stage::Bind => Ok(Stage::Announce),
        Stage::Announce => Ok(Stage::Serve),
        Stage::Serve | Stage::Done => Ok(Stage::Done),
    }
}

/// A call may be made just where it carries one token, and that is the token of this
/// launch.
pub proof fn law_calls_carry_the_token(token: Seq<char>, params: Map<Seq<char>, Seq<Seq<char>>>)
    ensures
        token_fits(token, params) <==> params.contains_key("a2a-plugin-token"@)
            && params["a2a-plugin-token"@].len() == 1 && params["a2a-plugin-token"@][0] == token,
{
    if params["a2a-plugin-token"@].len() == 1 && params["a2a-plugin-token"@][0] == token {
        assert(params["a2a-plugin-token"@] =~= seq![token]);
    }
}

/// Nothing is passed on that the call did not carry, and the token is not, in whatever
/// case.
pub proof fn law_nothing_is_passed_on_but_what_came(
    params: Map<Seq<char>, Seq<Seq<char>>>,
    name: Seq<char>,
)
    ensures
        forwarded(params).contains_key(name) <==> params.contains_key(name) && lowered(name)
            != lowered("a2a-plugin-token"@),
        forwarded(params).contains_key(name) ==> forwarded(params)[name] == params[name],
{
}

/// A name is split at its first two slashes. Each of its three parts must hold something,
/// and only the last may hold slashes.
pub proof fn law_names_have_three_parts(a: Seq<char>, b: Seq<char>, c: Seq<char>)
    requires
        !a.contains('/'),
        !b.contains('/'),
    ensures
        name_read(a) is None,
        name_read(a + seq!['/'] + b) is None,
        a.len() > 0 && b.len() > 0 && c.len() > 0 ==> name_read(
            a + seq!['/'] + b + seq!['/'] + c,
        ) == Some((a, b, c)),
        a.len() == 0 || b.len() == 0 || c.len() == 0 ==> name_read(
            a + seq!['/'] + b + seq!['/'] + c,
        ) is None,
{
    assert forall|j: int| 0 <= j < a.len() implies a[j] != '/' by {
        assert(a.contains(a[j]));
    }
    assert forall|j: int| 0 <= j < b.len() implies b[j] != '/' by {
        assert(b.contains(b[j]));
    }
    let k = a.len() as int;
    let n = b.len() as int;
    crate::text::lemma_first_at_is(a, '/', k);
    let two = a + seq!['/'] + b;
    assert(two[k] == '/');
    crate::text::lemma_first_at_is(two, '/', k);
    assert(two.skip(k + 1) =~= b);
    crate::text::lemma_first_at_is(b, '/', n);
    let s = two + seq!['/'] + c;
    assert(s[k] == '/');
    crate::text::lemma_first_at_is(s, '/', k);
    let rest = b + seq!['/'] + c;
    assert(s.skip(k + 1) =~= rest);
    assert(rest[n] == '/');
    crate::text::lemma_first_at_is(rest, '/', n);
    assert(s.take(k) =~= a);
    assert(rest.take(n) =~= b);
    assert(rest.skip(n + 1) =~= c);
}

/// The first line says whether the plugin listens, why it does not, and where it does,
/// each just where there is something to say.
pub proof fn law_the_first_line_says_where(h: Handshake)
    ensures
        handshake_json(h) matches Json::Object(m) && {
            &&& forall|k: Seq<char>| #[trigger]
                m.contains_key(k) <==> k == "success"@ || (k == "error"@ && h.error is Some) || (k
                    == "payload"@ && h.endpoint is Some)
            &&& m["success"@] == Json::Bool(h.success)
            &&& h.error matches Some(e) ==> m["error"@] == Json::Text(e@)
            &&& h.endpoint matches Some(p) ==> m["payload"@] == Json::Object(
                map![
                    "address"@ => Json::Text(p.address@),
                    "binding"@ => Json::Text(p.binding@),
                    "protocol"@ => Json::Text(p.protocol@),
                    "token"@ => Json::Text(p.token@),
                    "certPem"@ => Json::Text(p.cert_pem@),
                ],
            )
        },
{
    reveal_strlit("success");
    reveal_strlit("error");
    reveal_strlit("payload");
    assert("success"@.len() == 7 && "error"@.len() == 5 && "payload"@.len() == 7);
    assert("success"@[0] == 's' && "payload"@[0] == 'p');
    let m = handshake_json(h)->Object_0;
    if let Some(p) = h.endpoint {
        assert(m["payload"@]->Object_0 =~= map![
            "address"@ => Json::Text(p.address@),
            "binding"@ => Json::Text(p.binding@),
            "protocol"@ => Json::Text(p.protocol@),
            "token"@ => Json::Text(p.token@),
            "certPem"@ => Json::Text(p.cert_pem@),
        ]);
    }
}

/// The plugin says of itself what it is called, its version, what it does, and what it
/// speaks.
pub proof fn law_the_plugin_says_what_it_is(i: Info)
    ensures
        info_json(i) == Json::Object(
            map![
                "name"@ => Json::Text(i.name@),
                "version"@ => Json::Text(i.version@),
                "description"@ => Json::Text(i.description@),
                "protocol"@ => Json::Text(i.protocol@),
                "binding"@ => Json::Text(i.binding@),
            ],
        ),
{
}

/// A launch goes through its stages in order: the configuration, where to go and who one
/// is, the gateway, what is offered here, and then serving.
pub proof fn law_a_launch_goes_through_its_stages(s: Stage)
    ensures
        stage_after(Stage::FindConfig) == Stage::ReadConfig,
        stage_after(Stage::ReadConfig) == Stage::ParseConfig,
        stage_after(Stage::ParseConfig) == Stage::ParseTarget,
        stage_after(Stage::ParseTarget) == Stage::BuildIdentity,
        stage_after(Stage::BuildIdentity) == Stage::NameService,
        stage_after(Stage::NameService) == Stage::Connect,
        stage_after(Stage::Connect) == Stage::CreateApp,
        stage_after(Stage::CreateApp) == Stage::MakeTls,
        stage_after(Stage::MakeTls) == Stage::Bind,
        stage_after(Stage::Bind) == Stage::Announce,
        stage_after(Stage::Announce) == Stage::Serve,
        stage_after(s) == Stage::Done <==> s == Stage::Serve || s == Stage::Done,
{
}

/// A stage that fails tells what it was about and why it failed.
pub proof fn law_failed_stages_tell_why(
    s: Stage,
    input: LaunchInput,
    text: Seq<char>,
    e: PluginError,
)
    requires
        stage_error(s, input, text, e),
    ensures
        s is FindConfig <==> e is ConfigEnvMissing,
        s is ReadConfig <==> e is ConfigRead,
        e matches PluginError::ConfigRead { path, reason } ==> path@ == input.config_path@
            && reason@
            == text,
        s is ParseConfig <==> e is ConfigParse,
        e matches PluginError::ConfigParse { path, reason } ==> path@ == input.config_path@
            && reason@
            == text,
        s is ParseTarget <==> e is InvalidEndpoint,
        e matches PluginError::InvalidEndpoint(m) ==> m@ == input.endpoint@ + ": "@ + text,
        s is BuildIdentity <==> e is Identity,
        e matches PluginError::Identity(m) ==> m@ == text,
        s is NameService || s is Connect || s is CreateApp <==> e is Slim,
        e matches PluginError::Slim(m) ==> m@ == (if s is NameService {
            "invalid service ID: "@
        } else if s is Connect {
            "SLIM gateway connect failed: "@
        } else {
            "create_app failed: "@
        }) + text,
        s is MakeTls <==> e is Tls,
        e matches PluginError::Tls(m) ==> m@ == text,
        s is Bind <==> e is Bind,
        e matches PluginError::Bind(m) ==> m@ == text,
        s is Announce <==> e is Handshake,
        e matches PluginError::Handshake(m) ==> m@ == text,
{
}

} // verus!
