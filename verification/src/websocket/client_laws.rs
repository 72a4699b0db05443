//! What the client half of the WebSocket binding promises: where it connects to, what it
//! asks for, and who gets each frame that comes back.
use crate::json_value::{json_written, Json};
use crate::protocol::{key_text, ErrorView, IdView};
use crate::socket_laws::error_of;
use crate::text::{decimal, join, lemma_first_at_is, lowered, parsed_number};
use crate::websocket::client::{
    call_view, client_step, closing_code, closing_error, end_error, routed, started,
    streaming_after, unary_after, upgrade_headers, ClientEventView, ClientStepView, RoutedView,
    StartedCall,
};
use crate::websocket::common::{
    bare_request, bare_response, envelope_of, envelope_params, opt_envelope_of, ws_error,
    ws_reauth, ws_request_json, ws_request_whole, ws_response_in, ws_response_whole, ws_result,
    ws_stream_end, WsRequestView, WsResponseView,
};
use crate::websocket::endpoint::{
    endpoint_read, host_line, host_read, last_at, port_error, scheme_end, scheme_read, usual_port,
    EndpointView,
};
use vstd::prelude::*;

verus! {

// ---------------------------------------------------------------------------
// Where a client connects to.
// ---------------------------------------------------------------------------

/// A scheme ends at the first `://`: one stands there, and none before it. Where there is
/// none at all, there is no scheme.
pub proof fn law_a_scheme_ends_at_the_first_mark(s: Seq<char>, i: int)
    ensures
        scheme_end(s) matches Some(n) ==> 0 <= n && n + 3 <= s.len() && s[n] == ':' && s[n + 1]
            == '/' && s[n + 2] == '/',
        (scheme_end(s) matches Some(n) ==> i < n) && 0 <= i && i + 3 <= s.len() ==> !(s[i] == ':'
            && s[i + 1] == '/' && s[i + 2] == '/'),
    decreases s.len(),
{
    if s.len() >= 3 && !(s[0] == ':' && s[1] == '/' && s[2] == '/') {
        let d = s.drop_first();
        law_a_scheme_ends_at_the_first_mark(d, i - 1);
        if i > 0 && i + 3 <= s.len() {
            assert(d[i - 1] == s[i] && d[i] == s[i + 1] && d[i + 1] == s[i + 2]);
        }
    }
}

/// A character stands last where it stands and does not stand after. Where it stands
/// nowhere, there is no such place.
pub proof fn law_the_last_place_is_last(s: Seq<char>, c: char, i: int)
    ensures
        last_at(s, c) matches Some(n) ==> 0 <= n < s.len() && s[n] == c,
        (last_at(s, c) matches Some(n) ==> n < i) && 0 <= i < s.len() ==> s[i] != c,
    decreases s.len(),
{
    if s.len() > 0 && s.last() != c {
        law_the_last_place_is_last(s.drop_last(), c, i);
    }
}

/// An encrypted connection has another port than a plain one.
pub proof fn law_ports_go_with_schemes(scheme: Seq<char>)
    ensures
        scheme == "wss"@ ==> usual_port(scheme) == 443,
        scheme != "wss"@ ==> usual_port(scheme) == 80,
{
}

/// The text in front of the first `://` is the scheme, and what follows it is the rest.
/// Only `ws` and `wss` can be spoken; a text without a scheme is a plain address.
pub proof fn law_schemes_are_split_off(s: Seq<char>, scheme: Seq<char>, rest: Seq<char>)
    ensures
        scheme_end(s) is None ==> scheme_read(s) == Ok::<(Seq<char>, Seq<char>), ErrorView>(
            ("ws"@, s),
        ),
        scheme_end(s) == Some(scheme.len() as int) && s == scheme + "://"@ + rest ==> scheme_read(s)
            == (if scheme == "ws"@ || scheme == "wss"@ {
            Ok::<(Seq<char>, Seq<char>), ErrorView>((scheme, rest))
        } else {
            Err::<(Seq<char>, Seq<char>), ErrorView>(
                error_of(
                    -32603,
                    "unsupported scheme '"@ + scheme + "'; expected ws:// or wss://"@,
                ),
            )
        }),
{
    reveal_strlit("://");
    if s == scheme + "://"@ + rest {
        assert(s.take(scheme.len() as int) =~= scheme);
        assert(s.skip(scheme.len() as int + 3) =~= rest);
    }
}

/// A host without a colon has the usual port of its scheme. What stands before the last
/// colon is the host, and what stands behind it is the port, which must be a number that
/// fits.
pub proof fn law_hosts_and_ports_are_told_apart(
    scheme: Seq<char>,
    host: Seq<char>,
    port: Seq<char>,
)
    requires
        !port.contains(':'),
    ensures
        host_read(scheme, Seq::empty()) == Err::<(Seq<char>, u16), ErrorView>(
            error_of(-32603, "endpoint is missing a host"@),
        ),
        port.len() > 0 ==> host_read(scheme, port) == Ok::<(Seq<char>, u16), ErrorView>(
            (port, usual_port(scheme)),
        ),
        parsed_number(port) is Some && parsed_number(port)->0 <= 65535 ==> host_read(
            scheme,
            host + seq![':'] + port,
        ) == Ok::<(Seq<char>, u16), ErrorView>((host, parsed_number(port)->0 as u16)),
        parsed_number(port) is None || parsed_number(port)->0 > 65535 ==> host_read(
            scheme,
            host + seq![':'] + port,
        ) == Err::<(Seq<char>, u16), ErrorView>(
            error_of(-32603, "invalid port '"@ + port + "': "@ + port_error(port)),
        ),
{
    law_the_last_place_is_last(port, ':', 0);
    if let Some(n) = last_at(port, ':') {
        assert(port[n] == ':');
    }
    let s = host + seq![':'] + port;
    let k = host.len() as int;
    assert(s[k] == ':');
    law_the_last_place_is_last(s, ':', k);
    if let Some(n) = last_at(s, ':') {
        if n > k {
            assert(s[n] == port[n - k - 1]);
            assert(port.contains(port[n - k - 1]));
        }
        assert(n == k);
    }
    assert(s.take(k) =~= host);
    assert(s.skip(k + 1) =~= port);
}

/// An endpoint leads to its host, its port and its path. What stands behind the scheme,
/// up to the first slash, is the host and its port; the slash and what follows it is the
/// path, which is a slash alone where there is none.
pub proof fn law_endpoints_are_split_at_the_first_slash(
    s: Seq<char>,
    scheme: Seq<char>,
    place: Seq<char>,
    tail: Seq<char>,
)
    requires
        !place.contains('/'),
    ensures
        scheme_read(s)
            == Ok::<(Seq<char>, Seq<char>), ErrorView>((scheme, place + seq!['/'] + tail))
            ==> match host_read(scheme, place) {
            Ok((host, port)) => endpoint_read(s) == Ok::<EndpointView, ErrorView>(
                EndpointView { scheme, host, port, path: seq!['/'] + tail },
            ),
            Err(e) => endpoint_read(s) == Err::<EndpointView, ErrorView>(e),
        },
        scheme_read(s) == Ok::<(Seq<char>, Seq<char>), ErrorView>((scheme, place))
            ==> match host_read(
            scheme,
            place,
        ) {
            Ok((host, port)) => endpoint_read(s) == Ok::<EndpointView, ErrorView>(
                EndpointView { scheme, host, port, path: "/"@ },
            ),
            Err(e) => endpoint_read(s) == Err::<EndpointView, ErrorView>(e),
        },
        scheme_read(s) matches Err(e) ==> endpoint_read(s) == Err::<EndpointView, ErrorView>(e),
{
    let rest = place + seq!['/'] + tail;
    let k = place.len() as int;
    assert forall|j: int| 0 <= j < k implies place[j] != '/' by {
        assert(place.contains(place[j]));
    }
    assert(rest[k] == '/');
    lemma_first_at_is(rest, '/', k);
    assert(rest.take(k) =~= place);
    assert(rest.skip(k) =~= seq!['/'] + tail);
    lemma_first_at_is(place, '/', k);
    assert(place.take(k) =~= place);
}

/// The host of a request is named with its port, unless the scheme goes with that port
/// anyway.
pub proof fn law_usual_ports_are_left_out(e: EndpointView)
    ensures
        e.port == usual_port(e.scheme) ==> host_line(e) == e.host,
        e.port != usual_port(e.scheme) ==> host_line(e) == e.host + seq![':'] + decimal(
            e.port as nat,
        ),
{
    reveal_strlit(":");
    assert(":"@ =~= seq![':']);
}

/// Every connection is asked for with the same headers, in the same order: where it goes
/// to, that it is to be upgraded, a key of its own, the version, and our sub-protocol.
pub proof fn law_connections_are_asked_for(e: EndpointView, key: Seq<char>)
    ensures
        upgrade_headers(e, key).len() == 6,
        upgrade_headers(e, key)[0] == ("host"@, host_line(e)),
        upgrade_headers(e, key)[1] == ("upgrade"@, "websocket"@),
        upgrade_headers(e, key)[2] == ("connection"@, "upgrade"@),
        upgrade_headers(e, key)[3] == ("Sec-WebSocket-Key"@, key),
        upgrade_headers(e, key)[4] == ("Sec-WebSocket-Version"@, "13"@),
        upgrade_headers(e, key)[5] == ("Sec-WebSocket-Protocol"@, "a2a.v1"@),
{
}

// ---------------------------------------------------------------------------
// Envelopes.
// ---------------------------------------------------------------------------

/// What an envelope holds that nothing was put into: the version, and nothing else.
pub proof fn law_bare_envelopes_hold_nothing()
    ensures
        bare_request() == (WsRequestView {
            jsonrpc: "2.0"@,
            id: None,
            method: None,
            params: None,
            service_params: None,
            cancel_stream: None,
        }),
        bare_response() == (WsResponseView {
            jsonrpc: "2.0"@,
            id: None,
            result: None,
            error: None,
            stream_end: None,
            control: None,
            reason: None,
            retry_after_ms: None,
        }),
{
}

/// Each kind of response holds what it tells, and nothing else.
pub proof fn law_responses_hold_what_they_tell(
    id: IdView,
    to: Option<IdView>,
    j: Json,
    e: ErrorView,
    why: Seq<char>,
    after: u64,
)
    ensures
        ({
            let bare = bare_response();
            &&& ws_result(id, j) == WsResponseView { id: Some(id), result: Some(j), ..bare }
            &&& ws_stream_end(id) == WsResponseView { id: Some(id), stream_end: Some(true), ..bare }
            &&& ws_error(to, e) == WsResponseView { id: to, error: Some(e), ..bare }
            &&& ws_reauth(why, after) == WsResponseView {
                control: Some("ReauthenticationRequired"@),
                reason: Some(why),
                retry_after_ms: Some(after),
                ..bare
            }
        }),
{
}

/// A call asks for its method by its identifier, with its payload and its parameters, and
/// cancels nothing.
pub proof fn law_calls_ask_for_what_is_called(
    id: Seq<char>,
    method: Seq<char>,
    payload: Json,
    params: Map<Seq<char>, Seq<Seq<char>>>,
)
    ensures
        call_view(id, method, payload, params) == (WsRequestView {
            jsonrpc: "2.0"@,
            id: Some(IdView::Text(id)),
            method: Some(method),
            params: Some(payload),
            service_params: opt_envelope_of(params),
            cancel_stream: None,
        }),
{
}

/// Service parameters are carried under their own names, each with all of its values,
/// with a comma and a space between them. Where there are none, nothing is carried.
pub proof fn law_params_are_carried_whole(m: Map<Seq<char>, Seq<Seq<char>>>, name: Seq<char>)
    ensures
        opt_envelope_of(Map::<Seq<char>, Seq<Seq<char>>>::empty()) is None,
        m.contains_key(name) ==> (opt_envelope_of(m) matches Some(e) && e.dom() == m.dom()
            && e[name]
            == join(m[name], ", "@)),
        opt_envelope_of(m) is None ==> m == Map::<Seq<char>, Seq<Seq<char>>>::empty(),
{
    if m.contains_key(name) {
        assert(envelope_of(m).dom() =~= m.dom());
    }
}

/// What an envelope carries under a name stands for that name in small letters, with one
/// value, the whole text. Of two names that agree but for case, the later counts; every
/// other name stays as it was.
pub proof fn law_carried_params_have_one_value(
    e: Seq<(Seq<char>, String)>,
    last: (Seq<char>, String),
    name: Seq<char>,
)
    ensures
        envelope_params(Seq::empty()) == Map::<Seq<char>, Seq<Seq<char>>>::empty(),
        envelope_params(e.push(last)).contains_key(lowered(last.0)),
        envelope_params(e.push(last))[lowered(last.0)] == seq![last.1@],
        name != lowered(last.0) ==> (envelope_params(e.push(last)).contains_key(name)
            <==> envelope_params(e).contains_key(name)) && (envelope_params(e).contains_key(name)
            ==> envelope_params(e.push(last))[name] == envelope_params(e)[name]),
{
    assert(e.push(last).drop_last() =~= e);
}

// ---------------------------------------------------------------------------
// Who gets what.
// ---------------------------------------------------------------------------

/// A control frame reaches no caller: one that asks for new credentials is told with its
/// reason and its delay, and any other is passed over. So is a frame for nobody.
pub proof fn law_control_frames_reach_no_caller(
    unary: Set<Seq<char>>,
    streaming: Set<Seq<char>>,
    v: WsResponseView,
)
    ensures
        v.control == Some("ReauthenticationRequired"@) ==> routed(unary, streaming, v) == (
        RoutedView::Reauth { reason: v.reason, retry_after_ms: v.retry_after_ms }),
        v.control is Some && v.control != Some("ReauthenticationRequired"@) ==> routed(
            unary,
            streaming,
            v,
        ) == RoutedView::Ignore,
        v.control is None && v.id is None ==> routed(unary, streaming, v) == RoutedView::Ignore,
{
}

/// An error goes to the caller of its request, or else to the consumer of its stream,
/// with its code and its message. Where neither waits, it is passed over.
pub proof fn law_errors_reach_who_asked(
    unary: Set<Seq<char>>,
    streaming: Set<Seq<char>>,
    v: WsResponseView,
    id: IdView,
    e: ErrorView,
)
    requires
        v.control is None,
        v.id == Some(id),
        v.error == Some(e),
    ensures
        ({
            let error = ErrorView { code: e.code, message: e.message, data: None };
            let key = key_text(id);
            routed(unary, streaming, v) == (if unary.contains(key) {
                RoutedView::Unary { key, result: Err(error) }
            } else if streaming.contains(key) {
                RoutedView::StreamError { key, error }
            } else {
                RoutedView::Ignore
            })
        }),
{
}

/// A result goes to the caller of its request as its answer, or else to the consumer of
/// its stream as an item. The mark of the end goes to the consumer alone. What nobody
/// waits for, and what holds nothing, is passed over.
pub proof fn law_results_reach_who_asked(
    unary: Set<Seq<char>>,
    streaming: Set<Seq<char>>,
    v: WsResponseView,
    id: IdView,
)
    requires
        v.control is None,
        v.id == Some(id),
        v.error is None,
    ensures
        ({
            let key = key_text(id);
            &&& v.stream_end == Some(true) ==> routed(unary, streaming, v) == (
            if streaming.contains(key) {
                RoutedView::End { key }
            } else {
                RoutedView::Ignore
            })
            &&& v.stream_end != Some(true) && v.result is Some ==> routed(unary, streaming, v) == (
            if unary.contains(key) {
                RoutedView::Unary { key, result: Ok(v.result->0) }
            } else if streaming.contains(key) {
                RoutedView::Chunk { key, value: v.result->0 }
            } else {
                RoutedView::Ignore
            })
            &&& v.stream_end != Some(true) && v.result is None ==> routed(unary, streaming, v)
                == RoutedView::Ignore
        }),
{
}

/// A caller waits until its own answer comes, and a consumer until its own stream has
/// ended or failed. Nobody begins to wait.
pub proof fn law_those_who_wait_go_on_waiting(
    unary: Set<Seq<char>>,
    streaming: Set<Seq<char>>,
    a: RoutedView,
    key: Seq<char>,
)
    ensures
        unary_after(unary, a).contains(key) <==> unary.contains(key) && !(a is Unary && a->Unary_key
            == key),
        streaming_after(streaming, a).contains(key) <==> streaming.contains(key) && !(a
            is StreamError && a->StreamError_key == key) && !(a is End && a->End_key == key),
{
}

// ---------------------------------------------------------------------------
// The connection.
// ---------------------------------------------------------------------------

/// What waits is written as it is, and a text is handed to who asked, or dropped where it
/// cannot be read. Other frames are passed over.
pub proof fn law_clients_write_and_route(
    unary: Set<Seq<char>>,
    streaming: Set<Seq<char>>,
    bytes: Seq<u8>,
)
    ensures
        client_step(unary, streaming, ClientEventView::Queued(bytes)) == ClientStepView::Write(
            bytes,
        ),
        ws_response_in(bytes) matches Ok(v) ==> client_step(
            unary,
            streaming,
            ClientEventView::Text(bytes),
        ) == ClientStepView::Route(routed(unary, streaming, v)),
        ws_response_in(bytes) is Err ==> client_step(
            unary,
            streaming,
            ClientEventView::Text(bytes),
        ) == ClientStepView::Route(RoutedView::Ignore),
        client_step(unary, streaming, ClientEventView::Other) == ClientStepView::Ignore,
{
}

/// All else ends the connection. The server is told only where this side ends it: that it
/// is done, or that it takes no binary frames.
pub proof fn law_clients_stop(unary: Set<Seq<char>>, streaming: Set<Seq<char>>, bytes: Seq<u8>)
    ensures
        client_step(unary, streaming, ClientEventView::Closing) == ClientStepView::Stop(
            Some((1000u16, "client closing"@)),
        ),
        client_step(unary, streaming, ClientEventView::Binary) == ClientStepView::Stop(
            Some((1003u16, "binary frames are reserved for future use"@)),
        ),
        client_step(unary, streaming, ClientEventView::Abandoned) == ClientStepView::Stop(None),
        client_step(unary, streaming, ClientEventView::Close(bytes)) == ClientStepView::Stop(None),
        client_step(unary, streaming, ClientEventView::ReadFailed) == ClientStepView::Stop(None),
        end_error(ClientEventView::Close(bytes)) == closing_error(bytes),
        end_error(ClientEventView::Closing) == error_of(-32603, "websocket connection closed"@),
        end_error(ClientEventView::Binary) == error_of(-32603, "websocket connection closed"@),
        end_error(ClientEventView::Abandoned) == error_of(-32603, "websocket connection closed"@),
        end_error(ClientEventView::ReadFailed) == error_of(-32603, "websocket connection closed"@),
{
}

/// A closing frame gives its code in its first two bytes, the greater first. One that is
/// too short gives none.
pub proof fn law_closing_codes_are_two_bytes(code: int, reason: Seq<u8>, short: Seq<u8>)
    requires
        0 <= code < 65536,
        short.len() < 2,
    ensures
        closing_code(seq![(code / 256) as u8, (code % 256) as u8] + reason) == Some(code),
        closing_code(short) is None,
{
    let p = seq![(code / 256) as u8, (code % 256) as u8] + reason;
    assert(p[0] == (code / 256) as u8 && p[1] == (code % 256) as u8);
}

/// Why a server closed a connection is told by its code. The codes that say what to do
/// about it have words of their own, and every other code is named, unless it says that
/// all is well.
pub proof fn law_closings_are_told_by_their_code(payload: Seq<u8>)
    ensures
        closing_code(payload) is None ==> closing_error(payload) == error_of(
            -32603,
            "websocket connection closed"@,
        ),
        closing_code(payload) matches Some(code) ==> closing_error(payload) == (if code == 4001 {
            error_of(
                -32000,
                "connection closed with 4001: reauthentication required, reconnect with fresh credentials"@,
            )
        } else if code == 1008 {
            error_of(
                -32000,
                "connection closed with 1008: policy violation (for example a rate limit)"@,
            )
        } else if code == 1009 {
            error_of(
                -32000,
                "connection closed with 1009: message exceeded the server's maximum size"@,
            )
        } else if code == 4002 {
            error_of(
                -32000,
                "connection closed with 4002: the requested A2A protocol version is not supported"@,
            )
        } else if code == 1000 {
            error_of(-32603, "websocket connection closed"@)
        } else {
            error_of(-32603, "websocket connection closed with code "@ + decimal(code as nat))
        }),
{
}

// ---------------------------------------------------------------------------
// Calls that were started.
// ---------------------------------------------------------------------------

/// A call that was started waits under the key of its own identifier, and its frame is
/// the written form of what it asks for: that identifier, its method, its payload and its
/// parameters.
pub proof fn law_started_calls_ask_for_what_was_called(
    c: StartedCall,
    method: Seq<char>,
    payload: Json,
    params: Map<Seq<char>, Seq<Seq<char>>>,
)
    requires
        started(c, method, payload, params),
    ensures
        c.id@.len() == 36,
        c.key@ == key_text(IdView::Text(c.id@)),
        json_written(
            ws_request_json(
                WsRequestView {
                    jsonrpc: "2.0"@,
                    id: Some(IdView::Text(c.id@)),
                    method: Some(method),
                    params: Some(payload),
                    service_params: opt_envelope_of(params),
                    cancel_stream: None,
                },
            ),
        ) == Ok::<Seq<u8>, Seq<char>>(c.frame@),
{
}

/// An envelope can be told from its JSON form just where nothing in it is null that may
/// be left out.
pub proof fn law_only_nulls_are_lost(q: WsRequestView, r: WsResponseView)
    ensures
        ws_request_whole(q) <==> q.id != Some(IdView::Null) && q.params != Some(Json::Null),
        ws_response_whole(r) <==> r.id != Some(IdView::Null) && r.result != Some(Json::Null) && !(
        r.error is Some && r.error->0.data == Some(Json::Null)),
{
}

} // verus!
