//! What the messages of a session promise: which members they are written with, and what
//! is read from which.
use crate::envelope_laws::left_out;
use crate::json_value::{json_read, Json, NumberModel};
use crate::protocol::{error_json, error_read, flat_json, flat_read, id_json, id_read, IdView};
use crate::record::{texts_json, texts_read};
use crate::stdio::json::{
    ack_read, client_json, control_json, control_read, from_client, from_server, handshake_read,
    params_from, params_of, peeked_id, read_from_client, read_from_server, request_read,
    server_json, variant_read, variants_json, variants_read, wire_of, ClientInboundView, ClientView,
    RequestView, ServerInboundView, ServerView,
};
use crate::stdio::json_laws::{lemma_control_names_differ, lemma_member_names_differ};
use crate::stdio::wire::{AckView, ControlView, HandshakeView, Variant, WireFault};
use crate::text::{join, listed, lowered, texts};
use vstd::prelude::*;

verus! {

// ---------------------------------------------------------------------------
// What is written.
// ---------------------------------------------------------------------------

/// A request is written with its version, its identifier and its method, and with its
/// parameters and its service parameters just where it has them. Nothing else is written.
pub proof fn law_requests_are_written_whole(r: RequestView)
    ensures
        client_json(ClientView::Request(r)) matches Json::Object(m) && {
            &&& forall|k: Seq<char>| #[trigger]
                m.contains_key(k) <==> k == "jsonrpc"@ || k == "id"@ || k == "method"@ || (k
                    == "params"@ && r.params is Some) || (k == "serviceParams"@
                    && r.service_params is Some)
            &&& m["jsonrpc"@] == Json::Text(r.jsonrpc)
            &&& m["id"@] == id_json(r.id)
            &&& m["method"@] == Json::Text(r.method)
            &&& r.params matches Some(p) ==> m["params"@] == p
            &&& r.service_params matches Some(p) ==> m["serviceParams"@] == flat_json(p)
        },
{
    lemma_member_names_differ();
}

/// A cancel is written with its version, its identifier and its mark, and nothing else.
pub proof fn law_cancels_are_written_whole(id: IdView)
    ensures
        client_json(ClientView::CancelStream { id }) == Json::Object(
            map![
                "jsonrpc"@ => Json::Text("2.0"@),
                "id"@ => id_json(id),
                "cancelStream"@ => Json::Bool(true),
            ],
        ),
{
}

/// What a server sends is written with its version, its identifier, and the result, the
/// error or the mark of the end, and nothing else.
pub proof fn law_server_messages_are_written_whole(m: ServerView)
    ensures
        server_json(m) == Json::Object(
            match m {
                ServerView::Result { id, result } => map![
                    "jsonrpc"@ => Json::Text("2.0"@),
                    "id"@ => id_json(id),
                    "result"@ => result,
                ],
                ServerView::Error { id, error } => map![
                    "jsonrpc"@ => Json::Text("2.0"@),
                    "id"@ => id_json(id),
                    "error"@ => error_json(error),
                ],
                ServerView::StreamEnd { id } => map![
                    "jsonrpc"@ => Json::Text("2.0"@),
                    "id"@ => id_json(id),
                    "streamEnd"@ => Json::Bool(true),
                ],
            },
        ),
{
}

/// Variants are written by their tokens, each in its place.
pub proof fn law_variants_are_written_in_order(s: Seq<Variant>)
    ensures
        variants_json(s) matches Json::Array(a) && a.len() == s.len() && (forall|i: int|
            0 <= i < s.len() ==> #[trigger] a[i] == Json::Text(
                match s[i] {
                    Variant::Json => "stdio-json"@,
                    Variant::Proto => "stdio-proto"@,
                },
            )),
{
}

/// A handshake is written with all that it says, and with its process just where it names
/// one.
pub proof fn law_handshakes_are_written_whole(h: HandshakeView)
    ensures
        control_json(ControlView::Handshake(h)) matches Json::Object(m) && {
            &&& forall|k: Seq<char>| #[trigger]
                m.contains_key(k) <==> k == "type"@ || k == "protocol"@ || k == "protocolVersion"@
                    || k == "sessionId"@ || k == "supportedVariants"@ || k == "features"@ || (k
                    == "pid"@ && h.pid is Some)
            &&& m["type"@] == Json::Text("handshake"@)
            &&& m["protocol"@] == Json::Text(h.protocol)
            &&& m["protocolVersion"@] == Json::Text(h.protocol_version)
            &&& m["sessionId"@] == Json::Text(h.session_id)
            &&& m["supportedVariants"@] == variants_json(h.supported_variants)
            &&& m["features"@] == texts_json(h.features)
            &&& h.pid matches Some(p) ==> m["pid"@] == Json::Num(NumberModel::Int(p as int))
        },
{
    lemma_control_names_differ();
}

/// An answer to a handshake, and a sign of life, are written with all that they say.
pub proof fn law_other_control_frames_are_written_whole(a: AckView, session_id: Seq<char>, ts: u64)
    ensures
        control_json(ControlView::HandshakeAck(a)) == Json::Object(
            map![
                "type"@ => Json::Text("handshakeAck"@),
                "sessionId"@ => Json::Text(a.session_id),
                "selectVariant"@ => Json::Text(
                    match a.select_variant {
                        Variant::Json => "stdio-json"@,
                        Variant::Proto => "stdio-proto"@,
                    },
                ),
                "accept"@ => Json::Bool(a.accept),
            ],
        ),
        control_json(ControlView::Heartbeat(session_id, ts)) == Json::Object(
            map![
                "type"@ => Json::Text("heartbeat"@),
                "sessionId"@ => Json::Text(session_id),
                "ts"@ => Json::Num(NumberModel::Int(ts as int)),
            ],
        ),
{
}

// ---------------------------------------------------------------------------
// What is read.
// ---------------------------------------------------------------------------

/// A request is read by the names of its members: it has a version, an identifier and a
/// method, and parameters and service parameters where they are not left out. What is
/// mistyped is not read.
pub proof fn law_requests_are_read_by_name(m: Map<Seq<char>, Json>)
    ensures
        request_read(Json::Object(m)) is Some <==> m.contains_key("jsonrpc"@)
            && m["jsonrpc"@] is Text
            && m.contains_key("id"@) && id_read(m["id"@]) is Some && m.contains_key("method"@)
            && m["method"@] is Text && (left_out(m, "serviceParams"@) || flat_read(
            m["serviceParams"@],
        ) is Some),
        request_read(Json::Object(m)) matches Some(v) ==> {
            &&& m["jsonrpc"@] == Json::Text(v.jsonrpc)
            &&& id_read(m["id"@]) == Some(v.id)
            &&& m["method"@] == Json::Text(v.method)
            &&& v.params is None <==> left_out(m, "params"@)
            &&& v.params matches Some(p) ==> m["params"@] == p
            &&& v.service_params is None <==> left_out(m, "serviceParams"@)
            &&& v.service_params matches Some(p) ==> flat_read(m["serviceParams"@]) == Some(p)
        },
{
}

/// What names its type is a control frame, and is mistyped where it cannot be read as
/// one, whoever reads it.
pub proof fn law_control_frames_name_their_type(m: Map<Seq<char>, Json>)
    requires
        m.contains_key("type"@),
    ensures
        control_read(Json::Object(m)) matches Some(c) ==> read_from_client(Json::Object(m)) == Ok::<
            ServerInboundView,
            WireFault,
        >(ServerInboundView::Control(c)) && read_from_server(Json::Object(m)) == Ok::<
            ClientInboundView,
            WireFault,
        >(ClientInboundView::Control(c)),
        control_read(Json::Object(m)) is None ==> read_from_client(Json::Object(m)) == Err::<
            ServerInboundView,
            WireFault,
        >(WireFault::Json("missing or mistyped member"@)) && read_from_server(Json::Object(m))
            == Err::<ClientInboundView, WireFault>(WireFault::Json("missing or mistyped member"@)),
{
}

/// What is no object is no message, and what is neither a control frame nor of the right
/// version is told the version that it claims.
pub proof fn law_messages_are_objects_of_our_version(j: Json, m: Map<Seq<char>, Json>)
    requires
        !(j is Object),
        !m.contains_key("type"@),
        !(m.contains_key("jsonrpc"@) && m["jsonrpc"@] == Json::Text("2.0"@)),
    ensures
        read_from_client(j) == Err::<ServerInboundView, WireFault>(WireFault::NotAnObject),
        read_from_server(j) == Err::<ClientInboundView, WireFault>(WireFault::NotAnObject),
        ({
            let claimed = if m.contains_key("jsonrpc"@) && m["jsonrpc"@] is Text {
                m["jsonrpc"@]->Text_0
            } else {
                Seq::empty()
            };
            &&& read_from_client(Json::Object(m)) == Err::<ServerInboundView, WireFault>(
                WireFault::BadVersion(claimed),
            )
            &&& read_from_server(Json::Object(m)) == Err::<ClientInboundView, WireFault>(
                WireFault::BadVersion(claimed),
            )
        }),
{
}

/// What a client sends is a request where it names a method, and else a cancel where it
/// is marked as one. What is neither is not recognised, and what is mistyped is told so.
pub proof fn law_clients_send_requests_and_cancels(m: Map<Seq<char>, Json>)
    requires
        !m.contains_key("type"@),
        m.contains_key("jsonrpc"@),
        m["jsonrpc"@] == Json::Text("2.0"@),
    ensures
        ({
            let r = read_from_client(Json::Object(m));
            let mistyped = Err::<ServerInboundView, WireFault>(
                WireFault::Json("missing or mistyped member"@),
            );
            let cancels = m.contains_key("cancelStream"@) && m["cancelStream"@] == Json::Bool(true);
            let id = if m.contains_key("id"@) {
                id_read(m["id"@])
            } else {
                None
            };
            if m.contains_key("method"@) {
                match request_read(Json::Object(m)) {
                    Some(q) => r == Ok::<ServerInboundView, WireFault>(
                        ServerInboundView::Message(ClientView::Request(q)),
                    ),
                    None => r == mistyped,
                }
            } else if cancels {
                match id {
                    Some(i) => r == Ok::<ServerInboundView, WireFault>(
                        ServerInboundView::Message(ClientView::CancelStream { id: i }),
                    ),
                    None => r == mistyped,
                }
            } else {
                r == Err::<ServerInboundView, WireFault>(WireFault::UnrecognizedMessage)
            }
        }),
{
}

/// What a server sends is the end of a stream where it is marked as one, else an error
/// where it holds one, and else a result where it holds one, null too. What is none of
/// these is not recognised, and what is mistyped is told so.
pub proof fn law_servers_send_ends_errors_and_results(m: Map<Seq<char>, Json>)
    requires
        !m.contains_key("type"@),
        m.contains_key("jsonrpc"@),
        m["jsonrpc"@] == Json::Text("2.0"@),
    ensures
        ({
            let r = read_from_server(Json::Object(m));
            let mistyped = Err::<ClientInboundView, WireFault>(
                WireFault::Json("missing or mistyped member"@),
            );
            let ends = m.contains_key("streamEnd"@) && m["streamEnd"@] == Json::Bool(true);
            let id = if m.contains_key("id"@) {
                id_read(m["id"@])
            } else {
                None
            };
            if ends {
                match id {
                    Some(i) => r == Ok::<ClientInboundView, WireFault>(
                        ClientInboundView::Message(ServerView::StreamEnd { id: i }),
                    ),
                    None => r == mistyped,
                }
            } else if m.contains_key("error"@) {
                match (id, error_read(m["error"@])) {
                    (Some(i), Some(e)) => r == Ok::<ClientInboundView, WireFault>(
                        ClientInboundView::Message(ServerView::Error { id: i, error: e }),
                    ),
                    _ => r == mistyped,
                }
            } else if m.contains_key("result"@) {
                match id {
                    Some(i) => r == Ok::<ClientInboundView, WireFault>(
                        ClientInboundView::Message(
                            ServerView::Result { id: i, result: m["result"@] },
                        ),
                    ),
                    None => r == mistyped,
                }
            } else {
                r == Err::<ClientInboundView, WireFault>(WireFault::UnrecognizedMessage)
            }
        }),
{
}

/// A body holds what its JSON value is read as. Where it holds no JSON, that is what is
/// wrong.
pub proof fn law_bodies_hold_what_is_read(body: Seq<u8>)
    ensures
        json_read(body) matches Err(e) ==> from_client(body) == Err::<ServerInboundView, WireFault>(
            WireFault::Json(e),
        ) && from_server(body) == Err::<ClientInboundView, WireFault>(WireFault::Json(e)),
        json_read(body) matches Ok(j) ==> from_client(body) == read_from_client(j) && from_server(
            body,
        ) == read_from_server(j),
{
}

/// A body that could not be read is told by its identifier, where it has one that can be
/// read, and else by none.
pub proof fn law_ids_are_looked_for(m: Map<Seq<char>, Json>, e: Seq<char>, other: Json)
    requires
        !(other is Object),
    ensures
        peeked_id(Err(e)) == IdView::Null,
        peeked_id(Ok(other)) == IdView::Null,
        peeked_id(Ok(Json::Object(m))) == (if m.contains_key("id"@) && id_read(m["id"@]) is Some {
            id_read(m["id"@])->0
        } else {
            IdView::Null
        }),
{
}

/// A variant is read from its token, alone or as the only member of an object that holds
/// nothing for it. Nothing else is a variant.
pub proof fn law_variants_are_read_by_their_token(j: Json)
    ensures
        j == Json::Text("stdio-json"@) || j == Json::Object(map!["stdio-json"@ => Json::Null]) || j
            == Json::Object(map!["stdio-json"@ => Json::Object(Map::empty())]) <==> variant_read(j)
            == Some(Variant::Json),
        j == Json::Text("stdio-proto"@) || j == Json::Object(map!["stdio-proto"@ => Json::Null])
            || j == Json::Object(map!["stdio-proto"@ => Json::Object(Map::empty())])
            <==> variant_read(j) == Some(Variant::Proto),
{
    lemma_control_names_differ();
    let a = "stdio-json"@;
    let b = "stdio-proto"@;
    assert(map![a => Json::Null].contains_key(a) && !map![b => Json::Null].contains_key(a));
    assert(map![a => Json::Object(Map::empty())].contains_key(a));
    assert(!map![b => Json::Object(Map::empty())].contains_key(a));
}

/// Variants are read from an array of variants, each in its place, and from nothing else.
pub proof fn law_variants_are_read_in_order(j: Json)
    ensures
        variants_read(j) is Some <==> (j matches Json::Array(a) && forall|i: int|
            0 <= i < a.len() ==> variant_read(#[trigger] a[i]) is Some),
        variants_read(j) matches Some(s) ==> (j matches Json::Array(a) && s.len() == a.len() && (
        forall|i: int| 0 <= i < s.len() ==> variant_read(a[i]) == Some(#[trigger] s[i]))),
{
    if let Some(s) = variants_read(j) {
        let a = j->Array_0;
        assert forall|i: int| 0 <= i < s.len() implies variant_read(a[i]) == Some(
            #[trigger] s[i],
        ) by {
            assert(variant_read(a[i]) is Some);
        }
    }
}

/// A handshake is read by the names of its members. Features may be absent, and a process
/// left out; all else must be there.
pub proof fn law_handshakes_are_read_by_name(m: Map<Seq<char>, Json>)
    ensures
        handshake_read(Json::Object(m)) is Some <==> m.contains_key("protocol"@) && m["protocol"@]
            is Text && m.contains_key("protocolVersion"@) && m["protocolVersion"@] is Text
            && m.contains_key("sessionId"@) && m["sessionId"@] is Text && m.contains_key(
            "supportedVariants"@,
        ) && variants_read(m["supportedVariants"@]) is Some && (!m.contains_key("features"@)
            || texts_read(m["features"@]) is Some) && (left_out(m, "pid"@) || (m["pid"@]
            matches Json::Num(NumberModel::Int(n)) && 0 <= n <= 0xffff_ffff)),
        handshake_read(Json::Object(m)) matches Some(h) ==> {
            &&& m["protocol"@] == Json::Text(h.protocol)
            &&& m["protocolVersion"@] == Json::Text(h.protocol_version)
            &&& m["sessionId"@] == Json::Text(h.session_id)
            &&& variants_read(m["supportedVariants"@]) == Some(h.supported_variants)
            &&& m.contains_key("features"@) ==> texts_read(m["features"@]) == Some(h.features)
            &&& !m.contains_key("features"@) ==> h.features == Seq::<Seq<char>>::empty()
            &&& h.pid is None <==> left_out(m, "pid"@)
            &&& h.pid matches Some(p) ==> m["pid"@] == Json::Num(NumberModel::Int(p as int))
        },
{
}

/// An answer to a handshake is read by the names of its members, all of which must be
/// there.
pub proof fn law_acks_are_read_by_name(m: Map<Seq<char>, Json>)
    ensures
        ack_read(Json::Object(m)) is Some <==> m.contains_key("sessionId"@)
            && m["sessionId"@] is Text
            && m.contains_key("selectVariant"@) && variant_read(m["selectVariant"@]) is Some
            && m.contains_key("accept"@) && m["accept"@] is Bool,
        ack_read(Json::Object(m)) matches Some(a) ==> {
            &&& m["sessionId"@] == Json::Text(a.session_id)
            &&& variant_read(m["selectVariant"@]) == Some(a.select_variant)
            &&& m["accept"@] == Json::Bool(a.accept)
        },
{
}

/// The type of a control frame says what it is read as: a handshake, an answer to one, or
/// a sign of life. There are no others.
pub proof fn law_control_frames_are_read_by_their_type(m: Map<Seq<char>, Json>)
    ensures
        ({
            let j = Json::Object(m);
            let c = control_read(j);
            let typed = |t: Seq<char>| m.contains_key("type"@) && m["type"@] == Json::Text(t);
            &&& typed("handshake"@) ==> (match handshake_read(j) {
                Some(h) => c == Some(ControlView::Handshake(h)),
                None => c is None,
            })
            &&& typed("handshakeAck"@) ==> (match ack_read(j) {
                Some(a) => c == Some(ControlView::HandshakeAck(a)),
                None => c is None,
            })
            &&& typed("heartbeat"@) ==> (c is Some <==> m.contains_key("sessionId"@)
                && m["sessionId"@] is Text && m.contains_key("ts"@) && (m["ts"@]
                matches Json::Num(NumberModel::Int(n)) && 0 <= n <= 0xffff_ffff_ffff_ffff))
            &&& typed("heartbeat"@) && c is Some ==> (c matches Some(ControlView::Heartbeat(s, ts))
                && m["sessionId"@] == Json::Text(s) && m["ts"@] == Json::Num(
                NumberModel::Int(ts as int),
            ))
            &&& !typed("handshake"@) && !typed("handshakeAck"@) && !typed("heartbeat"@)
                ==> c is None
        }),
{
    lemma_control_names_differ();
}

// ---------------------------------------------------------------------------
// Service parameters.
// ---------------------------------------------------------------------------

/// A parameter is sent under its name in small letters, with its values between commas.
/// Of two names that agree but for case, the later counts; every other name stays as it
/// was.
pub proof fn law_params_are_sent_joined(
    e: Seq<(Seq<char>, Vec<String>)>,
    last: (Seq<char>, Vec<String>),
    name: Seq<char>,
)
    ensures
        wire_of(Seq::empty()) == Map::<Seq<char>, Seq<char>>::empty(),
        wire_of(e.push(last)).contains_key(lowered(last.0)),
        wire_of(e.push(last))[lowered(last.0)] == join(texts(last.1@), ","@),
        name != lowered(last.0) ==> (wire_of(e.push(last)).contains_key(name) <==> wire_of(
            e,
        ).contains_key(name)) && (wire_of(e).contains_key(name) ==> wire_of(e.push(last))[name]
            == wire_of(e)[name]),
{
    assert(e.push(last).drop_last() =~= e);
}

/// A parameter that came stands for the values of its list, under its name in small
/// letters. Of two names that agree but for case, the later counts; every other name
/// stays as it was.
pub proof fn law_params_that_came_are_lists(
    e: Seq<(Seq<char>, String)>,
    last: (Seq<char>, String),
    name: Seq<char>,
)
    ensures
        params_of(Seq::empty()) == Map::<Seq<char>, Seq<Seq<char>>>::empty(),
        params_of(e.push(last)).contains_key(lowered(last.0)),
        params_of(e.push(last))[lowered(last.0)] == listed(last.1@),
        name != lowered(last.0) ==> (params_of(e.push(last)).contains_key(name) <==> params_of(
            e,
        ).contains_key(name)) && (params_of(e).contains_key(name) ==> params_of(e.push(last))[name]
            == params_of(e)[name]),
{
    assert(e.push(last).drop_last() =~= e);
}

/// Parameters that came from a message have the names that it has, in small letters, and
/// no others; each is the list of one that it has.
pub proof fn law_params_come_from_the_message(
    wire: Map<Seq<char>, Seq<char>>,
    m: Map<Seq<char>, Seq<Seq<char>>>,
    name: Seq<char>,
)
    requires
        params_from(wire, m),
    ensures
        wire.contains_key(name) ==> m.contains_key(lowered(name)),
        m.contains_key(name) ==> exists|k: Seq<char>| #[trigger]
            wire.contains_key(k) && lowered(k) == name && m[name] == listed(wire[k]),
{
}

} // verus!
