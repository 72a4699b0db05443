//! What holds of the messages as a whole: each reads as what was written.
use crate::json_value::{depth_limit, member, plain_json, Json};
use crate::params::{lists, ServiceParams};
use crate::protocol::{law_error_reads_back, law_flat_reads_back};
use crate::record::{lemma_members_are_not_reserved, texts_json, texts_read};
use crate::stdio::json::{
    client_json, client_whole, control_json, control_read, handshake_read, params_from,
    read_from_client, read_from_server, request_read, server_json, server_whole, variant_read,
    variants_json, variants_read, wire_of, ClientInboundView, ClientView, ServerInboundView,
    ServerView,
};
use crate::stdio::wire::{variant_token, ControlView, Variant, WireFault};
use crate::text::{law_joined_lists_read_back, listable, listed, lowered, texts};
use crate::text_map::map_of;
use vstd::prelude::*;

verus! {

pub proof fn lemma_member_names_differ()
    ensures
        "type"@ != "jsonrpc"@,
        "type"@ != "id"@,
        "type"@ != "method"@,
        "type"@ != "params"@,
        "type"@ != "serviceParams"@,
        "type"@ != "cancelStream"@,
        "type"@ != "streamEnd"@,
        "type"@ != "result"@,
        "type"@ != "error"@,
        "jsonrpc"@ != "id"@,
        "jsonrpc"@ != "method"@,
        "jsonrpc"@ != "params"@,
        "jsonrpc"@ != "serviceParams"@,
        "jsonrpc"@ != "cancelStream"@,
        "jsonrpc"@ != "streamEnd"@,
        "jsonrpc"@ != "result"@,
        "jsonrpc"@ != "error"@,
        "id"@ != "method"@,
        "id"@ != "params"@,
        "id"@ != "serviceParams"@,
        "id"@ != "cancelStream"@,
        "id"@ != "streamEnd"@,
        "id"@ != "result"@,
        "id"@ != "error"@,
        "method"@ != "params"@,
        "method"@ != "serviceParams"@,
        "method"@ != "cancelStream"@,
        "params"@ != "serviceParams"@,
        "result"@ != "error"@,
        "result"@ != "streamEnd"@,
        "error"@ != "streamEnd"@,
{
    reveal_strlit("type");
    reveal_strlit("jsonrpc");
    reveal_strlit("id");
    reveal_strlit("method");
    reveal_strlit("params");
    reveal_strlit("serviceParams");
    reveal_strlit("cancelStream");
    reveal_strlit("streamEnd");
    reveal_strlit("result");
    reveal_strlit("error");
    assert("type"@.len() == 4 && "jsonrpc"@.len() == 7 && "id"@.len() == 2);
    assert("method"@.len() == 6 && "method"@[0] == 'm');
    assert("params"@.len() == 6 && "params"@[0] == 'p');
    assert("result"@.len() == 6 && "result"@[0] == 'r');
    assert("serviceParams"@.len() == 13 && "cancelStream"@.len() == 12);
    assert("streamEnd"@.len() == 9 && "error"@.len() == 5);
}

pub proof fn lemma_control_frames_are_shallow(c: ControlView)
    ensures
        plain_json(control_json(c), depth_limit()),
{
    reveal_with_fuel(plain_json, 4);
    lemma_members_are_not_reserved();
    let j = control_json(c);
    assert forall|k: Seq<char>| #[trigger] j->Object_0.contains_key(k) implies plain_json(
        j->Object_0[k],
        126,
    ) by {
        if let ControlView::Handshake(h) = c {
            assert(plain_json(variants_json(h.supported_variants), 126));
            assert(plain_json(texts_json(h.features), 126));
        }
    }
}

/// What a client writes, a server reads as it was. (A request whose parameters
/// are an explicit null reads as one without parameters.)
pub proof fn law_client_message_reads_back(m: ClientView)
    requires
        client_whole(m),
    ensures
        read_from_client(client_json(m)) == Ok::<ServerInboundView, WireFault>(
            ServerInboundView::Message(m),
        ),
{
    lemma_member_names_differ();
    let j = client_json(m);
    match m {
        ClientView::Request(r) => {
            if let Some(p) = r.service_params {
                law_flat_reads_back(p);
            }
            assert(request_read(j) == Some(r));
        },
        ClientView::CancelStream { id } => {},
    }
}

/// What a server writes, a client reads as it was. (An error whose data is an
/// explicit null reads as one without data.)
pub proof fn law_server_message_reads_back(m: ServerView)
    requires
        server_whole(m),
    ensures
        read_from_server(server_json(m)) == Ok::<ClientInboundView, WireFault>(
            ClientInboundView::Message(m),
        ),
{
    lemma_member_names_differ();
    match m {
        ServerView::Error { id, error } => {
            law_error_reads_back(error);
        },
        _ => {},
    }
}

pub proof fn lemma_control_names_differ()
    ensures
        "type"@ != "protocol"@,
        "type"@ != "protocolVersion"@,
        "type"@ != "sessionId"@,
        "type"@ != "supportedVariants"@,
        "type"@ != "features"@,
        "type"@ != "pid"@,
        "type"@ != "selectVariant"@,
        "type"@ != "accept"@,
        "type"@ != "ts"@,
        "protocol"@ != "protocolVersion"@,
        "protocol"@ != "sessionId"@,
        "protocol"@ != "supportedVariants"@,
        "protocol"@ != "features"@,
        "protocol"@ != "pid"@,
        "protocolVersion"@ != "sessionId"@,
        "protocolVersion"@ != "supportedVariants"@,
        "protocolVersion"@ != "features"@,
        "protocolVersion"@ != "pid"@,
        "sessionId"@ != "supportedVariants"@,
        "sessionId"@ != "features"@,
        "sessionId"@ != "pid"@,
        "sessionId"@ != "selectVariant"@,
        "sessionId"@ != "accept"@,
        "sessionId"@ != "ts"@,
        "selectVariant"@ != "accept"@,
        "supportedVariants"@ != "features"@,
        "supportedVariants"@ != "pid"@,
        "features"@ != "pid"@,
        "handshake"@ != "handshakeAck"@,
        "handshake"@ != "heartbeat"@,
        "handshakeAck"@ != "heartbeat"@,
        variant_token(Variant::Json) != variant_token(Variant::Proto),
{
    reveal_strlit("type");
    reveal_strlit("protocol");
    reveal_strlit("protocolVersion");
    reveal_strlit("sessionId");
    reveal_strlit("supportedVariants");
    reveal_strlit("features");
    reveal_strlit("pid");
    reveal_strlit("selectVariant");
    reveal_strlit("accept");
    reveal_strlit("ts");
    reveal_strlit("handshake");
    reveal_strlit("handshakeAck");
    reveal_strlit("heartbeat");
    reveal_strlit("stdio-json");
    reveal_strlit("stdio-proto");
    assert("type"@.len() == 4 && "pid"@.len() == 3 && "ts"@.len() == 2);
    assert("protocol"@.len() == 8 && "protocol"@[0] == 'p');
    assert("features"@.len() == 8 && "features"@[0] == 'f');
    assert("protocolVersion"@.len() == 15 && "sessionId"@.len() == 9);
    assert("supportedVariants"@.len() == 17 && "selectVariant"@.len() == 13);
    assert("accept"@.len() == 6);
    assert("handshake"@.len() == 9 && "handshake"@[1] == 'a');
    assert("heartbeat"@.len() == 9 && "heartbeat"@[1] == 'e');
    assert("handshakeAck"@.len() == 12);
    assert("stdio-json"@.len() == 10 && "stdio-proto"@.len() == 11);
}

/// A control frame reads as it was written, whoever reads it.
pub proof fn law_control_frame_reads_back(c: ControlView)
    ensures
        control_read(control_json(c)) == Some(c),
        read_from_client(control_json(c)) == Ok::<ServerInboundView, WireFault>(
            ServerInboundView::Control(c),
        ),
        read_from_server(control_json(c)) == Ok::<ClientInboundView, WireFault>(
            ClientInboundView::Control(c),
        ),
{
    lemma_control_names_differ();
    let j = control_json(c);
    match c {
        ControlView::Handshake(h) => {
            let vs = variants_json(h.supported_variants);
            assert forall|i: int| 0 <= i < h.supported_variants.len() implies variant_read(
                #[trigger] vs->Array_0[i],
            ) == Some(h.supported_variants[i]) by {}
            assert(variants_read(vs)->0 =~= h.supported_variants);
            let fs = texts_json(h.features);
            assert(texts_read(fs)->0 =~= h.features);
            assert(handshake_read(j) == Some(h));
        },
        _ => {},
    }
}

/// Service parameters that a message carries unchanged: names without capitals,
/// values that a comma-separated list carries.
pub open spec fn wire_carried(e: Seq<(Seq<char>, Vec<String>)>) -> bool {
    &&& forall|i: int| 0 <= i < e.len() ==> lowered(#[trigger] e[i].0) == e[i].0
    &&& forall|i: int, j: int|
        0 <= i < e.len() && 0 <= j < e[i].1@.len() ==> listable(#[trigger] texts(e[i].1@)[j])
}

proof fn lemma_wire_of(e: Seq<(Seq<char>, Vec<String>)>, k: Seq<char>)
    requires
        wire_carried(e),
    ensures
        wire_of(e).contains_key(k) <==> map_of(e).contains_key(k),
        map_of(e).contains_key(k) ==> lowered(k) == k && listed(wire_of(e)[k]) == texts(
            map_of(e)[k]@,
        ),
    decreases e.len(),
{
    if e.len() > 0 {
        let d = e.drop_last();
        let n = e.len() - 1;
        assert(wire_carried(d)) by {
            assert forall|i: int| 0 <= i < d.len() implies lowered(#[trigger] d[i].0) == d[i].0 by {
                assert(lowered(e[i].0) == e[i].0);
            }
            assert forall|i: int, j: int| 0 <= i < d.len() && 0 <= j < d[i].1@.len() implies listable(
                #[trigger] texts(d[i].1@)[j],
            ) by {
                assert(listable(texts(e[i].1@)[j]));
            }
        }
        lemma_wire_of(d, k);
        assert(lowered(e[n].0) == e[n].0);
        let values = texts(e[n].1@);
        assert forall|j: int| 0 <= j < values.len() implies listable(#[trigger] values[j]) by {
            assert(listable(texts(e[n].1@)[j]));
        }
        law_joined_lists_read_back(values);
    }
}

/// The service parameters of a request reach the other side as they were.
pub proof fn law_service_params_cross_the_wire(
    sent: ServiceParams,
    got: Map<Seq<char>, Seq<Seq<char>>>,
)
    requires
        wire_carried(sent.spec_entries()),
        params_from(wire_of(sent.spec_entries()), got),
    ensures
        got == lists(sent@),
{
    let e = sent.spec_entries();
    let wire = wire_of(e);
    let had = lists(sent@);
    assert forall|x: Seq<char>| #[trigger] got.contains_key(x) == had.contains_key(x) && (
    got.contains_key(x) ==> got[x] == had[x]) by {
        lemma_wire_of(e, x);
        if got.contains_key(x) {
            let k = choose|k: Seq<char>| #[trigger]
                wire.contains_key(k) && lowered(k) == x && got[x] == listed(wire[k]);
            lemma_wire_of(e, k);
        }
        if sent@.contains_key(x) {
            assert(wire.contains_key(x));
            assert(got.contains_key(lowered(x)));
        }
    }
    assert(got =~= had);
}

// ---------------------------------------------------------------------------
// Members that mean nothing.
// ---------------------------------------------------------------------------

/// Whether a name means something in a message or in a control frame.
pub open spec fn means_something(k: Seq<char>) -> bool {
    ||| k == "type"@
    ||| k == "jsonrpc"@
    ||| k == "id"@
    ||| k == "method"@
    ||| k == "params"@
    ||| k == "serviceParams"@
    ||| k == "cancelStream"@
    ||| k == "streamEnd"@
    ||| k == "result"@
    ||| k == "error"@
    ||| k == "protocol"@
    ||| k == "protocolVersion"@
    ||| k == "sessionId"@
    ||| k == "supportedVariants"@
    ||| k == "features"@
    ||| k == "pid"@
    ||| k == "selectVariant"@
    ||| k == "accept"@
    ||| k == "ts"@
}

/// Members that mean nothing are ignored: a body reads as it does without them,
/// on either side.
pub proof fn law_unknown_members_are_ignored(
    m: Map<Seq<char>, Json>,
    name: Seq<char>,
    value: Json,
)
    requires
        !means_something(name),
    ensures
        read_from_client(Json::Object(m.insert(name, value))) == read_from_client(Json::Object(m)),
        read_from_server(Json::Object(m.insert(name, value))) == read_from_server(Json::Object(m)),
{
    let j = Json::Object(m);
    let k = Json::Object(m.insert(name, value));
    assert forall|n: Seq<char>| n != name implies #[trigger] member(k, n) == member(j, n) by {}
    assert(handshake_read(k) == handshake_read(j));
    assert(control_read(k) == control_read(j));
    assert(request_read(k) == request_read(j));
}

} // verus!
