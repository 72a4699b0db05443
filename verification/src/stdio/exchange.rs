//! What a client and a server make of each other's frames.
use crate::dispatch::{CallView, StreamEventView};
use crate::json_value::{crosses, depth_limit, lemma_reserved_name, plain_json, Json, RESERVED_NAME};
use crate::methods::streams;
use crate::params::{lists, ServiceParams};
use crate::protocol::{flat_json, key_text, reported, ErrorView, IdView};
use crate::protojson::finished;
use crate::record::lemma_members_are_not_reserved;
use crate::stdio::client::{
    call_request, caller_error, client_action, holds_request, shutdown_request, ClientActionView,
    PendingKind,
};
use crate::stdio::frame::Frame;
use crate::stdio::json::{
    client_json, client_reads, from_client, params_from, request_json, server_json, server_whole,
    wire_of, ClientView, RequestView, ServerInboundView, ServerView, SYSTEM_SHUTDOWN,
};
use crate::stdio::json_laws::{law_service_params_cross_the_wire, wire_carried};
use crate::stdio::metadata::stamped;
use crate::stdio::server::{
    answer_view, merged, server_action, stream_message, ActionView, ReadView,
};
use crate::stdio::session::ExitCode;
use crate::text::{lower, lowered};
use vstd::prelude::*;

verus! {

/// Whether a message arrives as it was sent.
pub open spec fn message_crosses(m: ServerView) -> bool {
    server_whole(m) && plain_json(server_json(m), depth_limit())
}

proof fn lemma_request_is_plain(q: RequestView)
    requires
        q.params matches Some(p) ==> plain_json(p, 126),
        q.service_params matches Some(f) ==> !f.contains_key(RESERVED_NAME@),
    ensures
        plain_json(client_json(ClientView::Request(q)), depth_limit()),
{
    lemma_members_are_not_reserved();
    let m = request_json(q);
    assert forall|k: Seq<char>| #[trigger] m.contains_key(k) implies plain_json(m[k], 126) by {
        if let Some(f) = q.service_params {
            let o = flat_json(f)->Object_0;
            assert forall|n: Seq<char>| #[trigger] o.contains_key(n) implies plain_json(o[n], 125) by {}
            assert(plain_json(flat_json(f), 126));
        }
    }
}

/// The names of service parameters go out in small letters, so that none is the
/// reserved name.
proof fn lemma_wire_names(e: Seq<(Seq<char>, Vec<String>)>)
    ensures
        !wire_of(e).contains_key(RESERVED_NAME@),
    decreases e.len(),
{
    if e.len() > 0 {
        lemma_wire_names(e.drop_last());
        reveal_strlit("$serde_json::private::RawValue");
        lemma_reserved_name();
        assert(RESERVED_NAME@[22] == 'R');
        if lowered(e.last().0) == RESERVED_NAME@ {
            assert(lowered(e.last().0)[22] == lower(e.last().0[22]));
        }
    }
}

/// A call arrives as it was made: a server that reads the body of a call starts just
/// that call, with its payload, whatever it carries. It carries its parameters over
/// those of the session, just as they were sent, where a message carries parameters
/// unchanged.
pub proof fn law_calls_arrive(
    f: Frame,
    id: IdView,
    method: Seq<char>,
    payload: Json,
    params: ServiceParams,
    open: Set<Seq<char>>,
    session: Map<Seq<char>, Seq<Seq<char>>>,
    got: Map<Seq<char>, Seq<Seq<char>>>,
)
    requires
        holds_request(f, call_request(id, method, payload, params.spec_entries())),
        crosses(payload),
        method != SYSTEM_SHUTDOWN@,
        streams(method) ==> !open.contains(key_text(id)),
    ensures
        server_action(open, ReadView::Body(f.body@), got) == ({
            let call = CallView { id, method, params: got, payload };
            if streams(method) {
                ActionView::StartStream(call)
            } else {
                ActionView::StartUnary(call)
            }
        }),
        from_client(f.body@) matches Ok(ServerInboundView::Message(ClientView::Request(q))) && (
        merged(session, q.service_params, got) && wire_carried(params.spec_entries()) ==> got
            == session.union_prefer_right(lists(params@))),
{
    let e = params.spec_entries();
    lemma_wire_names(e);
    lemma_request_is_plain(call_request(id, method, payload, e));
    if wire_carried(e) {
        if e.len() == 0 {
            assert(lists(params@) =~= Map::<Seq<char>, Seq<Seq<char>>>::empty());
            assert(session.union_prefer_right(lists(params@)) =~= session);
        } else if merged(session, Some(wire_of(e)), got) {
            let p = choose|p: Map<Seq<char>, Seq<Seq<char>>>| #[trigger]
                params_from(wire_of(e), p) && got == session.union_prefer_right(p);
            law_service_params_cross_the_wire(params, p);
        }
    }
}

/// An agent that is asked to end says so and ends well.
pub proof fn law_shutdowns_arrive(
    f: Frame,
    id: IdView,
    open: Set<Seq<char>>,
    params: Map<Seq<char>, Seq<Seq<char>>>,
)
    requires
        holds_request(f, shutdown_request(id)),
    ensures
        server_action(open, ReadView::Body(f.body@), params) == ActionView::SendAndExit(
            ServerView::Result { id, result: Json::Object(Map::empty()) },
            ExitCode::Success,
        ),
{
    lemma_members_are_not_reserved();
    lemma_request_is_plain(shutdown_request(id));
}

/// An answer reaches its caller: the body of the answer to a call gives the caller
/// that waits for it what the call came to, and the caller waits no more.
pub proof fn law_answers_arrive(
    waiting: Map<Seq<char>, PendingKind>,
    body: Seq<u8>,
    id: IdView,
    r: Result<Json, ErrorView>,
    binding: Json,
)
    requires
        client_reads(body, answer_view(id, r, binding)),
        message_crosses(answer_view(id, r, binding)),
        waiting.contains_key(key_text(id)),
        waiting[key_text(id)] is Unary,
    ensures
        client_action(waiting, ReadView::Body(body)) == (ClientActionView::Deliver {
            id,
            item: match r {
                Ok(j) => Ok(stamped(j, binding)),
                Err(e) => Err(caller_error(reported(e))),
            },
            done: true,
        }),
{
}

/// The events of a stream reach its consumer: the body that is sent for one gives
/// the consumer that item, that error or the end.
pub proof fn law_streams_arrive(
    waiting: Map<Seq<char>, PendingKind>,
    body: Seq<u8>,
    id: IdView,
    e: StreamEventView,
    binding: Json,
)
    requires
        client_reads(body, stream_message(id, e, binding)),
        message_crosses(stream_message(id, e, binding)),
        waiting.contains_key(key_text(id)),
        waiting[key_text(id)] is Stream,
    ensures
        client_action(waiting, ReadView::Body(body)) == (match e {
            StreamEventView::Item(j) => ClientActionView::Deliver {
                id,
                item: Ok(stamped(finished(j, false), binding)),
                done: false,
            },
            StreamEventView::Refused(x) => ClientActionView::Deliver {
                id,
                item: Err(caller_error(reported(x))),
                done: true,
            },
            StreamEventView::Failed(x) => ClientActionView::Deliver {
                id,
                item: Err(caller_error(reported(x))),
                done: true,
            },
            StreamEventView::Cancelled => ClientActionView::End { id },
            StreamEventView::Ended => ClientActionView::End { id },
        }),
{
}

} // verus!
