//! The request that a connection begins with: its headers, and whether it is
//! granted.
use crate::params::{append_value, lists, with_value, ServiceParams};
use crate::text::{
    joined, kept, lemma_first_at_is, lemma_trim_fixed, listed, lower_text, lowered, same_text,
    same_text_ignore_case, split_and_trim, split_on, texts,
};
use crate::text_map::TextMap;
use crate::websocket::auth::AuthError;
use crate::websocket::common::SUBPROTOCOL;
use vstd::prelude::*;
use vstd::slice::slice_to_vec;
use vstd::utf8::{encode_utf8, is_ascii_chars, is_ascii_chars_encode_utf8};

verus! {

/// A header: its name, which is told apart from others without regard to case,
/// and the bytes of its value.
#[derive(Debug)]
pub struct Header {
    pub name: String,
    pub value: Vec<u8>,
}

/// Whether a byte stands for a character that can be shown: visible ASCII, a
/// space or a tab.
pub open spec fn visible(b: u8) -> bool {
    32 <= b < 127 || b == 9
}

/// The text of a header's value, if all of it can be shown.
pub open spec fn shown(bytes: Seq<u8>) -> Option<Seq<char>> {
    if forall|i: int| 0 <= i < bytes.len() ==> visible(#[trigger] bytes[i]) {
        Some(Seq::new(bytes.len(), |i: int| bytes[i] as char))
    } else {
        None
    }
}

/// The text of a header's value, if all of it can be shown.
pub fn header_text(bytes: &[u8]) -> (r: Option<String>)
    ensures
        crate::text::opt_text(r) == shown(bytes@),
{
    let mut out = String::new();
    let mut i: usize = 0;
    while i < bytes.len()
        invariant
            i <= bytes.len(),
            forall|j: int| 0 <= j < i ==> visible(#[trigger] bytes@[j]),
            out@ == Seq::new(i as nat, |j: int| bytes@[j] as char),
        decreases bytes.len() - i,
    {
        let b: u8 = bytes[i];
        if !(32 <= b && b < 127 || b == 9) {
            return None;
        }
        out.push(b as char);
        i = i + 1;
        assert(out@ =~= Seq::new(i as nat, |j: int| bytes@[j] as char));
    }
    assert(out@ =~= shown(bytes@)->0);
    Some(out)
}

/// Whether a header has a name, which is given in small letters.
pub open spec fn named(h: Header, name: Seq<char>) -> bool {
    lowered(h.name@) == name
}

fn is_named(h: &Header, name: &str) -> (r: bool)
    ensures
        r == named(*h, name@),
{
    let low = lower_text(h.name.as_str());
    same_text(low.as_str(), name)
}

// ---------------------------------------------------------------------------
// The sub-protocol.
// ---------------------------------------------------------------------------

/// Whether a list of sub-protocols, between commas, has ours.
pub open spec fn speaks(list: Seq<char>) -> bool {
    exists|k: int|
        0 <= k < listed(list).len() && lowered(#[trigger] listed(list)[k]) == lowered(SUBPROTOCOL@)
}

/// Whether a header offers our sub-protocol.
pub open spec fn offers(h: Header) -> bool {
    named(h, "sec-websocket-protocol"@) && (shown(h.value@) matches Some(t) && speaks(t))
}

/// Whether headers offer our sub-protocol.
pub open spec fn negotiated(h: Seq<Header>) -> bool {
    exists|i: int| 0 <= i < h.len() && offers(#[trigger] h[i])
}

fn list_speaks(list: &str) -> (r: bool)
    ensures
        r == speaks(list@),
{
    let parts = split_and_trim(list);
    let mut k: usize = 0;
    while k < parts.len()
        invariant
            k <= parts.len(),
            texts(parts@) == listed(list@),
            forall|j: int|
                0 <= j < k ==> lowered(#[trigger] listed(list@)[j]) != lowered(SUBPROTOCOL@),
        decreases parts.len() - k,
    {
        assert(listed(list@)[k as int] == parts@[k as int]@);
        if same_text_ignore_case(parts[k].as_str(), SUBPROTOCOL) {
            return true;
        }
        k = k + 1;
    }
    assert(parts.len() == texts(parts@).len());
    false
}

/// Whether headers offer our sub-protocol. A server looks for it in a request,
/// and a client in the response.
pub fn subprotocol_is_negotiated(headers: &Vec<Header>) -> (r: bool)
    ensures
        r == negotiated(headers@),
{
    let mut i: usize = 0;
    while i < headers.len()
        invariant
            i <= headers.len(),
            forall|j: int| 0 <= j < i ==> !offers(#[trigger] headers@[j]),
        decreases headers.len() - i,
    {
        if is_named(&headers[i], "sec-websocket-protocol") {
            if let Some(t) = header_text(headers[i].value.as_slice()) {
                if list_speaks(t.as_str()) {
                    assert(offers(headers@[i as int]));
                    return true;
                }
            }
        }
        i = i + 1;
    }
    false
}

// ---------------------------------------------------------------------------
// The origin.
// ---------------------------------------------------------------------------

/// Whether a header is the first of its name.
pub open spec fn first_named(h: Seq<Header>, i: int, name: Seq<char>) -> bool {
    &&& 0 <= i < h.len()
    &&& named(h[i], name)
    &&& forall|j: int| 0 <= j < i ==> !named(#[trigger] h[j], name)
}

/// Whether the first origin that headers give is one of those allowed.
pub open spec fn from_allowed(h: Seq<Header>, allowed: Seq<Seq<char>>) -> bool {
    exists|i: int|
        #[trigger] first_named(h, i, "origin"@) && (shown(h[i].value@) matches Some(t)
            && allowed.contains(t))
}

fn has_text(list: &Vec<String>, t: &str) -> (r: bool)
    ensures
        r == texts(list@).contains(t@),
{
    let mut i: usize = 0;
    while i < list.len()
        invariant
            i <= list.len(),
            forall|j: int| 0 <= j < i ==> #[trigger] texts(list@)[j] != t@,
        decreases list.len() - i,
    {
        if same_text(list[i].as_str(), t) {
            assert(texts(list@)[i as int] == t@);
            return true;
        }
        i = i + 1;
    }
    false
}

/// Whether the first origin that headers give is one of those allowed. Headers
/// without an origin are not.
pub fn origin_allowed(headers: &Vec<Header>, allowed: &Vec<String>) -> (r: bool)
    ensures
        r == from_allowed(headers@, texts(allowed@)),
{
    let mut i: usize = 0;
    while i < headers.len()
        invariant
            i <= headers.len(),
            forall|j: int| 0 <= j < i ==> !named(#[trigger] headers@[j], "origin"@),
        decreases headers.len() - i,
    {
        if is_named(&headers[i], "origin") {
            let r = match header_text(headers[i].value.as_slice()) {
                Some(t) => has_text(allowed, t.as_str()),
                None => false,
            };
            proof {
                assert(first_named(headers@, i as int, "origin"@));
                assert forall|k: int| #[trigger] first_named(headers@, k, "origin"@) implies k
                    == i by {
                    if k < i {
                        assert(!named(headers@[k], "origin"@));
                    } else if k > i {
                        assert(!named(headers@[i as int], "origin"@));
                    }
                }
            }
            return r;
        }
        i = i + 1;
    }
    assert forall|k: int| !#[trigger] first_named(headers@, k, "origin"@) by {
        if 0 <= k < headers.len() {
            assert(!named(headers@[k], "origin"@));
        }
    }
    false
}

// ---------------------------------------------------------------------------
// What headers say to the request handler.
// ---------------------------------------------------------------------------

/// Whether a header serves the connection itself.
pub open spec fn internal_header(name: Seq<char>) -> bool {
    ||| name == "host"@
    ||| name == "connection"@
    ||| name == "upgrade"@
    ||| name == "sec-websocket-key"@
    ||| name == "sec-websocket-version"@
    ||| name == "sec-websocket-protocol"@
    ||| name == "sec-websocket-extensions"@
    ||| name == "content-length"@
    ||| name == "transfer-encoding"@
}

/// Whether a header serves the connection itself.
pub fn is_internal_header(name: &str) -> (r: bool)
    ensures
        r == internal_header(name@),
{
    same_text(name, "host") || same_text(name, "connection") || same_text(name, "upgrade")
        || same_text(name, "sec-websocket-key") || same_text(name, "sec-websocket-version")
        || same_text(name, "sec-websocket-protocol") || same_text(name, "sec-websocket-extensions")
        || same_text(name, "content-length") || same_text(name, "transfer-encoding")
}

/// The service parameters that headers make: each name in small letters, with
/// the values that can be shown, in order. `all` says that those which serve the
/// connection count too.
pub open spec fn gathered(h: Seq<Header>, all: bool) -> Map<Seq<char>, Seq<Seq<char>>>
    decreases h.len(),
{
    if h.len() == 0 {
        Map::empty()
    } else {
        let rest = gathered(h.drop_last(), all);
        let key = lowered(h.last().name@);
        match shown(h.last().value@) {
            Some(t) => if all || !internal_header(key) {
                with_value(rest, key, t)
            } else {
                rest
            },
            None => rest,
        }
    }
}

fn gather(headers: &Vec<Header>, all: bool) -> (r: ServiceParams)
    ensures
        lists(r@) == gathered(headers@, all),
{
    let mut out: ServiceParams = TextMap::new();
    let mut i: usize = 0;
    assert(lists(out@) =~= gathered(headers@.take(0), all));
    while i < headers.len()
        invariant
            i <= headers.len(),
            lists(out@) == gathered(headers@.take(i as int), all),
        decreases headers.len() - i,
    {
        assert(headers@.take(i + 1).drop_last() =~= headers@.take(i as int));
        let key = lower_text(headers[i].name.as_str());
        if all || !is_internal_header(key.as_str()) {
            if let Some(t) = header_text(headers[i].value.as_slice()) {
                append_value(&mut out, key, t);
            }
        }
        i = i + 1;
    }
    assert(headers@.take(i as int) =~= headers@);
    out
}

/// The service parameters that the headers of a connection make, but for those
/// that serve the connection itself.
pub fn capture_connection_params(headers: &Vec<Header>) -> (r: ServiceParams)
    ensures
        lists(r@) == gathered(headers@, false),
{
    gather(headers, false)
}

/// The service parameters that the headers of a connection make, all of them.
pub fn service_params_from_headers(headers: &Vec<Header>) -> (r: ServiceParams)
    ensures
        lists(r@) == gathered(headers@, true),
{
    gather(headers, true)
}

/// No header that serves the connection itself reaches the request handler.
pub proof fn law_internal_headers_stay_inside(h: Seq<Header>, name: Seq<char>)
    requires
        internal_header(name),
    ensures
        !gathered(h, false).contains_key(name),
    decreases h.len(),
{
    if h.len() > 0 {
        law_internal_headers_stay_inside(h.drop_last(), name);
    }
}

// ---------------------------------------------------------------------------
// Whether a connection is granted.
// ---------------------------------------------------------------------------

/// Why a connection is not granted: the status of the response, and its text.
#[derive(Debug)]
pub struct Refusal {
    pub status: u16,
    pub message: String,
}

impl View for Refusal {
    type V = (u16, Seq<char>);

    open spec fn view(&self) -> (u16, Seq<char>) {
        (self.status, self.message@)
    }
}

/// The contents of an optional refusal.
pub open spec fn opt_refusal(o: Option<Refusal>) -> Option<(u16, Seq<char>)> {
    match o {
        Some(r) => Some(r@),
        None => None,
    }
}

/// Why a connection with these headers is not granted, before anyone looks at
/// its credentials.
pub open spec fn header_refusal(h: Seq<Header>, allowed: Option<Seq<Seq<char>>>) -> Option<
    (u16, Seq<char>),
> {
    if !negotiated(h) {
        Some((400u16, "Sec-WebSocket-Protocol header must include '"@ + SUBPROTOCOL@ + "'"@))
    } else {
        match allowed {
            Some(a) => if from_allowed(h, a) {
                None
            } else {
                Some((403u16, "origin not allowed"@))
            },
            None => None,
        }
    }
}

/// Why a connection with these headers is not granted, before anyone looks at
/// its credentials: it must offer our sub-protocol and come from an allowed
/// origin, where those are given.
pub fn check_upgrade(headers: &Vec<Header>, allowed_origins: &Option<Vec<String>>) -> (r: Option<
    Refusal,
>)
    ensures
        opt_refusal(r) == header_refusal(
            headers@,
            crate::record::opt_texts(*allowed_origins),
        ),
{
    if !subprotocol_is_negotiated(headers) {
        let text = joined("Sec-WebSocket-Protocol header must include '", SUBPROTOCOL);
        return Some(Refusal { status: 400, message: joined(text.as_str(), "'") });
    }
    match allowed_origins {
        Some(a) => if origin_allowed(headers, a) {
            None
        } else {
            Some(Refusal { status: 403, message: "origin not allowed".to_owned() })
        },
        None => None,
    }
}

/// Why a connection is not granted whose credentials were refused. A status that
/// no response can have counts as 401.
pub fn auth_refusal(err: &AuthError) -> (r: Refusal)
    ensures
        r@ == (if 100 <= err.status <= 999 {
            err.status
        } else {
            401u16
        }, err.message@),
{
    let status: u16 = if 100 <= err.status && err.status <= 999 {
        err.status
    } else {
        401
    };
    Refusal { status, message: err.message.clone() }
}

/// Why a connection is not granted that could not be upgraded.
pub fn upgrade_refusal() -> (r: Refusal)
    ensures
        r@ == (400u16, "websocket upgrade failed"@),
{
    Refusal { status: 400, message: "websocket upgrade failed".to_owned() }
}

proof fn lemma_subprotocol()
    ensures
        shown(encode_utf8(SUBPROTOCOL@)) == Some(SUBPROTOCOL@),
        speaks(SUBPROTOCOL@),
        lowered("sec-websocket-protocol"@) == "sec-websocket-protocol"@,
{
    let t = SUBPROTOCOL@;
    reveal_strlit("a2a.v1");
    reveal_strlit("sec-websocket-protocol");
    assert(t == "a2a.v1"@);
    assert(is_ascii_chars(t));
    is_ascii_chars_encode_utf8(t);
    let b = encode_utf8(t);
    assert forall|i: int| 0 <= i < b.len() implies visible(#[trigger] b[i]) && b[i] as char
        == t[i] by {
        assert(t[i] as u8 == b[i]);
    }
    assert(shown(b)->0 =~= t);
    lemma_first_at_is(t, ',', t.len() as int);
    assert(split_on(t, ',') == seq![t]);
    lemma_trim_fixed(t);
    let parts = split_on(t, ',');
    assert(parts.drop_first() =~= Seq::<Seq<char>>::empty());
    assert(kept(parts.drop_first()) =~= Seq::<Seq<char>>::empty());
    assert(listed(t) =~= seq![t]);
    assert(lowered(listed(t)[0]) == lowered(t));
    assert(lowered("sec-websocket-protocol"@) =~= "sec-websocket-protocol"@);
}

/// The headers that the answer to a granted connection has of ours: the sub-protocol
/// that it speaks, so that a client takes the answer.
pub fn accepted_headers() -> (r: Vec<Header>)
    ensures
        r.len() == 1,
        r@[0].name@ == "sec-websocket-protocol"@,
        shown(r@[0].value@) == Some(SUBPROTOCOL@),
        negotiated(r@),
{
    proof {
        lemma_subprotocol();
    }
    let mut r: Vec<Header> = Vec::new();
    r.push(
        Header {
            name: "sec-websocket-protocol".to_owned(),
            value: slice_to_vec(SUBPROTOCOL.as_bytes()),
        },
    );
    assert(offers(r@[0]));
    r
}

/// A value that can be shown is shown whole, one character for each byte. It can be
/// shown just where each of its bytes is visible ASCII, a space or a tab.
pub proof fn law_values_are_shown_whole(bytes: Seq<u8>)
    ensures
        shown(bytes) is Some <==> (forall|i: int|
            0 <= i < bytes.len() ==> (32 <= #[trigger] bytes[i] <= 126 || bytes[i] == 9)),
        shown(bytes) matches Some(t) ==> t.len() == bytes.len() && (forall|i: int|
            0 <= i < bytes.len() ==> #[trigger] t[i] as u32 == bytes[i]),
{
    if let Some(t) = shown(bytes) {
        assert forall|i: int| 0 <= i < bytes.len() implies #[trigger] t[i] as u32 == bytes[i] by {
            assert(visible(bytes[i]));
        }
    }
    if forall|i: int|
        0 <= i < bytes.len() ==> (32 <= #[trigger] bytes[i] <= 126 || bytes[i] == 9) {
        assert forall|i: int| 0 <= i < bytes.len() implies visible(#[trigger] bytes[i]) by {}
    }
}

/// No headers make no parameters.
pub proof fn law_no_headers_make_no_params(all: bool)
    ensures
        gathered(Seq::empty(), all) == Map::<Seq<char>, Seq<Seq<char>>>::empty(),
{
}

/// A header that can be shown adds its whole value at the end of the list of its name,
/// which is told apart without regard to case. All before it in that list, and every
/// other list, stays as it was.
pub proof fn law_a_header_adds_its_value(h: Seq<Header>, last: Header, all: bool, t: Seq<char>)
    requires
        shown(last.value@) == Some(t),
        all || !internal_header(lowered(last.name@)),
    ensures
        ({
            let key = lowered(last.name@);
            let before = gathered(h, all);
            let after = gathered(h.push(last), all);
            &&& after.contains_key(key)
            &&& after[key].len() > 0
            &&& after[key].last() == t
            &&& after[key].drop_last() == (if before.contains_key(key) {
                before[key]
            } else {
                Seq::empty()
            })
            &&& forall|k: Seq<char>|
                k != key ==> (#[trigger] after.contains_key(k) <==> before.contains_key(k)) && (
                before.contains_key(k) ==> after[k] == before[k])
        }),
{
    assert(h.push(last).drop_last() =~= h);
    let key = lowered(last.name@);
    let before = gathered(h, all);
    let after = gathered(h.push(last), all);
    assert(after[key].drop_last() =~= (if before.contains_key(key) {
        before[key]
    } else {
        Seq::empty()
    }));
}

/// A header that cannot be shown changes nothing, and neither does one that serves the
/// connection itself, where those do not count.
pub proof fn law_other_headers_add_nothing(h: Seq<Header>, last: Header, all: bool)
    requires
        shown(last.value@) is None || (!all && internal_header(lowered(last.name@))),
    ensures
        gathered(h.push(last), all) == gathered(h, all),
{
    assert(h.push(last).drop_last() =~= h);
}

/// A parameter is there just where some header makes it, and then its list is not empty.
pub proof fn law_params_come_from_headers(h: Seq<Header>, all: bool, k: Seq<char>)
    ensures
        gathered(h, all).contains_key(k) <==> ((all || !internal_header(k)) && exists|i: int|
            0 <= i < h.len() && lowered((#[trigger] h[i]).name@) == k && shown(h[i].value@)
                is Some),
        gathered(h, all).contains_key(k) ==> gathered(h, all)[k].len() > 0,
    decreases h.len(),
{
    if h.len() > 0 {
        let rest = h.drop_last();
        law_params_come_from_headers(rest, all, k);
        let last = h.last();
        assert(h =~= rest.push(last));
        if exists|i: int|
            0 <= i < rest.len() && lowered((#[trigger] rest[i]).name@) == k && shown(
                rest[i].value@,
            ) is Some {
            let i = choose|i: int|
                0 <= i < rest.len() && lowered((#[trigger] rest[i]).name@) == k && shown(
                    rest[i].value@,
                ) is Some;
            assert(h[i] == rest[i]);
        }
        if exists|i: int|
            0 <= i < h.len() && lowered((#[trigger] h[i]).name@) == k && shown(h[i].value@)
                is Some {
            let i = choose|i: int|
                0 <= i < h.len() && lowered((#[trigger] h[i]).name@) == k && shown(h[i].value@)
                    is Some;
            if i < rest.len() {
                assert(rest[i] == h[i]);
            } else {
                assert(h[i] == last);
            }
        }
        if lowered(last.name@) == k && shown(last.value@) is Some {
            assert(h[h.len() - 1] == last);
        }
    }
}

/// The headers that serve the connection itself are these nine, and no others.
pub proof fn law_internal_headers_are_named(name: Seq<char>)
    ensures
        internal_header(name) <==> seq![
            "host"@,
            "connection"@,
            "upgrade"@,
            "sec-websocket-key"@,
            "sec-websocket-version"@,
            "sec-websocket-protocol"@,
            "sec-websocket-extensions"@,
            "content-length"@,
            "transfer-encoding"@,
        ].contains(name),
{
    let names = seq![
        "host"@,
        "connection"@,
        "upgrade"@,
        "sec-websocket-key"@,
        "sec-websocket-version"@,
        "sec-websocket-protocol"@,
        "sec-websocket-extensions"@,
        "content-length"@,
        "transfer-encoding"@,
    ];
    assert(names[0] == "host"@ && names[1] == "connection"@ && names[2] == "upgrade"@);
    assert(names[3] == "sec-websocket-key"@ && names[4] == "sec-websocket-version"@);
    assert(names[5] == "sec-websocket-protocol"@ && names[6] == "sec-websocket-extensions"@);
    assert(names[7] == "content-length"@ && names[8] == "transfer-encoding"@);
}

/// Our sub-protocol is offered just where some header that is named for it, and that can
/// be shown, has it in its list, in whatever case.
pub proof fn law_the_subprotocol_must_be_offered(h: Seq<Header>)
    ensures
        negotiated(h) <==> exists|i: int, k: int|
            0 <= i < h.len() && lowered(h[i].name@) == "sec-websocket-protocol"@ && shown(
                h[i].value@,
            ) is Some && 0 <= k < listed(shown(h[i].value@)->0).len() && lowered(
                #[trigger] listed(shown(h[i].value@)->0)[k],
            ) == lowered("a2a.v1"@),
{
    if negotiated(h) {
        let i = choose|i: int| 0 <= i < h.len() && offers(#[trigger] h[i]);
        let t = shown(h[i].value@)->0;
        let k = choose|k: int|
            0 <= k < listed(t).len() && lowered(#[trigger] listed(t)[k]) == lowered(SUBPROTOCOL@);
        assert(lowered(listed(shown(h[i].value@)->0)[k]) == lowered("a2a.v1"@));
    }
    if exists|i: int, k: int|
        0 <= i < h.len() && lowered(h[i].name@) == "sec-websocket-protocol"@ && shown(
            h[i].value@,
        ) is Some && 0 <= k < listed(shown(h[i].value@)->0).len() && lowered(
            #[trigger] listed(shown(h[i].value@)->0)[k],
        ) == lowered("a2a.v1"@) {
        let (i, k) = choose|i: int, k: int|
            0 <= i < h.len() && lowered(h[i].name@) == "sec-websocket-protocol"@ && shown(
                h[i].value@,
            ) is Some && 0 <= k < listed(shown(h[i].value@)->0).len() && lowered(
                #[trigger] listed(shown(h[i].value@)->0)[k],
            ) == lowered("a2a.v1"@);
        let t = shown(h[i].value@)->0;
        assert(lowered(listed(t)[k]) == lowered(SUBPROTOCOL@));
        assert(offers(h[i]));
    }
}

/// The first header that names an origin decides: a connection comes from an allowed
/// origin just where what it shows is one of those. One without an origin does not.
pub proof fn law_the_first_origin_decides(first: Header, h: Seq<Header>, allowed: Seq<Seq<char>>)
    ensures
        !from_allowed(Seq::empty(), allowed),
        lowered(first.name@) == "origin"@ ==> (from_allowed(seq![first] + h, allowed) <==> (shown(
            first.value@,
        ) matches Some(t) && allowed.contains(t))),
        lowered(first.name@) != "origin"@ ==> (from_allowed(seq![first] + h, allowed)
            <==> from_allowed(h, allowed)),
{
    let all = seq![first] + h;
    let name = "origin"@;
    assert(all[0] == first);
    if named(first, name) {
        assert(first_named(all, 0, name));
        assert forall|i: int| #[trigger] first_named(all, i, name) implies i == 0 by {
            if i > 0 {
                assert(!named(all[0], name));
            }
        }
    } else {
        assert forall|i: int| #[trigger] first_named(h, i, name) implies first_named(
            all,
            i + 1,
            name,
        ) by {
            assert(all[i + 1] == h[i]);
            assert forall|j: int| 0 <= j < i + 1 implies !named(#[trigger] all[j], name) by {
                if j > 0 {
                    assert(all[j] == h[j - 1]);
                }
            }
        }
        assert forall|i: int| #[trigger] first_named(all, i, name) implies i > 0 && first_named(
            h,
            i - 1,
            name,
        ) by {
            assert(all[i] == h[i - 1]);
            assert forall|j: int| 0 <= j < i - 1 implies !named(#[trigger] h[j], name) by {
                assert(all[j + 1] == h[j]);
            }
        }
        if from_allowed(h, allowed) {
            let i = choose|i: int|
                #[trigger] first_named(h, i, name) && (shown(h[i].value@) matches Some(t)
                    && allowed.contains(t));
            assert(first_named(all, i + 1, name));
            assert(all[i + 1] == h[i]);
        }
        if from_allowed(all, allowed) {
            let i = choose|i: int|
                #[trigger] first_named(all, i, name) && (shown(all[i].value@) matches Some(t)
                    && allowed.contains(t));
            assert(first_named(h, i - 1, name));
            assert(all[i] == h[i - 1]);
        }
    }
}

/// A connection is refused as a bad request where our sub-protocol is not offered, and
/// else as forbidden where origins are given and its own is not one of them. Any other is
/// not refused.
pub proof fn law_refusals_have_their_cause(h: Seq<Header>, allowed: Option<Seq<Seq<char>>>)
    ensures
        !negotiated(h) <==> header_refusal(h, allowed) == Some(
            (400u16, "Sec-WebSocket-Protocol header must include 'a2a.v1'"@),
        ),
        negotiated(h) && allowed is Some && !from_allowed(h, allowed->0) <==> header_refusal(
            h,
            allowed,
        ) == Some((403u16, "origin not allowed"@)),
        negotiated(h) && (allowed is Some ==> from_allowed(h, allowed->0)) <==> header_refusal(
            h,
            allowed,
        ) is None,
{
    reveal_strlit("Sec-WebSocket-Protocol header must include '");
    reveal_strlit("a2a.v1");
    reveal_strlit("'");
    reveal_strlit("Sec-WebSocket-Protocol header must include 'a2a.v1'");
    assert("Sec-WebSocket-Protocol header must include '"@ + SUBPROTOCOL@ + "'"@
        =~= "Sec-WebSocket-Protocol header must include 'a2a.v1'"@);
}

} // verus!
