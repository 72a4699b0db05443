//! Frames and the header set that they carry.
use crate::params::{lists, ServiceParams};
use crate::text::opt_text;
use crate::text_map::TextMap;
use vstd::prelude::*;

verus! {

/// The recognised headers of a frame, besides its content length. The set is
/// closed: other headers are dropped.
#[derive(Debug, PartialEq)]
pub struct FrameHeaders {
    pub content_type: Option<String>,
    /// One of request, response, error, stream, streamEnd, cancel.
    pub a2a_kind: Option<String>,
    pub a2a_id: Option<String>,
    pub a2a_method: Option<String>,
    /// From the `A2A-SP-*` headers.
    pub service_params: ServiceParams,
}

/// The contents of a frame's headers.
#[verifier::ext_equal]
pub struct HeadersView {
    pub content_type: Option<Seq<char>>,
    pub a2a_kind: Option<Seq<char>>,
    pub a2a_id: Option<Seq<char>>,
    pub a2a_method: Option<Seq<char>>,
    pub service_params: Map<Seq<char>, Seq<Seq<char>>>,
}

impl View for FrameHeaders {
    type V = HeadersView;

    open spec fn view(&self) -> HeadersView {
        HeadersView {
            content_type: opt_text(self.content_type),
            a2a_kind: opt_text(self.a2a_kind),
            a2a_id: opt_text(self.a2a_id),
            a2a_method: opt_text(self.a2a_method),
            service_params: lists(self.service_params@),
        }
    }
}

/// No headers.
pub open spec fn no_headers() -> HeadersView {
    HeadersView {
        content_type: None,
        a2a_kind: None,
        a2a_id: None,
        a2a_method: None,
        service_params: Map::empty(),
    }
}

impl Default for FrameHeaders {
    fn default() -> (r: Self)
        ensures
            r@ == no_headers(),
            r.service_params.spec_entries().len() == 0,
    {
        let r = FrameHeaders {
            content_type: None,
            a2a_kind: None,
            a2a_id: None,
            a2a_method: None,
            service_params: TextMap::new(),
        };
        assert(r@ =~= no_headers());
        r
    }
}

/// A frame: headers, and exactly as many body bytes as the content length says.
#[derive(Debug, PartialEq)]
pub struct Frame {
    pub headers: FrameHeaders,
    pub body: Vec<u8>,
}

/// The contents of a frame.
#[verifier::ext_equal]
pub struct FrameView {
    pub headers: HeadersView,
    pub body: Seq<u8>,
}

impl View for Frame {
    type V = FrameView;

    open spec fn view(&self) -> FrameView {
        FrameView { headers: self.headers@, body: self.body@ }
    }
}

/// What a decoder waits for.
pub enum State {
    /// The rest of a header block.
    Headers,
    /// The rest of a body.
    Body { content_length: usize, headers: FrameHeaders },
}

/// What a decoder waits for, in terms of contents.
#[verifier::ext_equal]
pub enum Phase {
    Headers,
    Body { content_length: nat, headers: HeadersView },
}

impl View for State {
    type V = Phase;

    open spec fn view(&self) -> Phase {
        match *self {
            State::Headers => Phase::Headers,
            State::Body { content_length, headers } => Phase::Body {
                content_length: content_length as nat,
                headers: headers@,
            },
        }
    }
}

} // verus!
