//! Control frames and the errors of reading messages.
//!
//! Control frames are JSON whatever variant was chosen, because they are
//! exchanged before the choice.
use crate::text::{joined, quoted, quoted_text, texts};
use vstd::prelude::*;

verus! {

/// How messages are written, as agreed in the handshake.
#[derive(Debug, Clone, Copy, PartialEq, Eq, Structural)]
pub enum Variant {
    Json,
    Proto,
}

/// The token of a variant on the wire.
pub open spec fn variant_token(v: Variant) -> Seq<char> {
    match v {
        Variant::Json => "stdio-json"@,
        Variant::Proto => "stdio-proto"@,
    }
}

impl Variant {
    /// The token of this variant on the wire.
    pub fn as_str(self) -> (r: &'static str)
        ensures
            r@ == variant_token(self),
    {
        match self {
            Variant::Json => "stdio-json",
            Variant::Proto => "stdio-proto",
        }
    }
}

/// The first frame, from the server: what it speaks.
#[derive(Debug, PartialEq)]
pub struct Handshake {
    pub protocol: String,
    pub protocol_version: String,
    pub session_id: String,
    /// In the server's order of preference, the most preferred first.
    pub supported_variants: Vec<Variant>,
    pub features: Vec<String>,
    pub pid: Option<u32>,
}

/// A handshake in terms of contents.
#[verifier::ext_equal]
pub struct HandshakeView {
    pub protocol: Seq<char>,
    pub protocol_version: Seq<char>,
    pub session_id: Seq<char>,
    pub supported_variants: Seq<Variant>,
    pub features: Seq<Seq<char>>,
    pub pid: Option<u32>,
}

impl View for Handshake {
    type V = HandshakeView;

    open spec fn view(&self) -> HandshakeView {
        HandshakeView {
            protocol: self.protocol@,
            protocol_version: self.protocol_version@,
            session_id: self.session_id@,
            supported_variants: self.supported_variants@,
            features: texts(self.features@),
            pid: self.pid,
        }
    }
}

/// The client's answer: which variant it chose, or that it declines.
#[derive(Debug, PartialEq)]
pub struct HandshakeAck {
    pub session_id: String,
    pub select_variant: Variant,
    pub accept: bool,
}

/// An answer in terms of contents.
#[verifier::ext_equal]
pub struct AckView {
    pub session_id: Seq<char>,
    pub select_variant: Variant,
    pub accept: bool,
}

impl View for HandshakeAck {
    type V = AckView;

    open spec fn view(&self) -> AckView {
        AckView {
            session_id: self.session_id@,
            select_variant: self.select_variant,
            accept: self.accept,
        }
    }
}

/// A sign of life. `ts` counts the milliseconds since the Unix epoch.
#[derive(Debug, PartialEq)]
pub struct Heartbeat {
    pub session_id: String,
    pub ts: u64,
}

/// A frame of the session itself, as opposed to a message.
#[derive(Debug, PartialEq)]
pub enum ControlFrame {
    Handshake(Handshake),
    HandshakeAck(HandshakeAck),
    Heartbeat(Heartbeat),
}

/// A control frame in terms of contents.
#[verifier::ext_equal]
pub enum ControlView {
    Handshake(HandshakeView),
    HandshakeAck(AckView),
    Heartbeat(Seq<char>, u64),
}

impl View for ControlFrame {
    type V = ControlView;

    open spec fn view(&self) -> ControlView {
        match *self {
            ControlFrame::Handshake(h) => ControlView::Handshake(h@),
            ControlFrame::HandshakeAck(a) => ControlView::HandshakeAck(a@),
            ControlFrame::Heartbeat(b) => ControlView::Heartbeat(b.session_id@, b.ts),
        }
    }
}

/// Why a frame's body is no message.
#[derive(Debug, PartialEq)]
pub enum WireError {
    /// Not JSON, or a member is missing or of the wrong type.
    Json(String),
    NotAnObject,
    BadVersion(String),
    UnrecognizedMessage,
}

/// A `WireError` in terms of contents.
pub enum WireFault {
    Json(Seq<char>),
    NotAnObject,
    BadVersion(Seq<char>),
    UnrecognizedMessage,
}

impl View for WireError {
    type V = WireFault;

    open spec fn view(&self) -> WireFault {
        match *self {
            WireError::Json(s) => WireFault::Json(s@),
            WireError::NotAnObject => WireFault::NotAnObject,
            WireError::BadVersion(s) => WireFault::BadVersion(s@),
            WireError::UnrecognizedMessage => WireFault::UnrecognizedMessage,
        }
    }
}

/// How an error reads.
pub open spec fn wire_message(f: WireFault) -> Seq<char> {
    match f {
        WireFault::Json(s) => "invalid JSON: "@ + s,
        WireFault::NotAnObject => "message is not a JSON object"@,
        WireFault::BadVersion(s) => "bad or missing jsonrpc version: "@ + quoted(s),
        WireFault::UnrecognizedMessage => "unrecognized message shape"@,
    }
}

impl WireError {
    /// The error as a message for people.
    pub fn message(&self) -> (r: String)
        ensures
            r@ == wire_message(self@),
    {
        match self {
            WireError::Json(s) => joined("invalid JSON: ", s.as_str()),
            WireError::NotAnObject => "message is not a JSON object".to_owned(),
            WireError::BadVersion(s) => joined(
                "bad or missing jsonrpc version: ",
                quoted_text(s.as_str()).as_str(),
            ),
            WireError::UnrecognizedMessage => "unrecognized message shape".to_owned(),
        }
    }
}

} // verus!
