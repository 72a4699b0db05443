//! Errors and the codes that connections are closed with.
use crate::error_code;
use crate::protocol::{plain_error, reported, A2AError, JsonRpcError};
use vstd::prelude::*;

verus! {

pub const NORMAL_CLOSURE: u16 = 1000;
pub const GOING_AWAY: u16 = 1001;
pub const PROTOCOL_ERROR: u16 = 1002;
pub const UNSUPPORTED_DATA: u16 = 1003;
pub const POLICY_VIOLATION: u16 = 1008;
pub const MESSAGE_TOO_BIG: u16 = 1009;
pub const INTERNAL_ERROR: u16 = 1011;
pub const TRY_AGAIN_LATER: u16 = 1013;
pub const A2A_PROTOCOL_ERROR: u16 = 4000;
pub const AUTHENTICATION_REQUIRED: u16 = 4001;
pub const VERSION_NOT_SUPPORTED: u16 = 4002;

/// The error object of an error.
pub fn a2a_error_to_jsonrpc(err: &A2AError) -> (r: JsonRpcError)
    ensures
        r@ == reported(err@),
{
    err.to_jsonrpc_error()
}

/// The error of an error object: its code and message.
pub fn jsonrpc_error_to_a2a(err: &JsonRpcError) -> (r: A2AError)
    ensures
        r@ == plain_error(err@.code, err@.message),
{
    A2AError::new(err.code, err.message.clone())
}

/// The code that a connection is closed with where an error ends it.
pub open spec fn fatal_code(code: i32) -> Option<u16> {
    if code == error_code::PARSE_ERROR {
        Some(PROTOCOL_ERROR)
    } else if code == error_code::VERSION_NOT_SUPPORTED {
        Some(VERSION_NOT_SUPPORTED)
    } else {
        None
    }
}

/// The code that a connection is closed with where an error ends it. Most
/// errors do not.
pub fn close_code_for_fatal(err: &A2AError) -> (r: Option<u16>)
    ensures
        r == fatal_code(err@.code),
{
    if err.code == error_code::PARSE_ERROR {
        Some(PROTOCOL_ERROR)
    } else if err.code == error_code::VERSION_NOT_SUPPORTED {
        Some(VERSION_NOT_SUPPORTED)
    } else {
        None
    }
}

/// What can go wrong while a frame is read.
#[derive(Debug, Clone, Copy, PartialEq, Eq, Structural)]
pub enum ReadFault {
    FrameTooLarge,
    InvalidFragment,
    InvalidUtf8,
    InvalidContinuationFrame,
    InvalidCloseFrame,
    InvalidCloseCode,
    ReservedBitsNotZero,
    ControlFrameFragmented,
    PingFrameTooLarge,
    /// The peer has gone.
    ConnectionClosed,
    /// The peer went in the middle of a frame.
    UnexpectedEof,
    /// The connection is broken, or was never made.
    Broken,
}

/// The code that a connection is closed with after a fault: nothing where the
/// peer could not be told.
pub open spec fn read_fault_code(f: ReadFault) -> Option<u16> {
    match f {
        ReadFault::FrameTooLarge => Some(MESSAGE_TOO_BIG),
        ReadFault::ConnectionClosed => None,
        ReadFault::UnexpectedEof => None,
        ReadFault::Broken => None,
        _ => Some(PROTOCOL_ERROR),
    }
}

/// The code that a connection is closed with after a fault.
pub fn close_code_for_read_error(err: &ReadFault) -> (r: Option<u16>)
    ensures
        r == read_fault_code(*err),
{
    match err {
        ReadFault::FrameTooLarge => Some(MESSAGE_TOO_BIG),
        ReadFault::InvalidFragment
        | ReadFault::InvalidUtf8
        | ReadFault::InvalidContinuationFrame
        | ReadFault::InvalidCloseFrame
        | ReadFault::InvalidCloseCode
        | ReadFault::ReservedBitsNotZero
        | ReadFault::ControlFrameFragmented
        | ReadFault::PingFrameTooLarge => Some(PROTOCOL_ERROR),
        _ => None,
    }
}

} // verus!
