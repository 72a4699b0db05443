//! The numeric codes of errors.
use vstd::prelude::*;

verus! {

pub const PARSE_ERROR: i32 = -32700;
pub const INVALID_REQUEST: i32 = -32600;
pub const METHOD_NOT_FOUND: i32 = -32601;
pub const INVALID_PARAMS: i32 = -32602;
pub const INTERNAL_ERROR: i32 = -32603;
pub const TASK_NOT_FOUND: i32 = -32001;
pub const TASK_NOT_CANCELABLE: i32 = -32002;
pub const PUSH_NOTIFICATION_NOT_SUPPORTED: i32 = -32003;
pub const UNSUPPORTED_OPERATION: i32 = -32004;
pub const CONTENT_TYPE_NOT_SUPPORTED: i32 = -32005;
pub const INVALID_AGENT_RESPONSE: i32 = -32006;
pub const EXTENDED_CARD_NOT_CONFIGURED: i32 = -32007;
pub const EXTENSION_SUPPORT_REQUIRED: i32 = -32008;
pub const VERSION_NOT_SUPPORTED: i32 = -32009;

/// The name of a code, if it has one. Error objects carry it as their reason.
pub open spec fn reason(code: i32) -> Option<Seq<char>> {
    if code == PARSE_ERROR {
        Some("PARSE_ERROR"@)
    } else if code == INVALID_REQUEST {
        Some("INVALID_REQUEST"@)
    } else if code == METHOD_NOT_FOUND {
        Some("METHOD_NOT_FOUND"@)
    } else if code == INVALID_PARAMS {
        Some("INVALID_PARAMS"@)
    } else if code == INTERNAL_ERROR {
        Some("INTERNAL_ERROR"@)
    } else if code == TASK_NOT_FOUND {
        Some("TASK_NOT_FOUND"@)
    } else if code == TASK_NOT_CANCELABLE {
        Some("TASK_NOT_CANCELABLE"@)
    } else if code == PUSH_NOTIFICATION_NOT_SUPPORTED {
        Some("PUSH_NOTIFICATION_NOT_SUPPORTED"@)
    } else if code == UNSUPPORTED_OPERATION {
        Some("UNSUPPORTED_OPERATION"@)
    } else if code == CONTENT_TYPE_NOT_SUPPORTED {
        Some("CONTENT_TYPE_NOT_SUPPORTED"@)
    } else if code == INVALID_AGENT_RESPONSE {
        Some("INVALID_AGENT_RESPONSE"@)
    } else if code == EXTENDED_CARD_NOT_CONFIGURED {
        Some("EXTENDED_CARD_NOT_CONFIGURED"@)
    } else if code == EXTENSION_SUPPORT_REQUIRED {
        Some("EXTENSION_SUPPORT_REQUIRED"@)
    } else if code == VERSION_NOT_SUPPORTED {
        Some("VERSION_NOT_SUPPORTED"@)
    } else {
        None
    }
}

/// The name of a code, if it has one.
pub fn reason_text(code: i32) -> (r: Option<&'static str>)
    ensures
        match r {
            Some(t) => reason(code) == Some(t@),
            None => reason(code) is None,
        },
{
    if code == PARSE_ERROR {
        Some("PARSE_ERROR")
    } else if code == INVALID_REQUEST {
        Some("INVALID_REQUEST")
    } else if code == METHOD_NOT_FOUND {
        Some("METHOD_NOT_FOUND")
    } else if code == INVALID_PARAMS {
        Some("INVALID_PARAMS")
    } else if code == INTERNAL_ERROR {
        Some("INTERNAL_ERROR")
    } else if code == TASK_NOT_FOUND {
        Some("TASK_NOT_FOUND")
    } else if code == TASK_NOT_CANCELABLE {
        Some("TASK_NOT_CANCELABLE")
    } else if code == PUSH_NOTIFICATION_NOT_SUPPORTED {
        Some("PUSH_NOTIFICATION_NOT_SUPPORTED")
    } else if code == UNSUPPORTED_OPERATION {
        Some("UNSUPPORTED_OPERATION")
    } else if code == CONTENT_TYPE_NOT_SUPPORTED {
        Some("CONTENT_TYPE_NOT_SUPPORTED")
    } else if code == INVALID_AGENT_RESPONSE {
        Some("INVALID_AGENT_RESPONSE")
    } else if code == EXTENDED_CARD_NOT_CONFIGURED {
        Some("EXTENDED_CARD_NOT_CONFIGURED")
    } else if code == EXTENSION_SUPPORT_REQUIRED {
        Some("EXTENSION_SUPPORT_REQUIRED")
    } else if code == VERSION_NOT_SUPPORTED {
        Some("VERSION_NOT_SUPPORTED")
    } else {
        None
    }
}

} // verus!
