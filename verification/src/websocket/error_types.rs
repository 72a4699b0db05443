//! The names of the kinds of errors.
//!
//! They say more plainly what an error's number says; the number decides.
use vstd::prelude::*;

verus! {

pub const JSON_PARSE: &'static str = "JSONParseError";
pub const INVALID_REQUEST: &'static str = "InvalidRequestError";
pub const METHOD_NOT_FOUND: &'static str = "MethodNotFoundError";
pub const INVALID_PARAMS: &'static str = "InvalidParamsError";
pub const INTERNAL: &'static str = "InternalError";
pub const TASK_NOT_FOUND: &'static str = "TaskNotFoundError";
pub const TASK_NOT_CANCELABLE: &'static str = "TaskNotCancelableError";
pub const PUSH_NOTIFICATION_NOT_SUPPORTED: &'static str = "PushNotificationNotSupportedError";
pub const UNSUPPORTED_OPERATION: &'static str = "UnsupportedOperationError";
pub const CONTENT_TYPE_NOT_SUPPORTED: &'static str = "ContentTypeNotSupportedError";
pub const INVALID_AGENT_RESPONSE: &'static str = "InvalidAgentResponseError";
pub const EXTENDED_CARD_NOT_CONFIGURED: &'static str = "ExtendedAgentCardNotConfiguredError";
pub const EXTENSION_SUPPORT_REQUIRED: &'static str = "ExtensionSupportRequiredError";
pub const VERSION_NOT_SUPPORTED: &'static str = "VersionNotSupportedError";

} // verus!
