//! The names of the methods.
use crate::text::same_text;
use vstd::prelude::*;

verus! {

/// Refreshes a connection's credentials. It belongs to the WebSocket binding
/// alone and is therefore no known method.
pub const AUTHENTICATE: &'static str = "Authenticate";

pub const SEND_MESSAGE: &'static str = "SendMessage";
pub const SEND_STREAMING_MESSAGE: &'static str = "SendStreamingMessage";
pub const GET_TASK: &'static str = "GetTask";
pub const LIST_TASKS: &'static str = "ListTasks";
pub const CANCEL_TASK: &'static str = "CancelTask";
pub const SUBSCRIBE_TO_TASK: &'static str = "SubscribeToTask";
pub const CREATE_PUSH_CONFIG: &'static str = "CreateTaskPushNotificationConfig";
pub const GET_PUSH_CONFIG: &'static str = "GetTaskPushNotificationConfig";
pub const LIST_PUSH_CONFIGS: &'static str = "ListTaskPushNotificationConfigs";
pub const DELETE_PUSH_CONFIG: &'static str = "DeleteTaskPushNotificationConfig";
pub const GET_EXTENDED_AGENT_CARD: &'static str = "GetExtendedAgentCard";

/// Whether a method answers with a stream.
pub open spec fn streams(method: Seq<char>) -> bool {
    method == SEND_STREAMING_MESSAGE@ || method == SUBSCRIBE_TO_TASK@
}

/// Whether a method answers once.
pub open spec fn answers_once(method: Seq<char>) -> bool {
    ||| method == SEND_MESSAGE@
    ||| method == GET_TASK@
    ||| method == LIST_TASKS@
    ||| method == CANCEL_TASK@
    ||| method == CREATE_PUSH_CONFIG@
    ||| method == GET_PUSH_CONFIG@
    ||| method == LIST_PUSH_CONFIGS@
    ||| method == DELETE_PUSH_CONFIG@
    ||| method == GET_EXTENDED_AGENT_CARD@
}

/// Whether a method is in the inventory.
pub open spec fn known(method: Seq<char>) -> bool {
    streams(method) || answers_once(method)
}

/// Whether `method` answers with a stream.
pub fn is_streaming(method: &str) -> (r: bool)
    ensures
        r == streams(method@),
{
    same_text(method, SEND_STREAMING_MESSAGE) || same_text(method, SUBSCRIBE_TO_TASK)
}

/// Whether `method` is in the inventory.
pub fn is_known(method: &str) -> (r: bool)
    ensures
        r == known(method@),
{
    is_streaming(method) || same_text(method, SEND_MESSAGE) || same_text(method, GET_TASK)
        || same_text(method, LIST_TASKS) || same_text(method, CANCEL_TASK) || same_text(
        method,
        CREATE_PUSH_CONFIG,
    ) || same_text(method, GET_PUSH_CONFIG) || same_text(method, LIST_PUSH_CONFIGS) || same_text(
        method,
        DELETE_PUSH_CONFIG,
    ) || same_text(method, GET_EXTENDED_AGENT_CARD)
}

/// No method both streams and answers once, and re-authentication is no method
/// of the inventory.
pub proof fn law_methods_are_told_apart(method: Seq<char>)
    ensures
        !(streams(method) && answers_once(method)),
        !known(AUTHENTICATE@),
        !known(""@),
{
    reveal_strlit("Authenticate");
    reveal_strlit("SendMessage");
    reveal_strlit("SendStreamingMessage");
    reveal_strlit("GetTask");
    reveal_strlit("ListTasks");
    reveal_strlit("CancelTask");
    reveal_strlit("SubscribeToTask");
    reveal_strlit("CreateTaskPushNotificationConfig");
    reveal_strlit("GetTaskPushNotificationConfig");
    reveal_strlit("ListTaskPushNotificationConfigs");
    reveal_strlit("DeleteTaskPushNotificationConfig");
    reveal_strlit("GetExtendedAgentCard");
    reveal_strlit("");
    assert("Authenticate"@.len() == 12);
    assert("SendMessage"@.len() == 11);
    assert("SendStreamingMessage"@.len() == 20);
    assert("GetTask"@.len() == 7);
    assert("ListTasks"@.len() == 9);
    assert("CancelTask"@.len() == 10);
    assert("SubscribeToTask"@.len() == 15);
    assert("CreateTaskPushNotificationConfig"@.len() == 32);
    assert("GetTaskPushNotificationConfig"@.len() == 29);
    assert("ListTaskPushNotificationConfigs"@.len() == 31);
    assert("DeleteTaskPushNotificationConfig"@.len() == 32);
    assert("GetExtendedAgentCard"@.len() == 20);
    assert("SendStreamingMessage"@[0] == 'S' && "GetExtendedAgentCard"@[0] == 'G');
}

} // verus!
