//! Which operation a method names, and what a call comes to.
use crate::error_code;
use crate::json_value::{model, Json, JsonValue};
use crate::methods::{
    answers_once, streams, CANCEL_TASK, CREATE_PUSH_CONFIG, DELETE_PUSH_CONFIG,
    GET_EXTENDED_AGENT_CARD, GET_PUSH_CONFIG, GET_TASK, LIST_PUSH_CONFIGS, LIST_TASKS, SEND_MESSAGE,
    SEND_STREAMING_MESSAGE, SUBSCRIBE_TO_TASK,
};
use crate::params::{lists, ServiceParams};
use crate::protocol::{plain_error, A2AError, ErrorView, IdView, JsonRpcId};
use crate::protojson::{finish_result, finished, is_page};
use crate::text::{joined, same_text};
use vstd::prelude::*;

verus! {

// ---------------------------------------------------------------------------
// Calls.
// ---------------------------------------------------------------------------

/// A call that is to be made.
#[derive(Debug)]
pub struct Call {
    pub id: JsonRpcId,
    pub method: String,
    pub params: ServiceParams,
    pub payload: JsonValue,
}

/// A call in terms of contents.
#[verifier::ext_equal]
pub struct CallView {
    pub id: IdView,
    pub method: Seq<char>,
    pub params: Map<Seq<char>, Seq<Seq<char>>>,
    pub payload: Json,
}

impl View for Call {
    type V = CallView;

    open spec fn view(&self) -> CallView {
        CallView {
            id: self.id@,
            method: self.method@,
            params: lists(self.params@),
            payload: model(self.payload),
        }
    }
}

/// The contents of the outcome of a call.
pub open spec fn outcome(r: Result<JsonValue, A2AError>) -> Result<Json, ErrorView> {
    match r {
        Ok(v) => Ok(model(v)),
        Err(e) => Err(e@),
    }
}

/// What happens to a stream.
#[derive(Debug)]
pub enum StreamEvent {
    /// The call could not be started.
    Refused(A2AError),
    /// The client wants no more of it.
    Cancelled,
    /// It gave an item.
    Item(JsonValue),
    /// It failed.
    Failed(A2AError),
    /// It has no more items.
    Ended,
}

/// What happens to a stream, in terms of contents.
pub enum StreamEventView {
    Refused(ErrorView),
    Cancelled,
    Item(Json),
    Failed(ErrorView),
    Ended,
}

impl View for StreamEvent {
    type V = StreamEventView;

    open spec fn view(&self) -> StreamEventView {
        match *self {
            StreamEvent::Refused(e) => StreamEventView::Refused(e@),
            StreamEvent::Cancelled => StreamEventView::Cancelled,
            StreamEvent::Item(v) => StreamEventView::Item(model(v)),
            StreamEvent::Failed(e) => StreamEventView::Failed(e@),
            StreamEvent::Ended => StreamEventView::Ended,
        }
    }
}

// ---------------------------------------------------------------------------
// Operations.
// ---------------------------------------------------------------------------

/// An operation that answers once.
#[derive(Debug, Clone, Copy, PartialEq, Eq, Structural)]
pub enum Operation {
    SendMessage,
    GetTask,
    ListTasks,
    CancelTask,
    CreatePushConfig,
    GetPushConfig,
    ListPushConfigs,
    DeletePushConfig,
    GetExtendedAgentCard,
}

/// An operation that answers with a stream.
#[derive(Debug, Clone, Copy, PartialEq, Eq, Structural)]
pub enum StreamOperation {
    SendStreamingMessage,
    SubscribeToTask,
}

/// The method of an operation.
pub open spec fn operation_name(o: Operation) -> Seq<char> {
    match o {
        Operation::SendMessage => SEND_MESSAGE@,
        Operation::GetTask => GET_TASK@,
        Operation::ListTasks => LIST_TASKS@,
        Operation::CancelTask => CANCEL_TASK@,
        Operation::CreatePushConfig => CREATE_PUSH_CONFIG@,
        Operation::GetPushConfig => GET_PUSH_CONFIG@,
        Operation::ListPushConfigs => LIST_PUSH_CONFIGS@,
        Operation::DeletePushConfig => DELETE_PUSH_CONFIG@,
        Operation::GetExtendedAgentCard => GET_EXTENDED_AGENT_CARD@,
    }
}

/// The method of an operation.
pub open spec fn stream_operation_name(o: StreamOperation) -> Seq<char> {
    match o {
        StreamOperation::SendStreamingMessage => SEND_STREAMING_MESSAGE@,
        StreamOperation::SubscribeToTask => SUBSCRIBE_TO_TASK@,
    }
}

/// There is no such method.
pub open spec fn no_such_method(method: Seq<char>) -> ErrorView {
    plain_error(error_code::METHOD_NOT_FOUND, "method not found: "@ + method)
}

/// The operation that a method names, if it names one that answers once.
pub fn operation_of(method: &str) -> (r: Option<Operation>)
    ensures
        r matches Some(o) ==> operation_name(o) == method@,
        r is None ==> !answers_once(method@),
{
    if same_text(method, SEND_MESSAGE) {
        Some(Operation::SendMessage)
    } else if same_text(method, GET_TASK) {
        Some(Operation::GetTask)
    } else if same_text(method, LIST_TASKS) {
        Some(Operation::ListTasks)
    } else if same_text(method, CANCEL_TASK) {
        Some(Operation::CancelTask)
    } else if same_text(method, CREATE_PUSH_CONFIG) {
        Some(Operation::CreatePushConfig)
    } else if same_text(method, GET_PUSH_CONFIG) {
        Some(Operation::GetPushConfig)
    } else if same_text(method, LIST_PUSH_CONFIGS) {
        Some(Operation::ListPushConfigs)
    } else if same_text(method, DELETE_PUSH_CONFIG) {
        Some(Operation::DeletePushConfig)
    } else if same_text(method, GET_EXTENDED_AGENT_CARD) {
        Some(Operation::GetExtendedAgentCard)
    } else {
        None
    }
}

/// The operation that a method names, where it must answer once.
pub fn dispatch_unary(method: &str) -> (r: Result<Operation, A2AError>)
    ensures
        match r {
            Ok(o) => operation_name(o) == method@,
            Err(e) => !answers_once(method@) && e@ == (if method@ == ""@ {
                plain_error(error_code::INVALID_REQUEST, "method is required"@)
            } else {
                no_such_method(method@)
            }),
        },
{
    match operation_of(method) {
        Some(o) => Ok(o),
        None => if same_text(method, "") {
            Err(A2AError::invalid_request("method is required"))
        } else {
            Err(A2AError::method_not_found(method))
        },
    }
}

/// The operation that a method names, where it must answer with a stream.
pub fn dispatch_streaming(method: &str) -> (r: Result<StreamOperation, A2AError>)
    ensures
        match r {
            Ok(o) => stream_operation_name(o) == method@,
            Err(e) => !streams(method@) && e@ == no_such_method(method@),
        },
{
    if same_text(method, SEND_STREAMING_MESSAGE) {
        Ok(StreamOperation::SendStreamingMessage)
    } else if same_text(method, SUBSCRIBE_TO_TASK) {
        Ok(StreamOperation::SubscribeToTask)
    } else {
        Err(A2AError::method_not_found(method))
    }
}

/// Different operations have different methods.
pub proof fn law_operations_are_told_apart(a: Operation, b: Operation)
    requires
        operation_name(a) == operation_name(b),
    ensures
        a == b,
{
    reveal_strlit("SendMessage");
    reveal_strlit("GetTask");
    reveal_strlit("ListTasks");
    reveal_strlit("CancelTask");
    reveal_strlit("CreateTaskPushNotificationConfig");
    reveal_strlit("GetTaskPushNotificationConfig");
    reveal_strlit("ListTaskPushNotificationConfigs");
    reveal_strlit("DeleteTaskPushNotificationConfig");
    reveal_strlit("GetExtendedAgentCard");
    assert(SEND_MESSAGE@.len() == 11 && GET_TASK@.len() == 7 && LIST_TASKS@.len() == 9);
    assert(CANCEL_TASK@.len() == 10 && CREATE_PUSH_CONFIG@.len() == 32);
    assert(GET_PUSH_CONFIG@.len() == 29 && LIST_PUSH_CONFIGS@.len() == 31);
    assert(DELETE_PUSH_CONFIG@.len() == 32 && GET_EXTENDED_AGENT_CARD@.len() == 20);
    assert(CREATE_PUSH_CONFIG@[0] == 'C' && DELETE_PUSH_CONFIG@[0] == 'D');
}

/// What the handler of a call made of it.
#[derive(Debug)]
pub enum Handled {
    /// The payload is not that of the operation.
    Unreadable(String),
    /// The operation failed.
    Failed(A2AError),
    /// It was done and gives nothing.
    Done,
    /// It gave this.
    Value(JsonValue),
    /// It gave something that cannot be written.
    Unwritable(String),
}

/// What the handler of a call made of it, in terms of contents.
pub enum HandledView {
    Unreadable(Seq<char>),
    Failed(ErrorView),
    Done,
    Value(Json),
    Unwritable(Seq<char>),
}

impl View for Handled {
    type V = HandledView;

    open spec fn view(&self) -> HandledView {
        match *self {
            Handled::Unreadable(e) => HandledView::Unreadable(e@),
            Handled::Failed(e) => HandledView::Failed(e@),
            Handled::Done => HandledView::Done,
            Handled::Value(v) => HandledView::Value(model(v)),
            Handled::Unwritable(e) => HandledView::Unwritable(e@),
        }
    }
}

/// The error for a result that cannot be written.
pub open spec fn unwritable(e: Seq<char>) -> ErrorView {
    plain_error(error_code::INTERNAL_ERROR, "failed to serialize ProtoJSON payload: "@ + e)
}

/// The error for a stream's item that cannot be written.
pub open spec fn unwritable_item(e: Seq<char>) -> ErrorView {
    plain_error(error_code::INTERNAL_ERROR, "failed to serialize ProtoJSON stream payload: "@ + e)
}

/// The error for a payload that is not that of the operation.
pub open spec fn unreadable_payload(e: Seq<char>) -> ErrorView {
    plain_error(error_code::PARSE_ERROR, "invalid params: "@ + e)
}

/// What a call of a method comes to. A result is made ready to be sent.
pub open spec fn call_outcome(method: Seq<char>, h: HandledView) -> Result<Json, ErrorView> {
    match h {
        HandledView::Unreadable(e) => Err(unreadable_payload(e)),
        HandledView::Failed(e) => Err(e),
        HandledView::Done => Ok(Json::Null),
        HandledView::Value(j) => Ok(finished(j, is_page(method))),
        HandledView::Unwritable(e) => Err(unwritable(e)),
    }
}

/// The error for a result that cannot be written.
pub fn unwritable_error(e: &str) -> (r: A2AError)
    ensures
        r@ == unwritable(e@),
{
    A2AError::internal(joined("failed to serialize ProtoJSON payload: ", e).as_str())
}

/// The error for a stream's item that cannot be written.
pub fn unwritable_item_error(e: &str) -> (r: A2AError)
    ensures
        r@ == unwritable_item(e@),
{
    A2AError::internal(joined("failed to serialize ProtoJSON stream payload: ", e).as_str())
}

/// What a call of a method comes to. A result is made ready to be sent.
pub fn finish_unary(method: &str, h: Handled) -> (r: Result<JsonValue, A2AError>)
    ensures
        outcome(r) == call_outcome(method@, h@),
{
    match h {
        Handled::Unreadable(e) => Err(
            A2AError::parse_error(joined("invalid params: ", e.as_str()).as_str()),
        ),
        Handled::Failed(e) => Err(e),
        Handled::Done => Ok(JsonValue::Null),
        Handled::Value(v) => Ok(finish_result(method, v)),
        Handled::Unwritable(e) => Err(unwritable_error(e.as_str())),
    }
}

} // verus!
