//! The decisions of the protocol engine: building outgoing messages, routing
//! incoming replies to the caller that awaits them, and turning what a caller
//! observed while waiting into its result. The transport around it moves the
//! messages and waits; the pending table and the id generator are the state
//! it shares with the caller side.
use crate::json::json_is_null;
use crate::message::{
    has_string_reply_id, reply_id, JsonRpcError, JsonRpcErrorBody, JsonRpcMessage,
    JsonRpcNotification, JsonRpcRequest, JsonRpcResponse, RequestId, JSONRPC_VERSION,
};
use crate::pending::{take_spec, IdGenerator, PendingTable};
use serde_json::Value;
use vstd::prelude::*;
use vstd::string::{StrSliceExecFns, StringSliceAdditionalSpecFns};

verus! {

/// Capacity of the queue of outgoing messages.
pub const CHANNEL_CAPACITY: usize = 128;

/// How a request or notification failed, as its caller sees it.
pub enum ClientError {
    /// The writer has stopped: nothing more can be sent.
    WriterClosed,
    /// No reply came before the deadline.
    Timeout,
    /// The reply channel closed before a reply came, as when the provider exits.
    ChannelClosed,
    /// The provider answered with an error.
    Rpc { code: i64, message: String },
    /// Something other than a response or an error arrived on the reply path.
    UnexpectedReply,
    /// Every request id has been used.
    IdsExhausted,
}

/// What a caller observed while awaiting its reply.
pub enum ReplyWait {
    /// The dispatcher delivered this message.
    Reply(JsonRpcMessage),
    /// The reply channel closed without a message.
    Closed,
    /// The deadline passed first.
    TimedOut,
}

/// What the dispatcher does with one decoded incoming message.
pub enum Dispatch<T> {
    /// Hand `message` to the caller through `slot`.
    Deliver { slot: T, message: JsonRpcMessage },
    /// A reply whose id nobody awaits (late, duplicate or unknown): dropped.
    NoPending { id: i64 },
    /// A reply with a string id, which this client never issues: dropped.
    StringId,
    /// A notification from the provider: only observed.
    Notification,
    /// Any other shape (an inbound request, a batch): only observed.
    Unhandled,
}

/// The `params` field for parameters that serialised to `params`: absent for
/// `null`, the value itself otherwise.
pub open spec fn params_field(params: Value) -> Option<Value> {
    if json_is_null(params) {
        None
    } else {
        Some(params)
    }
}

/// The result a caller gets from the message that was delivered to it.
pub open spec fn reply_result(m: JsonRpcMessage) -> Result<Value, ClientError> {
    match m {
        JsonRpcMessage::Response(r) => Ok(r.result),
        JsonRpcMessage::Error(e) => Err(ClientError::Rpc { code: e.error.code, message: e.error.message }),
        _ => Err(ClientError::UnexpectedReply),
    }
}

/// `m` is the request for call `id` of `method` with parameters `params`.
pub open spec fn is_request_for(m: JsonRpcMessage, id: i64, method: String, params: Value) -> bool {
    m matches JsonRpcMessage::Request(q) && q.jsonrpc@ == JSONRPC_VERSION@ && q.id == RequestId::Integer(id)
        && q.method == method && q.params == params_field(params)
}

/// The bytes that carry one serialised message on the wire: its JSON text,
/// then a single newline.
pub fn frame_line(json: &str) -> (r: Vec<u8>)
    ensures
        r@ == json.spec_bytes().push(10u8),
{
    let mut out = json.as_bytes_vec();
    out.push(10u8);
    out
}

/// Encodes parameters as a message field: `null` becomes absence.
pub fn encode_params(params: Value) -> (r: Option<Value>)
    ensures
        r == params_field(params),
{
    if params.is_null() {
        None
    } else {
        Some(params)
    }
}

/// The request message for call `id` of `method`.
pub fn build_request(id: i64, method: String, params: Value) -> (r: JsonRpcMessage)
    ensures
        is_request_for(r, id, method, params),
{
    JsonRpcMessage::Request(
        JsonRpcRequest {
            jsonrpc: JSONRPC_VERSION.to_owned(),
            id: RequestId::Integer(id),
            method,
            params: encode_params(params),
        },
    )
}

/// The notification message for `method`.
pub fn build_notification(method: String, params: Value) -> (r: JsonRpcMessage)
    ensures
        r matches JsonRpcMessage::Notification(n) && n.jsonrpc@ == JSONRPC_VERSION@ && n.method == method
            && n.params == params_field(params),
{
    JsonRpcMessage::Notification(
        JsonRpcNotification {
            jsonrpc: JSONRPC_VERSION.to_owned(),
            method,
            params: encode_params(params),
        },
    )
}

/// Starts a request: takes a fresh id, registers `slot` for its reply, and
/// only then returns the message to hand to the writer, so that a reply that
/// comes at once always finds its entry. Once the transport has ended, it
/// fails at once instead.
pub fn begin_request<T>(
    ids: &mut IdGenerator,
    table: &mut PendingTable<T>,
    method: String,
    params: Value,
    slot: T,
) -> (r: Result<(i64, JsonRpcMessage), ClientError>)
    ensures
        old(table).is_closed() ==> r == Err::<(i64, JsonRpcMessage), ClientError>(ClientError::ChannelClosed)
            && final(ids)@ == old(ids)@ && *final(table) == *old(table),
        !old(table).is_closed() && old(ids)@ < i64::MAX ==> {
            &&& r matches Ok((id, m))
            &&& id == old(ids)@
            &&& final(ids)@ == old(ids)@ + 1
            &&& final(table)@ == old(table)@.insert(id, slot)
            &&& !final(table).is_closed()
            &&& is_request_for(m, id, method, params)
        },
        !old(table).is_closed() && old(ids)@ >= i64::MAX ==> r == Err::<(i64, JsonRpcMessage), ClientError>(ClientError::IdsExhausted)
            && final(ids)@ == old(ids)@ && *final(table) == *old(table),
{
    if table.closed() {
        return Err(ClientError::ChannelClosed);
    }
    match ids.next_id() {
        Some(id) => {
            table.register(id, slot);
            Ok((id, build_request(id, method, params)))
        },
        None => Err(ClientError::IdsExhausted),
    }
}

/// Gives up on request `id` whose message could not be queued: its entry
/// leaves the table and the caller learns that the writer is gone.
pub fn abandon_request<T>(table: &mut PendingTable<T>, id: i64) -> (r: ClientError)
    ensures
        r == ClientError::WriterClosed,
        final(table)@ == old(table)@.remove(id),
        final(table).is_closed() == old(table).is_closed(),
{
    let _ = table.take(id);
    ClientError::WriterClosed
}

/// The result of a delivered message: the response's payload, or the
/// provider's error with its code and text.
pub fn interpret_reply(m: JsonRpcMessage) -> (r: Result<Value, ClientError>)
    ensures
        r == reply_result(m),
{
    match m {
        JsonRpcMessage::Response(resp) => Ok(resp.result),
        JsonRpcMessage::Error(err) => Err(ClientError::Rpc { code: err.error.code, message: err.error.message }),
        _ => Err(ClientError::UnexpectedReply),
    }
}

/// Ends request `id` from what its caller observed. On a timeout or a closed
/// channel the caller removes its own entry, so none is left behind; the
/// dispatcher has already removed it when a reply was delivered.
pub fn finish_request<T>(table: &mut PendingTable<T>, id: i64, outcome: ReplyWait) -> (r: Result<
    Value,
    ClientError,
>)
    ensures
        outcome matches ReplyWait::Reply(m) ==> r == reply_result(m) && final(table)@ == old(table)@,
        outcome is Closed ==> r == Err::<Value, ClientError>(ClientError::ChannelClosed)
            && final(table)@ == old(table)@.remove(id),
        outcome is TimedOut ==> r == Err::<Value, ClientError>(ClientError::Timeout)
            && final(table)@ == old(table)@.remove(id),
        !(outcome is Reply) ==> !final(table)@.contains_key(id),
        final(table).is_closed() == old(table).is_closed(),
{
    match outcome {
        ReplyWait::Reply(m) => interpret_reply(m),
        ReplyWait::Closed => {
            let _ = table.take(id);
            Err(ClientError::ChannelClosed)
        },
        ReplyWait::TimedOut => {
            let _ = table.take(id);
            Err(ClientError::Timeout)
        },
    }
}

/// Routes one decoded incoming message. A response or error with an integer
/// id takes that id's entry and is delivered through its slot; nothing else
/// touches the table.
pub fn dispatch<T>(table: &mut PendingTable<T>, message: JsonRpcMessage) -> (r: Dispatch<T>)
    ensures
        reply_id(message) matches Some(id) ==> {
            &&& !old(table)@.contains_key(id) ==> r == Dispatch::<T>::NoPending { id }
            &&& old(table)@.contains_key(id) ==> r == (Dispatch::Deliver { slot: old(table)@[id], message })
            &&& final(table)@ == take_spec(old(table)@, id).0
        },
        reply_id(message) is None ==> final(table)@ == old(table)@,
        has_string_reply_id(message) ==> r is StringId,
        message is Notification ==> r is Notification,
        message is Request || message is Batch ==> r is Unhandled,
        final(table).is_closed() == old(table).is_closed(),
{
    let id = match &message {
        JsonRpcMessage::Response(resp) => match &resp.id {
            RequestId::Integer(i) => *i,
            RequestId::String(_) => {
                return Dispatch::StringId;
            },
        },
        JsonRpcMessage::Error(err) => match &err.id {
            RequestId::Integer(i) => *i,
            RequestId::String(_) => {
                return Dispatch::StringId;
            },
        },
        JsonRpcMessage::Notification(_) => {
            return Dispatch::Notification;
        },
        _ => {
            return Dispatch::Unhandled;
        },
    };
    match table.take(id) {
        Some(slot) => Dispatch::Deliver { slot, message },
        None => Dispatch::NoPending { id },
    }
}

/// A request whose caller gives up, on a timeout or a closed channel, leaves
/// the table exactly as it was before the request was registered: its fresh
/// id is gone and every other entry is untouched.
pub proof fn lemma_abandoned_request_leaves_no_trace<T>(m: Map<i64, T>, id: i64, slot: T)
    requires
        !m.contains_key(id),
    ensures
        take_spec(m.insert(id, slot), id).0 == m,
        take_spec(m.insert(id, slot), id).1 == Some(slot),
{
    assert(m.insert(id, slot).remove(id) =~= m);
}

/// Parameters that serialise to `null` never appear on the wire: the
/// request carries no `params` field at all, whatever the id and method.
pub proof fn lemma_null_params_are_left_out(m: JsonRpcMessage, id: i64, method: String, params: Value)
    requires
        is_request_for(m, id, method, params),
        json_is_null(params),
    ensures
        m matches JsonRpcMessage::Request(q) && q.params is None,
{
}

} // verus!
