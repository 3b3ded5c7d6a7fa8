//! The four wire shapes of the protocol, with JSON payloads kept opaque.
use serde_json::Value;
use vstd::prelude::*;

verus! {

/// The version string that every message carries.
pub const JSONRPC_VERSION: &'static str = "2.0";

/// A request id: this client only issues and only correlates integers.
pub enum RequestId {
    Integer(i64),
    String(String),
}

/// A call that expects a reply carrying the same id.
pub struct JsonRpcRequest {
    pub jsonrpc: String,
    pub id: RequestId,
    pub method: String,
    /// Absent, never `null`, when the call has no parameters.
    pub params: Option<Value>,
}

/// A one-way message: no id and no reply.
pub struct JsonRpcNotification {
    pub jsonrpc: String,
    pub method: String,
    pub params: Option<Value>,
}

/// A successful reply to the request with the same id.
pub struct JsonRpcResponse {
    pub jsonrpc: String,
    pub id: RequestId,
    pub result: Value,
}

/// The code and text of a failed call.
pub struct JsonRpcErrorBody {
    pub code: i64,
    pub message: String,
    pub data: Option<Value>,
}

/// A failed reply to the request with the same id.
pub struct JsonRpcError {
    pub jsonrpc: String,
    pub id: RequestId,
    pub error: JsonRpcErrorBody,
}

/// One line of the transport, decoded.
pub enum JsonRpcMessage {
    Request(JsonRpcRequest),
    Notification(JsonRpcNotification),
    Response(JsonRpcResponse),
    Error(JsonRpcError),
    /// Several messages sent as one JSON array.
    Batch(Vec<JsonRpcMessage>),
}

/// The integer id that a reply is correlated by: present for responses and
/// errors that carry an integer id, absent for every other message.
pub open spec fn reply_id(m: JsonRpcMessage) -> Option<i64> {
    match m {
        JsonRpcMessage::Response(r) => match r.id {
            RequestId::Integer(i) => Some(i),
            RequestId::String(_) => None,
        },
        JsonRpcMessage::Error(e) => match e.id {
            RequestId::Integer(i) => Some(i),
            RequestId::String(_) => None,
        },
        _ => None,
    }
}

/// A response or error whose id is a string: it can never be correlated.
pub open spec fn has_string_reply_id(m: JsonRpcMessage) -> bool {
    match m {
        JsonRpcMessage::Response(r) => r.id is String,
        JsonRpcMessage::Error(e) => e.id is String,
        _ => false,
    }
}

} // verus!
