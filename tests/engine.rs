use mcp_client::client::{
    abandon_request, begin_request, build_notification, dispatch, finish_request, frame_line,
    interpret_reply,
    ClientError, Dispatch, ReplyWait,
};
use mcp_client::message::{
    JsonRpcError, JsonRpcErrorBody, JsonRpcMessage, JsonRpcNotification, JsonRpcResponse, RequestId,
};
use mcp_client::pending::{IdGenerator, PendingTable};
use serde_json::Value;

fn json(text: &str) -> Value {
    serde_json::from_str(text).unwrap()
}

fn response(id: RequestId, result: Value) -> JsonRpcMessage {
    JsonRpcMessage::Response(JsonRpcResponse { jsonrpc: "2.0".to_string(), id, result })
}

fn error_reply(id: RequestId, code: i64, message: &str) -> JsonRpcMessage {
    JsonRpcMessage::Error(JsonRpcError {
        jsonrpc: "2.0".to_string(),
        id,
        error: JsonRpcErrorBody { code, message: message.to_string(), data: None },
    })
}

fn start(
    ids: &mut IdGenerator,
    table: &mut PendingTable<u32>,
    method: &str,
    params: Value,
    slot: u32,
) -> (i64, JsonRpcMessage) {
    match begin_request(ids, table, method.to_string(), params, slot) {
        Ok(started) => started,
        Err(_) => panic!("request not started"),
    }
}

#[test]
fn ids_start_at_one_and_increase() {
    let mut ids = IdGenerator::new();
    assert_eq!(ids.next_id(), Some(1));
    assert_eq!(ids.next_id(), Some(2));
    assert_eq!(ids.next_id(), Some(3));
}

#[test]
fn take_twice_delivers_once() {
    let mut table: PendingTable<&str> = PendingTable::new();
    table.register(7, "caller");
    assert_eq!(table.take(7), Some("caller"));
    assert_eq!(table.take(7), None);
    assert!(table.is_empty());
    assert_eq!(table.len(), 0);
}

#[test]
fn null_params_leave_the_field_out() {
    let mut ids = IdGenerator::new();
    let mut table: PendingTable<u32> = PendingTable::new();
    let (id, message) = start(&mut ids, &mut table, "tools/list", Value::Null, 0);
    assert_eq!(id, 1);
    match message {
        JsonRpcMessage::Request(q) => {
            assert_eq!(q.jsonrpc, "2.0");
            assert_eq!(q.method, "tools/list");
            assert!(matches!(q.id, RequestId::Integer(1)));
            assert!(q.params.is_none());
        }
        _ => panic!("not a request"),
    }
    let (_, message) = start(&mut ids, &mut table, "tools/call", json(r#"{"name":"echo"}"#), 1);
    match message {
        JsonRpcMessage::Request(q) => assert_eq!(q.params, Some(json(r#"{"name":"echo"}"#))),
        _ => panic!("not a request"),
    }
    match build_notification("notifications/initialized".to_string(), Value::Null) {
        JsonRpcMessage::Notification(n) => {
            assert_eq!(n.method, "notifications/initialized");
            assert!(n.params.is_none());
        }
        _ => panic!("not a notification"),
    }
}

#[test]
fn initialize_response_reaches_its_caller() {
    let mut ids = IdGenerator::new();
    let mut table: PendingTable<u32> = PendingTable::new();
    let (id, _) = start(&mut ids, &mut table, "initialize", json(r#"{"protocolVersion":"2025-06-18"}"#), 42);
    assert!(table.contains(id));
    let result = json(r#"{"protocolVersion":"2025-06-18","serverInfo":{"name":"echo","version":"1"}}"#);
    match dispatch(&mut table, response(RequestId::Integer(id), result.clone())) {
        Dispatch::Deliver { slot, message } => {
            assert_eq!(slot, 42);
            match finish_request(&mut table, id, ReplyWait::Reply(message)) {
                Ok(v) => assert_eq!(v, result),
                Err(_) => panic!("expected the initialize result"),
            }
        }
        _ => panic!("expected delivery"),
    }
    assert!(table.is_empty());
    assert!(matches!(
        build_notification("notifications/initialized".to_string(), Value::Null),
        JsonRpcMessage::Notification(_)
    ));
}

#[test]
fn timed_out_request_leaves_no_entry() {
    let mut ids = IdGenerator::new();
    let mut table: PendingTable<u32> = PendingTable::new();
    let (id, _) = start(&mut ids, &mut table, "tools/list", Value::Null, 1);
    let r = finish_request(&mut table, id, ReplyWait::TimedOut);
    assert!(matches!(r, Err(ClientError::Timeout)));
    assert!(!table.contains(id));
    assert!(table.is_empty());
    // A reply arriving after the deadline finds nobody waiting.
    assert!(matches!(
        dispatch(&mut table, response(RequestId::Integer(id), Value::Null)),
        Dispatch::NoPending { id: 1 }
    ));
}

#[test]
fn call_tool_result_is_handed_back_exactly() {
    let mut ids = IdGenerator::new();
    let mut table: PendingTable<u32> = PendingTable::new();
    let (id, message) = start(&mut ids, &mut table, "tools/call", json(r#"{"name":"echo","arguments":{"text":"hi"}}"#), 5);
    match message {
        JsonRpcMessage::Request(q) => {
            assert_eq!(q.params, Some(json(r#"{"name":"echo","arguments":{"text":"hi"}}"#)))
        }
        _ => panic!("not a request"),
    }
    let result = json(r#"{"content":[{"type":"text","text":"hi"}]}"#);
    let delivered = match dispatch(&mut table, response(RequestId::Integer(id), result)) {
        Dispatch::Deliver { message, .. } => message,
        _ => panic!("expected delivery"),
    };
    let value = match finish_request(&mut table, id, ReplyWait::Reply(delivered)) {
        Ok(v) => v,
        Err(_) => panic!("expected a result"),
    };
    assert_eq!(value["content"][0]["type"], "text");
    assert_eq!(value["content"][0]["text"], "hi");
}

#[test]
fn closed_transport_fails_the_pending_caller() {
    let mut ids = IdGenerator::new();
    let mut table: PendingTable<u32> = PendingTable::new();
    let (id, _) = start(&mut ids, &mut table, "tools/list", Value::Null, 1);
    let r = finish_request(&mut table, id, ReplyWait::Closed);
    assert!(matches!(r, Err(ClientError::ChannelClosed)));
    assert!(table.is_empty());
}

#[test]
fn unsent_request_is_withdrawn() {
    let mut ids = IdGenerator::new();
    let mut table: PendingTable<u32> = PendingTable::new();
    let (id, _) = start(&mut ids, &mut table, "tools/list", Value::Null, 1);
    assert!(matches!(abandon_request(&mut table, id), ClientError::WriterClosed));
    assert!(table.is_empty());
}

#[test]
fn replies_reach_their_own_callers_in_any_order() {
    let mut ids = IdGenerator::new();
    let mut table: PendingTable<u32> = PendingTable::new();
    let (a, _) = start(&mut ids, &mut table, "tools/call", json(r#"{"n":1}"#), 100);
    let (b, _) = start(&mut ids, &mut table, "tools/call", json(r#"{"n":2}"#), 200);
    let (c, _) = start(&mut ids, &mut table, "tools/call", json(r#"{"n":3}"#), 300);
    for (id, expected) in [(c, 300), (a, 100), (b, 200)] {
        match dispatch(&mut table, response(RequestId::Integer(id), json("{}"))) {
            Dispatch::Deliver { slot, .. } => assert_eq!(slot, expected),
            _ => panic!("expected delivery"),
        }
    }
    assert!(table.is_empty());
}

#[test]
fn provider_error_is_reported_with_code_and_message() {
    let mut table: PendingTable<u32> = PendingTable::new();
    table.register(3, 9);
    let delivered = match dispatch(&mut table, error_reply(RequestId::Integer(3), -32601, "no such method")) {
        Dispatch::Deliver { slot, message } => {
            assert_eq!(slot, 9);
            message
        }
        _ => panic!("expected delivery"),
    };
    match interpret_reply(delivered) {
        Err(ClientError::Rpc { code, message }) => {
            assert_eq!(code, -32601);
            assert_eq!(message, "no such method");
        }
        _ => panic!("expected a provider error"),
    }
}

#[test]
fn unroutable_messages_leave_the_table_alone() {
    let mut table: PendingTable<u32> = PendingTable::new();
    table.register(1, 1);
    assert!(matches!(
        dispatch(&mut table, response(RequestId::String("1".to_string()), Value::Null)),
        Dispatch::StringId
    ));
    assert!(matches!(
        dispatch(&mut table, error_reply(RequestId::String("x".to_string()), 1, "e")),
        Dispatch::StringId
    ));
    let note = JsonRpcMessage::Notification(JsonRpcNotification {
        jsonrpc: "2.0".to_string(),
        method: "notifications/progress".to_string(),
        params: None,
    });
    assert!(matches!(dispatch(&mut table, note), Dispatch::Notification));
    assert!(matches!(dispatch(&mut table, JsonRpcMessage::Batch(Vec::new())), Dispatch::Unhandled));
    assert!(matches!(dispatch(&mut table, response(RequestId::Integer(2), Value::Null)), Dispatch::NoPending { id: 2 }));
    assert!(table.contains(1));
    assert_eq!(table.len(), 1);
}

#[test]
fn other_messages_on_the_reply_path_are_unexpected() {
    let note = JsonRpcMessage::Notification(JsonRpcNotification {
        jsonrpc: "2.0".to_string(),
        method: "m".to_string(),
        params: None,
    });
    assert!(matches!(interpret_reply(note), Err(ClientError::UnexpectedReply)));
}

#[test]
fn ended_transport_fails_pending_and_later_requests() {
    let mut ids = IdGenerator::new();
    let mut table: PendingTable<std::sync::mpsc::Sender<JsonRpcMessage>> = PendingTable::new();
    let (tx, rx) = std::sync::mpsc::channel();
    let id = match begin_request(&mut ids, &mut table, "tools/list".to_string(), Value::Null, tx) {
        Ok((id, _)) => id,
        Err(_) => panic!("request not started"),
    };
    table.close();
    assert!(table.closed());
    assert!(table.is_empty());
    // The waiting caller sees its channel close instead of hanging.
    assert!(rx.recv().is_err());
    let r = finish_request(&mut table, id, ReplyWait::Closed);
    assert!(matches!(r, Err(ClientError::ChannelClosed)));
    // Later requests fail at once.
    let (tx2, _rx2) = std::sync::mpsc::channel();
    let later = begin_request(&mut ids, &mut table, "tools/list".to_string(), Value::Null, tx2);
    assert!(matches!(later, Err(ClientError::ChannelClosed)));
    assert!(table.is_empty());
}

#[test]
fn each_message_is_one_line() {
    assert_eq!(frame_line(r#"{"jsonrpc":"2.0","method":"m"}"#), b"{\"jsonrpc\":\"2.0\",\"method\":\"m\"}\n".to_vec());
    assert_eq!(frame_line("é"), vec![0xc3, 0xa9, b'\n']);
}
