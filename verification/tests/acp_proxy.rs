use tidewave_core::acp_proxy::{
    generate_process_key, version, JsonRpcMessage, JsonRpcNotification, JsonRpcRequest, JsonRpcResponse,
    ProcessState, SessionState,
};
use tidewave_core::acp_session::{
    extract_session_id_from_message, extract_session_id_from_request, inject_notification_id,
    inject_proxy_capabilities, inject_tidewave_version,
};
use tidewave_core::json::Json;
use tidewave_core::ws::acp::process::Stdin;

fn json(text: &str) -> Json {
    Json::parse(text).unwrap()
}

fn text_at<'a>(value: &'a Json, key: &str) -> &'a str {
    value.get(key).unwrap().as_str().unwrap()
}

fn create_test_session() -> SessionState {
    SessionState::new("test_command:params".to_string())
}

fn create_test_notification(method: &str, session_id: &str) -> JsonRpcMessage {
    JsonRpcMessage::Notification(JsonRpcNotification {
        jsonrpc: "2.0".to_string(),
        method: method.to_string(),
        params: Some(json(&format!(
            r#"{{"sessionId": "{}", "update": "test_data"}}"#,
            session_id
        ))),
    })
}

fn create_test_response(id: u64) -> JsonRpcMessage {
    JsonRpcMessage::Response(JsonRpcResponse {
        jsonrpc: "2.0".to_string(),
        id: Json::uint(id),
        result: Some(json(r#"{"status": "ok"}"#)),
        error: None,
    })
}

fn fill(session: &mut SessionState, from: u64, to: u64) {
    for i in from..=to {
        let msg = create_test_notification("session/update", "sess_123");
        session.add_to_buffer(msg, format!("notif_{}", i));
    }
}

#[test]
fn acp_proxy_test_generate_notification_id() {
    let mut session = create_test_session();

    let id1 = session.generate_notification_id();
    let id2 = session.generate_notification_id();
    let id3 = session.generate_notification_id();

    assert_eq!(id1, "notif_1");
    assert_eq!(id2, "notif_2");
    assert_eq!(id3, "notif_3");
}

#[test]
fn acp_proxy_test_add_to_buffer() {
    let mut session = create_test_session();

    let msg1 = create_test_notification("session/update", "sess_123");
    let msg2 = create_test_notification("session/update", "sess_123");

    let id1 = session.add_to_buffer(msg1.clone(), "notif_1".to_string());
    let id2 = session.add_to_buffer(msg2.clone(), "notif_2".to_string());

    assert_eq!(id1, "notif_1");
    assert_eq!(id2, "notif_2");

    let buffer = &session.message_buffer;
    assert_eq!(buffer.len(), 2);
    assert_eq!(buffer[0].id, "notif_1");
    assert_eq!(buffer[1].id, "notif_2");
}

#[test]
fn acp_proxy_test_prune_buffer_basic() {
    let mut session = create_test_session();

    let msg1 = create_test_notification("session/update", "sess_123");
    let msg2 = create_test_notification("session/update", "sess_123");
    let msg3 = create_test_notification("session/update", "sess_123");

    session.add_to_buffer(msg1, "notif_1".to_string());
    session.add_to_buffer(msg2, "notif_2".to_string());
    session.add_to_buffer(msg3, "notif_3".to_string());

    session.prune_buffer("notif_1");

    let buffer = &session.message_buffer;
    assert_eq!(buffer.len(), 2);
    assert_eq!(buffer[0].id, "notif_2");
    assert_eq!(buffer[1].id, "notif_3");
}

#[test]
fn acp_proxy_test_prune_buffer_unknown_id() {
    let mut session = create_test_session();
    fill(&mut session, 1, 3);

    session.prune_buffer("notif_unknown");

    let buffer = &session.message_buffer;
    assert_eq!(buffer.len(), 3);
    assert_eq!(buffer[0].id, "notif_1");
    assert_eq!(buffer[1].id, "notif_2");
    assert_eq!(buffer[2].id, "notif_3");
}

#[test]
fn acp_proxy_test_prune_buffer_empty() {
    let mut session = create_test_session();

    session.prune_buffer("notif_1");

    assert_eq!(session.message_buffer.len(), 0);
}

#[test]
fn acp_proxy_test_prune_buffer_all() {
    let mut session = create_test_session();
    fill(&mut session, 1, 3);

    session.prune_buffer("notif_3");

    assert_eq!(session.message_buffer.len(), 0);
}

#[test]
fn acp_proxy_test_get_buffered_messages_after_basic() {
    let mut session = create_test_session();
    fill(&mut session, 1, 5);

    let messages = SessionState::get_buffered_messages_after(&session.message_buffer, "notif_2");

    assert_eq!(messages.len(), 3);
    assert_eq!(messages[0].id, "notif_3");
    assert_eq!(messages[1].id, "notif_4");
    assert_eq!(messages[2].id, "notif_5");
}

#[test]
fn acp_proxy_test_get_buffered_messages_after_unknown_id() {
    let mut session = create_test_session();
    fill(&mut session, 1, 3);

    let messages = SessionState::get_buffered_messages_after(&session.message_buffer, "notif_unknown");

    assert_eq!(messages.len(), 3);
    assert_eq!(messages[0].id, "notif_1");
    assert_eq!(messages[1].id, "notif_2");
    assert_eq!(messages[2].id, "notif_3");
}

#[test]
fn acp_proxy_test_get_buffered_messages_after_last_id() {
    let mut session = create_test_session();
    fill(&mut session, 1, 3);

    let messages = SessionState::get_buffered_messages_after(&session.message_buffer, "notif_3");

    assert_eq!(messages.len(), 0);
}

#[test]
fn acp_proxy_test_buffer_workflow() {
    let mut session = create_test_session();
    fill(&mut session, 1, 3);

    let messages = SessionState::get_buffered_messages_after(&session.message_buffer, "");
    assert_eq!(messages.len(), 3);

    session.prune_buffer("notif_2");
    assert_eq!(session.message_buffer.len(), 1);
    assert_eq!(session.message_buffer[0].id, "notif_3");

    fill(&mut session, 4, 6);

    let messages = SessionState::get_buffered_messages_after(&session.message_buffer, "notif_2");
    assert_eq!(messages.len(), 4);
    assert_eq!(messages[0].id, "notif_3");
    assert_eq!(messages[1].id, "notif_4");
    assert_eq!(messages[2].id, "notif_5");
    assert_eq!(messages[3].id, "notif_6");

    session.prune_buffer("notif_6");
    assert_eq!(session.message_buffer.len(), 0);
}

#[test]
fn acp_proxy_test_buffer_with_different_message_types() {
    let mut session = create_test_session();

    let notif = create_test_notification("session/update", "sess_123");
    session.add_to_buffer(notif, "notif_1".to_string());

    let response = create_test_response(42);
    session.add_to_buffer(response, "notif_2".to_string());

    let notif2 = create_test_notification("session/complete", "sess_123");
    session.add_to_buffer(notif2, "notif_3".to_string());

    let buffer = &session.message_buffer;
    assert_eq!(buffer.len(), 3);
    assert!(matches!(buffer[0].message, JsonRpcMessage::Notification(_)));
    assert!(matches!(buffer[1].message, JsonRpcMessage::Response(_)));
    assert!(matches!(buffer[2].message, JsonRpcMessage::Notification(_)));
}

#[test]
fn acp_proxy_test_process_generate_proxy_id() {
    let mut process = ProcessState::new("test_key".to_string(), Stdin::Missing);

    let id1 = process.generate_proxy_id();
    let id2 = process.generate_proxy_id();
    let id3 = process.generate_proxy_id();

    assert_eq!(id1.as_u64(), Some(1));
    assert_eq!(id2.as_u64(), Some(2));
    assert_eq!(id3.as_u64(), Some(3));
}

#[test]
fn acp_proxy_test_process_id_mapping_basic() {
    let mut process = ProcessState::new("test_key".to_string(), Stdin::Missing);
    let ws_id = "ws_1".to_string();
    let client_id = Json::string("client_1");

    let proxy_id = process.map_client_id_to_proxy(ws_id.clone(), client_id.clone(), None);

    let resolved = process.resolve_proxy_id_to_client(&proxy_id);
    assert!(resolved.is_some());
    let (resolved_ws, resolved_client) = resolved.unwrap();
    assert_eq!(resolved_ws, ws_id);
    assert_eq!(resolved_client.to_text(), client_id.to_text());
}

#[test]
fn acp_proxy_test_process_id_mapping_with_session() {
    let mut process = ProcessState::new("test_key".to_string(), Stdin::Missing);
    let client_id = Json::string("client_1");
    let session_id = "sess_123".to_string();

    let proxy_id = process.map_client_id_to_proxy(
        "ws_1".to_string(),
        client_id.clone(),
        Some(session_id.clone()),
    );

    let session_mapping = process.resolve_proxy_id_to_session(&proxy_id);
    assert!(session_mapping.is_some());
    let (mapped_session, mapped_client) = session_mapping.unwrap();
    assert_eq!(mapped_session, session_id);
    assert_eq!(mapped_client.to_text(), client_id.to_text());
}

#[test]
fn acp_proxy_test_process_id_cleanup() {
    let mut process = ProcessState::new("test_key".to_string(), Stdin::Missing);
    let client_id = Json::string("client_1");

    let proxy_id = process.map_client_id_to_proxy(
        "ws_1".to_string(),
        client_id,
        Some("sess_123".to_string()),
    );

    assert!(process.resolve_proxy_id_to_client(&proxy_id).is_some());
    assert!(process.resolve_proxy_id_to_session(&proxy_id).is_some());

    process.cleanup_id_mappings(&proxy_id);

    assert!(process.resolve_proxy_id_to_client(&proxy_id).is_none());
    assert!(process.resolve_proxy_id_to_session(&proxy_id).is_none());
}

#[test]
fn acp_proxy_test_process_multiple_clients_same_process() {
    let mut process = ProcessState::new("test_key".to_string(), Stdin::Missing);

    let client_id1 = Json::string("1");
    let client_id2 = Json::string("1");

    let proxy_id1 = process.map_client_id_to_proxy("ws_1".to_string(), client_id1.clone(), None);
    let proxy_id2 = process.map_client_id_to_proxy("ws_2".to_string(), client_id2.clone(), None);

    assert_ne!(proxy_id1.to_text(), proxy_id2.to_text());

    let (resolved_ws1, resolved_client1) = process.resolve_proxy_id_to_client(&proxy_id1).unwrap();
    let (resolved_ws2, resolved_client2) = process.resolve_proxy_id_to_client(&proxy_id2).unwrap();

    assert_eq!(resolved_ws1, "ws_1");
    assert_eq!(resolved_client1.to_text(), client_id1.to_text());
    assert_eq!(resolved_ws2, "ws_2");
    assert_eq!(resolved_client2.to_text(), client_id2.to_text());
}

#[test]
fn acp_proxy_test_extract_session_id_from_request() {
    let request = JsonRpcRequest {
        jsonrpc: "2.0".to_string(),
        id: Json::uint(1),
        method: "session/prompt".to_string(),
        params: Some(json(r#"{"sessionId": "sess_123", "prompt": "test"}"#)),
    };

    let session_id = extract_session_id_from_request(&request);
    assert_eq!(session_id, Some("sess_123".to_string()));
}

#[test]
fn acp_proxy_test_extract_session_id_from_request_missing() {
    let request = JsonRpcRequest {
        jsonrpc: "2.0".to_string(),
        id: Json::uint(1),
        method: "initialize".to_string(),
        params: Some(json(r#"{"protocolVersion": 1}"#)),
    };

    let session_id = extract_session_id_from_request(&request);
    assert_eq!(session_id, None);
}

#[test]
fn acp_proxy_test_extract_session_id_from_notification() {
    let notification = JsonRpcNotification {
        jsonrpc: "2.0".to_string(),
        method: "session/update".to_string(),
        params: Some(json(r#"{"sessionId": "sess_456", "update": "data"}"#)),
    };

    let message = JsonRpcMessage::Notification(notification);
    let session_id = extract_session_id_from_message(&message);
    assert_eq!(session_id, Some("sess_456".to_string()));
}

#[test]
fn acp_proxy_test_inject_notification_id() {
    let mut notification = JsonRpcNotification {
        jsonrpc: "2.0".to_string(),
        method: "session/update".to_string(),
        params: Some(json(r#"{"sessionId": "sess_123", "update": "test"}"#)),
    };

    inject_notification_id(&mut notification, "notif_42".to_string());

    let params = notification.params.unwrap();
    let meta = params.get("_meta").unwrap();
    assert_eq!(text_at(meta, "tidewave.ai/notificationId"), "notif_42");
}

#[test]
fn acp_proxy_test_inject_notification_id_with_existing_meta() {
    let mut notification = JsonRpcNotification {
        jsonrpc: "2.0".to_string(),
        method: "session/update".to_string(),
        params: Some(json(r#"{"sessionId": "sess_123", "_meta": {"existing": "value"}}"#)),
    };

    inject_notification_id(&mut notification, "notif_99".to_string());

    let params = notification.params.unwrap();
    let meta = params.get("_meta").unwrap();
    assert_eq!(text_at(meta, "existing"), "value");
    assert_eq!(text_at(meta, "tidewave.ai/notificationId"), "notif_99");
}

#[test]
fn test_generate_process_key() {
    let command = "test_agent";
    let cwd = ".";
    let params = json(r#"{"protocolVersion": 1, "clientCapabilities": {}}"#);

    let key = generate_process_key(command, cwd, &params);

    assert!(key.contains("test_agent"));
    assert!(key.contains("protocolVersion"));
}

#[test]
fn test_generate_process_key_same_params() {
    let command = "test_agent";
    let cwd = ".";
    let params = json(r#"{"protocolVersion": 1}"#);

    let key1 = generate_process_key(command, cwd, &params);
    let key2 = generate_process_key(command, cwd, &params);

    assert_eq!(key1, key2);
}

#[test]
fn test_generate_process_key_different_params() {
    let command = "test_agent";
    let cwd = ".";
    let params1 = json(r#"{"protocolVersion": 1}"#);
    let params2 = json(r#"{"protocolVersion": 2}"#);

    let key1 = generate_process_key(command, cwd, &params1);
    let key2 = generate_process_key(command, cwd, &params2);

    assert_ne!(key1, key2);
}

fn response_with(result: &str) -> JsonRpcResponse {
    JsonRpcResponse {
        jsonrpc: "2.0".to_string(),
        id: Json::uint(1),
        result: Some(json(result)),
        error: None,
    }
}

#[test]
fn test_inject_tidewave_version() {
    let mut response = response_with(
        r#"{"protocolVersion": 1, "agentCapabilities": {"loadSession": true}}"#,
    );

    inject_tidewave_version(&mut response, "0.1.0");

    let result = response.result.unwrap();
    let meta = result.get("_meta").unwrap();
    let tidewave = meta.get("tidewave.ai").unwrap();
    assert_eq!(text_at(tidewave, "version"), "0.1.0");
}

#[test]
fn test_inject_tidewave_version_preserves_existing_meta() {
    let mut response = response_with(
        r#"{"protocolVersion": 1, "_meta": {"existing": "metadata"}, "agentCapabilities": {"loadSession": true}}"#,
    );

    inject_tidewave_version(&mut response, "0.2.0");

    let result = response.result.unwrap();
    let meta = result.get("_meta").unwrap();
    assert_eq!(text_at(meta, "existing"), "metadata");
    let tidewave = meta.get("tidewave.ai").unwrap();
    assert_eq!(text_at(tidewave, "version"), "0.2.0");
}

#[test]
fn test_inject_proxy_capabilities() {
    let mut response = response_with(
        r#"{"protocolVersion": 1, "agentCapabilities": {"loadSession": true}}"#,
    );

    inject_proxy_capabilities(&mut response);

    let result = response.result.unwrap();
    let agent_caps = result.get("agentCapabilities").unwrap();
    let meta = agent_caps.get("_meta").unwrap();
    let tidewave = meta.get("tidewave.ai").unwrap();
    assert_eq!(tidewave.get("exit").unwrap().as_bool(), Some(true));
}

#[test]
fn test_inject_proxy_capabilities_preserves_existing_meta() {
    let mut response = response_with(
        r#"{"protocolVersion": 1, "agentCapabilities": {"loadSession": true, "_meta": {"existing": "metadata"}}}"#,
    );

    inject_proxy_capabilities(&mut response);

    let result = response.result.unwrap();
    let agent_caps = result.get("agentCapabilities").unwrap();
    let meta = agent_caps.get("_meta").unwrap();
    assert_eq!(text_at(meta, "existing"), "metadata");
    let tidewave = meta.get("tidewave.ai").unwrap();
    assert_eq!(tidewave.get("exit").unwrap().as_bool(), Some(true));
}

#[test]
fn proxy_capabilities_announce_session_load() {
    let mut response = response_with(r#"{"protocolVersion": 1, "agentCapabilities": {}}"#);

    inject_proxy_capabilities(&mut response);

    let result = response.result.unwrap();
    let tidewave = result.get("agentCapabilities").unwrap().get("_meta").unwrap().get("tidewave.ai");
    assert_eq!(tidewave.unwrap().get("session/load").unwrap().as_bool(), Some(true));
}

#[test]
fn version_is_that_of_the_package() {
    assert_eq!(version(), "0.1.0");
}
