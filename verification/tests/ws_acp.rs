use tidewave_core::acp_session::{
    extract_session_id_from_message, extract_session_id_from_request, inject_notification_id,
};
use tidewave_core::json::Json;
use tidewave_core::phoenix::{InitResult, PhxMessage};
use tidewave_core::ws::acp::channel::{ExitReason, InactivityTimer, JoinStep, OutputStream};
use tidewave_core::ws::acp::proxy::{
    handle_process_notification_or_request, handle_process_response,
    stop_unmapped_session_if_still_disconnected, Effect, Handled,
};
use tidewave_core::ws::acp::{
    check_supports_resuming, check_supports_session_close, AcpChannelState, AgentCapabilities, BeginInit,
    InitState, JsonRpcError, JsonRpcMessage, JsonRpcNotification, JsonRpcRequest, JsonRpcResponse,
    PendingRequest, ProcessState, SessionState, TidewaveSpawnOptions,
};
use tidewave_core::ws::ChannelSender;

fn test_spawn_opts() -> TidewaveSpawnOptions {
    TidewaveSpawnOptions {
        command: "test_cmd".to_string(),
        env: Vec::new(),
        cwd: ".".to_string(),
        wsl_distro: None,
    }
}

fn test_process() -> ProcessState {
    ProcessState::new("test_key".to_string(), test_spawn_opts(), 0)
}

fn sender(topic: &str, join_ref: &str) -> ChannelSender {
    ChannelSender { topic: topic.to_string(), join_ref: Some(join_ref.to_string()) }
}

/// The messages that are pushed to a channel.
fn pushed<'a>(effects: &'a [Effect], id: &str) -> Vec<&'a PhxMessage> {
    effects
        .iter()
        .filter_map(|effect| match effect {
            Effect::Push { channel_id, phx } if channel_id == id => Some(phx),
            _ => None,
        })
        .collect()
}

fn json(text: &str) -> Json {
    Json::parse(text).unwrap()
}

fn text_at<'a>(value: &'a Json, key: &str) -> &'a str {
    value.get(key).unwrap().as_str().unwrap()
}

fn create_test_session() -> SessionState {
    SessionState::new("test_command:params".to_string())
}

fn create_test_notification(method: &str, session_id: &str) -> JsonRpcMessage {
    JsonRpcMessage::Notification(JsonRpcNotification {
        jsonrpc: "2.0".to_string(),
        method: method.to_string(),
        params: Some(json(&format!(
            r#"{{"sessionId": "{}", "update": "test_data"}}"#,
            session_id
        ))),
    })
}

fn create_test_response(id: u64) -> JsonRpcMessage {
    JsonRpcMessage::Response(JsonRpcResponse {
        jsonrpc: "2.0".to_string(),
        id: Json::uint(id),
        result: Some(json(r#"{"status": "ok"}"#)),
        error: None,
    })
}

fn fill(session: &mut SessionState, from: u64, to: u64) {
    for i in from..=to {
        let msg = create_test_notification("session/update", "sess_123");
        session.add_to_buffer(msg, format!("notif_{}", i));
    }
}

#[test]
fn acp_test_generate_notification_id() {
    let mut session = create_test_session();

    let id1 = session.generate_notification_id();
    let id2 = session.generate_notification_id();
    let id3 = session.generate_notification_id();

    assert_eq!(id1, "notif_1");
    assert_eq!(id2, "notif_2");
    assert_eq!(id3, "notif_3");
}

#[test]
fn acp_test_add_to_buffer() {
    let mut session = create_test_session();

    let msg1 = create_test_notification("session/update", "sess_123");
    let msg2 = create_test_notification("session/update", "sess_123");

    let id1 = session.add_to_buffer(msg1.clone(), "notif_1".to_string());
    let id2 = session.add_to_buffer(msg2.clone(), "notif_2".to_string());

    assert_eq!(id1, "notif_1");
    assert_eq!(id2, "notif_2");

    let buffer = &session.message_buffer;
    assert_eq!(buffer.len(), 2);
    assert_eq!(buffer[0].id, "notif_1");
    assert_eq!(buffer[1].id, "notif_2");
}

#[test]
fn acp_test_prune_buffer_basic() {
    let mut session = create_test_session();

    let msg1 = create_test_notification("session/update", "sess_123");
    let msg2 = create_test_notification("session/update", "sess_123");
    let msg3 = create_test_notification("session/update", "sess_123");

    session.add_to_buffer(msg1, "notif_1".to_string());
    session.add_to_buffer(msg2, "notif_2".to_string());
    session.add_to_buffer(msg3, "notif_3".to_string());

    session.prune_buffer("notif_1");

    let buffer = &session.message_buffer;
    assert_eq!(buffer.len(), 2);
    assert_eq!(buffer[0].id, "notif_2");
    assert_eq!(buffer[1].id, "notif_3");
}

#[test]
fn acp_test_prune_buffer_unknown_id() {
    let mut session = create_test_session();
    fill(&mut session, 1, 3);

    session.prune_buffer("notif_unknown");

    let buffer = &session.message_buffer;
    assert_eq!(buffer.len(), 3);
    assert_eq!(buffer[0].id, "notif_1");
    assert_eq!(buffer[1].id, "notif_2");
    assert_eq!(buffer[2].id, "notif_3");
}

#[test]
fn acp_test_prune_buffer_empty() {
    let mut session = create_test_session();

    session.prune_buffer("notif_1");

    assert_eq!(session.message_buffer.len(), 0);
}

#[test]
fn acp_test_prune_buffer_all() {
    let mut session = create_test_session();
    fill(&mut session, 1, 3);

    session.prune_buffer("notif_3");

    assert_eq!(session.message_buffer.len(), 0);
}

#[test]
fn acp_test_get_buffered_messages_after_basic() {
    let mut session = create_test_session();
    fill(&mut session, 1, 5);

    let messages = SessionState::get_buffered_messages_after(&session.message_buffer, "notif_2");

    assert_eq!(messages.len(), 3);
    assert_eq!(messages[0].id, "notif_3");
    assert_eq!(messages[1].id, "notif_4");
    assert_eq!(messages[2].id, "notif_5");
}

#[test]
fn acp_test_get_buffered_messages_after_unknown_id() {
    let mut session = create_test_session();
    fill(&mut session, 1, 3);

    let messages = SessionState::get_buffered_messages_after(&session.message_buffer, "notif_unknown");

    assert_eq!(messages.len(), 3);
    assert_eq!(messages[0].id, "notif_1");
    assert_eq!(messages[1].id, "notif_2");
    assert_eq!(messages[2].id, "notif_3");
}

#[test]
fn acp_test_get_buffered_messages_after_last_id() {
    let mut session = create_test_session();
    fill(&mut session, 1, 3);

    let messages = SessionState::get_buffered_messages_after(&session.message_buffer, "notif_3");

    assert_eq!(messages.len(), 0);
}

#[test]
fn acp_test_buffer_workflow() {
    let mut session = create_test_session();
    fill(&mut session, 1, 3);

    let messages = SessionState::get_buffered_messages_after(&session.message_buffer, "");
    assert_eq!(messages.len(), 3);

    session.prune_buffer("notif_2");
    assert_eq!(session.message_buffer.len(), 1);
    assert_eq!(session.message_buffer[0].id, "notif_3");

    fill(&mut session, 4, 6);

    let messages = SessionState::get_buffered_messages_after(&session.message_buffer, "notif_2");
    assert_eq!(messages.len(), 4);
    assert_eq!(messages[0].id, "notif_3");
    assert_eq!(messages[1].id, "notif_4");
    assert_eq!(messages[2].id, "notif_5");
    assert_eq!(messages[3].id, "notif_6");

    session.prune_buffer("notif_6");
    assert_eq!(session.message_buffer.len(), 0);
}

#[test]
fn acp_test_buffer_with_different_message_types() {
    let mut session = create_test_session();

    let notif = create_test_notification("session/update", "sess_123");
    session.add_to_buffer(notif, "notif_1".to_string());

    let response = create_test_response(42);
    session.add_to_buffer(response, "notif_2".to_string());

    let notif2 = create_test_notification("session/complete", "sess_123");
    session.add_to_buffer(notif2, "notif_3".to_string());

    let buffer = &session.message_buffer;
    assert_eq!(buffer.len(), 3);
    assert!(matches!(buffer[0].message, JsonRpcMessage::Notification(_)));
    assert!(matches!(buffer[1].message, JsonRpcMessage::Response(_)));
    assert!(matches!(buffer[2].message, JsonRpcMessage::Notification(_)));
}

#[test]
fn test_init_state_wait_after_completion_returns_cached_response() {
    let mut init_state = InitState::new();
    let request_id = Json::string("proxy_init");
    let response = JsonRpcResponse {
        jsonrpc: "2.0".to_string(),
        id: request_id.clone(),
        result: Some(json(r#"{"protocolVersion": 1, "agentCapabilities": {}}"#)),
        error: None,
    };

    assert!(matches!(init_state.begin(request_id.clone()), BeginInit::Start));
    assert!(init_state.complete_if_current(
        &request_id,
        response.clone(),
        AgentCapabilities::from_response(&response)
    ));

    let cached = init_state
        .wait_for_completion()
        .expect("wait should not miss an already completed init")
        .expect("init should be complete");

    assert_eq!(cached.response.id.to_text(), response.id.to_text());
    assert_eq!(
        cached.response.result.unwrap().to_text(),
        response.result.unwrap().to_text()
    );
    assert!(!cached.capabilities.supports_resuming);
    assert!(!cached.capabilities.supports_session_close);
}

#[test]
fn test_init_state_wait_after_failure_returns_none() {
    let mut init_state = InitState::new();

    assert!(matches!(init_state.begin(Json::string("proxy_init")), BeginInit::Start));
    init_state.fail();

    let failed = init_state.wait_for_completion().expect("wait should not hang after init failure");

    assert!(failed.is_none());
}

#[test]
fn acp_test_process_generate_proxy_id() {
    let mut process = test_process();

    let id1 = process.generate_proxy_id();
    let id2 = process.generate_proxy_id();
    let id3 = process.generate_proxy_id();

    assert_eq!(id1.as_u64(), Some(1));
    assert_eq!(id2.as_u64(), Some(2));
    assert_eq!(id3.as_u64(), Some(3));
}

#[test]
fn acp_test_process_id_mapping_basic() {
    let mut process = test_process();
    let client_id = Json::string("client_1");

    let proxy_id = process.map_client_id_to_proxy("ws_1".to_string(), client_id.clone(), None, None);

    let inflight_request = process.inflight_request(&proxy_id);
    assert!(inflight_request.is_some());
    let inflight_request = inflight_request.unwrap();
    assert_eq!(inflight_request.channel_id, "ws_1");
    assert_eq!(inflight_request.client_id.to_text(), client_id.to_text());
    assert_eq!(inflight_request.session_id, None);
    assert!(inflight_request.pending.is_none());
}

#[test]
fn acp_test_process_id_mapping_with_session() {
    let mut process = test_process();
    let client_id = Json::string("client_1");
    let session_id = "sess_123".to_string();

    let proxy_id = process.map_client_id_to_proxy(
        "ws_1".to_string(),
        client_id.clone(),
        Some(session_id.clone()),
        None,
    );

    let inflight_request = process.inflight_request(&proxy_id).unwrap();
    assert_eq!(inflight_request.channel_id, "ws_1");
    assert_eq!(inflight_request.client_id.to_text(), client_id.to_text());
    assert_eq!(inflight_request.session_id, Some(session_id));
}

#[test]
fn acp_test_process_id_cleanup() {
    let mut process = test_process();

    let proxy_id = process.map_client_id_to_proxy(
        "ws_1".to_string(),
        Json::string("client_1"),
        Some("sess_123".to_string()),
        None,
    );

    assert!(process.inflight_request(&proxy_id).is_some());

    process.remove_inflight_request(&proxy_id);

    assert!(process.inflight_request(&proxy_id).is_none());
}

#[test]
fn test_disconnected_response_sent_if_session_reconnects_while_buffering() {
    let mut state = AcpChannelState::new();
    let mut process = test_process();
    let session_id = "sess_reconnect".to_string();
    let session = SessionState::new(process.key.clone());
    process.insert_session(session_id.clone(), session, None);

    let original_channel_id = "original".to_string();
    let reconnected_channel_id = "reconnected".to_string();
    let client_id = Json::string("session/prompt!sess_reconnect!!prompt_1");
    let proxy_id = process.map_client_id_to_proxy(
        original_channel_id,
        client_id.clone(),
        Some(session_id.clone()),
        None,
    );

    state.channel_senders.insert(reconnected_channel_id.clone(), sender("acp:test", "j2"));

    let response = JsonRpcResponse {
        jsonrpc: "2.0".to_string(),
        id: proxy_id,
        result: Some(json(r#"{"stopReason": "end_turn"}"#)),
        error: None,
    };
    process.map_session_channel(&session_id, reconnected_channel_id.clone());
    let mut out = Vec::new();
    handle_process_response(&mut process, &state.channel_senders, &response, &mut out);

    let sent = pushed(&out, &reconnected_channel_id);
    assert_eq!(sent.len(), 1);
    assert_eq!(sent[0].event, "jsonrpc");
    let payload = sent[0].payload.as_json();
    assert_eq!(payload.get("id").unwrap().to_text(), client_id.to_text());
    assert_eq!(text_at(payload.get("result").unwrap(), "stopReason"), "end_turn");
}

#[test]
fn test_disconnected_response_buffered_if_mapped_channel_has_no_sender() {
    let state = AcpChannelState::new();
    let mut process = test_process();
    let session_id = "sess_disconnecting".to_string();
    let session = SessionState::new(process.key.clone());
    let disconnected_channel_id = "disconnected".to_string();
    process.insert_session(session_id.clone(), session, Some(disconnected_channel_id.clone()));

    let client_id = Json::string("session/prompt!sess_disconnecting!!prompt_1");
    let proxy_id = process.map_client_id_to_proxy(
        disconnected_channel_id,
        client_id.clone(),
        Some(session_id.clone()),
        None,
    );

    let response = JsonRpcResponse {
        jsonrpc: "2.0".to_string(),
        id: proxy_id,
        result: Some(json(r#"{"stopReason": "end_turn"}"#)),
        error: None,
    };

    let mut out = Vec::new();
    handle_process_response(&mut process, &state.channel_senders, &response, &mut out);

    let buffer = &process.session_state(&session_id).unwrap().message_buffer;
    assert_eq!(buffer.len(), 1);
    let JsonRpcMessage::Response(buffered_response) = &buffer[0].message else {
        panic!("expected buffered response");
    };
    assert_eq!(buffered_response.id.to_text(), client_id.to_text());
    assert_eq!(
        buffered_response.result.as_ref().unwrap().to_text(),
        response.result.unwrap().to_text()
    );
}

#[test]
fn test_message_without_session_id_broadcast_to_connected_channels() {
    let mut state = AcpChannelState::new();
    let mut process = test_process();

    process.add_channel("channel_a".to_string());
    process.add_channel("channel_b".to_string());

    state.channel_senders.insert("channel_a".to_string(), sender("acp:test", "ja"));
    state.channel_senders.insert("channel_b".to_string(), sender("acp:test", "jb"));
    state.channel_senders.insert("channel_other".to_string(), sender("acp:other", "jo"));

    let message = JsonRpcMessage::Notification(JsonRpcNotification {
        jsonrpc: "2.0".to_string(),
        method: "some/global_notification".to_string(),
        params: Some(json(r#"{"data": "no_session"}"#)),
    });

    let mut out = Vec::new();
    handle_process_notification_or_request(&mut process, &state.channel_senders, message, &mut out);

    for channel in ["channel_a", "channel_b"] {
        let sent = pushed(&out, channel);
        assert_eq!(sent.len(), 1);
        assert_eq!(sent[0].event, "jsonrpc");
        let payload = sent[0].payload.as_json();
        assert_eq!(text_at(payload, "method"), "some/global_notification");
        assert_eq!(text_at(payload.get("params").unwrap(), "data"), "no_session");
    }

    assert!(
        pushed(&out, "channel_other").is_empty(),
        "channel from another process should not receive the broadcast"
    );
}

#[test]
fn test_failed_session_load_cleans_proxy_id_mappings() {
    let mut state = AcpChannelState::new();
    let mut process = test_process();
    let session_id = "sess_failed_load".to_string();
    let channel_id = "channel".to_string();
    let client_id = Json::string("session/load!sess_failed_load!!load_1");
    let proxy_id = process.map_client_id_to_proxy(
        channel_id.clone(),
        client_id.clone(),
        Some(session_id.clone()),
        Some(PendingRequest::SessionLoad {
            session_id: session_id.clone(),
            created_session: true,
        }),
    );

    let session = SessionState::new(process.key.clone());
    process.insert_session(session_id.clone(), session, Some(channel_id.clone()));

    state.channel_senders.insert(channel_id.clone(), sender("acp:test", "j1"));

    let response = JsonRpcResponse {
        jsonrpc: "2.0".to_string(),
        id: proxy_id.clone(),
        result: None,
        error: Some(JsonRpcError {
            code: -32002,
            message: "Session not found".to_string(),
            data: None,
        }),
    };

    let mut out = Vec::new();
    handle_process_response(&mut process, &state.channel_senders, &response, &mut out);

    assert!(process.inflight_request(&proxy_id).is_none());
    assert!(!process.sessions.contains_key(&session_id));

    let sent = pushed(&out, &channel_id);
    assert_eq!(sent.len(), 1);
    assert_eq!(sent[0].event, "jsonrpc");
    let payload = sent[0].payload.as_json();
    assert_eq!(payload.get("id").unwrap().to_text(), client_id.to_text());
    assert_eq!(text_at(payload.get("error").unwrap(), "message"), "Session not found");
}

#[test]
fn test_delayed_cancel_skips_session_that_reconnects_while_waiting_for_lock() {
    let mut process = test_process();
    let session_id = "sess_reconnected".to_string();
    let session = SessionState::new(process.key.clone());
    process.insert_session(session_id.clone(), session, None);

    process.map_session_channel(&session_id, "channel".to_string());
    let mut out = Vec::new();
    stop_unmapped_session_if_still_disconnected(&mut process, &session_id, 0, &mut out);

    assert!(out.is_empty());
    assert!(!process.session_state(&session_id).unwrap().cancelled);
    assert!(process.session_state(&session_id).is_some());
}

#[test]
fn acp_test_process_multiple_clients_same_process() {
    let mut process = test_process();

    let client_id1 = Json::string("1");
    let client_id2 = Json::string("1");

    let proxy_id1 =
        process.map_client_id_to_proxy("ws_1".to_string(), client_id1.clone(), None, None);
    let proxy_id2 =
        process.map_client_id_to_proxy("ws_2".to_string(), client_id2.clone(), None, None);

    assert_ne!(proxy_id1.to_text(), proxy_id2.to_text());

    let resolved1 = process.inflight_request(&proxy_id1).unwrap();
    let resolved2 = process.inflight_request(&proxy_id2).unwrap();

    assert_eq!(resolved1.channel_id, "ws_1");
    assert_eq!(resolved1.client_id.to_text(), client_id1.to_text());
    assert_eq!(resolved2.channel_id, "ws_2");
    assert_eq!(resolved2.client_id.to_text(), client_id2.to_text());
}

#[test]
fn acp_test_extract_session_id_from_request() {
    let request = JsonRpcRequest {
        jsonrpc: "2.0".to_string(),
        id: Json::uint(1),
        method: "session/prompt".to_string(),
        params: Some(json(r#"{"sessionId": "sess_123", "prompt": "test"}"#)),
    };

    let session_id = extract_session_id_from_request(&request);
    assert_eq!(session_id, Some("sess_123".to_string()));
}

#[test]
fn acp_test_extract_session_id_from_request_missing() {
    let request = JsonRpcRequest {
        jsonrpc: "2.0".to_string(),
        id: Json::uint(1),
        method: "initialize".to_string(),
        params: Some(json(r#"{"protocolVersion": 1}"#)),
    };

    let session_id = extract_session_id_from_request(&request);
    assert_eq!(session_id, None);
}

#[test]
fn acp_test_extract_session_id_from_notification() {
    let notification = JsonRpcNotification {
        jsonrpc: "2.0".to_string(),
        method: "session/update".to_string(),
        params: Some(json(r#"{"sessionId": "sess_456", "update": "data"}"#)),
    };

    let message = JsonRpcMessage::Notification(notification);
    let session_id = extract_session_id_from_message(&message);
    assert_eq!(session_id, Some("sess_456".to_string()));
}

#[test]
fn acp_test_inject_notification_id() {
    let mut notification = JsonRpcNotification {
        jsonrpc: "2.0".to_string(),
        method: "session/update".to_string(),
        params: Some(json(r#"{"sessionId": "sess_123", "update": "test"}"#)),
    };

    inject_notification_id(&mut notification, "notif_42".to_string());

    let params = notification.params.unwrap();
    let meta = params.get("_meta").unwrap();
    assert_eq!(text_at(meta, "tidewave.ai/notificationId"), "notif_42");
}

#[test]
fn acp_test_inject_notification_id_with_existing_meta() {
    let mut notification = JsonRpcNotification {
        jsonrpc: "2.0".to_string(),
        method: "session/update".to_string(),
        params: Some(json(r#"{"sessionId": "sess_123", "_meta": {"existing": "value"}}"#)),
    };

    inject_notification_id(&mut notification, "notif_99".to_string());

    let params = notification.params.unwrap();
    let meta = params.get("_meta").unwrap();
    assert_eq!(text_at(meta, "existing"), "value");
    assert_eq!(text_at(meta, "tidewave.ai/notificationId"), "notif_99");
}

fn make_init_response(agent_capabilities: &str) -> JsonRpcResponse {
    JsonRpcResponse {
        jsonrpc: "2.0".to_string(),
        id: Json::uint(0),
        result: Some(json(&format!(
            r#"{{"protocolVersion": 1, "agentCapabilities": {}}}"#,
            agent_capabilities
        ))),
        error: None,
    }
}

fn no_result() -> JsonRpcResponse {
    JsonRpcResponse {
        jsonrpc: "2.0".to_string(),
        id: Json::uint(0),
        result: None,
        error: None,
    }
}

#[test]
fn test_supports_resuming_with_load_session() {
    let response = make_init_response(r#"{"loadSession": true}"#);
    assert!(check_supports_resuming(&response));
}

#[test]
fn test_supports_resuming_with_session_fork() {
    let response = make_init_response(r#"{"session": {"fork": {}}}"#);
    assert!(check_supports_resuming(&response));
}

#[test]
fn test_supports_resuming_with_session_resume() {
    let response = make_init_response(r#"{"session": {"resume": {}}}"#);
    assert!(check_supports_resuming(&response));
}

#[test]
fn test_supports_resuming_with_fork_and_resume() {
    let response = make_init_response(r#"{"session": {"fork": {}, "resume": {}}}"#);
    assert!(check_supports_resuming(&response));
}

#[test]
fn test_supports_resuming_empty_capabilities() {
    let response = make_init_response(r#"{}"#);
    assert!(!check_supports_resuming(&response));
}

#[test]
fn test_supports_resuming_no_result() {
    let response = no_result();
    assert!(!check_supports_resuming(&response));
}

#[test]
fn test_supports_resuming_load_session_false() {
    let response = make_init_response(r#"{"loadSession": false}"#);
    assert!(!check_supports_resuming(&response));
}

#[test]
fn test_supports_session_close_with_close() {
    let response = make_init_response(r#"{"session": {"close": {}}}"#);
    assert!(check_supports_session_close(&response));
}

#[test]
fn test_supports_session_close_with_multiple_capabilities() {
    let response = make_init_response(r#"{"session": {"fork": {}, "resume": {}, "close": {}}}"#);
    assert!(check_supports_session_close(&response));
}

#[test]
fn test_supports_session_close_empty_capabilities() {
    let response = make_init_response(r#"{}"#);
    assert!(!check_supports_session_close(&response));
}

#[test]
fn test_supports_session_close_session_without_close() {
    let response = make_init_response(r#"{"session": {"fork": {}}}"#);
    assert!(!check_supports_session_close(&response));
}

#[test]
fn test_supports_session_close_no_result() {
    let response = no_result();
    assert!(!check_supports_session_close(&response));
}

fn join_message(id: &str) -> PhxMessage {
    PhxMessage::new("acp:agent", "phx_join", Json::object()).with_ref("1").with_join_ref(id)
}

/// A state with one running process and one channel on it.
fn joined() -> (AcpChannelState, String, u64) {
    let mut state = AcpChannelState::new();
    let (key, spawn) = match state.begin_join(&join_message("a"), "a".to_string(), Ok(test_spawn_opts())) {
        JoinStep::Start { process_key, spawn_opts } => (process_key, spawn_opts),
        _ => panic!("Expected a start"),
    };
    let generation = match state.process_started("a", &key, spawn, Ok(())) {
        Ok(generation) => generation,
        Err(_) => panic!("Expected a process"),
    };
    assert!(state.complete_join(&join_message("a"), "a".to_string(), &key).is_ok());
    (state, key, generation)
}

fn client_message(text: &str) -> PhxMessage {
    PhxMessage::new("acp:agent", "jsonrpc", json(text))
}

fn message(text: &str) -> Option<JsonRpcMessage> {
    JsonRpcMessage::from_json(&json(text))
}

#[test]
fn a_second_channel_shares_the_process() {
    let (mut state, key, _) = joined();
    match state.begin_join(&join_message("b"), "b".to_string(), Ok(test_spawn_opts())) {
        JoinStep::Ready { process_key } => assert_eq!(process_key, key),
        _ => panic!("Expected the running process"),
    }
}

#[test]
fn bad_spawn_options_are_refused() {
    let mut state = AcpChannelState::new();
    let step = state.begin_join(&join_message("a"), "a".to_string(), Err("missing command".to_string()));
    assert!(matches!(step, JoinStep::Refused(InitResult::Error(_))));
}

#[test]
fn requests_go_out_under_fresh_identities_and_come_back() {
    let (mut state, key, generation) = joined();
    let mut out = Vec::new();
    let initialize = r#"{"jsonrpc":"2.0","id":"i","method":"initialize","params":{}}"#;
    let handled = state.handle_incoming("a", &key, client_message(initialize), &mut out);
    assert!(matches!(handled, Ok(Handled::Done)));
    let sent = match &out[0] {
        Effect::Send { message: JsonRpcMessage::Request(request), .. } => request.id.clone(),
        _ => panic!("Expected a request"),
    };
    out.clear();
    let answer = format!(
        r#"{{"jsonrpc":"2.0","id":{},"result":{{"agentCapabilities":{{}}}}}}"#,
        sent.to_text()
    );
    state.handle_process_line(
        &key,
        generation,
        OutputStream::Stdout,
        answer.clone(),
        message(&answer),
        &mut out,
    );
    let replies = pushed(&out, "a");
    assert_eq!(replies.len(), 1);
    let payload = replies[0].payload.as_json();
    assert_eq!(text_at(payload, "id"), "i");
    let tidewave = payload
        .get("result")
        .and_then(|r| r.get("agentCapabilities"))
        .and_then(|c| c.get("_meta"))
        .and_then(|m| m.get("tidewave.ai"))
        .unwrap();
    assert_eq!(tidewave.get("session/load").unwrap().as_bool(), Some(true));

    let mut again = Vec::new();
    assert!(state.handle_incoming("a", &key, client_message(initialize), &mut again).is_ok());
    assert_eq!(again.len(), 1);
    assert_eq!(pushed(&again, "a").len(), 1);

    out.clear();
    let new_session = r#"{"jsonrpc":"2.0","id":"n","method":"session/new","params":{}}"#;
    assert!(state.handle_incoming("a", &key, client_message(new_session), &mut out).is_ok());
    let fresh = match &out[0] {
        Effect::Send { message: JsonRpcMessage::Request(request), .. } => request.id.clone(),
        _ => panic!("Expected a request"),
    };
    assert_ne!(fresh.to_text(), sent.to_text());
    out.clear();
    let answer = format!(
        r#"{{"jsonrpc":"2.0","id":{},"result":{{"sessionId":"s1"}}}}"#,
        fresh.to_text()
    );
    state.handle_process_line(
        &key,
        generation,
        OutputStream::Stdout,
        answer.clone(),
        message(&answer),
        &mut out,
    );
    let replies = pushed(&out, "a");
    assert_eq!(replies.len(), 1);
    assert_eq!(text_at(replies[0].payload.as_json(), "id"), "n");
    let process = state.processes.get(&key).unwrap();
    assert_eq!(process.session_channel("s1").as_deref(), Some("a"));
}

#[test]
fn leaving_releases_the_sessions() {
    let (mut state, key, generation) = joined();
    let process = state.processes.get_mut(&key).unwrap();
    process.insert_session("s1".to_string(), SessionState::new(key.clone()), Some("a".to_string()));
    let left = state.leave("a", &key, generation);
    assert_eq!(left.sessions.len(), 1);
    assert_eq!(left.sessions[0].0, "s1");
    assert!(state.processes.get(&key).unwrap().session_channel("s1").is_none());
}

#[test]
fn the_exit_of_a_process_tells_its_channels() {
    let (mut state, key, generation) = joined();
    let reason = ExitReason::Exited { success: false, code: Some(3) };
    let (event, channels) = state.process_exited(&key, generation, &reason).unwrap();
    assert_eq!(channels, vec!["a".to_string()]);
    assert!(event.message.contains('3'));
    assert!(state.processes.get(&key).is_none());
    state.forget(generation);
    let again = state.process_exited(&key, generation, &reason);
    assert!(again.is_none());
}

#[test]
fn lines_of_a_process_are_read() {
    let (mut state, key, generation) = joined();
    let mut out = Vec::new();
    let note = r#"{"jsonrpc":"2.0","method":"_note","params":{}}"#;
    state.handle_process_line(
        &key,
        generation,
        OutputStream::Stderr,
        note.to_string(),
        message(note),
        &mut out,
    );
    state.handle_process_line(
        &key,
        generation,
        OutputStream::Stdout,
        "no message".to_string(),
        None,
        &mut out,
    );
    assert!(out.is_empty());
    state.handle_process_line(
        &key,
        generation,
        OutputStream::Stdout,
        note.to_string(),
        message(note),
        &mut out,
    );
    let told = pushed(&out, "a");
    assert_eq!(told.len(), 1);
    assert_eq!(text_at(told[0].payload.as_json(), "method"), "_note");
    let (event, _) = state.process_exited(&key, generation, &ExitReason::Requested).unwrap();
    assert_eq!(event.stdout.as_deref(), Some("no message"));
    assert_eq!(event.stderr.as_deref(), Some(note));
}

fn buffered(state: &AcpChannelState, key: &str, session_id: &str) -> usize {
    state.processes.get(key).unwrap().session_state(session_id).unwrap().message_buffer.len()
}

/// Adds a session of a channel whose buffer holds messages with these identities.
fn add_session(state: &mut AcpChannelState, key: &str, session_id: &str, owner: &str, ids: &[&str]) {
    let mut session = SessionState::new(key.to_string());
    for id in ids {
        session.add_to_buffer(create_test_notification("session/update", session_id), id.to_string());
    }
    let process = state.processes.get_mut(key).unwrap();
    process.insert_session(session_id.to_string(), session, Some(owner.to_string()));
}

#[test]
fn an_acknowledgement_may_name_no_session() {
    let (mut state, key, _) = joined();
    add_session(&mut state, &key, "s1", "a", &["m1", "m2", "m3"]);
    add_session(&mut state, &key, "s2", "a", &["k1"]);
    add_session(&mut state, &key, "s3", "b", &["m1", "m2"]);
    let mut out = Vec::new();
    let ack = r#"{"jsonrpc":"2.0","method":"_tidewave.ai/ack","params":{"latestId":"m2"}}"#;
    assert!(state.handle_incoming("a", &key, client_message(ack), &mut out).is_ok());
    assert!(out.is_empty());
    assert_eq!(buffered(&state, &key, "s1"), 1);
    assert_eq!(buffered(&state, &key, "s2"), 1);
    assert_eq!(buffered(&state, &key, "s3"), 2);
    let named = r#"{"jsonrpc":"2.0","method":"_tidewave.ai/ack","params":{"sessionId":"s2","latestId":"k1"}}"#;
    assert!(state.handle_incoming("a", &key, client_message(named), &mut out).is_ok());
    assert_eq!(buffered(&state, &key, "s2"), 0);
    let foreign = r#"{"jsonrpc":"2.0","method":"_tidewave.ai/ack","params":{"sessionId":"s3","latestId":"m2"}}"#;
    assert!(state.handle_incoming("a", &key, client_message(foreign), &mut out).is_ok());
    assert_eq!(buffered(&state, &key, "s3"), 2);
    let bad = r#"{"jsonrpc":"2.0","method":"_tidewave.ai/ack","params":{"sessionId":"s1"}}"#;
    assert!(state.handle_incoming("a", &key, client_message(bad), &mut out).is_err());
}

#[test]
fn the_answer_to_initialize_names_the_version() {
    let (mut state, key, generation) = joined();
    let mut out = Vec::new();
    let initialize = r#"{"jsonrpc":"2.0","id":"i","method":"initialize","params":{}}"#;
    assert!(state.handle_incoming("a", &key, client_message(initialize), &mut out).is_ok());
    out.clear();
    let answer = r#"{"jsonrpc":"2.0","id":1,"result":{"agentCapabilities":{},"_meta":{"other":1,"tidewave.ai":{"a":2}}}}"#;
    state.handle_process_line(
        &key,
        generation,
        OutputStream::Stdout,
        answer.to_string(),
        message(answer),
        &mut out,
    );
    assert!(state.handle_incoming("a", &key, client_message(initialize), &mut out).is_ok());
    let told = pushed(&out, "a");
    assert_eq!(told.len(), 2);
    for answer in told {
        let meta = answer.payload.as_json().get("result").unwrap().get("_meta").unwrap();
        assert_eq!(meta.get("other").unwrap().as_u64(), Some(1));
        assert_eq!(text_at(meta.get("tidewave.ai").unwrap(), "version"), "0.1.0");
    }
}

#[test]
fn a_broadcast_reaches_each_channel_once() {
    let (mut state, key, generation) = joined();
    assert!(state.complete_join(&join_message("a"), "a".to_string(), &key).is_ok());
    let mut out = Vec::new();
    let note = r#"{"jsonrpc":"2.0","method":"_note","params":{}}"#;
    state.handle_process_line(
        &key,
        generation,
        OutputStream::Stdout,
        note.to_string(),
        message(note),
        &mut out,
    );
    assert_eq!(out.len(), 1);
    assert_eq!(pushed(&out, "a").len(), 1);
}

#[test]
fn nothing_is_left_of_a_channel_that_leaves() {
    let (mut state, key, generation) = joined();
    let mut out = Vec::new();
    let new_session = r#"{"jsonrpc":"2.0","id":"n","method":"session/new","params":{}}"#;
    assert!(state.handle_incoming("a", &key, client_message(new_session), &mut out).is_ok());
    add_session(&mut state, &key, "s1", "a", &[]);
    state.leave("a", &key, generation);
    assert!(!state.channel_senders.contains_key("a"));
    let process = state.processes.get(&key).unwrap();
    assert!(process.connected_channels().is_empty());
    assert!(process.session_channel("s1").is_none());

    out.clear();
    let late = r#"{"jsonrpc":"2.0","id":1,"result":{"sessionId":"s2"}}"#;
    state.handle_process_line(
        &key,
        generation,
        OutputStream::Stdout,
        late.to_string(),
        message(late),
        &mut out,
    );
    assert!(out.is_empty());
    let process = state.processes.get(&key).unwrap();
    assert_eq!(process.session_state("s2").unwrap().message_buffer.len(), 1);
    assert!(process.session_channel("s2").is_none());
}

#[test]
fn nothing_is_left_of_a_join_that_fails() {
    let mut state = AcpChannelState::new();
    let (key, spawn) = match state.begin_join(&join_message("a"), "a".to_string(), Ok(test_spawn_opts())) {
        JoinStep::Start { process_key, spawn_opts } => (process_key, spawn_opts),
        _ => panic!("Expected a start"),
    };
    match state.process_started("a", &key, spawn, Err("no such file".to_string())) {
        Err(InitResult::Error(e)) => assert_eq!(e, "failed to start process: no such file"),
        _ => panic!("Expected a refusal"),
    }
    assert!(!state.channel_senders.contains_key("a"));
    assert!(state.processes.get(&key).is_none());

    let (mut state, key, generation) = joined();
    state.begin_join(&join_message("b"), "b".to_string(), Ok(test_spawn_opts()));
    state.process_exited(&key, generation, &ExitReason::Requested);
    match state.complete_join(&join_message("b"), "b".to_string(), &key) {
        Err(InitResult::Error(e)) => assert_eq!(e, "process exited before channel init"),
        _ => panic!("Expected a refusal"),
    }
    assert!(!state.channel_senders.contains_key("b"));
}

/// A state in which the process of one channel was stopped after inactivity and another one runs under
/// its key, with the channel `b`.
fn replaced() -> (AcpChannelState, String, u64, u64) {
    let (mut state, key, old) = joined();
    let mut out = Vec::new();
    let initialize = r#"{"jsonrpc":"2.0","id":"i","method":"initialize","params":{}}"#;
    assert!(state.handle_incoming("a", &key, client_message(initialize), &mut out).is_ok());
    let answer = r#"{"jsonrpc":"2.0","id":1,"result":{"agentCapabilities":{"loadSession":true}}}"#;
    state.handle_process_line(
        &key,
        old,
        OutputStream::Stdout,
        answer.to_string(),
        message(answer),
        &mut out,
    );
    let new_session = r#"{"jsonrpc":"2.0","id":"n","method":"session/new","params":{}}"#;
    assert!(state.handle_incoming("a", &key, client_message(new_session), &mut out).is_ok());
    let epoch = match state.leave("a", &key, old).timer {
        InactivityTimer::Start { generation, epoch } => {
            assert_eq!(generation, old);
            epoch
        }
        _ => panic!("Expected a timer"),
    };
    out.clear();
    assert!(!state.stop_after_inactivity(&key, old, epoch + 1, &mut out));
    assert!(state.stop_after_inactivity(&key, old, epoch, &mut out));
    assert!(matches!(&out[0], Effect::Stop { generation } if *generation == old));
    assert!(state.processes.get(&key).is_none());
    let spawn = match state.begin_join(&join_message("b"), "b".to_string(), Ok(test_spawn_opts())) {
        JoinStep::Start { spawn_opts, .. } => spawn_opts,
        _ => panic!("Expected a start"),
    };
    let new = match state.process_started("b", &key, spawn, Ok(())) {
        Ok(generation) => generation,
        Err(_) => panic!("Expected a process"),
    };
    assert_ne!(old, new);
    match state.complete_join(&join_message("b"), "b".to_string(), &key) {
        Ok((_, generation)) => assert_eq!(generation, new),
        Err(_) => panic!("Expected a join"),
    }
    (state, key, old, new)
}

#[test]
fn a_late_exit_takes_the_key_from_a_new_process() {
    let (mut state, key, old, new) = replaced();
    let (_, channels) = state.process_exited(&key, old, &ExitReason::Requested).unwrap();
    assert!(channels.is_empty());
    assert!(state.processes.get(&key).is_none());
    let mut out = Vec::new();
    let prompt = r#"{"jsonrpc":"2.0","id":"p","method":"session/prompt","params":{}}"#;
    assert!(state.handle_incoming("b", &key, client_message(prompt), &mut out).is_err());
    let note = r#"{"jsonrpc":"2.0","method":"_note","params":{}}"#;
    state.handle_process_line(
        &key,
        new,
        OutputStream::Stdout,
        note.to_string(),
        message(note),
        &mut out,
    );
    assert_eq!(pushed(&out, "b").len(), 1);
    let (_, channels) = state.process_exited(&key, new, &ExitReason::Requested).unwrap();
    assert_eq!(channels, vec!["b".to_string()]);
    state.leave("b", &key, new);
    state.forget(old);
    state.forget(new);
    assert!(state.process_exited(&key, new, &ExitReason::Requested).is_none());
}

#[test]
fn a_late_answer_makes_its_session_at_the_new_process() {
    let (mut state, key, old, _) = replaced();
    let mut out = Vec::new();
    let late = r#"{"jsonrpc":"2.0","id":2,"result":{"sessionId":"s1"}}"#;
    state.handle_process_line(
        &key,
        old,
        OutputStream::Stdout,
        late.to_string(),
        message(late),
        &mut out,
    );
    assert!(out.is_empty());
    let process = state.processes.get(&key).unwrap();
    assert!(process.session_state("s1").is_some());
    assert!(process.session_channel("s1").is_none());
}

#[test]
fn lines_after_the_exit_still_count() {
    let (mut state, key, generation) = joined();
    let mut out = Vec::new();
    let prompt = r#"{"jsonrpc":"2.0","id":"p","method":"session/prompt","params":{}}"#;
    assert!(state.handle_incoming("a", &key, client_message(prompt), &mut out).is_ok());
    state.process_exited(&key, generation, &ExitReason::Requested);
    out.clear();
    let answer = r#"{"jsonrpc":"2.0","id":1,"result":{}}"#;
    state.handle_process_line(
        &key,
        generation,
        OutputStream::Stdout,
        answer.to_string(),
        message(answer),
        &mut out,
    );
    let told = pushed(&out, "a");
    assert_eq!(told.len(), 1);
    assert_eq!(text_at(told[0].payload.as_json(), "id"), "p");
    assert!(!state.is_initializing(&key, generation));
    out.clear();
    assert!(state.finish_initialize("a", &key, generation, &Json::uint(1), &mut out));
    assert_eq!(pushed(&out, "a").len(), 1);
}
