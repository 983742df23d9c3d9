use tidewave_core::acp_server::{
    split_command, AcpConnection, AcpServerState, AcpSession, ClientMessage, ClientStep,
    ConnectionStatus, CreateConnectionRequest, CreateSessionRequest, ServerMessage, SessionOutcome,
    SessionStep,
};
use tidewave_core::json::Json;

fn json(text: &str) -> Json {
    Json::parse(text).unwrap()
}

#[test]
fn test_acp_server_state_creation() {
    let state = AcpServerState::new();

    assert_eq!(state.connections.len(), 0);
    assert_eq!(state.sessions.len(), 0);
    assert_eq!(state.ws_connections.len(), 0);
}

#[test]
fn test_connection_status_updates() {
    let mut state = AcpServerState::new();
    let connection = AcpConnection {
        id: "test-conn".to_string(),
        name: "Test Connection".to_string(),
        command: "test-command".to_string(),
        status: ConnectionStatus::Loading,
        capabilities: None,
    };

    state.connections.insert("test-conn".to_string(), connection);

    let connection = state.connections.get_mut("test-conn").unwrap();
    assert!(matches!(connection.status, ConnectionStatus::Loading));

    connection.status = ConnectionStatus::Connected;
    assert!(matches!(connection.status, ConnectionStatus::Connected));

    connection.status = ConnectionStatus::Error { message: "Test error".to_string() };
    if let ConnectionStatus::Error { message } = &connection.status {
        assert_eq!(message, "Test error");
    } else {
        panic!("Expected error status");
    }
}

#[test]
fn test_websocket_message_serialization() {
    let session_notification = ServerMessage::SessionNotification {
        id: 42,
        params: json(
            r#"{"sessionId": "test-session", "update": {"sessionUpdate": "user_message_chunk", "content": {"type": "text", "text": "Hello world"}}}"#,
        ),
    };

    let serialized = session_notification.to_json().to_text();
    let parsed = json(&serialized);

    assert_eq!(parsed.get("type").unwrap().as_str(), Some("session-notification"));
    assert_eq!(parsed.get("id").unwrap().as_u64(), Some(42));
    assert!(parsed.get("params").unwrap().is_object());

    let client_ack = r#"{"type": "ack", "latestId": 123}"#;
    let parsed = ClientMessage::from_json(&json(client_ack)).unwrap();

    match parsed {
        ClientMessage::Ack { latest_id } => assert_eq!(latest_id, 123),
        _ => panic!("Expected Ack message"),
    }

    let exit_message = ServerMessage::Exit { id: 99 };
    let serialized = exit_message.to_json().to_text();
    let parsed = json(&serialized);

    assert_eq!(parsed.get("type").unwrap().as_str(), Some("exit"));
    assert_eq!(parsed.get("id").unwrap().as_u64(), Some(99));
}

#[test]
fn test_session_management() {
    let id = "test-acp-session".to_string();
    let mut state = AcpServerState::new();
    let session = AcpSession::new(id.clone(), "test-conn".to_string());

    state.sessions.insert(id.clone(), session);

    assert_eq!(state.sessions.len(), 1);
    assert!(state.sessions.contains_key(&id));

    let session = state.sessions.get(&id).unwrap();
    assert_eq!(session.id, id);
    assert_eq!(session.acp_id, "test-conn");
    assert_eq!(session.pending_requests.len(), 0);
    assert_eq!(session.message_buffer.len(), 0);
}

fn connected() -> AcpServerState {
    let mut state = AcpServerState::new();
    let request = CreateConnectionRequest {
        id: "agent".to_string(),
        name: "Agent".to_string(),
        command: "agent --acp".to_string(),
    };
    let info = state.create_connection(request, Ok(()));
    assert!(matches!(info.status, ConnectionStatus::Loading));
    let update = state.connection_initialized("agent", Ok(json("{}")));
    assert!(matches!(update.status, ConnectionStatus::Connected));
    state
}

fn with_session() -> AcpServerState {
    let mut state = connected();
    let step = state.create_session(&CreateSessionRequest { acp_id: "agent".to_string() });
    assert!(matches!(step, SessionStep::Ask));
    let answer = state.finish_session("agent", SessionOutcome::Created("s1".to_string()));
    assert_eq!(answer.session_id.as_deref(), Some("s1"));
    state
}

#[test]
fn sessions_need_a_connection() {
    let state = AcpServerState::new();
    let step = state.create_session(&CreateSessionRequest { acp_id: "agent".to_string() });
    assert!(matches!(step, SessionStep::NotFound));
}

#[test]
fn missed_notifications_are_replayed() {
    let mut state = with_session();
    let serial = state.find_session("s1").unwrap();
    let first = state.session_notification("s1", json(r#"{"n":1}"#)).unwrap();
    let second = state.session_notification("s1", json(r#"{"n":2}"#)).unwrap();
    assert!(first.send.is_none());
    assert!(second.id > first.id);
    let missed = state.connect("s1", first.serial, &Some(format!("{}", first.id)));
    assert_eq!(missed.len(), 1);
    assert_eq!(missed[0].id(), second.id);
}

#[test]
fn acknowledged_notifications_are_forgotten() {
    let mut state = with_session();
    let serial = state.find_session("s1").unwrap();
    let first = state.session_notification("s1", json("{}")).unwrap();
    let second = state.session_notification("s1", json("{}")).unwrap();
    let step = state.handle_client_message("s1", serial, ClientMessage::Ack { latest_id: first.id });
    assert!(matches!(step, ClientStep::Nothing));
    let kept = &state.sessions.get("s1").unwrap().message_buffer;
    assert_eq!(kept.len(), 1);
    assert_eq!(kept[0].id(), second.id);
}

#[test]
fn permission_is_answered_once() {
    let mut state = with_session();
    let serial = state.find_session("s1").unwrap();
    let asked = state.request_permission("s1", json("{}")).unwrap();
    let answer = ClientMessage::PermissionResponse { id: asked.id, response: json("{}") };
    assert!(matches!(
        state.handle_client_message("s1", serial, answer),
        ClientStep::Permission { .. }
    ));
    let again = ClientMessage::PermissionResponse { id: asked.id, response: json("{}") };
    assert!(matches!(state.handle_client_message("s1", serial, again), ClientStep::Nothing));
}

#[test]
fn the_exit_of_an_agent_ends_its_sessions() {
    let mut state = with_session();
    let serial = state.find_session("s1").unwrap();
    let (told, update) = state.handle_process_exit("agent");
    assert_eq!(told.len(), 1);
    assert_eq!(told[0].0, "s1");
    assert!(update.is_some());
    assert_eq!(state.sessions.len(), 0);
}

#[test]
fn commands_are_split_at_spaces() {
    assert_eq!(split_command("agent  --acp x").unwrap(), vec!["agent", "--acp", "x"]);
    assert!(split_command("   ").is_err());
}

#[test]
fn texts_of_a_session_are_read() {
    match ClientMessage::from_json(&Json::parse(r#"{"type":"prompt","id":4,"messages":[]}"#).unwrap()) {
        Some(ClientMessage::Prompt { id, messages }) => {
            assert_eq!(id, 4);
            assert_eq!(messages.to_text(), "[]");
        }
        _ => panic!("Expected a prompt"),
    }
    assert!(matches!(
        ClientMessage::from_json(&Json::parse(r#"{"type":"ack","latestId":2}"#).unwrap()),
        Some(ClientMessage::Ack { latest_id: 2 })
    ));
    assert!(ClientMessage::from_json(&Json::parse(r#"{"type":"ack","latestId":-2}"#).unwrap()).is_none());
    assert!(ClientMessage::from_json(&Json::parse(r#"{"type":"other"}"#).unwrap()).is_none());
    assert!(ClientMessage::from_json(&Json::parse("3").unwrap()).is_none());
}

#[test]
fn an_open_socket_keeps_its_session() {
    let mut state = with_session();
    let serial = state.find_session("s1").unwrap();
    let told = state.session_notification("s1", Json::object()).unwrap();
    assert_eq!(told.serial, serial);
    let asked = state.request_permission("s1", Json::object()).unwrap();
    state.handle_process_exit("agent");
    assert!(state.find_session("s1").is_none());
    assert_eq!(state.connect("s1", serial, &None).len(), 2);
    let answer = ClientMessage::PermissionResponse { id: asked.id, response: Json::object() };
    assert!(matches!(
        state.handle_client_message("s1", serial, answer),
        ClientStep::Permission { .. }
    ));
    state.handle_client_message("s1", serial, ClientMessage::Ack { latest_id: told.id });
    assert_eq!(state.connect("s1", serial, &None).len(), 1);
    let prompt = || ClientMessage::Prompt { id: 4, messages: Json::array(vec![]) };
    assert!(matches!(state.handle_client_message("s1", serial, prompt()), ClientStep::Reply(_)));

    state.connection_initialized("agent", Ok(Json::object()));
    match state.handle_client_message("s1", serial, prompt()) {
        ClientStep::Prompt { acp_id, id, .. } => {
            assert_eq!(acp_id, "agent");
            assert_eq!(id, 4);
        }
        _ => panic!("Expected a prompt"),
    }
    state.finish_session("agent", SessionOutcome::Created("s1".to_string()));
    let newer = state.find_session("s1").unwrap();
    assert_ne!(newer, serial);
    assert!(state.connect("s1", newer, &None).is_empty());
    assert_eq!(state.connect("s1", serial, &None).len(), 1);
    state.forget(serial);
    assert!(state.connect("s1", serial, &None).is_empty());
    assert!(matches!(state.handle_client_message("s1", serial, prompt()), ClientStep::Nothing));
}
