use tidewave_core::json::Json;
use tidewave_core::mcp::HttpAnswer;
use tidewave_core::phoenix::{InitResult, Payload, PhxMessage};
use tidewave_core::ws::acp::channel::JoinStep;
use tidewave_core::ws::acp::{AcpChannelState, TidewaveSpawnOptions};
use tidewave_core::ws::connection::{dispatch_join, end_message, ChannelKind, Connection, Incoming};
use tidewave_core::ws::mcp::{ClientStep, McpChannelState, McpParams};
use tidewave_core::ws::recording;
use tidewave_core::ws::terminal;
use tidewave_core::ws::upload;
use tidewave_core::ws::{ChannelSender, WsState};

fn join(topic: &str) -> PhxMessage {
    PhxMessage::new(topic, "phx_join", Json::object()).with_ref("1").with_join_ref("1")
}

fn binary(topic: &str, event: &str, bytes: &[u8]) -> PhxMessage {
    let mut msg = PhxMessage::new(topic, event, Json::object()).with_ref("2");
    msg.payload = Payload::Binary(bytes.to_vec());
    msg
}

#[test]
fn topics_are_served_by_their_prefix() {
    assert_eq!(dispatch_join("watch:/x"), Some(ChannelKind::Watch));
    assert_eq!(dispatch_join("acp:x"), Some(ChannelKind::Acp));
    assert_eq!(dispatch_join("mcp:x"), Some(ChannelKind::Mcp));
    assert_eq!(dispatch_join("terminal:x"), Some(ChannelKind::Terminal));
    assert_eq!(dispatch_join("recording:x"), Some(ChannelKind::Recording));
    assert_eq!(dispatch_join("upload:x"), Some(ChannelKind::Upload));
    assert_eq!(dispatch_join("other:x"), None);
}

#[test]
fn heartbeats_are_answered() {
    let mut connection = Connection::new();
    match connection.handle_text(r#"[null,"9","phoenix","heartbeat",{}]"#) {
        Incoming::Reply(reply) => assert_eq!(
            reply.encode(),
            r#"[null,"9","phoenix","phx_reply",{"response":{},"status":"ok"}]"#
        ),
        _ => panic!("Expected a reply"),
    }
}

#[test]
fn channels_live_from_join_to_leave() {
    let mut connection = Connection::new();
    let push = || PhxMessage::new("acp:x", "jsonrpc", Json::object());
    assert!(matches!(connection.handle_message(push()), Incoming::Nothing));
    assert!(matches!(
        connection.handle_message(join("acp:x")),
        Incoming::Join { kind: ChannelKind::Acp, .. }
    ));
    assert!(matches!(connection.handle_message(push()), Incoming::Forward(_)));
    match connection.handle_message(PhxMessage::new("acp:x", "phx_leave", Json::object()).with_ref("3")) {
        Incoming::Leave { topic, reply } => {
            assert_eq!(topic, "acp:x");
            assert_eq!(reply.event, "phx_reply");
        }
        _ => panic!("Expected a leave"),
    }
    assert!(matches!(connection.handle_message(push()), Incoming::Nothing));
}

#[test]
fn unknown_topics_are_refused() {
    let mut connection = Connection::new();
    match connection.handle_message(join("other:x")) {
        Incoming::Reply(reply) => assert_eq!(reply.event, "phx_error"),
        _ => panic!("Expected an error"),
    }
}

#[test]
fn binary_messages_reach_their_channel() {
    let mut connection = Connection::new();
    connection.handle_message(join("upload:x"));
    let mut bytes = vec![0, 0, 0, 8, 5];
    bytes.extend_from_slice(b"upload:xchunk");
    bytes.extend_from_slice(b"\x01\x02");
    match connection.handle_binary(&bytes) {
        Incoming::Forward(msg) => match msg.payload {
            Payload::Binary(data) => assert_eq!(data, vec![1, 2]),
            _ => panic!("Expected bytes"),
        },
        _ => panic!("Expected a forward"),
    }
    assert!(matches!(connection.handle_binary(&[9]), Incoming::Nothing));
    assert!(matches!(connection.handle_text("nonsense"), Incoming::Nothing));
}

#[test]
fn the_end_of_a_channel_is_told() {
    let done = end_message(&join("acp:x"), InitResult::Done);
    assert_eq!(done.event, "phx_close");
    let refused = end_message(&join("acp:x"), InitResult::Error("no".to_string()));
    assert_eq!(
        refused.encode(),
        r#"["1","1","acp:x","phx_reply",{"response":{"reason":"no"},"status":"error"}]"#
    );
    let failed = end_message(&join("acp:x"), InitResult::Shutdown("gone".to_string()));
    assert_eq!(failed.event, "phx_error");
    let mut connection = Connection::new();
    connection.handle_message(join("acp:x"));
    let told = connection.channel_exited("acp:x", Some("1".to_string()), true).unwrap();
    assert_eq!(told.event, "phx_error");
    assert!(connection.channel_exited("acp:x", None, true).is_none());
}

#[test]
fn the_state_is_cleared_at_the_end() {
    let mut state = WsState::new()
        .with_acp_state(AcpChannelState::new())
        .with_mcp_state(McpChannelState::new());
    assert!(state.clear().is_empty());

    let spawn = TidewaveSpawnOptions {
        command: "agent".to_string(),
        env: Vec::new(),
        cwd: ".".to_string(),
        wsl_distro: None,
    };
    let (key, spawn) = match state.acp.begin_join(&join("acp:x"), "a".to_string(), Ok(spawn)) {
        JoinStep::Start { process_key, spawn_opts } => (process_key, spawn_opts),
        _ => panic!("Expected a start"),
    };
    assert!(state.acp.process_started("a", &key, spawn, Ok(())).is_ok());
    assert!(state.acp.complete_join(&join("acp:x"), "a".to_string(), &key).is_ok());
    assert!(state.mcp.join(&join("mcp:s1")).is_ok());
    let request = br#"{"jsonrpc":"2.0","id":7,"method":"tools/list"}"#;
    state.mcp.handle_client(McpParams { session_id: Some("s1".to_string()) }, request, 3);
    assert!(state.watch.join(&join("watch:/w"), Ok(()), Ok("/w".to_string())).is_ok());

    assert_eq!(state.clear(), vec!["agent:.".to_string()]);
    assert!(state.acp.processes.get(&key).is_none());
    assert!(!state.acp.channel_senders.contains_key("a"));
    assert!(state.mcp.leave("s1").0.is_empty());
    match state.mcp.handle_client(McpParams { session_id: Some("s1".to_string()) }, request, 4) {
        ClientStep::Answer(HttpAnswer::Body(_)) => {}
        _ => panic!("Expected no session"),
    }
    match state.watch.join(&join("watch:/w"), Ok(()), Ok("/w".to_string())) {
        Ok(joined) => assert!(joined.start_watcher),
        Err(_) => panic!("Expected a watcher"),
    }
    assert!(state.clear().is_empty());
}

#[test]
fn terminals_read_input_and_size() {
    assert_eq!((terminal::default_cols(), terminal::default_rows()), (80, 24));
    let input = PhxMessage::new("terminal:x", "input", Json::object().with("data", Json::string("ls")));
    assert!(matches!(
        terminal::handle_client(&input),
        terminal::TerminalAction::Input(data) if data == "ls"
    ));
    let resize = PhxMessage::new(
        "terminal:x",
        "resize",
        Json::object().with("cols", Json::uint(100)).with("rows", Json::uint(40)),
    );
    assert!(matches!(
        terminal::handle_client(&resize),
        terminal::TerminalAction::Resize { cols: 100, rows: 40 }
    ));
    let too_large = PhxMessage::new(
        "terminal:x",
        "resize",
        Json::object().with("cols", Json::uint(70000)).with("rows", Json::uint(40)),
    );
    assert!(matches!(terminal::handle_client(&too_large), terminal::TerminalAction::Nothing));
    let sender = ChannelSender { topic: "terminal:x".to_string(), join_ref: None };
    assert_eq!(
        terminal::output(&sender, b"a\xff").encode(),
        "[null,null,\"terminal:x\",\"output\",{\"data\":\"a\u{fffd}\"}]"
    );
    assert_eq!(
        terminal::exit(&sender, Some(true)).encode(),
        r#"[null,null,"terminal:x","exit",{"code":0}]"#
    );
    assert!(matches!(
        terminal::refuse(terminal::TerminalProblem::OpenPty("e".to_string())),
        InitResult::Error(reason) if reason == "Failed to open PTY: e"
    ));
}

#[test]
fn recordings_stay_in_their_directory() {
    assert!(recording::check_name("demo.webm").is_ok());
    for name in ["a/b", "a\\b", "..", "a..b"] {
        assert!(recording::check_name(name).is_err());
    }
    assert!(matches!(
        recording::handle_client(binary("recording:x", "chunk", b"ab")),
        recording::RecordingAction::Write(data) if data == b"ab"
    ));
    assert!(matches!(
        recording::handle_client(PhxMessage::new("recording:x", "chunk", Json::object())),
        recording::RecordingAction::Nothing
    ));
    assert!(matches!(
        recording::handle_client(PhxMessage::new("recording:x", "done", Json::object())),
        recording::RecordingAction::Finish(_)
    ));
    assert!(matches!(
        recording::write_failed("e"),
        InitResult::Shutdown(reason) if reason == "Write error: e"
    ));
}

#[test]
fn uploads_count_their_bytes() {
    let mut upload = upload::Upload::new();
    assert!(matches!(
        upload.handle_client(binary("upload:x", "chunk", b"abc")),
        upload::UploadAction::Write(_)
    ));
    upload.handle_client(binary("upload:x", "chunk", b"de"));
    let done = PhxMessage::new("upload:x", "done", Json::object()).with_ref("5");
    let reply = upload.finish(&done, Ok(()), "/f");
    assert_eq!(
        reply.encode(),
        r#"[null,"5","upload:x","phx_reply",{"response":{"path":"/f","size":5},"status":"ok"}]"#
    );
    let failed = upload.finish(&done, Err("full".to_string()), "/f");
    assert_eq!(
        failed.encode(),
        r#"[null,"5","upload:x","phx_reply",{"response":{"reason":"Flush error: full"},"status":"error"}]"#
    );
}
