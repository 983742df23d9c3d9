use tidewave_core::acp_channel::{AcpChannel, JoinStep};
use tidewave_core::acp_proxy::{
    handle_client_message, is_ping, message_line, new_state, Handled, WebSocketMessage,
};
use tidewave_core::acp_relay::{
    generate_process_key, InitStep, Problem, Relay, RelayEffect, Style, TidewaveSpawnOptions,
};
use tidewave_core::channel_result::{HandleResult, JoinResult};
use tidewave_core::json::Json;
use tidewave_core::jsonrpc::{JsonRpcMessage, JsonRpcRequest};
use tidewave_core::server::agents_to_stop;
use tidewave_core::ws::acp::channel::{ExitReason, OutputStream};

fn json(text: &str) -> Json {
    Json::parse(text).unwrap()
}

fn message(text: &str) -> JsonRpcMessage {
    JsonRpcMessage::from_json(&json(text)).unwrap()
}

fn request(text: &str) -> JsonRpcRequest {
    match message(text) {
        JsonRpcMessage::Request(request) => request,
        _ => panic!("Expected a request"),
    }
}

fn spawn_opts() -> TidewaveSpawnOptions {
    TidewaveSpawnOptions {
        command: "agent".to_string(),
        env: Vec::new(),
        cwd: ".".to_string(),
        is_wsl: false,
    }
}

const INITIALIZE: &str = r#"{"jsonrpc":"2.0","id":"i","method":"initialize","params":{"protocolVersion":1}}"#;

fn delivered(out: &[RelayEffect], channel: &str) -> Vec<Json> {
    out.iter()
        .filter_map(|effect| match effect {
            RelayEffect::Deliver { channel_id, message } if channel_id == channel => {
                Some(message.to_json())
            }
            _ => None,
        })
        .collect()
}

fn sent(out: &[RelayEffect]) -> Vec<Json> {
    out.iter()
        .filter_map(|effect| match effect {
            RelayEffect::Send { message, .. } => Some(message.to_json()),
            _ => None,
        })
        .collect()
}

/// A relay with one initialized process that serves the socket `a`, and a session `s1` of it.
fn running() -> (Relay, String) {
    let mut relay = new_state();
    relay.connect("a".to_string());
    let mut out = Vec::new();
    let key = match relay.begin_initialize("a", &request(INITIALIZE), spawn_opts(), &mut out) {
        InitStep::Start { process_key, .. } => process_key,
        _ => panic!("Expected a start"),
    };
    assert!(relay.process_started(key.clone(), "a", &request(INITIALIZE), Ok(()), &mut out).is_none());
    let id = sent(&out)[0].get("id").unwrap().to_text();
    out.clear();
    let answer = format!(r#"{{"jsonrpc":"2.0","id":{},"result":{{"agentCapabilities":{{}}}}}}"#, id);
    relay.handle_process_message(&key, &message(&answer), &mut out);
    assert_eq!(delivered(&out, "a")[0].get("id").unwrap().as_str(), Some("i"));
    out.clear();
    relay.handle_client_message(
        "a",
        &message(r#"{"jsonrpc":"2.0","id":"n","method":"session/new","params":{}}"#),
        &mut out,
    );
    let id = sent(&out)[0].get("id").unwrap().to_text();
    out.clear();
    let answer = format!(r#"{{"jsonrpc":"2.0","id":{},"result":{{"sessionId":"s1"}}}}"#, id);
    relay.handle_process_message(&key, &message(&answer), &mut out);
    assert_eq!(delivered(&out, "a")[0].get("id").unwrap().as_str(), Some("n"));
    (relay, key)
}

#[test]
fn the_answer_to_initialize_is_kept_for_later_clients() {
    let (mut relay, key) = running();
    relay.connect("b".to_string());
    let mut out = Vec::new();
    let step = relay.begin_initialize("b", &request(INITIALIZE), spawn_opts(), &mut out);
    assert!(matches!(step, InitStep::Done));
    assert!(sent(&out).is_empty());
    let answer = &delivered(&out, "b")[0];
    assert_eq!(answer.get("id").unwrap().as_str(), Some("i"));
    let tidewave = answer
        .get("result")
        .and_then(|r| r.get("agentCapabilities"))
        .and_then(|c| c.get("_meta"))
        .and_then(|m| m.get("tidewave.ai"))
        .unwrap();
    assert_eq!(tidewave.get("exit").unwrap().as_bool(), Some(true));
    assert_eq!(agents_to_stop(&relay), vec![key]);
}

#[test]
fn notifications_reach_the_owner_of_the_session() {
    let (mut relay, key) = running();
    relay.connect("b".to_string());
    let mut out = Vec::new();
    let update = r#"{"jsonrpc":"2.0","method":"session/update","params":{"sessionId":"s1"}}"#;
    relay.handle_process_message(&key, &message(update), &mut out);
    let told = delivered(&out, "a");
    assert_eq!(told.len(), 1);
    let meta = told[0].get("params").unwrap().get("_meta").unwrap();
    assert_eq!(meta.get("tidewave.ai/notificationId").unwrap().as_str(), Some("notif_1"));
    assert!(delivered(&out, "b").is_empty());
}

#[test]
fn missed_messages_are_replayed_on_load() {
    let (mut relay, key) = running();
    let left = relay.disconnect("a");
    assert_eq!(left.len(), 1);
    assert_eq!(left[0].0, "s1");
    let mut out = Vec::new();
    let update = r#"{"jsonrpc":"2.0","method":"session/update","params":{"sessionId":"s1"}}"#;
    relay.handle_process_message(&key, &message(update), &mut out);
    assert!(out.is_empty());
    relay.connect("b".to_string());
    relay.begin_initialize("b", &request(INITIALIZE), spawn_opts(), &mut out);
    out.clear();
    let load = r#"{"jsonrpc":"2.0","id":"l","method":"_tidewave.ai/session/load","params":{"sessionId":"s1","latestId":""}}"#;
    relay.handle_client_message("b", &message(load), &mut out);
    let told = delivered(&out, "b");
    assert_eq!(told.len(), 2);
    assert!(told.iter().any(|m| m.get("method").is_some()));
    assert!(told.iter().any(|m| m.get("id").and_then(Json::as_str) == Some("l")));
    relay.cancel_session("s1", left[0].1, &mut out);
    assert!(sent(&out).is_empty());
}

#[test]
fn a_session_is_not_taken_from_its_owner() {
    let (mut relay, _) = running();
    relay.connect("b".to_string());
    let mut out = Vec::new();
    relay.begin_initialize("b", &request(INITIALIZE), spawn_opts(), &mut out);
    out.clear();
    let load = r#"{"jsonrpc":"2.0","id":"l","method":"_tidewave.ai/session/load","params":{"sessionId":"s1","latestId":""}}"#;
    relay.handle_client_message("b", &message(load), &mut out);
    let told = delivered(&out, "b");
    assert_eq!(told.len(), 1);
    let error = told[0].get("error").unwrap();
    assert_eq!(error.get("code").unwrap().as_i64(), Some(-32003));
}

#[test]
fn an_abandoned_session_is_cancelled() {
    let (mut relay, _) = running();
    let left = relay.disconnect("a");
    let mut out = Vec::new();
    relay.cancel_session("s1", left[0].1, &mut out);
    let asked = sent(&out);
    assert_eq!(asked.len(), 1);
    assert_eq!(asked[0].get("method").unwrap().as_str(), Some("session/cancel"));
}

#[test]
fn the_exit_of_an_agent_is_told() {
    let (mut relay, key) = running();
    let mut out = Vec::new();
    relay.process_exited(&key, &ExitReason::Requested, &mut out);
    assert_eq!(out.len(), 1);
    assert!(agents_to_stop(&relay).is_empty());
    assert!(!relay.sessions.contains_key("s1"));
}

#[test]
fn keys_leave_the_spawn_options_out() {
    let plain = json(r#"{"protocolVersion":1}"#);
    let with_options = json(
        r#"{"protocolVersion":1,"_meta":{"tidewave.ai/spawn":{"command":"agent","cwd":"."}}}"#,
    );
    let key = generate_process_key("agent", ".", &plain);
    assert_eq!(key, r#"agent:.:{"protocolVersion":1}"#);
    assert_eq!(key, generate_process_key("agent", ".", &with_options));
    assert_ne!(key, generate_process_key("agent", "/elsewhere", &plain));
    let meta = json(r#"{"_meta":{"a":1}}"#);
    let meta_with_options = json(r#"{"_meta":{"a":1,"tidewave.ai/spawn":{}}}"#);
    assert_eq!(
        generate_process_key("agent", ".", &meta),
        generate_process_key("agent", ".", &meta_with_options)
    );
}

#[test]
fn sockets_need_spawn_options() {
    let mut state = new_state();
    state.connect("a".to_string());
    let mut out = Vec::new();
    let handled = handle_client_message(&mut state, "a", message(INITIALIZE), &mut out);
    assert!(matches!(handled, Handled::MissingSpawn));
    assert!(is_ping("ping\n"));
    let note = message(r#"{"jsonrpc":"2.0","method":"m","params":{}}"#);
    assert_eq!(message_line(&note), "{\"jsonrpc\":\"2.0\",\"method\":\"m\",\"params\":{}}\n");
    assert_eq!(WebSocketMessage::Pong.to_text(), "pong");
}

#[test]
fn channels_start_their_process_on_join() {
    let mut channel = AcpChannel::with_state(Relay::new(Style::Channel));
    let key = match channel.join("acp:x", "a".to_string(), true, Ok(spawn_opts())) {
        JoinStep::Start { process_key, .. } => process_key,
        _ => panic!("Expected a start"),
    };
    let granted = channel.process_started("a".to_string(), key.clone(), Ok(()));
    match granted {
        JoinResult::Granted(answer) => {
            assert_eq!(answer.get("channel_id").unwrap().as_str(), Some("a"))
        }
        _ => panic!("Expected an answer"),
    }
    assert!(matches!(
        channel.join("acp:x", "b".to_string(), true, Ok(spawn_opts())),
        JoinStep::Answer(JoinResult::Granted(_))
    ));
    assert!(matches!(
        channel.join("x", "b".to_string(), true, Ok(spawn_opts())),
        JoinStep::Answer(JoinResult::Refused(_))
    ));
    assert!(matches!(
        channel.join("acp:x", "b".to_string(), true, Err("bad".to_string())),
        JoinStep::Answer(JoinResult::Refused(_))
    ));
    let mut out = Vec::new();
    let refused = channel.handle_in("jsonrpc", &json("3"), &Some("a".to_string()), &mut out);
    assert!(matches!(refused, HandleResult::Refused(_)));
    let handled = channel.handle_in("jsonrpc", &json(INITIALIZE), &Some("a".to_string()), &mut out);
    assert!(matches!(handled, HandleResult::NoReply));
    assert_eq!(sent(&out).len(), 1);
}

#[test]
fn a_response_follows_its_session() {
    let (mut relay, key) = running();
    let mut out = Vec::new();
    let prompt = r#"{"jsonrpc":"2.0","id":"p","method":"session/prompt","params":{"sessionId":"s1"}}"#;
    relay.handle_client_message("a", &message(prompt), &mut out);
    let id = sent(&out)[0].get("id").unwrap().to_text();
    relay.disconnect("a");
    relay.connect("b".to_string());
    relay.begin_initialize("b", &request(INITIALIZE), spawn_opts(), &mut out);
    let load = r#"{"jsonrpc":"2.0","id":"l","method":"_tidewave.ai/session/load","params":{"sessionId":"s1","latestId":""}}"#;
    relay.handle_client_message("b", &message(load), &mut out);
    out.clear();
    let answer = format!(r#"{{"jsonrpc":"2.0","id":{},"result":{{"stopReason":"end_turn"}}}}"#, id);
    relay.handle_process_message(&key, &message(&answer), &mut out);
    assert!(delivered(&out, "a").is_empty());
    let told = delivered(&out, "b");
    assert_eq!(told.len(), 1);
    assert_eq!(told[0].get("id").unwrap().as_str(), Some("p"));
    out.clear();
    relay.handle_process_message(&key, &message(&answer), &mut out);
    assert!(out.is_empty());
}

#[test]
fn lines_of_an_agent_are_read() {
    let (mut relay, key) = running();
    let mut out = Vec::new();
    let update = r#"{"jsonrpc":"2.0","method":"session/update","params":{"sessionId":"s1"}}"#;
    relay.handle_process_output(&key, OutputStream::Stderr, update.to_string(), Some(message(update)), &mut out);
    relay.handle_process_output(&key, OutputStream::Stdout, "no message".to_string(), None, &mut out);
    assert!(out.is_empty());
    relay.handle_process_output(&key, OutputStream::Stdout, update.to_string(), Some(message(update)), &mut out);
    assert_eq!(delivered(&out, "a").len(), 1);
}

#[test]
fn messages_of_a_client_are_handled() {
    let (mut relay, _) = running();
    let mut out = Vec::new();
    assert!(matches!(handle_client_message(&mut relay, "a", message(INITIALIZE), &mut out), Handled::MissingSpawn));
    let initialize = r#"{"jsonrpc":"2.0","id":"i","method":"initialize","params":{"_meta":{"tidewave.ai/spawn":{"command":"agent"}}}}"#;
    match handle_client_message(&mut relay, "a", message(initialize), &mut out) {
        Handled::Initialize { request, spawn } => {
            assert_eq!(request.id.as_str(), Some("i"));
            assert_eq!(spawn.get("command").unwrap().as_str(), Some("agent"));
        }
        _ => panic!("Expected an initialization"),
    }
    assert!(out.is_empty());
    let prompt = r#"{"jsonrpc":"2.0","id":"p","method":"session/prompt","params":{"sessionId":"s1"}}"#;
    assert!(matches!(handle_client_message(&mut relay, "a", message(prompt), &mut out), Handled::Done(None)));
    assert_eq!(sent(&out).len(), 1);
}

#[test]
fn relays_take_acknowledgements_without_a_session() {
    let (mut relay, key) = running();
    let mut out = Vec::new();
    let update = r#"{"jsonrpc":"2.0","method":"session/update","params":{"sessionId":"s1"}}"#;
    relay.handle_process_message(&key, &message(update), &mut out);
    relay.handle_process_message(&key, &message(update), &mut out);
    assert_eq!(relay.sessions.get("s1").unwrap().message_buffer.len(), 2);
    let unknown = r#"{"jsonrpc":"2.0","method":"_tidewave.ai/ack","params":{"latestId":"notif_9"}}"#;
    relay.handle_client_message("a", &message(unknown), &mut out);
    assert_eq!(relay.sessions.get("s1").unwrap().message_buffer.len(), 2);
    let ack = r#"{"jsonrpc":"2.0","method":"_tidewave.ai/ack","params":{"latestId":"notif_1"}}"#;
    relay.connect("b".to_string());
    relay.handle_client_message("b", &message(ack), &mut out);
    assert_eq!(relay.sessions.get("s1").unwrap().message_buffer.len(), 2);
    relay.handle_client_message("a", &message(ack), &mut out);
    assert_eq!(relay.sessions.get("s1").unwrap().message_buffer.len(), 1);
}

#[test]
fn refused_loads_are_a_problem_for_sockets() {
    let (mut relay, _) = running();
    relay.connect("b".to_string());
    let mut out = Vec::new();
    relay.begin_initialize("b", &request(INITIALIZE), spawn_opts(), &mut out);
    out.clear();
    let active = r#"{"jsonrpc":"2.0","id":"l","method":"_tidewave.ai/session/load","params":{"sessionId":"s1","latestId":""}}"#;
    let problem = relay.handle_client_message("b", &message(active), &mut out);
    assert!(matches!(problem, Some(Problem::SessionActive)));
    assert_eq!(delivered(&out, "b").len(), 1);
    let missing = r#"{"jsonrpc":"2.0","id":"l","method":"_tidewave.ai/session/load","params":{"sessionId":"s9","latestId":""}}"#;
    let problem = relay.handle_client_message("b", &message(missing), &mut out);
    assert!(matches!(problem, Some(Problem::SessionNotFound)));
    assert_eq!(delivered(&out, "b").len(), 2);
}

#[test]
fn different_parameters_have_different_keys() {
    let params = [
        r#"{"protocolVersion":1}"#,
        r#"{"protocolVersion":"1"}"#,
        r#"{"protocolVersion":1.0}"#,
        r#"{"protocolVersion":1,"a":null}"#,
        r#"{"_meta":{"a":1}}"#,
        r#"[1,[2]]"#,
        r#"[[1],2]"#,
        r#"{"a":"\",\"b\":\"c"}"#,
        r#"{"a":"","b":"c"}"#,
    ];
    for (i, first) in params.iter().enumerate() {
        for (j, second) in params.iter().enumerate() {
            let same = generate_process_key("agent", ".", &json(first))
                == generate_process_key("agent", ".", &json(second));
            assert_eq!(same, i == j);
        }
    }
}

#[test]
fn cleaning_up_restores_the_tables() {
    let (mut relay, key) = running();
    let process = relay.processes.get_mut(&key).unwrap();
    let first = process.map_client_id_to_proxy("a".to_string(), Json::string("x"), None);
    let second =
        process.map_client_id_to_proxy("a".to_string(), Json::string("x"), Some("s1".to_string()));
    assert_ne!(first.to_text(), second.to_text());
    process.cleanup_id_mappings(&second);
    assert!(process.proxy_to_client_ids.contains_key(&first.to_text()));
    assert!(!process.proxy_to_client_ids.contains_key(&second.to_text()));
    assert!(!process.proxy_to_session_ids.contains_key(&second.to_text()));
    process.cleanup_id_mappings(&first);
    assert!(!process.proxy_to_client_ids.contains_key(&first.to_text()));
}

#[test]
fn fields_are_written_in_their_order() {
    let response = message(r#"{"error":{"message":"m","data":{"b":1,"a":2},"code":-3},"id":"x","jsonrpc":"2.0"}"#);
    assert_eq!(
        WebSocketMessage::JsonRpc(response).to_text(),
        "{\"jsonrpc\":\"2.0\",\"id\":\"x\",\"error\":{\"code\":-3,\"message\":\"m\",\"data\":{\"a\":2,\"b\":1}}}\n"
    );
    let asked = message(r#"{"method":"m","jsonrpc":"2.0","id":1}"#);
    assert_eq!(message_line(&asked), "{\"jsonrpc\":\"2.0\",\"id\":1,\"method\":\"m\",\"params\":null}\n");
}
