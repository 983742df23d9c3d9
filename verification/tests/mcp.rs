use tidewave_core::channel_result::JoinResult;
use tidewave_core::json::Json;
use tidewave_core::mcp::{answer_waiting, handed_over, Handed, HttpAnswer};
use tidewave_core::mcp_channel::{
    ClientStep as ChannelStep, McpChannel, McpChannelInfo, McpParams as ChannelParams,
};
use tidewave_core::mcp_remote::{
    classify, ClientStep as RemoteStep, McpMessage, McpOutboundMessage, McpParams as RemoteParams,
    McpRemoteMessage, McpRemoteState, RemoteText,
};
use tidewave_core::phoenix::PhxMessage;
use tidewave_core::ws::mcp::{ClientStep, McpChannelState, McpParams};

const REQUEST: &[u8] = br#"{"jsonrpc":"2.0","id":7,"method":"tools/list"}"#;
const NOTIFICATION: &[u8] = br#"{"jsonrpc":"2.0","method":"ping"}"#;

fn json(text: &str) -> Json {
    Json::parse(text).unwrap()
}

fn params(session_id: &str) -> McpParams {
    McpParams { session_id: Some(session_id.to_string()) }
}

fn joined() -> McpChannelState {
    let mut state = McpChannelState::new();
    let join = PhxMessage::new("mcp:s1", "phx_join", Json::object()).with_join_ref("j").with_ref("1");
    let (session_id, reply) = match state.join(&join) {
        Ok(joined) => joined,
        Err(_) => panic!("Expected a session"),
    };
    assert_eq!(session_id, "s1");
    assert_eq!(reply.encode(), r#"["j","1","mcp:s1","phx_reply",{"response":{},"status":"ok"}]"#);
    state
}

#[test]
fn a_request_waits_for_the_answer_of_the_browser() {
    let mut state = joined();
    match state.handle_client(params("s1"), REQUEST, 11) {
        ClientStep::Forward { push, waits, replaced } => {
            assert!(waits);
            assert_eq!(replaced, None);
            assert_eq!(push.topic, "mcp:s1");
            assert_eq!(push.event, "mcp_message");
            assert_eq!(push.join_ref.as_deref(), Some("j"));
        }
        _ => panic!("Expected a forward"),
    }
    let answer = PhxMessage::new("mcp:s1", "mcp_message", json(r#"{"jsonrpc":"2.0","id":7,"result":1}"#));
    let (ticket, message) = state.handle_incoming("s1", answer).unwrap();
    assert_eq!(ticket, 11);
    assert_eq!(message.get("result").unwrap().as_u64(), Some(1));
    let again = PhxMessage::new("mcp:s1", "mcp_message", json(r#"{"jsonrpc":"2.0","id":7,"result":1}"#));
    assert!(state.handle_incoming("s1", again).is_none());
}

#[test]
fn answers_go_by_session_and_id() {
    let mut state = joined();
    state.handle_client(params("s1"), REQUEST, 11);
    let other = PhxMessage::new("mcp:s1", "mcp_message", json(r#"{"jsonrpc":"2.0","id":8,"result":1}"#));
    assert!(state.handle_incoming("s1", other).is_none());
    let elsewhere = PhxMessage::new("mcp:s2", "mcp_message", json(r#"{"jsonrpc":"2.0","id":7}"#));
    assert!(state.handle_incoming("s2", elsewhere).is_none());
}

#[test]
fn notifications_do_not_wait() {
    let mut state = joined();
    match state.handle_client(params("s1"), NOTIFICATION, 11) {
        ClientStep::Forward { waits, .. } => assert!(!waits),
        _ => panic!("Expected a forward"),
    }
}

#[test]
fn bad_requests_are_refused() {
    let mut state = joined();
    let none = McpParams { session_id: None };
    assert!(matches!(
        state.handle_client(none, REQUEST, 1),
        ClientStep::Answer(HttpAnswer::BadRequest)
    ));
    assert!(matches!(
        state.handle_client(params("s1"), b"{}", 1),
        ClientStep::Answer(HttpAnswer::BadRequest)
    ));
    assert!(matches!(
        state.handle_client(params("s1"), b"{", 1),
        ClientStep::Answer(HttpAnswer::BadRequest)
    ));
}

#[test]
fn a_missing_browser_is_told() {
    let mut state = joined();
    match state.handle_client(params("s2"), REQUEST, 1) {
        ClientStep::Answer(HttpAnswer::Body(body)) => {
            assert_eq!(body.get("id").unwrap().as_u64(), Some(7));
            let error = body.get("error").unwrap();
            assert_eq!(error.get("code").unwrap().as_i64(), Some(-32000));
        }
        _ => panic!("Expected an answer"),
    }
}

#[test]
fn leaving_answers_those_who_wait() {
    let mut state = joined();
    state.handle_client(params("s1"), REQUEST, 11);
    let (tickets, answer) = state.leave("s1");
    assert_eq!(tickets, vec![11]);
    assert_eq!(
        answer.to_text(),
        r#"{"error":{"code":-32000,"message":"Channel connection closed"}}"#
    );
    assert!(matches!(
        state.handle_client(params("s1"), REQUEST, 12),
        ClientStep::Answer(HttpAnswer::Body(_))
    ));
}

#[test]
fn the_answer_is_the_body() {
    assert!(matches!(answer_waiting(Some(json("1"))), HttpAnswer::Body(_)));
    assert!(matches!(answer_waiting(None), HttpAnswer::InternalError));
}

#[test]
fn other_topics_have_no_session() {
    let mut state = McpChannelState::new();
    let join = PhxMessage::new("acp:s1", "phx_join", Json::object());
    assert!(state.join(&join).is_err());
}

#[test]
fn the_task_of_a_channel_notes_who_waits() {
    let mut channel = McpChannel::new();
    assert!(matches!(channel.join("mcp:s1", None), JoinResult::Granted(_)));
    assert!(matches!(channel.join("x:s1", None), JoinResult::Refused(_)));
    let given = ChannelParams { session_id: Some("s1".to_string()) };
    let info = match channel.handle_client(given, REQUEST, 5) {
        ChannelStep::Deliver(info) => info,
        _ => panic!("Expected a delivery"),
    };
    let McpChannelInfo::JsonRpc { ticket, .. } = &info;
    assert_eq!(*ticket, Some(5));
    let (push, replaced) = channel.handle_info(info);
    assert_eq!(push.get("id").unwrap().as_u64(), Some(7));
    assert_eq!(replaced, None);
    let answered = channel.handle_in("s1", "mcp_message", json(r#"{"id":7,"result":2}"#));
    assert_eq!(answered.map(|(ticket, _)| ticket), Some(5));
    let (tickets, _) = channel.terminate("s1");
    assert!(tickets.is_empty());
}

#[test]
fn texts_of_a_remote_are_classified() {
    assert!(matches!(classify("ping"), RemoteText::Ping));
    match classify("register-abc") {
        RemoteText::Register { session_id } => assert_eq!(session_id, "abc"),
        _ => panic!("Expected a registration"),
    }
    assert!(matches!(classify("{}"), RemoteText::Other));
}

#[test]
fn remotes_register_and_answer() {
    let mut state = McpRemoteState::new();
    let mut registered = Vec::new();
    match state.register("s1", "w1", &mut registered) {
        McpMessage::System { message } => assert_eq!(message, "registered-s1"),
        _ => panic!("Expected a system message"),
    }
    let given = RemoteParams { session_id: Some("s1".to_string()) };
    let message = match state.handle_client(given, REQUEST, 9) {
        RemoteStep::Deliver(message) => message,
        _ => panic!("Expected a delivery"),
    };
    let (outbound, replaced) = state.outbound(message);
    assert!(matches!(outbound, McpOutboundMessage::McpJsonRpc { .. }));
    assert_eq!(
        outbound.to_text(),
        r#"{"type":"mcp-jsonrpc","sessionId":"s1","jsonRpcMessage":{"id":7,"jsonrpc":"2.0","method":"tools/list"}}"#
    );
    assert_eq!(replaced, None);
    let answer = McpRemoteMessage {
        session_id: "s1".to_string(),
        json_rpc_message: json(r#"{"id":7,"result":3}"#),
    };
    assert_eq!(state.handle_message(answer).map(|(ticket, _)| ticket), Some(9));
}

#[test]
fn a_newer_registration_stays() {
    let mut state = McpRemoteState::new();
    let mut first = Vec::new();
    let mut second = Vec::new();
    state.register("s1", "w1", &mut first);
    state.register("s1", "w2", &mut second);
    state.close("w1", &first);
    let given = RemoteParams { session_id: Some("s1".to_string()) };
    assert!(matches!(state.handle_client(given, REQUEST, 1), RemoteStep::Deliver(_)));
    state.close("w2", &second);
    let given = RemoteParams { session_id: Some("s1".to_string()) };
    assert!(matches!(
        state.handle_client(given, REQUEST, 1),
        RemoteStep::Answer(HttpAnswer::Body(_))
    ));
}

#[test]
fn messages_of_a_remote_are_read() {
    let read = McpRemoteMessage::from_json(&json(r#"{"sessionId":"s1","jsonRpcMessage":{"id":7}}"#)).unwrap();
    assert_eq!(read.session_id, "s1");
    assert_eq!(read.json_rpc_message.get("id").unwrap().as_u64(), Some(7));
    assert!(McpRemoteMessage::from_json(&json(r#"{"sessionId":"s1"}"#)).is_none());
    assert!(McpRemoteMessage::from_json(&json(r#"{"sessionId":1,"jsonRpcMessage":{}}"#)).is_none());
    assert!(McpRemoteMessage::from_json(&json("7")).is_none());
}

#[test]
fn each_waiting_request_is_answered_once() {
    let mut state = joined();
    state.handle_client(params("s1"), REQUEST, 11);
    state.handle_client(params("s1"), br#"{"jsonrpc":"2.0","id":8,"method":"tools/list"}"#, 12);
    match state.handle_client(params("s1"), REQUEST, 13) {
        ClientStep::Forward { replaced, .. } => assert_eq!(replaced, Some(11)),
        _ => panic!("Expected a forward"),
    }
    let (mut tickets, _) = state.leave("s1");
    tickets.sort();
    assert_eq!(tickets, vec![12, 13]);
    assert!(state.leave("s1").0.is_empty());
}

#[test]
fn requests_wait_only_for_what_was_sent() {
    assert!(matches!(handed_over(true, true), Handed::Wait));
    assert!(matches!(handed_over(false, true), Handed::Answer(HttpAnswer::Accepted)));
    assert!(matches!(handed_over(true, false), Handed::Answer(HttpAnswer::InternalError)));
    assert!(matches!(handed_over(false, false), Handed::Answer(HttpAnswer::InternalError)));
}

#[test]
fn zeros_are_the_same_identity_whatever_their_sign() {
    let mut state = joined();
    state.handle_client(params("s1"), br#"{"jsonrpc":"2.0","id":[0.0,{"a":-0.0}],"method":"m"}"#, 11);
    let other = PhxMessage::new("mcp:s1", "mcp_message", json(r#"{"id":[0,{"a":0.0}],"result":1}"#));
    assert!(state.handle_incoming("s1", other).is_none());
    let answer = PhxMessage::new("mcp:s1", "mcp_message", json(r#"{"id":[-0.0,{"a":0.0}],"result":1}"#));
    assert_eq!(state.handle_incoming("s1", answer).unwrap().0, 11);
}
