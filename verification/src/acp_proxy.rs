//! The ACP proxy on WebSockets, one for each client.
//!
//! An agent is started by the first `initialize` that asks for it.

use vstd::prelude::*;

use crate::acp_relay;
use crate::acp_relay::{Problem, Relay, RelayEffect, RelayView, Style};
use crate::json;
use crate::json::Json;
use crate::jsonrpc;
use crate::jsonrpc::MessageView;
use crate::text;

pub use crate::acp_relay::{generate_process_key, version, ProcessState, TidewaveSpawnOptions};
pub use crate::acp_session::{
    BufferedMessage, NewSessionResponse, SessionState, TidewaveAckNotification, TidewaveExitParams,
    TidewaveSessionLoadRequest, TidewaveSessionLoadResponse,
};
pub use crate::jsonrpc::{
    JsonRpcError, JsonRpcMessage, JsonRpcNotification, JsonRpcRequest, JsonRpcResponse,
};

verus! {

/// The name of a client's connection.
pub type WebSocketId = String;

/// The state that all connections share.
pub type AcpProxyState = Relay;

/// What is sent to a client.
#[derive(Debug)]
pub enum WebSocketMessage {
    JsonRpc(JsonRpcMessage),
    Pong,
}

/// The text of what is sent to a client.
pub open spec fn message_text(message: WebSocketMessage) -> Seq<char> {
    match message {
        WebSocketMessage::JsonRpc(message) => jsonrpc::message_text(message@) + "\n"@,
        WebSocketMessage::Pong => "pong"@,
    }
}

impl WebSocketMessage {
    /// The text to send: a line of JSON, or `pong`.
    pub fn to_text(&self) -> (r: String)
        ensures
            r@ == message_text(*self),
    {
        match self {
            WebSocketMessage::JsonRpc(message) => {
                let mut line = message.to_text();
                line.append("\n");
                line
            },
            WebSocketMessage::Pong => "pong".to_owned(),
        }
    }
}

/// The line that an agent reads a message from.
pub fn message_line(message: &JsonRpcMessage) -> (r: String)
    ensures
        r@ == jsonrpc::message_text(message@) + "\n"@,
{
    let mut line = message.to_text();
    line.append("\n");
    line
}

/// Whether a text of a client only asks whether the server is there.
pub fn is_ping(message: &str) -> (r: bool)
    ensures
        r == (text::trimmed(message@) == "ping"@),
{
    text::same_text(text::trim(message), "ping")
}

/// The proxy with no agents and no clients.
pub fn new_state() -> (r: AcpProxyState)
    ensures
        r.wf(),
        r@ == (RelayView {
            style: Style::Socket,
            processes: Map::empty(),
            channels: Map::empty(),
            sessions: Map::empty(),
            owners: Map::empty(),
            homes: Map::empty(),
        }),
{
    Relay::new(Style::Socket)
}

/// What follows when a client's message was handled.
#[derive(Debug)]
pub enum Handled {
    /// Nothing more. The problem is for the log.
    Done(Option<Problem>),
    /// The client asks for an agent: read the options for starting it from `spawn`, then see
    /// [`Relay::begin_initialize`].
    Initialize { request: JsonRpcRequest, spawn: Json },
    /// The client asks for an agent and does not say how to start it.
    MissingSpawn,
}

/// Whether a message asks for an agent.
pub open spec fn is_initialize(message: MessageView) -> bool {
    message is Request && message->Request_0.method == "initialize"@
}

/// Handles a message of a client.
pub fn handle_client_message(
    state: &mut AcpProxyState,
    websocket_id: &str,
    message: JsonRpcMessage,
    out: &mut Vec<RelayEffect>,
) -> (r: Handled)
    requires
        old(state).wf(),
        old(state)@.style == Style::Socket,
    ensures
        final(state).wf(),
        if is_initialize(message@) {
            let request = message@->Request_0;
            &&& *final(state) == *old(state)
            &&& final(out)@ == old(out)@
            &&& match acp_relay::spawn_meta_of(request.params) {
                Some(options) => {
                    &&& r matches Handled::Initialize { request: asked, spawn }
                    &&& asked@ == request
                    &&& spawn@ == options
                },
                None => r is MissingSpawn,
            }
        } else {
            let step = acp_relay::from_client(old(state)@, websocket_id@, message@);
            &&& r == Handled::Done(step.problem)
            &&& final(state)@ == step.state
            &&& acp_relay::effects_view(final(out)@) == acp_relay::effects_view(old(out)@) + step.effects
        },
{
    match &message {
        JsonRpcMessage::Request(request) => {
            if text::same_text(request.method.as_str(), "initialize") {
                return match acp_relay::spawn_meta(request) {
                    Some(spawn) => Handled::Initialize { request: request.clone(), spawn },
                    None => Handled::MissingSpawn,
                };
            }
        },
        _ => {},
    }
    Handled::Done(state.handle_client_message(websocket_id, &message, out))
}

/// A message goes to a client as a line, and a pong as the word. A ping may have space around it.
pub proof fn lemma_text_calls(
    message: &JsonRpcMessage,
    socket_message: &WebSocketMessage,
    received: &str,
    line: String,
    written: String,
    ping: bool,
)
    requires
        call_ensures(message_line, (message,), line),
        call_ensures(WebSocketMessage::to_text, (socket_message,), written),
        call_ensures(is_ping, (received,), ping),
    ensures
        line@ == jsonrpc::message_text(message@).push('\n'),
        *socket_message is JsonRpc ==> written@ == jsonrpc::message_text(
            socket_message->JsonRpc_0@,
        ).push('\n'),
        *socket_message is Pong ==> written@ == "pong"@,
        ping <==> text::trimmed(received@) == "ping"@,
{
    reveal_strlit("\n");
    assert("\n"@ =~= seq!['\n']);
    assert(line@ =~= jsonrpc::message_text(message@).push('\n'));
    if *socket_message is JsonRpc {
        assert(written@ =~= jsonrpc::message_text(socket_message->JsonRpc_0@).push('\n'));
    }
}

/// A client's `initialize` is handed back with the options for starting the agent, and is reported where
/// there are none; nothing changes yet. Every other message is handled by the relay.
pub proof fn lemma_message_call(
    state: &mut AcpProxyState,
    websocket_id: &str,
    message: JsonRpcMessage,
    out: &mut Vec<RelayEffect>,
    r: Handled,
)
    requires
        call_ensures(handle_client_message, (state, websocket_id, message, out), r),
    ensures
        ({
            let first = message@ is Request && message@->Request_0.method == "initialize"@;
            let options = acp_relay::spawn_meta_of(message@->Request_0.params);
            let step = acp_relay::from_client(old(state)@, websocket_id@, message@);
            &&& first ==> final(state)@ == old(state)@ && final(out)@ == old(out)@
            &&& first && options is None ==> r is MissingSpawn
            &&& first && options is Some ==> r is Initialize && r->request@ == message@->Request_0
                && r->spawn@ == options->0
            &&& !first ==> r == Handled::Done(step.problem) && final(state)@ == step.state
                && acp_relay::effects_view(final(out)@) == acp_relay::effects_view(old(out)@)
                + step.effects
        }),
{
}

} // verus!
