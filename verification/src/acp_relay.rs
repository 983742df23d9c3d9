//! Relaying between clients and agents, with one set of tables for all agents.
//!
//! The requests of all clients of an agent go to it under identities of the relay's own, and the
//! responses go back under the identities that the clients chose. A session belongs to the client
//! that opened it. What an agent sends for a session is buffered until its client acknowledges it,
//! so that a client that reconnects can load the session and get what it has missed.
//!
//! For each kind of message a spec function gives the next state and the effects; the executable
//! function beside it does the same.

use vstd::prelude::*;

use crate::acp_session;
use crate::acp_session::{
    BufferedMessage, BufferedView, ChannelId, ExitView, NewSessionResponse, ProcessKey, SessionId,
    SessionState, SessionView, TidewaveAckNotification, TidewaveExitParams,
    TidewaveSessionLoadRequest, TidewaveSessionLoadResponse,
};
use crate::json;
use crate::json::{Json, JsonView};
use crate::jsonrpc;
use crate::jsonrpc::{
    ErrorView, JsonRpcError, JsonRpcMessage, JsonRpcNotification, JsonRpcRequest, JsonRpcResponse,
    MessageView, NotificationView, RequestView, ResponseView,
};
use crate::registry;
use crate::registry::Registry;
use crate::text;
use crate::ws::acp::channel;
use crate::ws::acp::channel::{ExitReason, OutputStream};
use crate::ws::acp::process::Stdin;
use crate::ws::acp::proxy::{SESSION_ALREADY_ACTIVE, SESSION_NOT_FOUND};

pub mod laws;
pub mod routing;

verus! {

broadcast use crate::registry::group_viewed;

/// The version that clients are told: that of the package, as `Cargo.toml` gives it.
pub const VERSION: &'static str = "0.1.0";

/// The version that clients are told.
pub fn version() -> (r: &'static str)
    ensures
        r@ == VERSION@,
{
    VERSION
}

/// How clients are connected.
#[derive(Debug, Clone, Copy, PartialEq, Eq, Structural)]
pub enum Style {
    /// Each client is a Phoenix channel.
    Channel,
    /// Each client has a WebSocket of its own.
    Socket,
}

/// How an agent is started.
#[derive(Debug)]
pub struct TidewaveSpawnOptions {
    pub command: String,
    pub env: Vec<(String, String)>,
    pub cwd: String,
    pub is_wsl: bool,
}

/// What the response to a request is going to change.
#[derive(Debug)]
pub enum Pending {
    /// `session/new` or `session/fork`: a session is named.
    Made,
    /// `session/load` or `session/resume`: a session is opened, or not.
    Opened { session_id: SessionId },
}

/// The model of a [`Pending`].
pub enum PendingView {
    Made,
    Opened { session_id: Seq<char> },
}

impl View for Pending {
    type V = PendingView;

    open spec fn view(&self) -> PendingView {
        match self {
            Pending::Made => PendingView::Made,
            Pending::Opened { session_id } => PendingView::Opened { session_id: session_id@ },
        }
    }
}

/// A request by the one who made it: a client or a session, and the identity that it has there.
#[derive(Debug)]
pub struct Asked {
    pub by: String,
    pub client_id: Json,
}

/// The model of an [`Asked`].
pub struct AskedView {
    pub by: Seq<char>,
    pub client_id: JsonView,
}

impl View for Asked {
    type V = AskedView;

    open spec fn view(&self) -> AskedView {
        AskedView { by: self.by@, client_id: self.client_id@ }
    }
}

/// One agent process.
pub struct ProcessState {
    pub key: ProcessKey,
    pub stdin: Stdin,
    pub next_proxy_id: u64,
    /// The requests in flight, by the text of the identity that the relay gave them.
    pub proxy_to_client_ids: Registry<Asked>,
    /// Those of them that belong to a session.
    pub proxy_to_session_ids: Registry<Asked>,
    pub pending: Registry<Pending>,
    /// The response to `initialize`, for clients that ask again.
    pub cached_init_response: Option<JsonRpcResponse>,
    pub init_request_id: Option<Json>,
    /// Lines that an agent wrote before it was initialized.
    pub stdout_buffer: Vec<String>,
    pub stderr_buffer: Vec<String>,
}

/// The model of a [`ProcessState`].
#[verifier::ext_equal]
pub struct ProcessView {
    pub key: Seq<char>,
    pub stdin: Stdin,
    pub next_proxy_id: u64,
    pub clients: Map<Seq<char>, AskedView>,
    pub sessions: Map<Seq<char>, AskedView>,
    pub pending: Map<Seq<char>, PendingView>,
    pub cached: Option<ResponseView>,
    pub init_request: Option<JsonView>,
    pub stdout: Seq<Seq<char>>,
    pub stderr: Seq<Seq<char>>,
}

/// The model of a response that may be missing.
pub open spec fn opt_response(response: Option<JsonRpcResponse>) -> Option<ResponseView> {
    match response {
        Some(r) => Some(r@),
        None => None,
    }
}

impl View for ProcessState {
    type V = ProcessView;

    open spec fn view(&self) -> ProcessView {
        ProcessView {
            key: self.key@,
            stdin: self.stdin,
            next_proxy_id: self.next_proxy_id,
            clients: registry::viewed(self.proxy_to_client_ids@),
            sessions: registry::viewed(self.proxy_to_session_ids@),
            pending: registry::viewed(self.pending@),
            cached: opt_response(self.cached_init_response),
            init_request: json::opt_json(self.init_request_id),
            stdout: text::texts(self.stdout_buffer@),
            stderr: text::texts(self.stderr_buffer@),
        }
    }
}

/// A process of which nothing has been heard yet.
pub open spec fn new_process(key: Seq<char>, stdin: Stdin) -> ProcessView {
    ProcessView {
        key,
        stdin,
        next_proxy_id: 1,
        clients: Map::empty(),
        sessions: Map::empty(),
        pending: Map::empty(),
        cached: None,
        init_request: None,
        stdout: seq![],
        stderr: seq![],
    }
}

/// The identity that the next request gets.
pub open spec fn next_id(process: ProcessView) -> JsonView {
    json::uint_json(process.next_proxy_id)
}

/// The process with a request noted under a fresh identity.
pub open spec fn mapped(
    process: ProcessView,
    channel_id: Seq<char>,
    client_id: JsonView,
    session_id: Option<Seq<char>>,
) -> ProcessView {
    let key = text::decimal(process.next_proxy_id as nat);
    ProcessView {
        next_proxy_id: acp_session::next_count(process.next_proxy_id),
        clients: process.clients.insert(key, AskedView { by: channel_id, client_id }),
        sessions: match session_id {
            Some(session_id) => process.sessions.insert(key, AskedView { by: session_id, client_id }),
            None => process.sessions,
        },
        ..process
    }
}

/// The process without a request.
pub open spec fn unmapped(process: ProcessView, proxy_id: JsonView) -> ProcessView {
    ProcessView {
        clients: process.clients.remove(json::id_text(proxy_id)),
        sessions: process.sessions.remove(json::id_text(proxy_id)),
        ..process
    }
}

/// What a request is going to change once it is answered.
pub open spec fn pending_of(style: Style, request: RequestView) -> Option<PendingView> {
    if request.method == "session/new"@ || (style == Style::Channel && request.method == "session/fork"@) {
        Some(PendingView::Made)
    } else if request.method == "session/load"@ || (style == Style::Channel && request.method
        == "session/resume"@) {
        match acp_session::session_id_of(request.params) {
            Some(session_id) => Some(PendingView::Opened { session_id }),
            None => None,
        }
    } else {
        None
    }
}

fn pending_request(style: Style, request: &JsonRpcRequest) -> (r: Option<Pending>)
    ensures
        match r {
            Some(pending) => pending_of(style, request@) == Some(pending@),
            None => pending_of(style, request@) is None,
        },
{
    let method = request.method.as_str();
    if text::same_text(method, "session/new") || (style == Style::Channel && text::same_text(
        method,
        "session/fork",
    )) {
        Some(Pending::Made)
    } else if text::same_text(method, "session/load") || (style == Style::Channel && text::same_text(
        method,
        "session/resume",
    )) {
        match acp_session::extract_session_id_from_request(request) {
            Some(session_id) => Some(Pending::Opened { session_id }),
            None => None,
        }
    } else {
        None
    }
}

impl ProcessState {
    /// The tables are well formed.
    pub open spec fn wf(&self) -> bool {
        self.proxy_to_client_ids.wf() && self.proxy_to_session_ids.wf() && self.pending.wf()
    }

    /// A process of which nothing has been heard yet.
    pub fn new(key: ProcessKey, stdin: Stdin) -> (r: Self)
        ensures
            r.wf(),
            r@ == new_process(key@, stdin),
    {
        let r = ProcessState {
            key,
            stdin,
            next_proxy_id: 1,
            proxy_to_client_ids: Registry::new(),
            proxy_to_session_ids: Registry::new(),
            pending: Registry::new(),
            cached_init_response: None,
            init_request_id: None,
            stdout_buffer: Vec::new(),
            stderr_buffer: Vec::new(),
        };
        assert(r@ =~= new_process(key@, stdin));
        r
    }

    /// A fresh identity for a request.
    pub fn generate_proxy_id(&mut self) -> (r: Json)
        ensures
            r@ == next_id(old(self)@),
            final(self)@ == (ProcessView {
                next_proxy_id: acp_session::next_count(old(self)@.next_proxy_id),
                ..old(self)@
            }),
            old(self).wf() ==> final(self).wf(),
    {
        let id: u64 = self.next_proxy_id;
        self.next_proxy_id = id.wrapping_add(1);
        Json::uint(id)
    }

    /// Notes a request under a fresh identity, and gives the identity.
    pub fn map_client_id_to_proxy(
        &mut self,
        channel_id: ChannelId,
        client_id: Json,
        session_id: Option<SessionId>,
    ) -> (r: Json)
        requires
            old(self).wf(),
        ensures
            final(self).wf(),
            r@ == next_id(old(self)@),
            json::id_text(r@) == text::decimal(old(self)@.next_proxy_id as nat),
            final(self)@ == mapped(old(self)@, channel_id@, client_id@, json::opt_text(session_id)),
    {
        let proxy_id = self.generate_proxy_id();
        let key = proxy_id.id_text();
        match session_id {
            Some(session_id) => {
                self.proxy_to_session_ids.insert(
                    key.clone(),
                    Asked { by: session_id, client_id: client_id.clone() },
                );
            },
            None => {},
        }
        self.proxy_to_client_ids.insert(key, Asked { by: channel_id, client_id });
        proxy_id
    }

    /// The client that made a request, and the identity that the request has there.
    pub fn resolve_proxy_id_to_client(&self, proxy_id: &Json) -> (r: Option<(ChannelId, Json)>)
        requires
            self.wf(),
        ensures
            r is Some == self@.clients.contains_key(json::id_text(proxy_id@)),
            r matches Some((channel_id, client_id)) ==> self@.clients[json::id_text(proxy_id@)] == (
            AskedView { by: channel_id@, client_id: client_id@ }),
    {
        match self.proxy_to_client_ids.get(proxy_id.id_text().as_str()) {
            Some(asked) => Some((asked.by.clone(), asked.client_id.clone())),
            None => None,
        }
    }

    /// The session that a request belongs to, and the identity that the request has with its client.
    pub fn resolve_proxy_id_to_session(&self, proxy_id: &Json) -> (r: Option<(SessionId, Json)>)
        requires
            self.wf(),
        ensures
            r is Some == self@.sessions.contains_key(json::id_text(proxy_id@)),
            r matches Some((session_id, client_id)) ==> self@.sessions[json::id_text(proxy_id@)] == (
            AskedView { by: session_id@, client_id: client_id@ }),
    {
        match self.proxy_to_session_ids.get(proxy_id.id_text().as_str()) {
            Some(asked) => Some((asked.by.clone(), asked.client_id.clone())),
            None => None,
        }
    }

    /// Forgets a request.
    pub fn cleanup_id_mappings(&mut self, proxy_id: &Json)
        requires
            old(self).wf(),
        ensures
            final(self).wf(),
            final(self)@ == unmapped(old(self)@, proxy_id@),
    {
        let key = proxy_id.id_text();
        let _ = self.proxy_to_client_ids.remove(key.as_str());
        let _ = self.proxy_to_session_ids.remove(key.as_str());
    }

    /// Keeps a line that an agent wrote before it was initialized.
    pub fn buffer_line(&mut self, stream: OutputStream, line: String)
        ensures
            final(self)@ == lined(old(self)@, stream, line@),
            old(self).wf() ==> final(self).wf(),
    {
        if self.cached_init_response.is_none() {
            match stream {
                OutputStream::Stdout => {
                    let ghost before = self.stdout_buffer@;
                    self.stdout_buffer.push(line);
                    assert(text::texts(self.stdout_buffer@) =~= text::texts(before).push(line@));
                },
                OutputStream::Stderr => {
                    let ghost before = self.stderr_buffer@;
                    self.stderr_buffer.push(line);
                    assert(text::texts(self.stderr_buffer@) =~= text::texts(before).push(line@));
                },
            }
        }
    }
}

/// The process with one more line of output, where it has not been initialized.
pub open spec fn lined(process: ProcessView, stream: OutputStream, line: Seq<char>) -> ProcessView {
    if process.cached is Some {
        process
    } else {
        match stream {
            OutputStream::Stdout => ProcessView { stdout: process.stdout.push(line), ..process },
            OutputStream::Stderr => ProcessView { stderr: process.stderr.push(line), ..process },
        }
    }
}

// ---------------------------------------------------------------------------
// State and effects
// ---------------------------------------------------------------------------

/// The agents, the clients and the sessions.
pub struct Relay {
    pub style: Style,
    pub processes: Registry<ProcessState>,
    /// The clients that are connected.
    pub channels: Registry<()>,
    pub sessions: Registry<SessionState>,
    pub session_to_channel: Registry<ChannelId>,
    pub channel_to_process: Registry<ProcessKey>,
}

/// The model of a [`Relay`].
#[verifier::ext_equal]
pub struct RelayView {
    pub style: Style,
    pub processes: Map<Seq<char>, ProcessView>,
    pub channels: Map<Seq<char>, ()>,
    pub sessions: Map<Seq<char>, SessionView>,
    /// The client of each session.
    pub owners: Map<Seq<char>, Seq<char>>,
    /// The agent of each client.
    pub homes: Map<Seq<char>, Seq<char>>,
}

impl View for Relay {
    type V = RelayView;

    open spec fn view(&self) -> RelayView {
        RelayView {
            style: self.style,
            processes: registry::viewed(self.processes@),
            channels: self.channels@,
            sessions: registry::viewed(self.sessions@),
            owners: registry::viewed(self.session_to_channel@),
            homes: registry::viewed(self.channel_to_process@),
        }
    }
}

/// Something to be done.
#[derive(Debug)]
pub enum RelayEffect {
    /// Send a message to a client.
    Deliver { channel_id: ChannelId, message: JsonRpcMessage },
    /// Tell a client that its agent has ended.
    Exit { channel_id: ChannelId, exit: TidewaveExitParams },
    /// Send a message to an agent.
    Send { process_key: ProcessKey, message: JsonRpcMessage },
    /// Stop an agent.
    Stop { process_key: ProcessKey },
}

/// The model of a [`RelayEffect`].
pub enum EffectView {
    Deliver { channel_id: Seq<char>, message: MessageView },
    Exit { channel_id: Seq<char>, exit: ExitView },
    Send { process_key: Seq<char>, message: MessageView },
    Stop { process_key: Seq<char> },
}

impl View for RelayEffect {
    type V = EffectView;

    open spec fn view(&self) -> EffectView {
        match self {
            RelayEffect::Deliver { channel_id, message } => EffectView::Deliver {
                channel_id: channel_id@,
                message: message@,
            },
            RelayEffect::Exit { channel_id, exit } => EffectView::Exit {
                channel_id: channel_id@,
                exit: exit@,
            },
            RelayEffect::Send { process_key, message } => EffectView::Send {
                process_key: process_key@,
                message: message@,
            },
            RelayEffect::Stop { process_key } => EffectView::Stop { process_key: process_key@ },
        }
    }
}

/// The models of a list of effects.
pub open spec fn effects_view(effects: Seq<RelayEffect>) -> Seq<EffectView> {
    effects.map_values(|e: RelayEffect| e@)
}

/// Why a message was not handled.
#[derive(Debug, Clone, Copy, PartialEq, Eq, Structural)]
pub enum Problem {
    /// The client has no agent.
    NoProcessMapping,
    /// The client's agent does not run.
    ProcessNotFound,
    /// The parameters are not those of the method.
    InvalidParams,
    /// The process was not started.
    StdinUnavailable,
    /// Writing to the process has failed.
    StdinClosed,
    /// The agent could not open the session.
    LoadFailed,
    /// Nobody has heard of the session.
    SessionNotFound,
    /// Another client has the session.
    SessionActive,
}

/// What follows from a message: the next state, the effects, and the problem, if there is one.
#[verifier::ext_equal]
pub struct Step {
    pub state: RelayView,
    pub effects: Seq<EffectView>,
    pub problem: Option<Problem>,
}

/// Nothing follows.
pub open spec fn nothing(state: RelayView) -> Step {
    Step { state, effects: seq![], problem: None }
}

/// Nothing follows but a problem.
pub open spec fn refused(state: RelayView, problem: Problem) -> Step {
    Step { state, effects: seq![], problem: Some(problem) }
}

/// The problem that a client was already told of. Where clients have sockets of their own, it is
/// reported besides.
pub open spec fn told_problem(style: Style, problem: Problem) -> Option<Problem> {
    if style == Style::Socket {
        Some(problem)
    } else {
        None
    }
}

/// The first effects and then those of a step.
pub open spec fn after(effects: Seq<EffectView>, step: Step) -> Step {
    Step { effects: effects + step.effects, ..step }
}

impl RelayView {
    /// The agent of a client, where it runs.
    pub open spec fn process_of(self, channel_id: Seq<char>) -> Result<Seq<char>, Problem> {
        if !self.homes.contains_key(channel_id) {
            Err(Problem::NoProcessMapping)
        } else if !self.processes.contains_key(self.homes[channel_id]) {
            Err(Problem::ProcessNotFound)
        } else {
            Ok(self.homes[channel_id])
        }
    }

    /// The state with one process replaced.
    pub open spec fn with_process(self, key: Seq<char>, process: ProcessView) -> RelayView {
        RelayView { processes: self.processes.insert(key, process), ..self }
    }

    /// The state with one session replaced.
    pub open spec fn with_session(self, session_id: Seq<char>, session: SessionView) -> RelayView {
        RelayView { sessions: self.sessions.insert(session_id, session), ..self }
    }

    /// The state in which a session belongs to a client.
    pub open spec fn with_owner(self, session_id: Seq<char>, channel_id: Seq<char>) -> RelayView {
        RelayView { owners: self.owners.insert(session_id, channel_id), ..self }
    }

    /// The state in which a client talks to an agent.
    pub open spec fn with_home(self, channel_id: Seq<char>, key: Seq<char>) -> RelayView {
        RelayView { homes: self.homes.insert(channel_id, key), ..self }
    }

    /// The effect of sending a message to a client: none where it is not connected.
    pub open spec fn deliver(self, channel_id: Seq<char>, message: MessageView) -> Seq<EffectView> {
        if self.channels.contains_key(channel_id) {
            seq![EffectView::Deliver { channel_id, message }]
        } else {
            seq![]
        }
    }

    /// The effect of telling a client that its agent has ended.
    pub open spec fn tell_exit(self, channel_id: Seq<char>, exit: ExitView) -> Seq<EffectView> {
        if self.style == Style::Socket {
            self.deliver(channel_id, exit_notification(exit))
        } else if self.channels.contains_key(channel_id) {
            seq![EffectView::Exit { channel_id, exit }]
        } else {
            seq![]
        }
    }
}

/// The notification that tells that an agent has ended.
pub open spec fn exit_notification(exit: ExitView) -> MessageView {
    MessageView::Notification(
        NotificationView {
            jsonrpc: jsonrpc::JSONRPC_VERSION@,
            method: "_tidewave.ai/exit"@,
            params: Some(acp_session::exit_json(exit)),
        },
    )
}

/// The effect of sending a message to an agent: none where it cannot be written to.
pub open spec fn sent(process: ProcessView, message: MessageView) -> Seq<EffectView> {
    if process.stdin == Stdin::Open {
        seq![EffectView::Send { process_key: process.key, message }]
    } else {
        seq![]
    }
}

/// Why a message could not be sent to an agent, if it could not.
pub open spec fn send_problem(process: ProcessView) -> Option<Problem> {
    match process.stdin {
        Stdin::Open => None,
        Stdin::Missing => Some(Problem::StdinUnavailable),
        Stdin::Closed => Some(Problem::StdinClosed),
    }
}

/// The response that reports an error.
pub open spec fn error_response(id: JsonView, code: i32, message: Seq<char>) -> MessageView {
    MessageView::Response(
        ResponseView {
            jsonrpc: jsonrpc::JSONRPC_VERSION@,
            id,
            result: None,
            error: Some(ErrorView { code, message, data: None }),
        },
    )
}

/// An exit without output.
pub open spec fn bare_exit(error: Seq<char>, message: Seq<char>) -> ExitView {
    ExitView { error, message, stdout: None, stderr: None }
}

fn exit_without_output(error: &str, message: &str) -> (r: TidewaveExitParams)
    ensures
        r@ == bare_exit(error@, message@),
{
    TidewaveExitParams {
        error: error.to_owned(),
        message: message.to_owned(),
        stdout: None,
        stderr: None,
    }
}

fn clone_exit(exit: &TidewaveExitParams) -> (r: TidewaveExitParams)
    ensures
        r@ == exit@,
{
    TidewaveExitParams {
        error: exit.error.clone(),
        message: exit.message.clone(),
        stdout: crate::phoenix::clone_text(&exit.stdout),
        stderr: crate::phoenix::clone_text(&exit.stderr),
    }
}

fn send_to_process(process: &ProcessState, message: JsonRpcMessage, out: &mut Vec<RelayEffect>) -> (r: Option<
    Problem,
>)
    ensures
        r == send_problem(process@),
        effects_view(final(out)@) == effects_view(old(out)@) + sent(process@, message@),
{
    match process.stdin {
        Stdin::Open => {
            out.push(RelayEffect::Send { process_key: process.key.clone(), message });
            assert(effects_view(out@) =~= effects_view(old(out)@) + sent(process@, message@));
            None
        },
        Stdin::Missing => {
            assert(effects_view(out@) =~= effects_view(old(out)@) + sent(process@, message@));
            Some(Problem::StdinUnavailable)
        },
        Stdin::Closed => {
            assert(effects_view(out@) =~= effects_view(old(out)@) + sent(process@, message@));
            Some(Problem::StdinClosed)
        },
    }
}

// ---------------------------------------------------------------------------
// What messages of clients do
// ---------------------------------------------------------------------------

/// A request that is forwarded under a fresh identity.
pub open spec fn regular(state: RelayView, channel_id: Seq<char>, request: RequestView) -> Step {
    match state.process_of(channel_id) {
        Err(problem) => refused(state, problem),
        Ok(key) => {
            let process = state.processes[key];
            let noted = mapped(
                process,
                channel_id,
                request.id,
                acp_session::session_id_of(request.params),
            );
            let pending = match pending_of(state.style, request) {
                Some(pending) => process.pending.insert(
                    text::decimal(process.next_proxy_id as nat),
                    pending,
                ),
                None => process.pending,
            };
            Step {
                state: state.with_process(key, ProcessView { pending, ..noted }),
                effects: sent(
                    process,
                    MessageView::Request(RequestView { id: next_id(process), ..request }),
                ),
                problem: None,
            }
        },
    }
}

/// `initialize` goes to an agent that has not been asked before; later clients get the response
/// that was kept.
pub open spec fn initialize(state: RelayView, channel_id: Seq<char>, request: RequestView) -> Step {
    match state.process_of(channel_id) {
        Err(problem) => refused(state, problem),
        Ok(key) => {
            let process = state.processes[key];
            match process.cached {
                Some(cached) => Step {
                    state,
                    effects: state.deliver(
                        channel_id,
                        MessageView::Response(ResponseView { id: request.id, ..cached }),
                    ),
                    problem: None,
                },
                None => {
                    let noted = mapped(
                        process,
                        channel_id,
                        request.id,
                        acp_session::session_id_of(request.params),
                    );
                    let asked = ProcessView { init_request: Some(next_id(process)), ..noted };
                    Step {
                        state: state.with_process(key, asked),
                        effects: if process.stdin == Stdin::Open {
                            sent(
                                process,
                                MessageView::Request(
                                    RequestView { id: next_id(process), ..request },
                                ),
                            )
                        } else {
                            state.tell_exit(
                                channel_id,
                                bare_exit(
                                    "communication_error"@,
                                    "Failed to communicate with process"@,
                                ),
                            )
                        },
                        problem: None,
                    }
                },
            }
        },
    }
}

/// The effect of delivering buffered messages.
pub open spec fn replayed(state: RelayView, channel_id: Seq<char>, buffer: Seq<BufferedView>) -> Seq<EffectView>
    decreases buffer.len(),
{
    if buffer.len() == 0 {
        seq![]
    } else {
        replayed(state, channel_id, buffer.drop_last()) + state.deliver(
            channel_id,
            buffer.last().message,
        )
    }
}

/// The response to a session that was loaded.
pub open spec fn loaded_response(id: JsonView, cancelled: bool) -> MessageView {
    MessageView::Response(
        ResponseView {
            jsonrpc: jsonrpc::JSONRPC_VERSION@,
            id,
            result: Some(acp_session::load_result_json(cancelled)),
            error: None,
        },
    )
}

/// `_tidewave.ai/session/load`: a client takes over a session that no client has, and gets what was
/// sent since the last message it has seen.
pub open spec fn tidewave_load(state: RelayView, channel_id: Seq<char>, request: RequestView) -> Step {
    match acp_session::session_and_latest(request.params) {
        None => refused(state, Problem::InvalidParams),
        Some((session_id, latest)) => if !state.sessions.contains_key(session_id) {
            Step {
                state,
                effects: state.deliver(
                    channel_id,
                    error_response(request.id, SESSION_NOT_FOUND, "Session not found"@),
                ),
                problem: told_problem(state.style, Problem::SessionNotFound),
            }
        } else {
            let session = state.sessions[session_id];
            let counted = SessionView {
                cancel_counter: acp_session::next_count(session.cancel_counter),
                ..session
            };
            if state.owners.contains_key(session_id) {
                Step {
                    state: state.with_session(session_id, counted),
                    effects: state.deliver(
                        channel_id,
                        error_response(
                            request.id,
                            SESSION_ALREADY_ACTIVE,
                            "Session already has an active connection"@,
                        ),
                    ),
                    problem: told_problem(state.style, Problem::SessionActive),
                }
            } else {
                let resumed = state.with_session(
                    session_id,
                    SessionView { cancelled: false, ..counted },
                );
                if state.style == Style::Socket || state.channels.contains_key(channel_id) {
                    Step {
                        state: resumed.with_home(channel_id, session.process_key).with_owner(
                            session_id,
                            channel_id,
                        ),
                        effects: replayed(
                            state,
                            channel_id,
                            acp_session::messages_after(session.buffer, latest),
                        ) + state.deliver(channel_id, loaded_response(request.id, session.cancelled)),
                        problem: None,
                    }
                } else {
                    nothing(resumed)
                }
            }
        },
    }
}

/// `session/load`: the agent opens a session for a client, unless another client has it.
pub open spec fn acp_load(state: RelayView, channel_id: Seq<char>, request: RequestView) -> Step {
    match acp_session::session_id_of(request.params) {
        None => regular(state, channel_id, request),
        Some(session_id) => if state.owners.contains_key(session_id) {
            Step {
                state,
                effects: state.deliver(
                    channel_id,
                    error_response(
                        request.id,
                        SESSION_ALREADY_ACTIVE,
                        "Session already has an active connection"@,
                    ),
                ),
                problem: told_problem(state.style, Problem::SessionActive),
            }
        } else if state.sessions.contains_key(session_id) {
            regular(
                state.with_owner(session_id, channel_id).with_home(
                    channel_id,
                    state.sessions[session_id].process_key,
                ),
                channel_id,
                request,
            )
        } else if state.homes.contains_key(channel_id) {
            let key = state.homes[channel_id];
            regular(
                state.with_session(session_id, acp_session::new_session(key)).with_owner(
                    session_id,
                    channel_id,
                ).with_home(channel_id, key),
                channel_id,
                request,
            )
        } else {
            regular(state, channel_id, request)
        },
    }
}

/// A client asks for its agent to be stopped.
pub open spec fn exit_asked(state: RelayView, channel_id: Seq<char>) -> Step {
    match state.process_of(channel_id) {
        Err(_) => nothing(state),
        Ok(key) => Step {
            state,
            effects: seq![EffectView::Stop { process_key: key }],
            problem: None,
        },
    }
}

/// A session whose client has seen the messages up to one, if the session is that client's.
pub open spec fn acknowledged_session(
    state: RelayView,
    channel_id: Seq<char>,
    session_id: Seq<char>,
    latest: Seq<char>,
) -> SessionView {
    let session = state.sessions[session_id];
    if state.owners.contains_key(session_id) && state.owners[session_id] == channel_id {
        acp_session::pruned(session, latest)
    } else {
        session
    }
}

/// `_tidewave.ai/ack`: the client of a session has seen its messages up to one. Where no session is
/// named, that goes for each session of the client that holds the message.
pub open spec fn acknowledged(state: RelayView, channel_id: Seq<char>, params: Option<JsonView>) -> Step {
    match acp_session::ack_of(params) {
        None => refused(state, Problem::InvalidParams),
        Some((Some(session_id), latest)) => if state.sessions.contains_key(session_id) {
            nothing(
                state.with_session(
                    session_id,
                    acknowledged_session(state, channel_id, session_id, latest),
                ),
            )
        } else {
            nothing(state)
        },
        Some((None, latest)) => nothing(
            RelayView {
                sessions: Map::new(
                    |id: Seq<char>| state.sessions.contains_key(id),
                    |id: Seq<char>| acknowledged_session(state, channel_id, id, latest),
                ),
                ..state
            },
        ),
    }
}

/// A message that is forwarded as it is.
pub open spec fn passed_on(state: RelayView, channel_id: Seq<char>, message: MessageView) -> Step {
    match state.process_of(channel_id) {
        Err(problem) => refused(state, problem),
        Ok(key) => Step {
            state,
            effects: sent(state.processes[key], message),
            problem: send_problem(state.processes[key]),
        },
    }
}

/// What a request of a client does. Where clients have sockets of their own, `initialize` starts the
/// agent and is not handled here (see [`Relay::begin_initialize`]).
pub open spec fn client_request(state: RelayView, channel_id: Seq<char>, request: RequestView) -> Step {
    if request.method == "initialize"@ {
        if state.style == Style::Socket {
            nothing(state)
        } else {
            initialize(state, channel_id, request)
        }
    } else if request.method == "_tidewave.ai/session/load"@ {
        tidewave_load(state, channel_id, request)
    } else if request.method == "session/load"@ {
        acp_load(state, channel_id, request)
    } else if state.style == Style::Socket && request.method == "_tidewave.ai/exit"@ {
        exit_asked(state, channel_id)
    } else {
        regular(state, channel_id, request)
    }
}

/// What a message of a client does.
pub open spec fn from_client(state: RelayView, channel_id: Seq<char>, message: MessageView) -> Step {
    match message {
        MessageView::Request(request) => client_request(state, channel_id, request),
        MessageView::Notification(notification) => if notification.method == "_tidewave.ai/ack"@ {
            acknowledged(state, channel_id, notification.params)
        } else {
            passed_on(state, channel_id, message)
        },
        MessageView::Response(_) => passed_on(state, channel_id, message),
    }
}

// ---------------------------------------------------------------------------
// What messages of agents do
// ---------------------------------------------------------------------------

/// Whether a response answers the `initialize` that the agent was asked.
pub open spec fn answers_init(process: ProcessView, response: ResponseView) -> bool {
    match process.init_request {
        Some(id) => json::id_text(id) == json::id_text(response.id),
        None => false,
    }
}

/// A response as the client that asked gets it.
pub open spec fn client_answer(process: ProcessView, response: ResponseView, client_id: JsonView) -> ResponseView {
    ResponseView {
        id: client_id,
        result: if answers_init(process, response) {
            acp_session::with_capabilities(acp_session::with_version(response.result, VERSION@))
        } else {
            response.result
        },
        ..response
    }
}

/// The process once a response has come: the response to `initialize` is kept for later clients.
pub open spec fn response_seen(process: ProcessView, response: ResponseView, answer: ResponseView) -> ProcessView {
    let settled = ProcessView { pending: process.pending.remove(json::id_text(response.id)), ..process };
    if answers_init(process, response) {
        ProcessView { cached: Some(answer), stdout: seq![], stderr: seq![], ..settled }
    } else {
        settled
    }
}

/// A session that an agent has opened for a client. A session that is known already stays as it is.
pub open spec fn session_opened(state: RelayView, session_id: Seq<char>, channel_id: Seq<char>) -> RelayView {
    if !state.sessions.contains_key(session_id) && state.homes.contains_key(channel_id) {
        state.with_session(session_id, acp_session::new_session(state.homes[channel_id])).with_owner(
            session_id,
            channel_id,
        )
    } else {
        state
    }
}

/// A response whose client is gone: it goes to the client that has its session now. Where there is
/// none, the response is buffered, if clients are channels.
pub open spec fn answered_late(state: RelayView, asked: Option<AskedView>, response: ResponseView) -> (
    RelayView,
    Seq<EffectView>,
) {
    match asked {
        None => (state, seq![]),
        Some(asked) => {
            let answer = MessageView::Response(ResponseView { id: asked.client_id, ..response });
            if state.owners.contains_key(asked.by) {
                (state, state.deliver(state.owners[asked.by], answer))
            } else if state.style == Style::Channel && state.sessions.contains_key(asked.by) {
                (
                    state.with_session(
                        asked.by,
                        acp_session::session_with(
                            state.sessions[asked.by],
                            answer,
                            json::json_text(asked.client_id),
                        ),
                    ),
                    seq![],
                )
            } else {
                (state, seq![])
            }
        },
    }
}

/// What a response changes besides being delivered, by what its request was about.
pub open spec fn settled(
    state: RelayView,
    pending: Option<PendingView>,
    channel_id: Seq<char>,
    answer: ResponseView,
) -> RelayView {
    match pending {
        Some(PendingView::Opened { session_id }) => if state.style == Style::Channel {
            session_opened(state, session_id, channel_id)
        } else {
            state
        },
        Some(PendingView::Made) => match answer.result {
            Some(result) => match acp_session::new_session_of(result) {
                Some(session_id) => session_opened(state, session_id, channel_id),
                None => state,
            },
            None => state,
        },
        None => state,
    }
}

/// A response of an agent: the client that asked gets it under its own identity. A response to no
/// request in flight is ignored. Where the agent could not open a session, the session is
/// forgotten.
pub open spec fn answered(state: RelayView, key: Seq<char>, response: ResponseView) -> Step {
    let id = json::id_text(response.id);
    let process = state.processes[key];
    if !process.clients.contains_key(id) {
        nothing(state)
    } else {
        let asked = process.clients[id];
        let answer = client_answer(process, response, asked.client_id);
        let pending = if process.pending.contains_key(id) {
            Some(process.pending[id])
        } else {
            None
        };
        let seen = state.with_process(key, response_seen(process, response, answer));
        if answer.error is Some && pending is Some && pending->0 is Opened {
            let session_id = pending->0->session_id;
            Step {
                state: RelayView {
                    sessions: seen.sessions.remove(session_id),
                    owners: seen.owners.remove(session_id),
                    ..seen
                },
                effects: state.deliver(asked.by, MessageView::Response(answer)),
                problem: Some(Problem::LoadFailed),
            }
        } else {
            let opened = settled(seen, pending, asked.by, answer);
            let (delivered, effects) = if state.channels.contains_key(asked.by) {
                (opened, state.deliver(asked.by, MessageView::Response(answer)))
            } else {
                answered_late(
                    opened,
                    if process.sessions.contains_key(id) {
                        Some(process.sessions[id])
                    } else {
                        None
                    },
                    response,
                )
            };
            Step {
                state: delivered.with_process(key, unmapped(delivered.processes[key], response.id)),
                effects,
                problem: None,
            }
        }
    }
}

/// A message of an agent as it is buffered and delivered, with its identity in the buffer.
pub open spec fn routed(session: SessionView, message: MessageView) -> (MessageView, Seq<char>) {
    match message {
        MessageView::Notification(n) => {
            let id = acp_session::notification_id(session.next_notification);
            (
                MessageView::Notification(
                    NotificationView { params: acp_session::with_notification_id(n.params, id), ..n },
                ),
                id,
            )
        },
        MessageView::Request(r) => (message, json::json_text(r.id)),
        MessageView::Response(r) => (message, json::json_text(r.id)),
    }
}

/// A request or notification of an agent: it is buffered for its session and delivered to the
/// session's client.
pub open spec fn from_agent(state: RelayView, message: MessageView) -> Step {
    match acp_session::session_id_of(acp_session::scope_of(message)) {
        Some(session_id) => if state.sessions.contains_key(session_id) {
            let session = state.sessions[session_id];
            let (routed_message, id) = routed(session, message);
            let counted = if message is Notification {
                SessionView {
                    next_notification: acp_session::next_count(session.next_notification),
                    ..session
                }
            } else {
                session
            };
            Step {
                state: state.with_session(
                    session_id,
                    acp_session::session_with(counted, routed_message, id),
                ),
                effects: if state.owners.contains_key(session_id) {
                    state.deliver(state.owners[session_id], routed_message)
                } else {
                    seq![]
                },
                problem: None,
            }
        } else {
            nothing(state)
        },
        None => nothing(state),
    }
}

/// What a message of the agent under a key does.
pub open spec fn from_process(state: RelayView, key: Seq<char>, message: MessageView) -> Step {
    if !state.processes.contains_key(key) {
        nothing(state)
    } else {
        match message {
            MessageView::Response(response) => answered(state, key, response),
            _ => from_agent(state, message),
        }
    }
}

// ---------------------------------------------------------------------------
// Clients and agents that go
// ---------------------------------------------------------------------------

/// Whether a session is let go when a client goes: it is the client's. Where clients have sockets,
/// only sessions that are known are let go.
pub open spec fn lets_go(state: RelayView, session_id: Seq<char>, channel_id: Seq<char>) -> bool {
    &&& state.owners.contains_key(session_id)
    &&& state.owners[session_id] == channel_id
    &&& state.style == Style::Channel || state.sessions.contains_key(session_id)
}

/// The state once a client is gone.
pub open spec fn disconnected(state: RelayView, channel_id: Seq<char>) -> RelayView {
    RelayView {
        channels: state.channels.remove(channel_id),
        homes: state.homes.remove(channel_id),
        owners: state.owners.remove_keys(
            Set::new(|session_id: Seq<char>| lets_go(state, session_id, channel_id)),
        ),
        ..state
    }
}

/// Of the sessions listed in `order`, those that a client leaves behind, each with its cancel
/// counter.
pub open spec fn left_behind(state: RelayView, order: Seq<Seq<char>>, channel_id: Seq<char>) -> Seq<(Seq<char>, u64)>
    decreases order.len(),
{
    if order.len() == 0 {
        seq![]
    } else {
        let rest = left_behind(state, order.drop_last(), channel_id);
        if lets_go(state, order.last(), channel_id) && state.sessions.contains_key(order.last()) {
            rest.push((order.last(), state.sessions[order.last()].cancel_counter))
        } else {
            rest
        }
    }
}

/// The model of a list of sessions with their cancel counters.
pub open spec fn counters_view(list: Seq<(SessionId, u64)>) -> Seq<(Seq<char>, u64)> {
    list.map_values(|e: (SessionId, u64)| (e.0@, e.1))
}

/// The notification that cancels what an agent does for a session.
pub open spec fn cancel_notification(session_id: Seq<char>) -> MessageView {
    MessageView::Notification(
        NotificationView {
            jsonrpc: jsonrpc::JSONRPC_VERSION@,
            method: "session/cancel"@,
            params: Some(json::empty_object().with("sessionId"@, JsonView::Str(session_id))),
        },
    )
}

/// A session that was left behind is cancelled, unless a client has come back to it since.
pub open spec fn cancelled(state: RelayView, session_id: Seq<char>, counter: u64) -> Step {
    if state.owners.contains_key(session_id) || !state.sessions.contains_key(session_id) {
        nothing(state)
    } else {
        let session = state.sessions[session_id];
        if session.cancel_counter != counter || !state.processes.contains_key(session.process_key) {
            nothing(state)
        } else {
            Step {
                state: state.with_session(session_id, SessionView { cancelled: true, ..session }),
                effects: sent(state.processes[session.process_key], cancel_notification(session_id)),
                problem: None,
            }
        }
    }
}

/// What clients are told when an agent has ended: an agent that was never initialized shows what it
/// wrote.
pub open spec fn exit_view(process: ProcessView, reason: ExitReason) -> ExitView {
    let (error, message) = channel::exit_reason_view(reason);
    if process.cached is Some {
        ExitView { error, message, stdout: None, stderr: None }
    } else {
        ExitView {
            error,
            message,
            stdout: channel::output_text(process.stdout),
            stderr: channel::output_text(process.stderr),
        }
    }
}

/// The effect of telling those of the listed clients that talk to an agent that it has ended.
pub open spec fn exits_told(
    state: RelayView,
    order: Seq<Seq<char>>,
    key: Seq<char>,
    exit: ExitView,
) -> Seq<EffectView>
    decreases order.len(),
{
    if order.len() == 0 {
        seq![]
    } else {
        let rest = exits_told(state, order.drop_last(), key, exit);
        if state.homes.contains_key(order.last()) && state.homes[order.last()] == key {
            rest + state.tell_exit(order.last(), exit)
        } else {
            rest
        }
    }
}

/// The state once an agent has ended: its sessions are gone with it.
pub open spec fn ended(state: RelayView, key: Seq<char>) -> RelayView {
    RelayView {
        processes: state.processes.remove(key),
        sessions: state.sessions.remove_keys(
            Set::new(
                |session_id: Seq<char>|
                    state.sessions.contains_key(session_id) && state.sessions[session_id].process_key
                        == key,
            ),
        ),
        ..state
    }
}

// ---------------------------------------------------------------------------
// The relay
// ---------------------------------------------------------------------------

/// The state and the effects after something was handled are those of a step.
pub open spec fn stepped(
    relay: Relay,
    before: Seq<RelayEffect>,
    out: Seq<RelayEffect>,
    problem: Option<Problem>,
    step: Step,
) -> bool {
    &&& relay.wf()
    &&& relay@ == step.state
    &&& effects_view(out) == effects_view(before) + step.effects
    &&& problem == step.problem
}

impl Relay {
    /// The tables are well formed, and each process runs under its own key.
    pub open spec fn wf(&self) -> bool {
        &&& self.processes.wf()
        &&& self.channels.wf()
        &&& self.sessions.wf()
        &&& self.session_to_channel.wf()
        &&& self.channel_to_process.wf()
        &&& forall|key: Seq<char>| #[trigger]
            self.processes@.contains_key(key) ==> self.processes@[key].wf() && self.processes@[key].key@
                == key
    }

    /// No agents, no clients, no sessions.
    pub fn new(style: Style) -> (r: Self)
        ensures
            r.wf(),
            r@ == (RelayView {
                style,
                processes: Map::empty(),
                channels: Map::empty(),
                sessions: Map::empty(),
                owners: Map::empty(),
                homes: Map::empty(),
            }),
    {
        let r = Relay {
            style,
            processes: Registry::new(),
            channels: Registry::new(),
            sessions: Registry::new(),
            session_to_channel: Registry::new(),
            channel_to_process: Registry::new(),
        };
        assert(r@ =~= (RelayView {
            style,
            processes: Map::empty(),
            channels: Map::empty(),
            sessions: Map::empty(),
            owners: Map::empty(),
            homes: Map::empty(),
        }));
        r
    }

    /// A client connects.
    pub fn connect(&mut self, channel_id: ChannelId)
        requires
            old(self).wf(),
        ensures
            final(self).wf(),
            final(self)@ == (RelayView {
                channels: old(self)@.channels.insert(channel_id@, ()),
                ..old(self)@
            }),
    {
        self.channels.insert(channel_id, ());
    }

    /// Sends a message to a client, where it is connected.
    fn send_to_channel(&self, channel_id: &str, message: JsonRpcMessage, out: &mut Vec<RelayEffect>) -> (r: bool)
        requires
            self.wf(),
        ensures
            r == self@.channels.contains_key(channel_id@),
            effects_view(final(out)@) == effects_view(old(out)@) + self@.deliver(channel_id@, message@),
    {
        if self.channels.contains_key(channel_id) {
            out.push(RelayEffect::Deliver { channel_id: channel_id.to_owned(), message });
            assert(effects_view(out@) =~= effects_view(old(out)@) + self@.deliver(channel_id@, message@));
            true
        } else {
            assert(effects_view(out@) =~= effects_view(old(out)@) + self@.deliver(channel_id@, message@));
            false
        }
    }

    /// Answers a request with an error.
    fn send_error_response(
        &self,
        channel_id: &str,
        request_id: &Json,
        code: i32,
        message: &str,
        out: &mut Vec<RelayEffect>,
    )
        requires
            self.wf(),
        ensures
            effects_view(final(out)@) == effects_view(old(out)@) + self@.deliver(
                channel_id@,
                error_response(request_id@, code, message@),
            ),
    {
        let response = JsonRpcResponse {
            jsonrpc: jsonrpc::JSONRPC_VERSION.to_owned(),
            id: request_id.clone(),
            result: None,
            error: Some(JsonRpcError { code, message: message.to_owned(), data: None }),
        };
        let _ = self.send_to_channel(channel_id, JsonRpcMessage::Response(response), out);
    }

    /// Tells a client that its agent has ended.
    fn send_agent_exit(&self, channel_id: &str, exit: &TidewaveExitParams, out: &mut Vec<RelayEffect>)
        requires
            self.wf(),
        ensures
            effects_view(final(out)@) == effects_view(old(out)@) + self@.tell_exit(channel_id@, exit@),
    {
        match self.style {
            Style::Socket => {
                let notification = JsonRpcNotification {
                    jsonrpc: jsonrpc::JSONRPC_VERSION.to_owned(),
                    method: "_tidewave.ai/exit".to_owned(),
                    params: Some(exit.to_json()),
                };
                let _ = self.send_to_channel(channel_id, JsonRpcMessage::Notification(notification), out);
            },
            Style::Channel => {
                if self.channels.contains_key(channel_id) {
                    out.push(
                        RelayEffect::Exit { channel_id: channel_id.to_owned(), exit: clone_exit(exit) },
                    );
                }
                assert(effects_view(out@) =~= effects_view(old(out)@) + self@.tell_exit(
                    channel_id@,
                    exit@,
                ));
            },
        }
    }

    /// The agent of a client, where it runs.
    pub fn ensure_process_for_channel(&self, channel_id: &str) -> (r: Result<ProcessKey, Problem>)
        requires
            self.wf(),
        ensures
            match r {
                Ok(key) => self@.process_of(channel_id@) == Ok::<Seq<char>, Problem>(key@),
                Err(problem) => self@.process_of(channel_id@) == Err::<Seq<char>, Problem>(problem),
            },
    {
        match self.channel_to_process.get(channel_id) {
            None => Err(Problem::NoProcessMapping),
            Some(key) => {
                if self.processes.contains_key(key.as_str()) {
                    Ok(key.clone())
                } else {
                    Err(Problem::ProcessNotFound)
                }
            },
        }
    }

    /// Forwards a request under a fresh identity.
    pub fn handle_regular_request(
        &mut self,
        channel_id: &str,
        request: &JsonRpcRequest,
        out: &mut Vec<RelayEffect>,
    ) -> (r: Option<Problem>)
        requires
            old(self).wf(),
        ensures
            stepped(
                *final(self),
                old(out)@,
                final(out)@,
                r,
                regular(old(self)@, channel_id@, request@),
            ),
    {
        let style = self.style;
        match self.ensure_process_for_channel(channel_id) {
            Err(problem) => {
                assert(effects_view(out@) =~= effects_view(old(out)@) + seq![]);
                Some(problem)
            },
            Ok(key) => {
                let ghost before = self@.processes[key@];
                match self.processes.get_mut(key.as_str()) {
                    Some(process) => {
                        let session_id = acp_session::extract_session_id_from_request(request);
                        let proxy_id = process.map_client_id_to_proxy(
                            channel_id.to_owned(),
                            request.id.clone(),
                            session_id,
                        );
                        match pending_request(style, request) {
                            Some(pending) => {
                                process.pending.insert(proxy_id.id_text(), pending);
                            },
                            None => {},
                        }
                        let mut proxy_request = request.clone();
                        proxy_request.id = proxy_id;
                        let _ = send_to_process(process, JsonRpcMessage::Request(proxy_request), out);
                    },
                    None => {},
                }
                assert(self@ =~= regular(old(self)@, channel_id@, request@).state);
                None
            },
        }
    }

    /// Forwards the first client's `initialize`, and answers the others with the response that was
    /// kept.
    pub fn handle_initialize_request(
        &mut self,
        channel_id: &str,
        request: &JsonRpcRequest,
        out: &mut Vec<RelayEffect>,
    ) -> (r: Option<Problem>)
        requires
            old(self).wf(),
        ensures
            stepped(
                *final(self),
                old(out)@,
                final(out)@,
                r,
                initialize(old(self)@, channel_id@, request@),
            ),
    {
        match self.ensure_process_for_channel(channel_id) {
            Err(problem) => {
                assert(effects_view(out@) =~= effects_view(old(out)@) + seq![]);
                Some(problem)
            },
            Ok(key) => {
                let cached = match self.processes.get(key.as_str()) {
                    Some(process) => match &process.cached_init_response {
                        Some(response) => Some(response.clone()),
                        None => None,
                    },
                    None => None,
                };
                match cached {
                    Some(response) => {
                        let mut answer = response;
                        answer.id = request.id.clone();
                        let _ = self.send_to_channel(channel_id, JsonRpcMessage::Response(answer), out);
                        return None;
                    },
                    None => {},
                }
                let problem = match self.processes.get_mut(key.as_str()) {
                    Some(process) => {
                        let session_id = acp_session::extract_session_id_from_request(request);
                        let proxy_id = process.map_client_id_to_proxy(
                            channel_id.to_owned(),
                            request.id.clone(),
                            session_id,
                        );
                        let mut proxy_request = request.clone();
                        proxy_request.id = proxy_id.clone();
                        process.init_request_id = Some(proxy_id);
                        send_to_process(process, JsonRpcMessage::Request(proxy_request), out)
                    },
                    None => None,
                };
                assert(self@ =~= initialize(old(self)@, channel_id@, request@).state);
                match problem {
                    Some(_) => {
                        assert(effects_view(out@) =~= effects_view(old(out)@));
                        self.send_agent_exit(
                            channel_id,
                            &exit_without_output(
                                "communication_error",
                                "Failed to communicate with process",
                            ),
                            out,
                        );
                    },
                    None => {},
                }
                None
            },
        }
    }

    fn replay(&self, channel_id: &str, messages: &Vec<BufferedMessage>, out: &mut Vec<RelayEffect>)
        requires
            self.wf(),
        ensures
            effects_view(final(out)@) == effects_view(old(out)@) + replayed(
                self@,
                channel_id@,
                acp_session::buffer_view(messages@),
            ),
    {
        let ghost all = acp_session::buffer_view(messages@);
        let mut i: usize = 0;
        proof {
            assert(all.take(0).len() == 0);
            assert(effects_view(out@) =~= effects_view(old(out)@) + replayed(self@, channel_id@, all.take(0)));
        }
        while i < messages.len()
            invariant
                self.wf(),
                all == acp_session::buffer_view(messages@),
                i <= messages.len(),
                effects_view(out@) == effects_view(old(out)@) + replayed(
                    self@,
                    channel_id@,
                    all.take(i as int),
                ),
            decreases messages.len() - i,
        {
            let ghost so_far = replayed(self@, channel_id@, all.take(i as int));
            let _ = self.send_to_channel(channel_id, messages[i].message.clone(), out);
            proof {
                assert(all.take(i + 1).drop_last() =~= all.take(i as int));
                assert(all.take(i + 1).last() == messages@[i as int]@);
                assert(effects_view(out@) =~= effects_view(old(out)@) + replayed(
                    self@,
                    channel_id@,
                    all.take(i + 1),
                ));
            }
            i = i + 1;
        }
        assert(all.take(all.len() as int) =~= all);
    }

    /// Lets a client take over a session.
    pub fn handle_tidewave_session_load(
        &mut self,
        channel_id: &str,
        request: &JsonRpcRequest,
        out: &mut Vec<RelayEffect>,
    ) -> (r: Option<Problem>)
        requires
            old(self).wf(),
        ensures
            stepped(
                *final(self),
                old(out)@,
                final(out)@,
                r,
                tidewave_load(old(self)@, channel_id@, request@),
            ),
    {
        let ghost start = self@;
        let params = match TidewaveSessionLoadRequest::from_params(&request.params) {
            Some(params) => params,
            None => {
                assert(effects_view(out@) =~= effects_view(old(out)@) + seq![]);
                return Some(Problem::InvalidParams);
            },
        };
        let session_id = params.session_id.as_str();
        let active = self.session_to_channel.contains_key(session_id);
        let (was_cancelled, process_key, missed) = match self.sessions.get_mut(session_id) {
            None => {
                self.send_error_response(
                    channel_id,
                    &request.id,
                    SESSION_NOT_FOUND,
                    "Session not found",
                    out,
                );
                return self.told(Problem::SessionNotFound);
            },
            Some(session) => {
                session.cancel_counter = session.cancel_counter.wrapping_add(1);
                let was_cancelled = session.cancelled;
                if !active {
                    session.cancelled = false;
                }
                (
                    was_cancelled,
                    session.process_key.clone(),
                    SessionState::get_buffered_messages_after(
                        session.message_buffer.as_slice(),
                        params.latest_id.as_str(),
                    ),
                )
            },
        };
        if active {
            self.send_error_response(
                channel_id,
                &request.id,
                SESSION_ALREADY_ACTIVE,
                "Session already has an active connection",
                out,
            );
            assert(self@ =~= tidewave_load(start, channel_id@, request@).state);
            return self.told(Problem::SessionActive);
        }
        let connected = self.channels.contains_key(channel_id);
        if self.style == Style::Socket || connected {
            self.channel_to_process.insert(channel_id.to_owned(), process_key);
            proof {
                lemma_replayed_same(start, self@, channel_id@, acp_session::buffer_view(missed@));
            }
            self.replay(channel_id, &missed, out);
            self.session_to_channel.insert(params.session_id.clone(), channel_id.to_owned());
            let response = JsonRpcResponse {
                jsonrpc: jsonrpc::JSONRPC_VERSION.to_owned(),
                id: request.id.clone(),
                result: Some(TidewaveSessionLoadResponse { cancelled: was_cancelled }.to_json()),
                error: None,
            };
            let _ = self.send_to_channel(channel_id, JsonRpcMessage::Response(response), out);
            proof {
                let step = tidewave_load(start, channel_id@, request@);
                assert(self@ =~= step.state);
                assert(effects_view(out@) =~= effects_view(old(out)@) + step.effects);
            }
        } else {
            assert(effects_view(out@) =~= effects_view(old(out)@) + seq![]);
            assert(self@ =~= tidewave_load(start, channel_id@, request@).state);
        }
        None
    }

    fn told(&self, problem: Problem) -> (r: Option<Problem>)
        ensures
            r == told_problem(self@.style, problem),
    {
        match self.style {
            Style::Socket => Some(problem),
            Style::Channel => None,
        }
    }

    /// Lets the agent open a session for a client.
    pub fn handle_acp_session_load(
        &mut self,
        channel_id: &str,
        request: &JsonRpcRequest,
        out: &mut Vec<RelayEffect>,
    ) -> (r: Option<Problem>)
        requires
            old(self).wf(),
        ensures
            stepped(
                *final(self),
                old(out)@,
                final(out)@,
                r,
                acp_load(old(self)@, channel_id@, request@),
            ),
    {
        let ghost start = self@;
        let session_id = match acp_session::extract_session_id_from_request(request) {
            Some(session_id) => session_id,
            None => {
                return self.handle_regular_request(channel_id, request, out);
            },
        };
        if self.session_to_channel.contains_key(session_id.as_str()) {
            self.send_error_response(
                channel_id,
                &request.id,
                SESSION_ALREADY_ACTIVE,
                "Session already has an active connection",
                out,
            );
            return self.told(Problem::SessionActive);
        }
        let known = match self.sessions.get(session_id.as_str()) {
            Some(session) => Some(session.process_key.clone()),
            None => None,
        };
        let process_key = match known {
            Some(key) => key,
            None => {
                let home = match self.channel_to_process.get(channel_id) {
                    Some(key) => Some(key.clone()),
                    None => None,
                };
                match home {
                    Some(key) => {
                        self.sessions.insert(session_id.clone(), SessionState::new(key.clone()));
                        key
                    },
                    None => {
                        return self.handle_regular_request(channel_id, request, out);
                    },
                }
            },
        };
        self.session_to_channel.insert(session_id.clone(), channel_id.to_owned());
        self.channel_to_process.insert(channel_id.to_owned(), process_key);
        self.handle_regular_request(channel_id, request, out)
    }

    /// Stops the agent of a client that asks for it.
    pub fn handle_exit_request(&self, channel_id: &str, out: &mut Vec<RelayEffect>)
        requires
            self.wf(),
        ensures
            exit_asked(self@, channel_id@).state == self@,
            effects_view(final(out)@) == effects_view(old(out)@) + exit_asked(self@, channel_id@).effects,
    {
        match self.ensure_process_for_channel(channel_id) {
            Err(_) => {
                assert(effects_view(out@) =~= effects_view(old(out)@) + seq![]);
            },
            Ok(process_key) => {
                out.push(RelayEffect::Stop { process_key });
                assert(effects_view(out@) =~= effects_view(old(out)@) + seq![
                    EffectView::Stop { process_key: process_key@ },
                ]);
            },
        }
    }

    /// Drops the messages that the client of a session has seen.
    pub fn handle_ack_notification(
        &mut self,
        channel_id: &str,
        notification: &JsonRpcNotification,
        out: &mut Vec<RelayEffect>,
    ) -> (r: Option<Problem>)
        requires
            old(self).wf(),
        ensures
            stepped(
                *final(self),
                old(out)@,
                final(out)@,
                r,
                acknowledged(old(self)@, channel_id@, notification@.params),
            ),
    {
        assert(effects_view(out@) =~= effects_view(old(out)@) + seq![]);
        match TidewaveAckNotification::from_params(&notification.params) {
            Some(params) => {
                match params.session_id {
                    Some(session_id) => {
                        self.acknowledge(channel_id, session_id.as_str(), params.latest_id.as_str());
                    },
                    None => {
                        self.acknowledge_all(channel_id, params.latest_id.as_str());
                    },
                }
                None
            },
            None => Some(Problem::InvalidParams),
        }
    }

    fn acknowledge(&mut self, channel_id: &str, session_id: &str, latest_id: &str)
        requires
            old(self).wf(),
        ensures
            final(self).wf(),
            final(self)@ == (if old(self)@.sessions.contains_key(session_id@) {
                old(self)@.with_session(
                    session_id@,
                    acknowledged_session(old(self)@, channel_id@, session_id@, latest_id@),
                )
            } else {
                old(self)@
            }),
            final(self).sessions.order() == old(self).sessions.order(),
    {
        let owns = match self.session_to_channel.get(session_id) {
            Some(owner) => text::same_text(owner.as_str(), channel_id),
            None => false,
        };
        match self.sessions.get_mut(session_id) {
            Some(session) => {
                if owns {
                    session.prune_buffer(latest_id);
                }
            },
            None => {},
        }
    }

    /// Drops the messages up to one from each session of a client that holds it.
    fn acknowledge_all(&mut self, channel_id: &str, latest_id: &str)
        requires
            old(self).wf(),
        ensures
            final(self).wf(),
            final(self)@ == (RelayView {
                sessions: Map::new(
                    |id: Seq<char>| old(self)@.sessions.contains_key(id),
                    |id: Seq<char>| acknowledged_session(old(self)@, channel_id@, id, latest_id@),
                ),
                ..old(self)@
            }),
    {
        let ghost before = self@;
        let ghost order = self.sessions.order();
        let mut i: usize = 0;
        proof {
            self.sessions.lemma_order();
        }
        while i < self.sessions.len()
            invariant
                self.wf(),
                before == old(self)@,
                self.sessions.order() == order,
                order.no_duplicates(),
                forall|key: Seq<char>| #[trigger] order.contains(key) <==> before.sessions.contains_key(key),
                self@ == (RelayView { sessions: self@.sessions, ..before }),
                self@.sessions.dom() =~= before.sessions.dom(),
                forall|k: int|
                    0 <= k < i ==> self@.sessions[#[trigger] order[k]] == acknowledged_session(
                        before,
                        channel_id@,
                        order[k],
                        latest_id@,
                    ),
                forall|k: int|
                    i <= k < order.len() ==> self@.sessions[#[trigger] order[k]] == before.sessions[order[k]],
                i <= order.len(),
            decreases order.len() - i,
        {
            assert(order.contains(order[i as int]));
            let key = self.sessions.key_at(i).clone();
            self.acknowledge(channel_id, key.as_str(), latest_id);
            i = i + 1;
        }
        proof {
            assert forall|key: Seq<char>| before.sessions.contains_key(key) implies self@.sessions[key]
                == acknowledged_session(before, channel_id@, key, latest_id@) by {
                assert(order.contains(key));
                let k = order.index_of(key);
                assert(order[k] == key);
            }
            assert(self@.sessions =~= Map::new(
                |id: Seq<char>| before.sessions.contains_key(id),
                |id: Seq<char>| acknowledged_session(before, channel_id@, id, latest_id@),
            ));
        }
    }

    fn pass_on(&self, channel_id: &str, message: &JsonRpcMessage, out: &mut Vec<RelayEffect>) -> (r: Option<
        Problem,
    >)
        requires
            self.wf(),
        ensures
            effects_view(final(out)@) == effects_view(old(out)@) + passed_on(
                self@,
                channel_id@,
                message@,
            ).effects,
            passed_on(self@, channel_id@, message@).state == self@,
            r == passed_on(self@, channel_id@, message@).problem,
    {
        match self.ensure_process_for_channel(channel_id) {
            Err(problem) => {
                assert(effects_view(out@) =~= effects_view(old(out)@) + seq![]);
                Some(problem)
            },
            Ok(key) => match self.processes.get(key.as_str()) {
                Some(process) => send_to_process(process, message.clone(), out),
                None => None,
            },
        }
    }

    /// Handles a message of a client.
    pub fn handle_client_message(
        &mut self,
        channel_id: &str,
        message: &JsonRpcMessage,
        out: &mut Vec<RelayEffect>,
    ) -> (r: Option<Problem>)
        requires
            old(self).wf(),
        ensures
            stepped(
                *final(self),
                old(out)@,
                final(out)@,
                r,
                from_client(old(self)@, channel_id@, message@),
            ),
    {
        match message {
            JsonRpcMessage::Request(request) => {
                let method = request.method.as_str();
                if text::same_text(method, "initialize") {
                    match self.style {
                        Style::Socket => {
                            assert(effects_view(out@) =~= effects_view(old(out)@) + seq![]);
                            None
                        },
                        Style::Channel => self.handle_initialize_request(channel_id, request, out),
                    }
                } else if text::same_text(method, "_tidewave.ai/session/load") {
                    self.handle_tidewave_session_load(channel_id, request, out)
                } else if text::same_text(method, "session/load") {
                    self.handle_acp_session_load(channel_id, request, out)
                } else if self.style == Style::Socket && text::same_text(method, "_tidewave.ai/exit") {
                    self.handle_exit_request(channel_id, out);
                    None
                } else {
                    self.handle_regular_request(channel_id, request, out)
                }
            },
            JsonRpcMessage::Notification(notification) => {
                if text::same_text(notification.method.as_str(), "_tidewave.ai/ack") {
                    self.handle_ack_notification(channel_id, notification, out)
                } else {
                    self.pass_on(channel_id, message, out)
                }
            },
            JsonRpcMessage::Response(_) => self.pass_on(channel_id, message, out),
        }
    }
}

/// Which clients are connected decides what is replayed, and nothing else of the state.
pub proof fn lemma_replayed_same(a: RelayView, b: RelayView, channel_id: Seq<char>, buffer: Seq<BufferedView>)
    requires
        a.channels == b.channels,
    ensures
        replayed(a, channel_id, buffer) == replayed(b, channel_id, buffer),
    decreases buffer.len(),
{
    if buffer.len() > 0 {
        lemma_replayed_same(a, b, channel_id, buffer.drop_last());
    }
}

impl Relay {
    /// Opens a session that an agent has named for a client.
    fn map_session_id_to_channel(&mut self, session_id: SessionId, channel_id: &str)
        requires
            old(self).wf(),
        ensures
            final(self).wf(),
            final(self)@ == session_opened(old(self)@, session_id@, channel_id@),
    {
        if !self.sessions.contains_key(session_id.as_str()) {
            let home = match self.channel_to_process.get(channel_id) {
                Some(key) => Some(key.clone()),
                None => None,
            };
            match home {
                Some(key) => {
                    self.sessions.insert(session_id.clone(), SessionState::new(key));
                    self.session_to_channel.insert(session_id, channel_id.to_owned());
                },
                None => {},
            }
        }
    }

    fn handle_disconnected_client_response(
        &mut self,
        asked: Option<(SessionId, Json)>,
        response: &JsonRpcResponse,
        out: &mut Vec<RelayEffect>,
    )
        requires
            old(self).wf(),
        ensures
            final(self).wf(),
            ({
                let asked = match asked {
                    Some((by, client_id)) => Some(AskedView { by: by@, client_id: client_id@ }),
                    None => None,
                };
                &&& final(self)@ == answered_late(old(self)@, asked, response@).0
                &&& effects_view(final(out)@) == effects_view(old(out)@) + answered_late(
                    old(self)@,
                    asked,
                    response@,
                ).1
            }),
    {
        assert(effects_view(out@) =~= effects_view(old(out)@) + seq![]);
        match asked {
            None => {},
            Some((session_id, client_id)) => {
                let mut answer = response.clone();
                answer.id = client_id.clone();
                let owner = match self.session_to_channel.get(session_id.as_str()) {
                    Some(owner) => Some(owner.clone()),
                    None => None,
                };
                match owner {
                    Some(owner) => {
                        let _ = self.send_to_channel(
                            owner.as_str(),
                            JsonRpcMessage::Response(answer),
                            out,
                        );
                    },
                    None => {
                        if self.style == Style::Channel {
                            match self.sessions.get_mut(session_id.as_str()) {
                                Some(session) => {
                                    let _ = session.add_to_buffer(
                                        JsonRpcMessage::Response(answer),
                                        client_id.to_text(),
                                    );
                                },
                                None => {},
                            }
                        }
                    },
                }
            },
        }
    }

    /// Handles a response of an agent.
    pub fn handle_process_response(
        &mut self,
        process_key: &str,
        response: &JsonRpcResponse,
        out: &mut Vec<RelayEffect>,
    ) -> (r: Option<Problem>)
        requires
            old(self).wf(),
            old(self)@.processes.contains_key(process_key@),
        ensures
            stepped(
                *final(self),
                old(out)@,
                final(out)@,
                r,
                answered(old(self)@, process_key@, response@),
            ),
    {
        let ghost start = self@;
        let ghost step = answered(start, process_key@, response@);
        let ghost id = json::id_text(response@.id);
        let (asked, session, is_init) = match self.processes.get(process_key) {
            Some(process) => {
                let is_init = match &process.init_request_id {
                    Some(id) => {
                        let id = id.id_text();
                        text::same_text(id.as_str(), response.id.id_text().as_str())
                    },
                    None => false,
                };
                (
                    process.resolve_proxy_id_to_client(&response.id),
                    process.resolve_proxy_id_to_session(&response.id),
                    is_init,
                )
            },
            None => (None, None, false),
        };
        let (channel_id, client_id) = match asked {
            Some(asked) => asked,
            None => {
                assert(effects_view(out@) =~= effects_view(old(out)@) + seq![]);
                return None;
            },
        };
        let mut answer = response.clone();
        answer.id = client_id;
        if is_init {
            acp_session::inject_tidewave_version(&mut answer, VERSION);
            acp_session::inject_proxy_capabilities(&mut answer);
        }
        assert(answer@ == client_answer(start.processes[process_key@], response@, client_id@));
        let pending = match self.processes.get_mut(process_key) {
            Some(process) => {
                if is_init {
                    process.cached_init_response = Some(answer.clone());
                    process.stderr_buffer = Vec::new();
                    process.stdout_buffer = Vec::new();
                    assert(text::texts(process.stdout_buffer@) =~= seq![]);
                    assert(text::texts(process.stderr_buffer@) =~= seq![]);
                }
                process.pending.remove(response.id.id_text().as_str())
            },
            None => None,
        };
        let ghost seen = start.with_process(
            process_key@,
            response_seen(start.processes[process_key@], response@, answer@),
        );
        assert(self@ =~= seen);
        match &pending {
            Some(Pending::Opened { session_id }) => {
                if answer.error.is_some() {
                    let _ = self.sessions.remove(session_id.as_str());
                    let _ = self.session_to_channel.remove(session_id.as_str());
                    let _ = self.send_to_channel(
                        channel_id.as_str(),
                        JsonRpcMessage::Response(answer),
                        out,
                    );
                    assert(self@ =~= step.state);
                    return Some(Problem::LoadFailed);
                }
            },
            _ => {},
        }
        match pending {
            Some(Pending::Opened { session_id }) => {
                if self.style == Style::Channel {
                    self.map_session_id_to_channel(session_id, channel_id.as_str());
                }
            },
            Some(Pending::Made) => {
                match &answer.result {
                    Some(result) => match NewSessionResponse::from_result(result) {
                        Some(made) => {
                            self.map_session_id_to_channel(made.session_id, channel_id.as_str());
                        },
                        None => {},
                    },
                    None => {},
                }
            },
            None => {},
        }
        if self.channels.contains_key(channel_id.as_str()) {
            let _ = self.send_to_channel(channel_id.as_str(), JsonRpcMessage::Response(answer), out);
        } else {
            self.handle_disconnected_client_response(session, response, out);
        }
        match self.processes.get_mut(process_key) {
            Some(process) => {
                process.cleanup_id_mappings(&response.id);
            },
            None => {},
        }
        assert(self@ =~= step.state);
        None
    }

    /// Handles a request or notification of an agent.
    pub fn handle_process_notification_or_request(
        &mut self,
        message: &JsonRpcMessage,
        out: &mut Vec<RelayEffect>,
    ) -> (r: Option<Problem>)
        requires
            old(self).wf(),
        ensures
            stepped(*final(self), old(out)@, final(out)@, r, from_agent(old(self)@, message@)),
    {
        assert(effects_view(out@) =~= effects_view(old(out)@) + seq![]);
        let session_id = match acp_session::extract_session_id_from_message(message) {
            Some(session_id) => session_id,
            None => {
                return None;
            },
        };
        let routed_message = match self.sessions.get_mut(session_id.as_str()) {
            Some(session) => {
                let (routed_message, id) = match message {
                    JsonRpcMessage::Notification(n) => {
                        let mut notification = n.clone();
                        let id = session.generate_notification_id();
                        acp_session::inject_notification_id(&mut notification, id.clone());
                        (JsonRpcMessage::Notification(notification), id)
                    },
                    JsonRpcMessage::Request(r) => (message.clone(), r.id.to_text()),
                    JsonRpcMessage::Response(r) => (message.clone(), r.id.to_text()),
                };
                let _ = session.add_to_buffer(routed_message.clone(), id);
                routed_message
            },
            None => {
                return None;
            },
        };
        let owner = match self.session_to_channel.get(session_id.as_str()) {
            Some(owner) => Some(owner.clone()),
            None => None,
        };
        match owner {
            Some(owner) => {
                let _ = self.send_to_channel(owner.as_str(), routed_message, out);
            },
            None => {},
        }
        None
    }

    /// Handles a message of the agent under a key. The messages of an agent that has ended are
    /// ignored.
    pub fn handle_process_message(
        &mut self,
        process_key: &str,
        message: &JsonRpcMessage,
        out: &mut Vec<RelayEffect>,
    ) -> (r: Option<Problem>)
        requires
            old(self).wf(),
        ensures
            stepped(
                *final(self),
                old(out)@,
                final(out)@,
                r,
                from_process(old(self)@, process_key@, message@),
            ),
    {
        if !self.processes.contains_key(process_key) {
            assert(effects_view(out@) =~= effects_view(old(out)@) + seq![]);
            return None;
        }
        match message {
            JsonRpcMessage::Response(response) => self.handle_process_response(process_key, response, out),
            _ => self.handle_process_notification_or_request(message, out),
        }
    }

    /// Handles a line that an agent has written. A message on its standard output, as `message` gives
    /// it, is passed on, and any other line is kept until the agent is initialized.
    pub fn handle_process_output(
        &mut self,
        process_key: &str,
        stream: OutputStream,
        line: String,
        message: Option<JsonRpcMessage>,
        out: &mut Vec<RelayEffect>,
    ) -> (r: Option<Problem>)
        requires
            old(self).wf(),
        ensures
            match (stream, message) {
                (OutputStream::Stdout, Some(message)) => stepped(
                    *final(self),
                    old(out)@,
                    final(out)@,
                    r,
                    from_process(old(self)@, process_key@, message@),
                ),
                _ => {
                    &&& final(self).wf()
                    &&& r is None
                    &&& final(out)@ == old(out)@
                    &&& final(self)@ == (if old(self)@.processes.contains_key(process_key@) {
                        old(self)@.with_process(
                            process_key@,
                            lined(old(self)@.processes[process_key@], stream, line@),
                        )
                    } else {
                        old(self)@
                    })
                },
            },
    {
        match (stream, message) {
            (OutputStream::Stdout, Some(message)) => self.handle_process_message(
                process_key,
                &message,
                out,
            ),
            _ => {
                self.handle_process_line(process_key, stream, line);
                None
            },
        }
    }

    /// Keeps a line that an agent wrote, other than a message, before it was initialized.
    pub fn handle_process_line(&mut self, process_key: &str, stream: OutputStream, line: String)
        requires
            old(self).wf(),
        ensures
            final(self).wf(),
            final(self)@ == (if old(self)@.processes.contains_key(process_key@) {
                old(self)@.with_process(
                    process_key@,
                    lined(old(self)@.processes[process_key@], stream, line@),
                )
            } else {
                old(self)@
            }),
    {
        match self.processes.get_mut(process_key) {
            Some(process) => {
                process.buffer_line(stream, line);
            },
            None => {},
        }
    }

    /// Notes that an agent cannot be written to any more.
    pub fn stdin_closed(&mut self, process_key: &str)
        requires
            old(self).wf(),
        ensures
            final(self).wf(),
            final(self)@ == (if old(self)@.processes.contains_key(process_key@) {
                old(self)@.with_process(
                    process_key@,
                    ProcessView {
                        stdin: Stdin::Closed,
                        ..old(self)@.processes[process_key@]
                    },
                )
            } else {
                old(self)@
            }),
    {
        match self.processes.get_mut(process_key) {
            Some(process) => {
                process.stdin = Stdin::Closed;
            },
            None => {},
        }
    }

    /// A client is gone. The result lists the sessions that it leaves behind; each is to be
    /// cancelled after ten seconds (see [`Relay::cancel_session`]).
    pub fn disconnect(&mut self, channel_id: &str) -> (r: Vec<(SessionId, u64)>)
        requires
            old(self).wf(),
        ensures
            final(self).wf(),
            final(self)@ == disconnected(old(self)@, channel_id@),
            counters_view(r@) == left_behind(
                old(self)@,
                old(self).session_to_channel.order(),
                channel_id@,
            ),
    {
        let ghost start = self@;
        let ghost order = self.session_to_channel.order();
        let _ = self.channels.remove(channel_id);
        let _ = self.channel_to_process.remove(channel_id);
        let count: usize = self.session_to_channel.len();
        let mut gone: Vec<SessionId> = Vec::new();
        let mut r: Vec<(SessionId, u64)> = Vec::new();
        let mut i: usize = 0;
        proof {
            self.session_to_channel.lemma_order();
            assert(order.take(0).len() == 0);
            assert(counters_view(r@) =~= left_behind(start, order.take(0), channel_id@));
        }
        while i < count
            invariant
                self.wf(),
                count == order.len(),
                order == self.session_to_channel.order(),
                forall|key: Seq<char>| #[trigger] order.contains(key) <==> start.owners.contains_key(key),
                start.owners == self@.owners,
                start.sessions == self@.sessions,
                start.style == self@.style,
                i <= count,
                counters_view(r@) == left_behind(start, order.take(i as int), channel_id@),
                forall|session_id: Seq<char>| #[trigger]
                    text::texts(gone@).contains(session_id) <==> order.take(i as int).contains(session_id)
                        && lets_go(start, session_id, channel_id@),
            decreases count - i,
        {
            let ghost before = r@;
            let ghost gone_before = text::texts(gone@);
            let session_id = self.session_to_channel.key_at(i).clone();
            proof {
                assert(order.contains(order[i as int]));
                assert(order.take(i + 1).drop_last() =~= order.take(i as int));
                assert(order.take(i + 1) =~= order.take(i as int).push(session_id@));
            }
            let owned = match self.session_to_channel.get(session_id.as_str()) {
                Some(owner) => text::same_text(owner.as_str(), channel_id),
                None => false,
            };
            let counter: Option<u64> = match self.sessions.get(session_id.as_str()) {
                Some(session) => Some(session.cancel_counter),
                None => None,
            };
            if owned && (self.style == Style::Channel || counter.is_some()) {
                gone.push(session_id.clone());
                assert(text::texts(gone@) =~= gone_before.push(session_id@));
                match counter {
                    Some(counter) => {
                        r.push((session_id, counter));
                        assert(counters_view(r@) =~= counters_view(before).push((session_id@, counter)));
                    },
                    None => {},
                }
            }
            proof {
                let now = text::texts(gone@);
                assert forall|s: Seq<char>| #[trigger] now.contains(s) <==> order.take(i + 1).contains(s)
                    && lets_go(start, s, channel_id@) by {
                    lemma_push_contains(order.take(i as int), session_id@, s);
                    if now != gone_before {
                        lemma_push_contains(gone_before, session_id@, s);
                    }
                }
            }
            i = i + 1;
        }
        proof {
            assert(order.take(order.len() as int) =~= order);
        }
        let ghost all = text::texts(gone@);
        let ghost mid = self@;
        let mut k: usize = 0;
        assert(all.take(0).len() == 0);
        while k < gone.len()
            invariant
                self.wf(),
                all == text::texts(gone@),
                k <= gone.len(),
                self@.style == mid.style,
                self@.processes == mid.processes,
                self@.channels == mid.channels,
                self@.sessions == mid.sessions,
                self@.homes == mid.homes,
                forall|s: Seq<char>| #[trigger]
                    self@.owners.contains_key(s) <==> mid.owners.contains_key(s) && !all.take(
                        k as int,
                    ).contains(s),
                forall|s: Seq<char>| #[trigger]
                    self@.owners.contains_key(s) ==> self@.owners[s] == mid.owners[s],
            decreases gone.len() - k,
        {
            let ghost before = self@.owners;
            let _ = self.session_to_channel.remove(gone[k].as_str());
            proof {
                assert(gone@[k as int]@ == all[k as int]);
                assert(self@.owners == before.remove(all[k as int]));
                assert(all.take(k + 1) =~= all.take(k as int).push(all[k as int]));
                assert forall|s: Seq<char>| #[trigger]
                    self@.owners.contains_key(s) <==> mid.owners.contains_key(s) && !all.take(
                        k + 1,
                    ).contains(s) by {
                    lemma_push_contains(all.take(k as int), all[k as int], s);
                }
            }
            k = k + 1;
        }
        proof {
            assert(all.take(all.len() as int) =~= all);
            let expected = disconnected(start, channel_id@);
            assert forall|s: Seq<char>| #[trigger]
                self@.owners.contains_key(s) <==> expected.owners.contains_key(s) by {}
            assert(self@.owners =~= expected.owners);
            assert(self@ =~= expected);
        }
        r
    }

    /// Cancels a session that was left behind, unless a client has come back to it since.
    pub fn cancel_session(&mut self, session_id: &str, counter: u64, out: &mut Vec<RelayEffect>)
        requires
            old(self).wf(),
        ensures
            stepped(
                *final(self),
                old(out)@,
                final(out)@,
                None,
                cancelled(old(self)@, session_id@, counter),
            ),
    {
        assert(effects_view(out@) =~= effects_view(old(out)@) + seq![]);
        if self.session_to_channel.contains_key(session_id) {
            return ;
        }
        match self.sessions.get_mut(session_id) {
            Some(session) => {
                if session.cancel_counter == counter {
                    match self.processes.get(session.process_key.as_str()) {
                        Some(process) => {
                            session.cancelled = true;
                            let notification = JsonRpcNotification {
                                jsonrpc: jsonrpc::JSONRPC_VERSION.to_owned(),
                                method: "session/cancel".to_owned(),
                                params: Some(Json::object().with("sessionId", Json::string(session_id))),
                            };
                            let _ = send_to_process(
                                process,
                                JsonRpcMessage::Notification(notification),
                                out,
                            );
                        },
                        None => {},
                    }
                }
            },
            None => {},
        }
        assert(self@ =~= cancelled(old(self)@, session_id@, counter).state);
    }

    /// An agent has ended: its clients are told, and its sessions are forgotten.
    pub fn process_exited(&mut self, process_key: &str, reason: &ExitReason, out: &mut Vec<RelayEffect>)
        requires
            old(self).wf(),
        ensures
            final(self).wf(),
            if old(self)@.processes.contains_key(process_key@) {
                &&& final(self)@ == ended(old(self)@, process_key@)
                &&& effects_view(final(out)@) == effects_view(old(out)@) + exits_told(
                    old(self)@,
                    old(self).channel_to_process.order(),
                    process_key@,
                    exit_view(old(self)@.processes[process_key@], *reason),
                )
            } else {
                &&& final(self)@ == old(self)@
                &&& final(out)@ == old(out)@
            },
    {
        let ghost start = self@;
        let (error, message) = channel::exit_reason_texts(reason);
        let exit = match self.processes.get(process_key) {
            Some(process) => {
                if process.cached_init_response.is_some() {
                    TidewaveExitParams { error, message, stdout: None, stderr: None }
                } else {
                    TidewaveExitParams {
                        error,
                        message,
                        stdout: channel::joined_output(&process.stdout_buffer),
                        stderr: channel::joined_output(&process.stderr_buffer),
                    }
                }
            },
            None => {
                return ;
            },
        };
        let ghost told = exit_view(start.processes[process_key@], *reason);
        assert(exit@ == told);
        let ghost order = self.channel_to_process.order();
        let count: usize = self.channel_to_process.len();
        let mut i: usize = 0;
        proof {
            assert(order.take(0).len() == 0);
            assert(effects_view(out@) =~= effects_view(old(out)@) + exits_told(
                start,
                order.take(0),
                process_key@,
                told,
            ));
            self.channel_to_process.lemma_order();
        }
        while i < count
            invariant
                self.wf(),
                self@ == start,
                exit@ == told,
                count == order.len(),
                order == self.channel_to_process.order(),
                forall|key: Seq<char>| #[trigger] order.contains(key) <==> start.homes.contains_key(key),
                i <= count,
                effects_view(out@) == effects_view(old(out)@) + exits_told(
                    start,
                    order.take(i as int),
                    process_key@,
                    told,
                ),
            decreases count - i,
        {
            let ghost before = effects_view(out@);
            let channel_id = self.channel_to_process.key_at(i).clone();
            proof {
                assert(order.contains(order[i as int]));
                assert(order.take(i + 1).drop_last() =~= order.take(i as int));
                assert(order.take(i + 1).last() == channel_id@);
            }
            let talks = text::same_text(self.channel_to_process.value_at(i).as_str(), process_key);
            if talks {
                self.send_agent_exit(channel_id.as_str(), &exit, out);
            }
            proof {
                assert(effects_view(out@) =~= effects_view(old(out)@) + exits_told(
                    start,
                    order.take(i + 1),
                    process_key@,
                    told,
                ));
            }
            i = i + 1;
        }
        assert(order.take(order.len() as int) =~= order);
        self.forget_sessions_of(process_key);
        let _ = self.processes.remove(process_key);
        assert(self@ =~= ended(start, process_key@));
    }

    fn forget_sessions_of(&mut self, process_key: &str)
        requires
            old(self).wf(),
        ensures
            final(self).wf(),
            final(self)@ == (RelayView {
                sessions: ended(old(self)@, process_key@).sessions,
                ..old(self)@
            }),
    {
        let ghost start = self@;
        let ghost order = self.sessions.order();
        let count: usize = self.sessions.len();
        let mut gone: Vec<SessionId> = Vec::new();
        let mut i: usize = 0;
        proof {
            self.sessions.lemma_order();
            assert(order.take(0).len() == 0);
        }
        while i < count
            invariant
                self.wf(),
                self@ == start,
                count == order.len(),
                order == self.sessions.order(),
                forall|key: Seq<char>| #[trigger] order.contains(key) <==> start.sessions.contains_key(key),
                i <= count,
                forall|s: Seq<char>| #[trigger]
                    text::texts(gone@).contains(s) <==> order.take(i as int).contains(s)
                        && start.sessions[s].process_key == process_key@,
            decreases count - i,
        {
            let ghost gone_before = text::texts(gone@);
            let session_id = self.sessions.key_at(i).clone();
            proof {
                assert(order.contains(order[i as int]));
                assert(order.take(i + 1) =~= order.take(i as int).push(session_id@));
            }
            let its = text::same_text(self.sessions.value_at(i).process_key.as_str(), process_key);
            if its {
                gone.push(session_id.clone());
                assert(text::texts(gone@) =~= gone_before.push(session_id@));
            }
            proof {
                let now = text::texts(gone@);
                assert forall|s: Seq<char>| #[trigger] now.contains(s) <==> order.take(i + 1).contains(s)
                    && start.sessions[s].process_key == process_key@ by {
                    lemma_push_contains(order.take(i as int), session_id@, s);
                    if its {
                        lemma_push_contains(gone_before, session_id@, s);
                    }
                }
            }
            i = i + 1;
        }
        assert(order.take(order.len() as int) =~= order);
        let ghost all = text::texts(gone@);
        let mut k: usize = 0;
        assert(all.take(0).len() == 0);
        while k < gone.len()
            invariant
                self.wf(),
                all == text::texts(gone@),
                k <= gone.len(),
                self@.style == start.style,
                self@.processes == start.processes,
                self@.channels == start.channels,
                self@.owners == start.owners,
                self@.homes == start.homes,
                forall|s: Seq<char>| #[trigger]
                    self@.sessions.contains_key(s) <==> start.sessions.contains_key(s) && !all.take(
                        k as int,
                    ).contains(s),
                forall|s: Seq<char>| #[trigger]
                    self@.sessions.contains_key(s) ==> self@.sessions[s] == start.sessions[s],
            decreases gone.len() - k,
        {
            let ghost before = self@.sessions;
            let _ = self.sessions.remove(gone[k].as_str());
            proof {
                assert(gone@[k as int]@ == all[k as int]);
                assert(self@.sessions == before.remove(all[k as int]));
                assert(all.take(k + 1) =~= all.take(k as int).push(all[k as int]));
                assert forall|s: Seq<char>| #[trigger]
                    self@.sessions.contains_key(s) <==> start.sessions.contains_key(s) && !all.take(
                        k + 1,
                    ).contains(s) by {
                    lemma_push_contains(all.take(k as int), all[k as int], s);
                }
            }
            k = k + 1;
        }
        proof {
            assert(all.take(all.len() as int) =~= all);
            assert(self@.sessions =~= ended(start, process_key@).sessions);
        }
    }
}

proof fn lemma_push_contains(list: Seq<Seq<char>>, added: Seq<char>, key: Seq<char>)
    ensures
        list.push(added).contains(key) == (list.contains(key) || key == added),
{
    let pushed = list.push(added);
    if list.contains(key) {
        let i = list.index_of(key);
        assert(pushed[i] == key);
    }
    if key == added {
        assert(pushed[list.len() as int] == key);
    }
    if pushed.contains(key) {
        let i = pushed.index_of(key);
        if i < list.len() {
            assert(list[i] == key);
        }
    }
}

// ---------------------------------------------------------------------------
// Starting agents
// ---------------------------------------------------------------------------

/// Parameters without the options for starting the agent. A `_meta` that holds nothing else is left
/// out.
pub open spec fn without_spawn(params: JsonView) -> JsonView {
    match params.get("_meta"@) {
        Some(JsonView::Obj(members)) => {
            let meta = JsonView::Obj(members.remove("tidewave.ai/spawn"@));
            if meta == json::empty_object() {
                params.without("_meta"@)
            } else {
                params.with("_meta"@, meta)
            }
        },
        _ => params,
    }
}

/// The key of an agent: clients that ask for the same command in the same directory with the same
/// parameters share one.
pub open spec fn process_key(command: Seq<char>, cwd: Seq<char>, init_params: JsonView) -> Seq<char> {
    command + ":"@ + cwd + ":"@ + json::json_text(without_spawn(init_params))
}

/// The key of an agent.
pub fn generate_process_key(command: &str, cwd: &str, init_params: &Json) -> (r: ProcessKey)
    ensures
        r@ == process_key(command@, cwd@, init_params@),
        json::only_text_of(json::json_text(without_spawn(init_params@)), without_spawn(init_params@)),
{
    let meta = match init_params.get("_meta") {
        Some(meta) => {
            if meta.is_object() {
                Some(meta.clone().without("tidewave.ai/spawn"))
            } else {
                None
            }
        },
        None => None,
    };
    let params = match meta {
        Some(meta) => {
            if meta.is_empty_object() {
                init_params.clone().without("_meta")
            } else {
                init_params.clone().with("_meta", meta)
            }
        },
        None => init_params.clone(),
    };
    let mut key = text::joined(command, ":");
    key.append(cwd);
    key.append(":");
    key.append(params.to_text().as_str());
    key
}

/// The options for starting the agent in the parameters of `initialize`.
pub open spec fn spawn_meta_of(params: Option<JsonView>) -> Option<JsonView> {
    match params {
        Some(params) => match params.get("_meta"@) {
            Some(meta) => meta.get("tidewave.ai/spawn"@),
            None => None,
        },
        None => None,
    }
}

/// The options for starting the agent in the parameters of `initialize`.
pub fn spawn_meta(request: &JsonRpcRequest) -> (r: Option<Json>)
    ensures
        json::opt_json(r) == spawn_meta_of(request@.params),
{
    match &request.params {
        Some(params) => match params.get("_meta") {
            Some(meta) => match meta.get("tidewave.ai/spawn") {
                Some(spawn) => Some(spawn.clone()),
                None => None,
            },
            None => None,
        },
        None => None,
    }
}

/// The error code for an agent that runs and has not answered `initialize`.
pub const NO_INIT_RESPONSE: i32 = -32004;

/// What `initialize` asks for, where it starts the agent.
#[derive(Debug)]
pub enum InitStep {
    /// Nothing more.
    Done,
    /// Start a process, then see [`Relay::process_started`].
    Start { process_key: ProcessKey, spawn_opts: TidewaveSpawnOptions },
}

/// The parameters of a request, null where it has none.
pub open spec fn params_or_null(params: Option<JsonView>) -> JsonView {
    match params {
        Some(params) => params,
        None => JsonView::Null,
    }
}

/// `initialize` for an agent that runs.
pub open spec fn rejoined(state: RelayView, key: Seq<char>, channel_id: Seq<char>, request: RequestView) -> Step {
    match state.processes[key].cached {
        Some(cached) => Step {
            state: state.with_home(channel_id, key),
            effects: state.deliver(
                channel_id,
                MessageView::Response(ResponseView { id: request.id, ..cached }),
            ),
            problem: None,
        },
        None => Step {
            state,
            effects: state.deliver(
                channel_id,
                error_response(
                    request.id,
                    NO_INIT_RESPONSE,
                    "Process alive, but no init response."@,
                ),
            ),
            problem: None,
        },
    }
}

/// `initialize` for an agent that was to be started.
pub open spec fn started(
    state: RelayView,
    key: Seq<char>,
    channel_id: Seq<char>,
    request: RequestView,
    outcome: Result<(), Seq<char>>,
) -> Step {
    match outcome {
        Ok(_) => initialize(
            state.with_process(key, new_process(key, Stdin::Open)).with_home(channel_id, key),
            channel_id,
            request,
        ),
        Err(e) => Step {
            state,
            effects: state.tell_exit(channel_id, bare_exit("process_start_failed"@, e)),
            problem: None,
        },
    }
}

impl Relay {
    /// Handles `initialize` where it starts the agent.
    pub fn begin_initialize(
        &mut self,
        channel_id: &str,
        request: &JsonRpcRequest,
        spawn_opts: TidewaveSpawnOptions,
        out: &mut Vec<RelayEffect>,
    ) -> (r: InitStep)
        requires
            old(self).wf(),
        ensures
            ({
                let key = process_key(
                    spawn_opts.command@,
                    spawn_opts.cwd@,
                    params_or_null(request@.params),
                );
                if old(self)@.processes.contains_key(key) {
                    &&& r is Done
                    &&& stepped(
                        *final(self),
                        old(out)@,
                        final(out)@,
                        None,
                        rejoined(old(self)@, key, channel_id@, request@),
                    )
                } else {
                    &&& r matches InitStep::Start { process_key, spawn_opts: opts }
                    &&& process_key@ == key
                    &&& opts == spawn_opts
                    &&& *final(self) == *old(self)
                    &&& final(out)@ == old(out)@
                }
            }),
    {
        let key = match &request.params {
            Some(params) => generate_process_key(
                spawn_opts.command.as_str(),
                spawn_opts.cwd.as_str(),
                params,
            ),
            None => generate_process_key(
                spawn_opts.command.as_str(),
                spawn_opts.cwd.as_str(),
                &Json::Null,
            ),
        };
        let cached = match self.processes.get(key.as_str()) {
            None => {
                return InitStep::Start { process_key: key, spawn_opts };
            },
            Some(process) => match &process.cached_init_response {
                Some(response) => Some(response.clone()),
                None => None,
            },
        };
        match cached {
            Some(response) => {
                let mut answer = response;
                answer.id = request.id.clone();
                let _ = self.send_to_channel(channel_id, JsonRpcMessage::Response(answer), out);
                self.channel_to_process.insert(channel_id.to_owned(), key);
            },
            None => {
                self.send_error_response(
                    channel_id,
                    &request.id,
                    NO_INIT_RESPONSE,
                    "Process alive, but no init response.",
                    out,
                );
            },
        }
        InitStep::Done
    }

    /// Goes on with `initialize` once the agent was started, or could not be.
    pub fn process_started(
        &mut self,
        process_key: ProcessKey,
        channel_id: &str,
        request: &JsonRpcRequest,
        outcome: Result<(), String>,
        out: &mut Vec<RelayEffect>,
    ) -> (r: Option<Problem>)
        requires
            old(self).wf(),
        ensures
            stepped(
                *final(self),
                old(out)@,
                final(out)@,
                r,
                started(
                    old(self)@,
                    process_key@,
                    channel_id@,
                    request@,
                    crate::watching::outcome_view(outcome),
                ),
            ),
    {
        match outcome {
            Ok(()) => {
                self.processes.insert(
                    process_key.clone(),
                    ProcessState::new(process_key.clone(), Stdin::Open),
                );
                self.channel_to_process.insert(channel_id.to_owned(), process_key);
                self.handle_initialize_request(channel_id, request, out)
            },
            Err(e) => {
                self.send_agent_exit(
                    channel_id,
                    &exit_without_output("process_start_failed", e.as_str()),
                    out,
                );
                None
            },
        }
    }
}

} // verus!
