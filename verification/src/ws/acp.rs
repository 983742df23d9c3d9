//! The ACP proxy: browsers talk to agent processes through it, and the agent's side of a session
//! stays alive while a browser reconnects.
//!
//! A channel `acp:{id}` joins with a command to run. Channels that name the same command and
//! directory share one agent process, so the proxy gives each request an identity of its own
//! before it forwards the request, and restores the client's identity in the response.
//!
//! The proxy intercepts a few messages:
//!
//! - `initialize` is sent to the agent once. Later clients get the cached answer.
//! - `session/new`, `session/load`, `session/resume`, `session/fork` and `session/close` change
//!   which channel a session belongs to.
//! - `_tidewave.ai/session/load` reconnects a client to a session that is still alive: it replays
//!   the messages after the one that the client saw last.
//! - `_tidewave.ai/ack` drops buffered messages that the client has processed.
//! - Notifications of the agent get an identity under `_meta`, which acknowledgements name.
//!
//! The functions here decide. Each takes the state and an event, changes the state and lists what
//! is to be done ([`Effect`]): messages to push to clients or to send to agents, processes to stop.

use vstd::prelude::*;

use crate::acp_session::{ExitView, SessionView};
use crate::json;
use crate::json::{Json, JsonView};
use crate::jsonrpc::ResponseView;
use crate::phoenix;
use crate::text;

pub use crate::acp_session::{
    BufferedMessage, ChannelId, NewSessionResponse, NotificationId, ProcessKey, SessionId,
    SessionState, TidewaveAckNotification, TidewaveExitParams, TidewaveSessionLoadRequest,
    TidewaveSessionLoadResponse,
};
pub use crate::jsonrpc::{
    JsonRpcError, JsonRpcMessage, JsonRpcNotification, JsonRpcRequest, JsonRpcResponse,
};
pub use crate::ws::acp::channel::AcpChannelState;
pub use crate::ws::acp::process::ProcessState;

pub mod calls;
pub mod channel;
pub mod laws;
pub mod lifecycle;
pub mod process;
pub mod proxy;
pub mod routing;

verus! {

// ---------------------------------------------------------------------------
// Types
// ---------------------------------------------------------------------------

/// How to start an agent.
#[derive(Debug)]
pub struct TidewaveSpawnOptions {
    pub command: String,
    pub env: Vec<(String, String)>,
    pub cwd: String,
    pub wsl_distro: Option<String>,
}

/// The model of [`TidewaveSpawnOptions`].
pub struct SpawnView {
    pub command: Seq<char>,
    pub env: Seq<(Seq<char>, Seq<char>)>,
    pub cwd: Seq<char>,
    pub wsl_distro: Option<Seq<char>>,
}

impl View for TidewaveSpawnOptions {
    type V = SpawnView;

    open spec fn view(&self) -> SpawnView {
        SpawnView {
            command: self.command@,
            env: self.env@.map_values(|e: (String, String)| (e.0@, e.1@)),
            cwd: self.cwd@,
            wsl_distro: json::opt_text(self.wsl_distro),
        }
    }
}

impl TidewaveSpawnOptions {
    /// The identity of the process that the options ask for: `command:cwd`.
    pub open spec fn key_view(&self) -> Seq<char> {
        self.command@ + ":"@ + self.cwd@
    }

    /// The identity of the process that the options ask for: `command:cwd`.
    pub fn process_key(&self) -> (r: ProcessKey)
        ensures
            r@ == self.key_view(),
    {
        let mut key = text::joined(self.command.as_str(), ":");
        key.append(self.cwd.as_str());
        key
    }
}

/// How an agent process ended, as its clients are told.
#[derive(Debug)]
pub struct AgentExitEvent {
    pub error: String,
    pub message: String,
    pub stdout: Option<String>,
    pub stderr: Option<String>,
}

impl View for AgentExitEvent {
    type V = ExitView;

    open spec fn view(&self) -> ExitView {
        ExitView {
            error: self.error@,
            message: self.message@,
            stdout: json::opt_text(self.stdout),
            stderr: json::opt_text(self.stderr),
        }
    }
}

/// What an agent can do, as far as the proxy cares.
#[derive(Debug, Clone, Copy, PartialEq, Eq, Structural)]
pub struct AgentCapabilities {
    /// The agent can restore a session after a restart, so that its process may be stopped when
    /// nobody is connected.
    pub supports_resuming: bool,
    /// The agent knows `session/close`, which then ends a session that nobody came back to.
    pub supports_session_close: bool,
}

/// The capabilities that the result of `initialize` lists.
pub open spec fn agent_capabilities(result: Option<JsonView>) -> Option<JsonView> {
    match result {
        Some(v) => v.get("agentCapabilities"@),
        None => None,
    }
}

/// Whether the `session` object among the capabilities has this key.
pub open spec fn session_capability(capabilities: JsonView, key: Seq<char>) -> bool {
    match capabilities.get("session"@) {
        Some(session) => session.get(key) is Some,
        None => false,
    }
}

/// Whether an agent can restore sessions: `loadSession: true`, `session.fork` or
/// `session.resume`.
pub open spec fn supports_resuming(result: Option<JsonView>) -> bool {
    match agent_capabilities(result) {
        Some(caps) => {
            ||| caps.get("loadSession"@) == Some(JsonView::Bool(true))
            ||| session_capability(caps, "fork"@)
            ||| session_capability(caps, "resume"@)
        },
        None => false,
    }
}

/// Whether an agent can close sessions: `session.close`.
pub open spec fn supports_session_close(result: Option<JsonView>) -> bool {
    match agent_capabilities(result) {
        Some(caps) => session_capability(caps, "close"@),
        None => false,
    }
}

fn has_session_capability(capabilities: &Json, key: &str) -> (r: bool)
    ensures
        r == session_capability(capabilities@, key@),
{
    match capabilities.get("session") {
        Some(session) => session.has(key),
        None => false,
    }
}

/// Whether an agent can restore sessions, by its answer to `initialize`.
pub fn check_supports_resuming(response: &JsonRpcResponse) -> (r: bool)
    ensures
        r == supports_resuming(response@.result),
{
    match &response.result {
        Some(result) => match result.get("agentCapabilities") {
            Some(caps) => {
                let load = match caps.get("loadSession") {
                    Some(v) => match v.as_bool() {
                        Some(b) => b,
                        None => false,
                    },
                    None => false,
                };
                load || has_session_capability(caps, "fork") || has_session_capability(caps, "resume")
            },
            None => false,
        },
        None => false,
    }
}

/// Whether an agent can close sessions, by its answer to `initialize`.
pub fn check_supports_session_close(response: &JsonRpcResponse) -> (r: bool)
    ensures
        r == supports_session_close(response@.result),
{
    match &response.result {
        Some(result) => match result.get("agentCapabilities") {
            Some(caps) => has_session_capability(caps, "close"),
            None => false,
        },
        None => false,
    }
}

/// The capabilities that a response to `initialize` shows.
pub open spec fn capabilities_of(response: ResponseView) -> AgentCapabilities {
    AgentCapabilities {
        supports_resuming: supports_resuming(response.result),
        supports_session_close: supports_session_close(response.result),
    }
}

impl AgentCapabilities {
    /// The capabilities that a response to `initialize` shows.
    pub fn from_response(response: &JsonRpcResponse) -> (r: Self)
        ensures
            r == capabilities_of(response@),
    {
        AgentCapabilities {
            supports_resuming: check_supports_resuming(response),
            supports_session_close: check_supports_session_close(response),
        }
    }
}

/// A request whose response changes which channel a session belongs to.
#[derive(Debug)]
pub enum PendingRequest {
    SessionNew,
    SessionLoad { session_id: SessionId, created_session: bool },
    SessionResume { session_id: SessionId, created_session: bool },
    SessionFork,
    SessionClose { session_id: SessionId },
}

/// The model of a [`PendingRequest`].
pub enum PendingView {
    SessionNew,
    SessionLoad { session_id: Seq<char>, created_session: bool },
    SessionResume { session_id: Seq<char>, created_session: bool },
    SessionFork,
    SessionClose { session_id: Seq<char> },
}

impl View for PendingRequest {
    type V = PendingView;

    open spec fn view(&self) -> PendingView {
        match self {
            PendingRequest::SessionNew => PendingView::SessionNew,
            PendingRequest::SessionLoad { session_id, created_session } => PendingView::SessionLoad {
                session_id: session_id@,
                created_session: *created_session,
            },
            PendingRequest::SessionResume { session_id, created_session } => PendingView::SessionResume {
                session_id: session_id@,
                created_session: *created_session,
            },
            PendingRequest::SessionFork => PendingView::SessionFork,
            PendingRequest::SessionClose { session_id } => PendingView::SessionClose {
                session_id: session_id@,
            },
        }
    }
}

impl Clone for PendingRequest {
    fn clone(&self) -> (r: Self)
        ensures
            r@ == self@,
    {
        match self {
            PendingRequest::SessionNew => PendingRequest::SessionNew,
            PendingRequest::SessionLoad { session_id, created_session } => PendingRequest::SessionLoad {
                session_id: session_id.clone(),
                created_session: *created_session,
            },
            PendingRequest::SessionResume { session_id, created_session } => PendingRequest::SessionResume {
                session_id: session_id.clone(),
                created_session: *created_session,
            },
            PendingRequest::SessionFork => PendingRequest::SessionFork,
            PendingRequest::SessionClose { session_id } => PendingRequest::SessionClose {
                session_id: session_id.clone(),
            },
        }
    }
}

/// The model of an optional [`PendingRequest`].
pub open spec fn opt_pending(pending: Option<PendingRequest>) -> Option<PendingView> {
    match pending {
        Some(p) => Some(p@),
        None => None,
    }
}

/// A request that waits for the agent's response.
#[derive(Debug)]
pub struct InflightRequest {
    pub channel_id: ChannelId,
    pub client_id: Json,
    pub session_id: Option<SessionId>,
    pub pending: Option<PendingRequest>,
}

/// The model of an [`InflightRequest`].
pub struct InflightView {
    pub channel_id: Seq<char>,
    pub client_id: JsonView,
    pub session_id: Option<Seq<char>>,
    pub pending: Option<PendingView>,
}

impl View for InflightRequest {
    type V = InflightView;

    open spec fn view(&self) -> InflightView {
        InflightView {
            channel_id: self.channel_id@,
            client_id: self.client_id@,
            session_id: json::opt_text(self.session_id),
            pending: opt_pending(self.pending),
        }
    }
}

impl Clone for InflightRequest {
    fn clone(&self) -> (r: Self)
        ensures
            r@ == self@,
    {
        InflightRequest {
            channel_id: self.channel_id.clone(),
            client_id: self.client_id.clone(),
            session_id: phoenix::clone_text(&self.session_id),
            pending: match &self.pending {
                Some(p) => Some(p.clone()),
                None => None,
            },
        }
    }
}

/// A session and the channel that it belongs to.
#[derive(Debug)]
pub struct SessionEntry {
    pub state: SessionState,
    pub channel_id: Option<ChannelId>,
}

/// The model of a [`SessionEntry`].
pub struct EntryView {
    pub state: SessionView,
    pub channel_id: Option<Seq<char>>,
}

impl View for SessionEntry {
    type V = EntryView;

    open spec fn view(&self) -> EntryView {
        EntryView { state: self.state@, channel_id: json::opt_text(self.channel_id) }
    }
}

// ---------------------------------------------------------------------------
// Initialization
// ---------------------------------------------------------------------------

/// An agent's answer to `initialize`.
#[derive(Debug)]
pub struct InitComplete {
    pub response: JsonRpcResponse,
    pub capabilities: AgentCapabilities,
}

/// The model of an [`InitComplete`].
pub struct CompleteView {
    pub response: ResponseView,
    pub capabilities: AgentCapabilities,
}

impl View for InitComplete {
    type V = CompleteView;

    open spec fn view(&self) -> CompleteView {
        CompleteView { response: self.response@, capabilities: self.capabilities }
    }
}

impl Clone for InitComplete {
    fn clone(&self) -> (r: Self)
        ensures
            r@ == self@,
    {
        InitComplete { response: self.response.clone(), capabilities: self.capabilities }
    }
}

/// How far the initialization of an agent has come.
#[derive(Debug)]
pub enum InitState {
    NotStarted,
    InFlight { request_id: Json },
    Complete { init: InitComplete },
    Failed,
}

/// The model of an [`InitState`].
pub enum InitStateView {
    NotStarted,
    InFlight(JsonView),
    Complete(CompleteView),
    Failed,
}

impl View for InitState {
    type V = InitStateView;

    open spec fn view(&self) -> InitStateView {
        match self {
            InitState::NotStarted => InitStateView::NotStarted,
            InitState::InFlight { request_id } => InitStateView::InFlight(request_id@),
            InitState::Complete { init } => InitStateView::Complete(init@),
            InitState::Failed => InitStateView::Failed,
        }
    }
}

/// What a client that wants to initialize the agent has to do.
#[derive(Debug)]
pub enum BeginInit {
    /// Send the request to the agent.
    Start,
    /// Wait for the answer to another client's request.
    Wait,
    /// Take the cached answer.
    Complete(InitComplete),
    /// Give up.
    Failed,
}

/// Whether two message identities are the same.
pub open spec fn same_id(a: JsonView, b: JsonView) -> bool {
    json::id_text(a) == json::id_text(b)
}

fn ids_match(a: &Json, b: &Json) -> (r: bool)
    ensures
        r == same_id(a@, b@),
{
    a.id_text() == b.id_text()
}

/// Whether the state waits for the answer to this request.
pub open spec fn is_current(init: InitStateView, request_id: JsonView) -> bool {
    match init {
        InitStateView::InFlight(current) => same_id(current, request_id),
        _ => false,
    }
}

/// The capabilities of an agent that has been initialized.
pub open spec fn known_capabilities(init: InitStateView) -> Option<AgentCapabilities> {
    match init {
        InitStateView::Complete(complete) => Some(complete.capabilities),
        _ => None,
    }
}

impl InitState {
    /// The state of an agent that was just started.
    pub fn new() -> (r: Self)
        ensures
            r@ == InitStateView::NotStarted,
    {
        InitState::NotStarted
    }

    /// Claims the initialization for a request. Only the first claim succeeds.
    pub fn begin(&mut self, request_id: Json) -> (r: BeginInit)
        ensures
            match old(self)@ {
                InitStateView::NotStarted => r is Start && final(self)@ == InitStateView::InFlight(
                    request_id@,
                ),
                InitStateView::InFlight(_) => r is Wait && final(self)@ == old(self)@,
                InitStateView::Complete(init) => r is Complete && r->Complete_0@ == init && final(self)@
                    == old(self)@,
                InitStateView::Failed => r is Failed && final(self)@ == old(self)@,
            },
    {
        let (state, r) = match self {
            InitState::NotStarted => (Some(InitState::InFlight { request_id }), BeginInit::Start),
            InitState::InFlight { .. } => (None, BeginInit::Wait),
            InitState::Complete { init } => (None, BeginInit::Complete(init.clone())),
            InitState::Failed => (None, BeginInit::Failed),
        };
        if let Some(s) = state {
            *self = s;
        }
        r
    }

    /// What a client that waits learns: `Some(Some(..))` once the agent has answered,
    /// `Some(None)` once the initialization has failed, `None` while it has to wait on.
    pub fn wait_for_completion(&self) -> (r: Option<Option<InitComplete>>)
        ensures
            match self@ {
                InitStateView::Complete(init) => r is Some && r->0 is Some && r->0->0@ == init,
                InitStateView::Failed => r == Some(None::<InitComplete>),
                _ => r is None,
            },
    {
        match self {
            InitState::Complete { init } => Some(Some(init.clone())),
            InitState::Failed => Some(None),
            _ => None,
        }
    }

    /// Stores the answer to the request that the state waits for. The answer to another request is
    /// ignored.
    pub fn complete_if_current(
        &mut self,
        request_id: &Json,
        response: JsonRpcResponse,
        capabilities: AgentCapabilities,
    ) -> (r: bool)
        ensures
            r == is_current(old(self)@, request_id@),
            final(self)@ == (if r {
                InitStateView::Complete(CompleteView { response: response@, capabilities })
            } else {
                old(self)@
            }),
    {
        if self.is_current_request(request_id) {
            *self = InitState::Complete { init: InitComplete { response, capabilities } };
            true
        } else {
            false
        }
    }

    /// Whether the state waits for the answer to this request.
    pub fn is_current_request(&self, request_id: &Json) -> (r: bool)
        ensures
            r == is_current(self@, request_id@),
    {
        match self {
            InitState::InFlight { request_id: current } => ids_match(current, request_id),
            _ => false,
        }
    }

    /// Whether the agent has been asked and has not answered.
    pub fn is_in_flight(&self) -> (r: bool)
        ensures
            r == (self@ is InFlight),
    {
        match self {
            InitState::InFlight { .. } => true,
            _ => false,
        }
    }

    /// Gives the initialization up.
    pub fn fail(&mut self)
        ensures
            final(self)@ == InitStateView::Failed,
    {
        *self = InitState::Failed;
    }

    /// Whether the agent has answered.
    pub fn is_complete(&self) -> (r: bool)
        ensures
            r == (self@ is Complete),
    {
        match self {
            InitState::Complete { .. } => true,
            _ => false,
        }
    }

    /// The capabilities of an agent that has answered.
    pub fn capabilities(&self) -> (r: Option<AgentCapabilities>)
        ensures
            r == known_capabilities(self@),
    {
        match self {
            InitState::Complete { init } => Some(init.capabilities),
            _ => None,
        }
    }
}

} // verus!
