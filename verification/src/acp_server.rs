//! ACP connections that the server makes itself.
//!
//! A client asks the server to start agents, opens sessions with them and talks to each session on a
//! WebSocket. Messages for a session whose client is away are buffered, and given to the client
//! that comes back. What the protocol's own types hold is kept as JSON here.

use vstd::prelude::*;

use crate::json;
use crate::json::{Json, JsonView};
use crate::jsonrpc;
use crate::registry;
use crate::registry::Registry;
use crate::text;

pub mod laws;

verus! {

broadcast use crate::registry::group_viewed;

/// How a connection to an agent stands.
#[derive(Debug)]
pub enum ConnectionStatus {
    Loading,
    Connected,
    Error { message: String },
}

/// The model of a [`ConnectionStatus`].
pub enum StatusView {
    Loading,
    Connected,
    Error { message: Seq<char> },
}

impl View for ConnectionStatus {
    type V = StatusView;

    open spec fn view(&self) -> StatusView {
        match self {
            ConnectionStatus::Loading => StatusView::Loading,
            ConnectionStatus::Connected => StatusView::Connected,
            ConnectionStatus::Error { message } => StatusView::Error { message: message@ },
        }
    }
}

impl Clone for ConnectionStatus {
    fn clone(&self) -> (r: Self)
        ensures
            r@ == self@,
    {
        match self {
            ConnectionStatus::Loading => ConnectionStatus::Loading,
            ConnectionStatus::Connected => ConnectionStatus::Connected,
            ConnectionStatus::Error { message } => ConnectionStatus::Error { message: message.clone() },
        }
    }
}

/// A status as JSON.
pub open spec fn status_json(status: StatusView) -> JsonView {
    match status {
        StatusView::Loading => JsonView::Str("loading"@),
        StatusView::Connected => JsonView::Str("connected"@),
        StatusView::Error { message } => json::empty_object().with(
            "error"@,
            json::empty_object().with("message"@, JsonView::Str(message)),
        ),
    }
}

impl ConnectionStatus {
    /// The status as JSON.
    pub fn to_json(&self) -> (r: Json)
        ensures
            r@ == status_json(self@),
    {
        match self {
            ConnectionStatus::Loading => Json::string("loading"),
            ConnectionStatus::Connected => Json::string("connected"),
            ConnectionStatus::Error { message } => Json::object().with(
                "error",
                Json::object().with("message", Json::string(message.as_str())),
            ),
        }
    }
}

/// A connection to an agent. `capabilities` are those that the agent has named.
#[derive(Debug)]
pub struct AcpConnection {
    pub id: String,
    pub name: String,
    pub command: String,
    pub status: ConnectionStatus,
    pub capabilities: Option<Json>,
}

/// The model of an [`AcpConnection`], and of what clients are told of one.
pub struct ConnectionView {
    pub id: Seq<char>,
    pub name: Seq<char>,
    pub command: Seq<char>,
    pub status: StatusView,
    pub capabilities: Option<JsonView>,
}

impl View for AcpConnection {
    type V = ConnectionView;

    open spec fn view(&self) -> ConnectionView {
        ConnectionView {
            id: self.id@,
            name: self.name@,
            command: self.command@,
            status: self.status@,
            capabilities: json::opt_json(self.capabilities),
        }
    }
}

/// A request to start an agent.
#[derive(Debug)]
pub struct CreateConnectionRequest {
    pub id: String,
    pub name: String,
    pub command: String,
}

/// What clients are told of a connection.
#[derive(Debug)]
pub struct ConnectionInfo {
    pub id: String,
    pub name: String,
    pub command: String,
    pub status: ConnectionStatus,
    pub capabilities: Option<Json>,
}

impl View for ConnectionInfo {
    type V = ConnectionView;

    open spec fn view(&self) -> ConnectionView {
        ConnectionView {
            id: self.id@,
            name: self.name@,
            command: self.command@,
            status: self.status@,
            capabilities: json::opt_json(self.capabilities),
        }
    }
}

/// A connection as JSON.
pub open spec fn connection_json(connection: ConnectionView) -> JsonView {
    json::empty_object().with("id"@, JsonView::Str(connection.id)).with(
        "name"@,
        JsonView::Str(connection.name),
    ).with("command"@, JsonView::Str(connection.command)).with(
        "status"@,
        status_json(connection.status),
    ).with("capabilities"@, jsonrpc::or_null(connection.capabilities))
}

fn or_null(value: &Option<Json>) -> (r: Json)
    ensures
        r@ == jsonrpc::or_null(json::opt_json(*value)),
{
    match value {
        Some(v) => v.clone(),
        None => Json::Null,
    }
}

impl ConnectionInfo {
    /// What clients are told, as JSON.
    pub fn to_json(&self) -> (r: Json)
        ensures
            r@ == connection_json(self@),
    {
        Json::object().with("id", Json::string(self.id.as_str())).with(
            "name",
            Json::string(self.name.as_str()),
        ).with("command", Json::string(self.command.as_str())).with(
            "status",
            self.status.to_json(),
        ).with("capabilities", or_null(&self.capabilities))
    }
}

/// News of a connection.
#[derive(Debug)]
pub struct ConnectionUpdate {
    pub id: String,
    pub status: ConnectionStatus,
    pub capabilities: Option<Json>,
}

/// The model of a [`ConnectionUpdate`].
pub struct UpdateView {
    pub id: Seq<char>,
    pub status: StatusView,
    pub capabilities: Option<JsonView>,
}

impl View for ConnectionUpdate {
    type V = UpdateView;

    open spec fn view(&self) -> UpdateView {
        UpdateView {
            id: self.id@,
            status: self.status@,
            capabilities: json::opt_json(self.capabilities),
        }
    }
}

/// News of a connection as JSON.
pub open spec fn update_json(update: UpdateView) -> JsonView {
    json::empty_object().with("id"@, JsonView::Str(update.id)).with(
        "status"@,
        status_json(update.status),
    ).with("capabilities"@, jsonrpc::or_null(update.capabilities))
}

impl ConnectionUpdate {
    /// The news as JSON.
    pub fn to_json(&self) -> (r: Json)
        ensures
            r@ == update_json(self@),
    {
        Json::object().with("id", Json::string(self.id.as_str())).with("status", self.status.to_json()).with(
            "capabilities",
            or_null(&self.capabilities),
        )
    }
}

/// A request to open a session.
#[derive(Debug)]
pub struct CreateSessionRequest {
    pub acp_id: String,
}

/// The answer to a request to open a session.
#[derive(Debug)]
pub struct CreateSessionResponse {
    pub session_id: Option<String>,
    pub status: String,
    pub error: Option<String>,
}

/// The model of a [`CreateSessionResponse`].
pub struct CreatedView {
    pub session_id: Option<Seq<char>>,
    pub status: Seq<char>,
    pub error: Option<Seq<char>>,
}

impl View for CreateSessionResponse {
    type V = CreatedView;

    open spec fn view(&self) -> CreatedView {
        CreatedView {
            session_id: json::opt_text(self.session_id),
            status: self.status@,
            error: json::opt_text(self.error),
        }
    }
}

/// A request that failed.
pub open spec fn failed(status: Seq<char>, error: Seq<char>) -> CreatedView {
    CreatedView { session_id: None, status, error: Some(error) }
}

/// The answer to a request to open a session as JSON. What is absent is left out.
pub open spec fn created_json(created: CreatedView) -> JsonView {
    let base = json::empty_object().with("status"@, JsonView::Str(created.status));
    let named = match created.session_id {
        Some(id) => base.with("sessionId"@, JsonView::Str(id)),
        None => base,
    };
    match created.error {
        Some(e) => named.with("error"@, JsonView::Str(e)),
        None => named,
    }
}

impl CreateSessionResponse {
    /// The answer as JSON.
    pub fn to_json(&self) -> (r: Json)
        ensures
            r@ == created_json(self@),
    {
        let base = Json::object().with("status", Json::string(self.status.as_str()));
        let named = match &self.session_id {
            Some(id) => base.with("sessionId", Json::string(id.as_str())),
            None => base,
        };
        match &self.error {
            Some(e) => named.with("error", Json::string(e.as_str())),
            None => named,
        }
    }
}

/// What clients are told of a session.
#[derive(Debug)]
pub struct SessionInfo {
    pub id: String,
    pub acp_id: String,
}

impl SessionInfo {
    /// What clients are told, as JSON.
    pub fn to_json(&self) -> (r: Json)
        ensures
            r@ == json::empty_object().with("id"@, JsonView::Str(self.id@)).with(
                "acpId"@,
                JsonView::Str(self.acp_id@),
            ),
    {
        Json::object().with("id", Json::string(self.id.as_str())).with(
            "acpId",
            Json::string(self.acp_id.as_str()),
        )
    }
}

// ---------------------------------------------------------------------------
// Messages
// ---------------------------------------------------------------------------

/// What a client sends.
#[derive(Debug)]
pub enum ClientMessage {
    Prompt { id: u64, messages: Json },
    PermissionResponse { id: u64, response: Json },
    Ack { latest_id: u64 },
}

/// The model of a [`ClientMessage`].
pub enum ClientView {
    Prompt { id: u64, messages: JsonView },
    PermissionResponse { id: u64, response: JsonView },
    Ack { latest_id: u64 },
}

impl View for ClientMessage {
    type V = ClientView;

    open spec fn view(&self) -> ClientView {
        match self {
            ClientMessage::Prompt { id, messages } => ClientView::Prompt { id: *id, messages: messages@ },
            ClientMessage::PermissionResponse { id, response } => ClientView::PermissionResponse {
                id: *id,
                response: response@,
            },
            ClientMessage::Ack { latest_id } => ClientView::Ack { latest_id: *latest_id },
        }
    }
}

/// A number among the fields of a record.
pub open spec fn number_field_of(record: JsonView, name: Seq<char>, place: int, count: int) -> Option<u64> {
    match jsonrpc::field_of(record, name, place, count) {
        Some(v) => v.as_u64(),
        None => None,
    }
}

fn number_field(record: &Json, name: &str, place: usize, count: usize) -> (r: Option<u64>)
    requires
        place < count,
    ensures
        r == number_field_of(record@, name@, place as int, count as int),
{
    match jsonrpc::field(record, name, place, count) {
        Some(v) => v.as_u64(),
        None => None,
    }
}

/// The message that a JSON value stands for.
pub open spec fn client_message_of(v: JsonView) -> Option<ClientView> {
    if jsonrpc::text_field_of(v, "type"@, 0, 3) == Some("prompt"@) {
        match (number_field_of(v, "id"@, 1, 3), jsonrpc::field_of(v, "messages"@, 2, 3)) {
            (Some(id), Some(JsonView::Arr(items))) => Some(
                ClientView::Prompt { id, messages: JsonView::Arr(items) },
            ),
            _ => None,
        }
    } else if jsonrpc::text_field_of(v, "type"@, 0, 3) == Some("permission-response"@) {
        match (number_field_of(v, "id"@, 1, 3), jsonrpc::field_of(v, "response"@, 2, 3)) {
            (Some(id), Some(response)) => Some(ClientView::PermissionResponse { id, response }),
            _ => None,
        }
    } else if jsonrpc::text_field_of(v, "type"@, 0, 2) == Some("ack"@) {
        match number_field_of(v, "latestId"@, 1, 2) {
            Some(latest_id) => Some(ClientView::Ack { latest_id }),
            None => None,
        }
    } else {
        None
    }
}

/// The model of a message that may be missing.
pub open spec fn opt_client(message: Option<ClientMessage>) -> Option<ClientView> {
    match message {
        Some(m) => Some(m@),
        None => None,
    }
}

fn has_type(v: &Json, count: usize, name: &str) -> (r: bool)
    requires
        0 < count,
    ensures
        r == (jsonrpc::text_field_of(v@, "type"@, 0, count as int) == Some(name@)),
{
    match jsonrpc::text_field(v, "type", 0, count) {
        Some(t) => text::same_text(t.as_str(), name),
        None => false,
    }
}

impl ClientMessage {
    /// The message that a JSON value stands for.
    pub fn from_json(v: &Json) -> (r: Option<ClientMessage>)
        ensures
            opt_client(r) == client_message_of(v@),
    {
        if has_type(v, 3, "prompt") {
            match (number_field(v, "id", 1, 3), jsonrpc::field(v, "messages", 2, 3)) {
                (Some(id), Some(messages)) => match messages {
                    Json::Array(_) => Some(ClientMessage::Prompt { id, messages: messages.clone() }),
                    _ => None,
                },
                _ => None,
            }
        } else if has_type(v, 3, "permission-response") {
            match (number_field(v, "id", 1, 3), jsonrpc::field(v, "response", 2, 3)) {
                (Some(id), Some(response)) => Some(
                    ClientMessage::PermissionResponse { id, response: response.clone() },
                ),
                _ => None,
            }
        } else if has_type(v, 2, "ack") {
            match number_field(v, "latestId", 1, 2) {
                Some(latest_id) => Some(ClientMessage::Ack { latest_id }),
                None => None,
            }
        } else {
            None
        }
    }
}

/// What a client is sent.
#[derive(Debug)]
pub enum ServerMessage {
    SessionNotification { id: u64, params: Json },
    PermissionRequest { id: u64, params: Json },
    PromptResponse { id: u64, response_type: String, response: Option<Json>, error: Option<String> },
    Exit { id: u64 },
}

/// The model of a [`ServerMessage`].
pub enum ServerView {
    SessionNotification { id: u64, params: JsonView },
    PermissionRequest { id: u64, params: JsonView },
    PromptResponse {
        id: u64,
        response_type: Seq<char>,
        response: Option<JsonView>,
        error: Option<Seq<char>>,
    },
    Exit { id: u64 },
}

impl View for ServerMessage {
    type V = ServerView;

    open spec fn view(&self) -> ServerView {
        match self {
            ServerMessage::SessionNotification { id, params } => ServerView::SessionNotification {
                id: *id,
                params: params@,
            },
            ServerMessage::PermissionRequest { id, params } => ServerView::PermissionRequest {
                id: *id,
                params: params@,
            },
            ServerMessage::PromptResponse { id, response_type, response, error } => {
                ServerView::PromptResponse {
                    id: *id,
                    response_type: response_type@,
                    response: json::opt_json(*response),
                    error: json::opt_text(*error),
                }
            },
            ServerMessage::Exit { id } => ServerView::Exit { id: *id },
        }
    }
}

impl Clone for ServerMessage {
    fn clone(&self) -> (r: Self)
        ensures
            r@ == self@,
    {
        match self {
            ServerMessage::SessionNotification { id, params } => ServerMessage::SessionNotification {
                id: *id,
                params: params.clone(),
            },
            ServerMessage::PermissionRequest { id, params } => ServerMessage::PermissionRequest {
                id: *id,
                params: params.clone(),
            },
            ServerMessage::PromptResponse { id, response_type, response, error } => {
                ServerMessage::PromptResponse {
                    id: *id,
                    response_type: response_type.clone(),
                    response: json::clone_opt(response),
                    error: crate::phoenix::clone_text(error),
                }
            },
            ServerMessage::Exit { id } => ServerMessage::Exit { id: *id },
        }
    }
}

impl ServerView {
    /// The number of the message in its session, or that of the prompt that it answers.
    pub open spec fn id(self) -> u64 {
        match self {
            ServerView::SessionNotification { id, .. } => id,
            ServerView::PermissionRequest { id, .. } => id,
            ServerView::PromptResponse { id, .. } => id,
            ServerView::Exit { id } => id,
        }
    }

    /// The message as JSON. What is absent is left out.
    pub open spec fn json(self) -> JsonView {
        match self {
            ServerView::SessionNotification { id, params } => typed_json("session-notification"@, id).with(
                "params"@,
                params,
            ),
            ServerView::PermissionRequest { id, params } => typed_json("permission-request"@, id).with(
                "params"@,
                params,
            ),
            ServerView::PromptResponse { id, response_type, response, error } => {
                let base = typed_json("prompt-response"@, id).with(
                    "response-type"@,
                    JsonView::Str(response_type),
                );
                let answered = match response {
                    Some(r) => base.with("response"@, r),
                    None => base,
                };
                match error {
                    Some(e) => answered.with("error"@, JsonView::Str(e)),
                    None => answered,
                }
            },
            ServerView::Exit { id } => typed_json("exit"@, id),
        }
    }
}

/// A message as JSON, with no more than its type and its number.
pub open spec fn typed_json(name: Seq<char>, id: u64) -> JsonView {
    json::empty_object().with("type"@, JsonView::Str(name)).with("id"@, json::uint_json(id))
}

fn typed(name: &str, id: u64) -> (r: Json)
    ensures
        r@ == typed_json(name@, id),
{
    Json::object().with("type", Json::string(name)).with("id", Json::uint(id))
}

impl ServerMessage {
    /// The number of the message in its session, or that of the prompt that it answers.
    pub fn id(&self) -> (r: u64)
        ensures
            r == self@.id(),
    {
        match self {
            ServerMessage::SessionNotification { id, .. } => *id,
            ServerMessage::PermissionRequest { id, .. } => *id,
            ServerMessage::PromptResponse { id, .. } => *id,
            ServerMessage::Exit { id } => *id,
        }
    }

    /// The message as JSON.
    pub fn to_json(&self) -> (r: Json)
        ensures
            r@ == self@.json(),
    {
        match self {
            ServerMessage::SessionNotification { id, params } => typed("session-notification", *id).with(
                "params",
                params.clone(),
            ),
            ServerMessage::PermissionRequest { id, params } => typed("permission-request", *id).with(
                "params",
                params.clone(),
            ),
            ServerMessage::PromptResponse { id, response_type, response, error } => {
                let base = typed("prompt-response", *id).with(
                    "response-type",
                    Json::string(response_type.as_str()),
                );
                let answered = match response {
                    Some(r) => base.with("response", r.clone()),
                    None => base,
                };
                match error {
                    Some(e) => answered.with("error", Json::string(e.as_str())),
                    None => answered,
                }
            },
            ServerMessage::Exit { id } => typed("exit", *id),
        }
    }
}

/// The models of a list of messages.
pub open spec fn messages_view(messages: Seq<ServerMessage>) -> Seq<ServerView> {
    messages.map_values(|m: ServerMessage| m@)
}

/// The messages with a number above another.
pub open spec fn later_than(messages: Seq<ServerView>, id: u64) -> Seq<ServerView>
    decreases messages.len(),
{
    if messages.len() == 0 {
        seq![]
    } else {
        let rest = later_than(messages.drop_last(), id);
        if messages.last().id() > id {
            rest.push(messages.last())
        } else {
            rest
        }
    }
}

/// Copies of the messages with a number above another.
pub fn messages_after(messages: &Vec<ServerMessage>, id: u64) -> (r: Vec<ServerMessage>)
    ensures
        messages_view(r@) == later_than(messages_view(messages@), id),
{
    let ghost all = messages_view(messages@);
    let mut r: Vec<ServerMessage> = Vec::new();
    let mut i: usize = 0;
    assert(all.take(0).len() == 0);
    assert(messages_view(r@) =~= later_than(all.take(0), id));
    while i < messages.len()
        invariant
            all == messages_view(messages@),
            i <= messages.len(),
            messages_view(r@) == later_than(all.take(i as int), id),
        decreases messages.len() - i,
    {
        let ghost before = r@;
        proof {
            assert(all.take(i + 1).drop_last() =~= all.take(i as int));
            assert(all.take(i + 1).last() == messages@[i as int]@);
        }
        if messages[i].id() > id {
            r.push(messages[i].clone());
            assert(messages_view(r@) =~= messages_view(before).push(messages@[i as int]@));
        }
        i = i + 1;
    }
    assert(all.take(all.len() as int) =~= all);
    r
}

// ---------------------------------------------------------------------------
// State
// ---------------------------------------------------------------------------

/// A session with an agent.
pub struct AcpSession {
    pub id: String,
    pub acp_id: String,
    /// The permission requests that wait for the client, by the text of their number.
    pub pending_requests: Registry<()>,
    pub message_buffer: Vec<ServerMessage>,
    pub ws_id_counter: u64,
    /// Tells sessions apart that had the same identity one after the other.
    pub serial: u64,
}

/// The model of an [`AcpSession`].
#[verifier::ext_equal]
pub struct AcpSessionView {
    pub id: Seq<char>,
    pub acp_id: Seq<char>,
    pub pending: Map<Seq<char>, ()>,
    pub buffer: Seq<ServerView>,
    pub next: u64,
    pub serial: u64,
}

impl View for AcpSession {
    type V = AcpSessionView;

    open spec fn view(&self) -> AcpSessionView {
        AcpSessionView {
            id: self.id@,
            acp_id: self.acp_id@,
            pending: self.pending_requests@,
            buffer: messages_view(self.message_buffer@),
            next: self.ws_id_counter,
            serial: self.serial,
        }
    }
}

/// A session in which nothing has been said yet.
pub open spec fn new_session(id: Seq<char>, acp_id: Seq<char>) -> AcpSessionView {
    AcpSessionView { id, acp_id, pending: Map::empty(), buffer: seq![], next: 1, serial: 0 }
}

impl AcpSession {
    /// The table is well formed.
    pub open spec fn wf(&self) -> bool {
        self.pending_requests.wf()
    }

    /// A session in which nothing has been said yet.
    pub fn new(id: String, acp_id: String) -> (r: Self)
        ensures
            r.wf(),
            r@ == new_session(id@, acp_id@),
    {
        let r = AcpSession {
            id,
            acp_id,
            pending_requests: Registry::new(),
            message_buffer: Vec::new(),
            ws_id_counter: 1,
            serial: 0,
        };
        assert(r@ =~= new_session(id@, acp_id@));
        r
    }
}

/// The connections, their sessions, and the sessions whose clients are there.
pub struct AcpServerState {
    pub connections: Registry<AcpConnection>,
    pub sessions: Registry<AcpSession>,
    /// Sessions that are not in the table any more, by serial number. A client whose socket is still
    /// open goes on with its own.
    pub detached: Registry<AcpSession>,
    pub ws_connections: Registry<()>,
    pub next_serial: u64,
}

/// The model of an [`AcpServerState`].
#[verifier::ext_equal]
pub struct ServerStateView {
    pub connections: Map<Seq<char>, ConnectionView>,
    pub sessions: Map<Seq<char>, AcpSessionView>,
    pub detached: Map<Seq<char>, AcpSessionView>,
    pub sockets: Map<Seq<char>, ()>,
    pub next_serial: u64,
}

impl View for AcpServerState {
    type V = ServerStateView;

    open spec fn view(&self) -> ServerStateView {
        ServerStateView {
            connections: registry::viewed(self.connections@),
            sessions: registry::viewed(self.sessions@),
            detached: registry::viewed(self.detached@),
            sockets: self.ws_connections@,
            next_serial: self.next_serial,
        }
    }
}

impl ServerStateView {
    /// The state with one connection replaced.
    pub open spec fn with_connection(self, id: Seq<char>, connection: ConnectionView) -> ServerStateView {
        ServerStateView { connections: self.connections.insert(id, connection), ..self }
    }

    /// The state with one session replaced.
    pub open spec fn with_session(self, id: Seq<char>, session: AcpSessionView) -> ServerStateView {
        ServerStateView { sessions: self.sessions.insert(id, session), ..self }
    }

    /// Whether the session in the table is the one with this serial number.
    pub open spec fn is_current(self, id: Seq<char>, serial: u64) -> bool {
        self.sessions.contains_key(id) && self.sessions[id].serial == serial
    }

    /// Whether the session with this serial number is known, be it in the table or not.
    pub open spec fn knows(self, id: Seq<char>, serial: u64) -> bool {
        self.is_current(id, serial) || self.detached.contains_key(text::decimal(serial as nat))
    }

    /// The session with this serial number.
    pub open spec fn session_of(self, id: Seq<char>, serial: u64) -> AcpSessionView {
        if self.is_current(id, serial) {
            self.sessions[id]
        } else {
            self.detached[text::decimal(serial as nat)]
        }
    }

    /// The state with the session with this serial number replaced.
    pub open spec fn with_session_of(self, id: Seq<char>, serial: u64, session: AcpSessionView) -> ServerStateView {
        if self.is_current(id, serial) {
            self.with_session(id, session)
        } else {
            ServerStateView { detached: self.detached.insert(text::decimal(serial as nat), session), ..self }
        }
    }

    /// The state in which a session is taken out of the table, where there is one with this identity.
    pub open spec fn detach(self, id: Seq<char>) -> ServerStateView {
        if self.sessions.contains_key(id) {
            let session = self.sessions[id];
            ServerStateView {
                sessions: self.sessions.remove(id),
                detached: self.detached.insert(text::decimal(session.serial as nat), session),
                ..self
            }
        } else {
            self
        }
    }
}

/// The words of a command: the program and its arguments.
pub open spec fn command_words(command: Seq<char>) -> Result<Seq<Seq<char>>, Seq<char>> {
    if text::words(command).len() == 0 {
        Err("Empty command"@)
    } else {
        Ok(text::words(command))
    }
}

/// Splits a command into the program and its arguments.
pub fn split_command(command: &str) -> (r: Result<Vec<String>, String>)
    ensures
        match r {
            Ok(words) => command_words(command@) == Ok::<Seq<Seq<char>>, Seq<char>>(text::texts(words@))
                && words@.len() > 0,
            Err(e) => command_words(command@) == Err::<Seq<Seq<char>>, Seq<char>>(e@),
        },
{
    let words = text::split_words(command);
    assert(text::texts(words@).len() == words@.len());
    if words.len() == 0 {
        Err("Empty command".to_owned())
    } else {
        Ok(words)
    }
}

/// What opening a session asks for.
#[derive(Debug)]
pub enum SessionStep {
    /// There is no such connection.
    NotFound,
    Answer(CreateSessionResponse),
    /// Ask the agent for a session, then see [`AcpServerState::finish_session`].
    Ask,
}

/// What came of asking an agent for a session.
#[derive(Debug)]
pub enum SessionOutcome {
    SendFailed(String),
    Created(String),
    Failed(String),
    TimedOut,
}

/// What came of a prompt.
#[derive(Debug)]
pub enum PromptOutcome {
    SendFailed(String),
    Answered(Json),
    Failed(String),
    Closed,
    TimedOut,
}

/// What a client's message asks for.
#[derive(Debug)]
pub enum ClientStep {
    Nothing,
    /// The session's connection is not known.
    ConnectionNotFound,
    /// Send this to the client.
    Reply(ServerMessage),
    /// Give the prompt to the agent of this connection, then see [`prompt_answer`].
    Prompt { acp_id: String, id: u64, messages: Json },
    /// Give the answer to the permission request that waits for it.
    Permission { id: u64, response: Json },
}

/// The model of a [`ClientStep`].
pub enum ClientStepView {
    Nothing,
    ConnectionNotFound,
    Reply(ServerView),
    Prompt { acp_id: Seq<char>, id: u64, messages: JsonView },
    Permission { id: u64, response: JsonView },
}

impl View for ClientStep {
    type V = ClientStepView;

    open spec fn view(&self) -> ClientStepView {
        match self {
            ClientStep::Nothing => ClientStepView::Nothing,
            ClientStep::ConnectionNotFound => ClientStepView::ConnectionNotFound,
            ClientStep::Reply(m) => ClientStepView::Reply(m@),
            ClientStep::Prompt { acp_id, id, messages } => ClientStepView::Prompt {
                acp_id: acp_id@,
                id: *id,
                messages: messages@,
            },
            ClientStep::Permission { id, response } => ClientStepView::Permission {
                id: *id,
                response: response@,
            },
        }
    }
}

/// A prompt that could not be answered.
pub open spec fn prompt_failed(id: u64, error: Seq<char>) -> ServerView {
    ServerView::PromptResponse { id, response_type: "error"@, response: None, error: Some(error) }
}

/// The answer to a prompt.
pub open spec fn prompt_answer_view(id: u64, outcome: PromptOutcome) -> ServerView {
    match outcome {
        PromptOutcome::SendFailed(e) => prompt_failed(id, "Failed to send request: "@ + e@),
        PromptOutcome::Answered(response) => ServerView::PromptResponse {
            id,
            response_type: "success"@,
            response: Some(response@),
            error: None,
        },
        PromptOutcome::Failed(e) => prompt_failed(id, e@),
        PromptOutcome::Closed => prompt_failed(id, "Response channel closed"@),
        PromptOutcome::TimedOut => prompt_failed(id, "Request timed out"@),
    }
}

fn failed_prompt(id: u64, error: String) -> (r: ServerMessage)
    ensures
        r@ == prompt_failed(id, error@),
{
    ServerMessage::PromptResponse {
        id,
        response_type: "error".to_owned(),
        response: None,
        error: Some(error),
    }
}

/// The answer to a prompt.
pub fn prompt_answer(id: u64, outcome: PromptOutcome) -> (r: ServerMessage)
    ensures
        r@ == prompt_answer_view(id, outcome),
{
    match outcome {
        PromptOutcome::SendFailed(e) => failed_prompt(
            id,
            text::joined("Failed to send request: ", e.as_str()),
        ),
        PromptOutcome::Answered(response) => ServerMessage::PromptResponse {
            id,
            response_type: "success".to_owned(),
            response: Some(response),
            error: None,
        },
        PromptOutcome::Failed(e) => failed_prompt(id, e),
        PromptOutcome::Closed => failed_prompt(id, "Response channel closed".to_owned()),
        PromptOutcome::TimedOut => failed_prompt(id, "Request timed out".to_owned()),
    }
}

/// The number after `n`. A counter that is full starts over.
pub open spec fn next_number(n: u64) -> u64 {
    if n == u64::MAX {
        0
    } else {
        (n + 1) as u64
    }
}

/// The session once a message was sent to its client, or buffered where the client is away.
pub open spec fn told(session: AcpSessionView, message: ServerView, present: bool) -> AcpSessionView {
    let counted = AcpSessionView { next: next_number(session.next), ..session };
    if present {
        counted
    } else {
        AcpSessionView { buffer: session.buffer.push(message), ..counted }
    }
}

/// What the message of a client with this session asks for, and the session afterwards.
pub open spec fn client_step(
    state: ServerStateView,
    session_id: Seq<char>,
    serial: u64,
    message: ClientView,
) -> (ServerStateView, ClientStepView) {
    if !state.knows(session_id, serial) {
        (state, ClientStepView::Nothing)
    } else {
        let session = state.session_of(session_id, serial);
        match message {
            ClientView::Prompt { id, messages } => (
                state,
                if !state.connections.contains_key(session.acp_id) {
                    ClientStepView::ConnectionNotFound
                } else if state.connections[session.acp_id].status is Connected {
                    ClientStepView::Prompt { acp_id: session.acp_id, id, messages }
                } else if state.sockets.contains_key(session_id) {
                    ClientStepView::Reply(prompt_failed(id, "Connection not ready"@))
                } else {
                    ClientStepView::Nothing
                },
            ),
            ClientView::PermissionResponse { id, response } => {
                let key = text::decimal(id as nat);
                if session.pending.contains_key(key) {
                    (
                        state.with_session_of(
                            session_id,
                            serial,
                            AcpSessionView { pending: session.pending.remove(key), ..session },
                        ),
                        ClientStepView::Permission { id, response },
                    )
                } else {
                    (state, ClientStepView::Nothing)
                }
            },
            ClientView::Ack { latest_id } => (
                state.with_session_of(
                    session_id,
                    serial,
                    AcpSessionView { buffer: later_than(session.buffer, latest_id), ..session },
                ),
                ClientStepView::Nothing,
            ),
        }
    }
}

/// Of the sessions listed in `order`, those of a connection, each with the message that tells its
/// client that the agent has ended, where the client is there.
pub open spec fn exits(state: ServerStateView, order: Seq<Seq<char>>, acp_id: Seq<char>) -> Seq<(
    Seq<char>,
    Option<ServerView>,
)>
    decreases order.len(),
{
    if order.len() == 0 {
        seq![]
    } else {
        let rest = exits(state, order.drop_last(), acp_id);
        let id = order.last();
        if state.sessions.contains_key(id) && state.sessions[id].acp_id == acp_id {
            rest.push(
                (
                    id,
                    if state.sockets.contains_key(id) {
                        Some(ServerView::Exit { id: state.sessions[id].next })
                    } else {
                        None
                    },
                ),
            )
        } else {
            rest
        }
    }
}

/// The model of a list of sessions with what their clients are told.
pub open spec fn exits_view(list: Seq<(String, Option<ServerMessage>)>) -> Seq<(Seq<char>, Option<ServerView>)> {
    list.map_values(
        |e: (String, Option<ServerMessage>)|
            (
                e.0@,
                match e.1 {
                    Some(m) => Some(m@),
                    None => None,
                },
            ),
    )
}

/// Whether a session belongs to a connection.
pub open spec fn belongs(state: ServerStateView, session_id: Seq<char>, acp_id: Seq<char>) -> bool {
    state.sessions.contains_key(session_id) && state.sessions[session_id].acp_id == acp_id
}

/// The sessions outside the table once those of a list have been taken out of it. Each has used a
/// number up for the news of the end.
pub open spec fn detached_after(state: ServerStateView, list: Seq<(Seq<char>, Option<ServerView>)>) -> Map<
    Seq<char>,
    AcpSessionView,
>
    decreases list.len(),
{
    if list.len() == 0 {
        state.detached
    } else {
        let session = state.sessions[list.last().0];
        detached_after(state, list.drop_last()).insert(
            text::decimal(session.serial as nat),
            AcpSessionView { next: next_number(session.next), ..session },
        )
    }
}

/// The state once the agent of a connection has ended. `order` lists the sessions.
pub open spec fn exited(state: ServerStateView, order: Seq<Seq<char>>, acp_id: Seq<char>) -> ServerStateView {
    let gone = Set::new(|id: Seq<char>| belongs(state, id, acp_id));
    ServerStateView {
        connections: if state.connections.contains_key(acp_id) {
            state.connections.insert(
                acp_id,
                ConnectionView {
                    status: StatusView::Error { message: "Process exited"@ },
                    ..state.connections[acp_id]
                },
            )
        } else {
            state.connections
        },
        sessions: state.sessions.remove_keys(gone),
        detached: detached_after(state, exits(state, order, acp_id)),
        sockets: state.sockets.remove_keys(gone),
        next_serial: state.next_serial,
    }
}

/// The session to which a message was given, and whether its client was there.
pub struct Told {
    /// The message, where it is to be sent now.
    pub send: Option<ServerMessage>,
    pub id: u64,
    /// The serial number of the session.
    pub serial: u64,
}

impl AcpServerState {
    /// The tables are well formed.
    pub open spec fn wf(&self) -> bool {
        &&& self.connections.wf()
        &&& self.sessions.wf()
        &&& self.detached.wf()
        &&& self.ws_connections.wf()
        &&& forall|key: Seq<char>| #[trigger]
            self.detached@.contains_key(key) ==> self.detached@[key].wf()
        &&& forall|key: Seq<char>| #[trigger]
            self.sessions@.contains_key(key) ==> self.sessions@[key].wf()
    }

    /// No connections and no sessions.
    pub fn new() -> (r: Self)
        ensures
            r.wf(),
            r@ == (ServerStateView {
                connections: Map::empty(),
                sessions: Map::empty(),
                detached: Map::empty(),
                sockets: Map::empty(),
                next_serial: 0,
            }),
    {
        let r = AcpServerState {
            connections: Registry::new(),
            sessions: Registry::new(),
            detached: Registry::new(),
            ws_connections: Registry::new(),
            next_serial: 0,
        };
        assert(r@ =~= (ServerStateView {
            connections: Map::empty(),
            sessions: Map::empty(),
            detached: Map::empty(),
            sockets: Map::empty(),
            next_serial: 0,
        }));
        r
    }

    /// Makes a connection, where its process could be started, and says what clients are told of it.
    pub fn create_connection(&mut self, req: CreateConnectionRequest, outcome: Result<(), String>) -> (r:
        ConnectionInfo)
        requires
            old(self).wf(),
        ensures
            final(self).wf(),
            ({
                let made = ConnectionView {
                    id: req.id@,
                    name: req.name@,
                    command: req.command@,
                    status: StatusView::Loading,
                    capabilities: None,
                };
                match outcome {
                    Ok(_) => r@ == made && final(self)@ == old(self)@.with_connection(req.id@, made),
                    Err(e) => r@ == (ConnectionView {
                        status: StatusView::Error { message: e@ },
                        ..made
                    }) && final(self)@ == old(self)@,
                }
            }),
    {
        match outcome {
            Ok(()) => {
                self.connections.insert(
                    req.id.clone(),
                    AcpConnection {
                        id: req.id.clone(),
                        name: req.name.clone(),
                        command: req.command.clone(),
                        status: ConnectionStatus::Loading,
                        capabilities: None,
                    },
                );
                ConnectionInfo {
                    id: req.id,
                    name: req.name,
                    command: req.command,
                    status: ConnectionStatus::Loading,
                    capabilities: None,
                }
            },
            Err(message) => ConnectionInfo {
                id: req.id,
                name: req.name,
                command: req.command,
                status: ConnectionStatus::Error { message },
                capabilities: None,
            },
        }
    }

    /// Notes the agent's answer to the initialization: its capabilities, or why it failed. The
    /// result is the news for those who listen.
    pub fn connection_initialized(&mut self, acp_id: &str, answer: Result<Json, String>) -> (r: ConnectionUpdate)
        requires
            old(self).wf(),
        ensures
            final(self).wf(),
            ({
                let status = match answer {
                    Ok(_) => StatusView::Connected,
                    Err(e) => StatusView::Error { message: "Initialization failed: "@ + e@ },
                };
                let capabilities = match answer {
                    Ok(capabilities) => Some(capabilities@),
                    Err(_) => None,
                };
                &&& r@ == (UpdateView { id: acp_id@, status, capabilities })
                &&& final(self)@ == (if old(self)@.connections.contains_key(acp_id@) {
                    let before = old(self)@.connections[acp_id@];
                    old(self)@.with_connection(
                        acp_id@,
                        ConnectionView {
                            status,
                            capabilities: if answer is Ok {
                                capabilities
                            } else {
                                before.capabilities
                            },
                            ..before
                        },
                    )
                } else {
                    old(self)@
                })
            }),
    {
        let (status, capabilities) = match answer {
            Ok(capabilities) => (ConnectionStatus::Connected, Some(capabilities)),
            Err(e) => (
                ConnectionStatus::Error {
                    message: text::joined("Initialization failed: ", e.as_str()),
                },
                None,
            ),
        };
        match self.connections.get_mut(acp_id) {
            Some(connection) => {
                connection.status = status.clone();
                match &capabilities {
                    Some(c) => {
                        connection.capabilities = Some(c.clone());
                    },
                    None => {},
                }
            },
            None => {},
        }
        ConnectionUpdate { id: acp_id.to_owned(), status, capabilities }
    }

    /// What clients are told of all connections.
    pub fn list_connections(&self) -> (r: Vec<ConnectionInfo>)
        requires
            self.wf(),
        ensures
            r@.len() == self.connections.order().len(),
            forall|i: int|
                0 <= i < r@.len() ==> (#[trigger] r@[i])@
                    == self@.connections[self.connections.order()[i]],
    {
        let mut r: Vec<ConnectionInfo> = Vec::new();
        let count: usize = self.connections.len();
        let mut i: usize = 0;
        proof {
            self.connections.lemma_order();
        }
        while i < count
            invariant
                self.wf(),
                count == self.connections.order().len(),
                i <= count,
                r@.len() == i,
                forall|key: Seq<char>| #[trigger]
                    self.connections.order().contains(key) <==> self.connections@.contains_key(key),
                forall|k: int|
                    0 <= k < i ==> (#[trigger] r@[k])@ == self@.connections[self.connections.order()[k]],
            decreases count - i,
        {
            let c = self.connections.value_at(i);
            assert(self.connections.order().contains(self.connections.order()[i as int]));
            r.push(
                ConnectionInfo {
                    id: c.id.clone(),
                    name: c.name.clone(),
                    command: c.command.clone(),
                    status: c.status.clone(),
                    capabilities: json::clone_opt(&c.capabilities),
                },
            );
            i = i + 1;
        }
        r
    }

    /// The news that one who begins to listen gets of all connections.
    pub fn current_updates(&self) -> (r: Vec<ConnectionUpdate>)
        requires
            self.wf(),
        ensures
            r@.len() == self.connections.order().len(),
            forall|i: int|
                0 <= i < r@.len() ==> (#[trigger] r@[i])@ == ({
                    let c = self@.connections[self.connections.order()[i]];
                    UpdateView { id: c.id, status: c.status, capabilities: c.capabilities }
                }),
    {
        let mut r: Vec<ConnectionUpdate> = Vec::new();
        let count: usize = self.connections.len();
        let mut i: usize = 0;
        proof {
            self.connections.lemma_order();
        }
        while i < count
            invariant
                self.wf(),
                count == self.connections.order().len(),
                i <= count,
                r@.len() == i,
                forall|key: Seq<char>| #[trigger]
                    self.connections.order().contains(key) <==> self.connections@.contains_key(key),
                forall|k: int|
                    0 <= k < i ==> (#[trigger] r@[k])@ == ({
                        let c = self@.connections[self.connections.order()[k]];
                        UpdateView { id: c.id, status: c.status, capabilities: c.capabilities }
                    }),
            decreases count - i,
        {
            let c = self.connections.value_at(i);
            assert(self.connections.order().contains(self.connections.order()[i as int]));
            r.push(
                ConnectionUpdate {
                    id: c.id.clone(),
                    status: c.status.clone(),
                    capabilities: json::clone_opt(&c.capabilities),
                },
            );
            i = i + 1;
        }
        r
    }

    /// The first step of opening a session.
    pub fn create_session(&self, req: &CreateSessionRequest) -> (r: SessionStep)
        requires
            self.wf(),
        ensures
            if !self@.connections.contains_key(req.acp_id@) {
                r is NotFound
            } else {
                match self@.connections[req.acp_id@].status {
                    StatusView::Connected => r is Ask,
                    StatusView::Error { message } => r is Answer && r->Answer_0@ == failed(
                        "error"@,
                        message,
                    ),
                    StatusView::Loading => r is Answer && r->Answer_0@ == failed(
                        "loading"@,
                        "Connection not ready"@,
                    ),
                }
            },
    {
        match self.connections.get(req.acp_id.as_str()) {
            None => SessionStep::NotFound,
            Some(connection) => match &connection.status {
                ConnectionStatus::Connected => SessionStep::Ask,
                ConnectionStatus::Error { message } => SessionStep::Answer(
                    CreateSessionResponse {
                        session_id: None,
                        status: "error".to_owned(),
                        error: Some(message.clone()),
                    },
                ),
                ConnectionStatus::Loading => SessionStep::Answer(
                    CreateSessionResponse {
                        session_id: None,
                        status: "loading".to_owned(),
                        error: Some("Connection not ready".to_owned()),
                    },
                ),
            },
        }
    }

    /// The answer to opening a session, by what came of asking the agent.
    pub fn finish_session(&mut self, acp_id: &str, outcome: SessionOutcome) -> (r: CreateSessionResponse)
        requires
            old(self).wf(),
        ensures
            final(self).wf(),
            match outcome {
                SessionOutcome::Created(id) => {
                    &&& r@ == (CreatedView { session_id: Some(id@), status: "created"@, error: None })
                    &&& final(self)@ == (ServerStateView {
                        next_serial: next_number(old(self)@.next_serial),
                        ..old(self)@.detach(id@).with_session(
                            id@,
                            AcpSessionView {
                                serial: old(self)@.next_serial,
                                ..new_session(id@, acp_id@)
                            },
                        )
                    })
                },
                SessionOutcome::SendFailed(e) => {
                    &&& r@ == failed("error"@, "Failed to send request: "@ + e@)
                    &&& final(self)@ == old(self)@
                },
                SessionOutcome::Failed(e) => {
                    &&& r@ == failed(
                        if text::has_part(e@, "auth_required"@) {
                            "auth_required"@
                        } else {
                            "error"@
                        },
                        e@,
                    )
                    &&& final(self)@ == old(self)@
                },
                SessionOutcome::TimedOut => {
                    &&& r@ == failed("error"@, "Request timed out"@)
                    &&& final(self)@ == old(self)@
                },
            },
    {
        match outcome {
            SessionOutcome::Created(id) => {
                self.detach(id.as_str());
                let serial: u64 = self.next_serial;
                self.next_serial = serial.wrapping_add(1);
                let mut session = AcpSession::new(id.clone(), acp_id.to_owned());
                session.serial = serial;
                self.sessions.insert(id.clone(), session);
                CreateSessionResponse {
                    session_id: Some(id),
                    status: "created".to_owned(),
                    error: None,
                }
            },
            SessionOutcome::SendFailed(e) => CreateSessionResponse {
                session_id: None,
                status: "error".to_owned(),
                error: Some(text::joined("Failed to send request: ", e.as_str())),
            },
            SessionOutcome::Failed(e) => {
                let status = if text::contains_text(e.as_str(), "auth_required") {
                    "auth_required".to_owned()
                } else {
                    "error".to_owned()
                };
                CreateSessionResponse { session_id: None, status, error: Some(e) }
            },
            SessionOutcome::TimedOut => CreateSessionResponse {
                session_id: None,
                status: "error".to_owned(),
                error: Some("Request timed out".to_owned()),
            },
        }
    }

    /// What clients are told of all sessions.
    pub fn list_sessions(&self) -> (r: Vec<SessionInfo>)
        requires
            self.wf(),
        ensures
            r@.len() == self.sessions.order().len(),
            forall|i: int|
                0 <= i < r@.len() ==> ({
                    let session = self@.sessions[self.sessions.order()[i]];
                    (#[trigger] r@[i]).id@ == session.id && r@[i].acp_id@ == session.acp_id
                }),
    {
        let mut r: Vec<SessionInfo> = Vec::new();
        let count: usize = self.sessions.len();
        let mut i: usize = 0;
        proof {
            self.sessions.lemma_order();
        }
        while i < count
            invariant
                self.wf(),
                count == self.sessions.order().len(),
                i <= count,
                r@.len() == i,
                forall|key: Seq<char>| #[trigger]
                    self.sessions.order().contains(key) <==> self.sessions@.contains_key(key),
                forall|k: int|
                    0 <= k < i ==> ({
                        let session = self@.sessions[self.sessions.order()[k]];
                        (#[trigger] r@[k]).id@ == session.id && r@[k].acp_id@ == session.acp_id
                    }),
            decreases count - i,
        {
            let s = self.sessions.value_at(i);
            assert(self.sessions.order().contains(self.sessions.order()[i as int]));
            r.push(SessionInfo { id: s.id.clone(), acp_id: s.acp_id.clone() });
            i = i + 1;
        }
        r
    }

    /// An agent asks the client of a session for permission. The answer is awaited under the number
    /// of the message. `None` where there is no such session.
    pub fn request_permission(&mut self, session_id: &str, params: Json) -> (r: Option<Told>)
        requires
            old(self).wf(),
        ensures
            final(self).wf(),
            r is Some == old(self)@.sessions.contains_key(session_id@),
            match r {
                Some(r) => {
                    let session = old(self)@.sessions[session_id@];
                    let message = ServerView::PermissionRequest { id: session.next, params: params@ };
                    let present = old(self)@.sockets.contains_key(session_id@);
                    let asked = AcpSessionView {
                        pending: session.pending.insert(text::decimal(session.next as nat), ()),
                        ..session
                    };
                    &&& r.id == session.next
                    &&& r.serial == session.serial
                    &&& r.send is Some == present
                    &&& r.send is Some ==> (r.send)->0@ == message
                    &&& final(self)@ == old(self)@.with_session(session_id@, told(asked, message, present))
                },
                None => *final(self) == *old(self),
            },
    {
        let present = self.ws_connections.contains_key(session_id);
        match self.sessions.get_mut(session_id) {
            Some(session) => {
                let id: u64 = session.ws_id_counter;
                session.ws_id_counter = id.wrapping_add(1);
                session.pending_requests.insert(text::number_text(id), ());
                let message = ServerMessage::PermissionRequest { id, params };
                let send = if present {
                    Some(message)
                } else {
                    let ghost before = session.message_buffer@;
                    session.message_buffer.push(message);
                    assert(messages_view(session.message_buffer@) =~= messages_view(before).push(message@));
                    None
                };
                Some(Told { send, id, serial: session.serial })
            },
            None => None,
        }
    }

    /// An agent tells the client of a session something. `None` where there is no such session.
    pub fn session_notification(&mut self, session_id: &str, params: Json) -> (r: Option<Told>)
        requires
            old(self).wf(),
        ensures
            final(self).wf(),
            r is Some == old(self)@.sessions.contains_key(session_id@),
            match r {
                Some(r) => {
                    let session = old(self)@.sessions[session_id@];
                    let message = ServerView::SessionNotification { id: session.next, params: params@ };
                    let present = old(self)@.sockets.contains_key(session_id@);
                    &&& r.id == session.next
                    &&& r.serial == session.serial
                    &&& r.send is Some == present
                    &&& r.send is Some ==> (r.send)->0@ == message
                    &&& final(self)@ == old(self)@.with_session(
                        session_id@,
                        told(session, message, present),
                    )
                },
                None => *final(self) == *old(self),
            },
    {
        let present = self.ws_connections.contains_key(session_id);
        match self.sessions.get_mut(session_id) {
            Some(session) => {
                let id: u64 = session.ws_id_counter;
                session.ws_id_counter = id.wrapping_add(1);
                let message = ServerMessage::SessionNotification { id, params };
                let send = if present {
                    Some(message)
                } else {
                    let ghost before = session.message_buffer@;
                    session.message_buffer.push(message);
                    assert(messages_view(session.message_buffer@) =~= messages_view(before).push(message@));
                    None
                };
                Some(Told { send, id, serial: session.serial })
            },
            None => None,
        }
    }

    fn detach(&mut self, session_id: &str)
        requires
            old(self).wf(),
        ensures
            final(self).wf(),
            final(self)@ == old(self)@.detach(session_id@),
    {
        match self.sessions.remove(session_id) {
            Some(session) => {
                self.detached.insert(text::number_text(session.serial), session);
            },
            None => {
                assert(old(self).sessions@.remove(session_id@) =~= old(self).sessions@);
            },
        }
    }

    fn is_in_table(&self, session_id: &str, serial: u64) -> (r: bool)
        requires
            self.wf(),
        ensures
            r == self@.is_current(session_id@, serial),
    {
        match self.sessions.get(session_id) {
            Some(session) => session.serial == serial,
            None => false,
        }
    }

    /// The serial number of the session that a client asks for. `None` where there is no such session.
    pub fn find_session(&self, session_id: &str) -> (r: Option<u64>)
        requires
            self.wf(),
        ensures
            r is Some == self@.sessions.contains_key(session_id@),
            r is Some ==> r->0 == self@.sessions[session_id@].serial,
    {
        match self.sessions.get(session_id) {
            Some(session) => Some(session.serial),
            None => None,
        }
    }

    /// The client of a session connects. It gets the buffered messages after the number in
    /// `from_id`, or all of them where that is no number.
    pub fn connect(&mut self, session_id: &str, serial: u64, from_id: &Option<String>) -> (r: Vec<
        ServerMessage,
    >)
        requires
            old(self).wf(),
        ensures
            final(self).wf(),
            messages_view(r@) == (if old(self)@.knows(session_id@, serial) {
                later_than(
                    old(self)@.session_of(session_id@, serial).buffer,
                    start_of(json::opt_text(*from_id)),
                )
            } else {
                seq![]
            }),
            final(self)@ == (ServerStateView {
                sockets: old(self)@.sockets.insert(session_id@, ()),
                ..old(self)@
            }),
    {
        let from: u64 = match from_id {
            Some(t) => match text::parse_number(t.as_str()) {
                Some(n) => n,
                None => 0,
            },
            None => 0,
        };
        let found = if self.is_in_table(session_id, serial) {
            self.sessions.get(session_id)
        } else {
            self.detached.get(text::number_text(serial).as_str())
        };
        let messages = match found {
            Some(session) => messages_after(&session.message_buffer, from),
            None => {
                let none: Vec<ServerMessage> = Vec::new();
                assert(messages_view(none@) =~= seq![]);
                none
            },
        };
        self.ws_connections.insert(session_id.to_owned(), ());
        messages
    }

    /// The client of a session is gone.
    pub fn disconnect(&mut self, session_id: &str)
        requires
            old(self).wf(),
        ensures
            final(self).wf(),
            final(self)@ == (ServerStateView {
                sockets: old(self)@.sockets.remove(session_id@),
                ..old(self)@
            }),
    {
        let _ = self.ws_connections.remove(session_id);
    }

    /// Forgets a session outside the table that no client has any more.
    pub fn forget(&mut self, serial: u64)
        requires
            old(self).wf(),
        ensures
            final(self).wf(),
            final(self)@ == (ServerStateView {
                detached: old(self)@.detached.remove(text::decimal(serial as nat)),
                ..old(self)@
            }),
    {
        let _ = self.detached.remove(text::number_text(serial).as_str());
    }

    /// Decides what the message of a client with this session asks for.
    pub fn handle_client_message(&mut self, session_id: &str, serial: u64, message: ClientMessage) -> (r:
        ClientStep)
        requires
            old(self).wf(),
        ensures
            final(self).wf(),
            (final(self)@, r@) == client_step(old(self)@, session_id@, serial, message@),
    {
        let present = self.ws_connections.contains_key(session_id);
        let place = text::number_text(serial);
        let found = if self.is_in_table(session_id, serial) {
            self.sessions.get_mut(session_id)
        } else {
            self.detached.get_mut(place.as_str())
        };
        let session = match found {
            Some(session) => session,
            None => {
                return ClientStep::Nothing;
            },
        };
        match message {
            ClientMessage::Prompt { id, messages } => {
                match self.connections.get(session.acp_id.as_str()) {
                    None => ClientStep::ConnectionNotFound,
                    Some(connection) => match &connection.status {
                        ConnectionStatus::Connected => ClientStep::Prompt {
                            acp_id: session.acp_id.clone(),
                            id,
                            messages,
                        },
                        _ => {
                            if present {
                                ClientStep::Reply(failed_prompt(id, "Connection not ready".to_owned()))
                            } else {
                                ClientStep::Nothing
                            }
                        },
                    },
                }
            },
            ClientMessage::PermissionResponse { id, response } => {
                let key = text::number_text(id);
                if session.pending_requests.contains_key(key.as_str()) {
                    let _ = session.pending_requests.remove(key.as_str());
                    ClientStep::Permission { id, response }
                } else {
                    ClientStep::Nothing
                }
            },
            ClientMessage::Ack { latest_id } => {
                let kept = messages_after(&session.message_buffer, latest_id);
                session.message_buffer = kept;
                ClientStep::Nothing
            },
        }
    }

    /// The agent of a connection has ended. The result lists the sessions that end with it, each with
    /// what its client is told, where it is there, and the news for those who listen.
    pub fn handle_process_exit(&mut self, acp_id: &str) -> (r: (
        Vec<(String, Option<ServerMessage>)>,
        Option<ConnectionUpdate>,
    ))
        requires
            old(self).wf(),
        ensures
            final(self).wf(),
            final(self)@ == exited(old(self)@, old(self).sessions.order(), acp_id@),
            exits_view(r.0@) == exits(old(self)@, old(self).sessions.order(), acp_id@),
            r.1 is Some == old(self)@.connections.contains_key(acp_id@),
            r.1 is Some ==> (r.1)->0@ == (UpdateView {
                id: acp_id@,
                status: StatusView::Error { message: "Process exited"@ },
                capabilities: None,
            }),
    {
        let ghost start = self@;
        let ghost order = self.sessions.order();
        let count: usize = self.sessions.len();
        let mut gone: Vec<(String, Option<ServerMessage>)> = Vec::new();
        let mut i: usize = 0;
        proof {
            self.sessions.lemma_order();
            assert(order.take(0).len() == 0);
            assert(exits_view(gone@) =~= exits(start, order.take(0), acp_id@));
        }
        while i < count
            invariant
                self.wf(),
                self@ == start,
                count == order.len(),
                order == self.sessions.order(),
                forall|key: Seq<char>| #[trigger] order.contains(key) <==> start.sessions.contains_key(key),
                i <= count,
                exits_view(gone@) == exits(start, order.take(i as int), acp_id@),
                forall|k: int|
                    0 <= k < gone@.len() ==> belongs(start, (#[trigger] gone@[k]).0@, acp_id@),
                forall|k: int|
                    0 <= k < i && belongs(start, #[trigger] order[k], acp_id@) ==> exists|j: int|
                        0 <= j < gone@.len() && (#[trigger] gone@[j]).0@ == order[k],
            decreases count - i,
        {
            let ghost before = gone@;
            let session_id = self.sessions.key_at(i).clone();
            proof {
                assert(order.contains(order[i as int]));
                assert(order.take(i + 1).drop_last() =~= order.take(i as int));
                assert(order.take(i + 1).last() == session_id@);
            }
            let session = self.sessions.value_at(i);
            if text::same_text(session.acp_id.as_str(), acp_id) {
                let exit = if self.ws_connections.contains_key(session_id.as_str()) {
                    Some(ServerMessage::Exit { id: session.ws_id_counter })
                } else {
                    None
                };
                gone.push((session_id, exit));
                proof {
                    assert(exits_view(gone@) =~= exits_view(before).push(
                        (
                            session_id@,
                            match exit {
                                Some(m) => Some(m@),
                                None => None,
                            },
                        ),
                    ));
                    assert forall|k: int|
                        0 <= k < i + 1 && belongs(start, #[trigger] order[k], acp_id@) implies exists|
                        j: int,
                    |
                        0 <= j < gone@.len() && (#[trigger] gone@[j]).0@ == order[k] by {
                        if k == i {
                            assert(gone@[gone@.len() - 1].0@ == order[k]);
                        } else {
                            let j = choose|j: int|
                                0 <= j < before.len() && (#[trigger] before[j]).0@ == order[k];
                            assert(gone@[j] == before[j]);
                        }
                    }
                }
            }
            i = i + 1;
        }
        assert(order.take(order.len() as int) =~= order);
        let ghost listed = exits_view(gone@);
        assert(listed.take(0).len() == 0);
        proof {
            assert(order.no_duplicates());
            lemma_exits_once(start, order, acp_id@);
            assert forall|i: int, j: int| 0 <= i < j < gone@.len() implies (#[trigger] gone@[i]).0@
                != (#[trigger] gone@[j]).0@ by {
                assert(listed[i].0 == gone@[i].0@);
                assert(listed[j].0 == gone@[j].0@);
            }
        }
        let mut k: usize = 0;
        while k < gone.len()
            invariant
                self.wf(),
                k <= gone.len(),
                listed == exits_view(gone@),
                self@.connections == start.connections,
                self@.next_serial == start.next_serial,
                self@.detached == detached_after(start, listed.take(k as int)),
                forall|i: int, j: int|
                    0 <= i < j < gone@.len() ==> (#[trigger] gone@[i]).0@ != (#[trigger] gone@[j]).0@,
                forall|i: int|
                    0 <= i < gone@.len() ==> start.sessions.contains_key((#[trigger] gone@[i]).0@),
                forall|s: Seq<char>|
                    #![trigger self@.sessions.contains_key(s)]
                    self@.sessions.contains_key(s) <==> start.sessions.contains_key(s) && !taken(gone@, k as int, s),
                forall|s: Seq<char>|
                    #![trigger self@.sessions.contains_key(s)]
                    self@.sessions.contains_key(s) ==> self@.sessions[s] == start.sessions[s],
                forall|s: Seq<char>|
                    #![trigger self@.sockets.contains_key(s)]
                    self@.sockets.contains_key(s) <==> start.sockets.contains_key(s) && !taken(gone@, k as int, s),
            decreases gone.len() - k,
        {
            let ghost before = self@;
            proof {
                let key = gone@[k as int].0@;
                assert(!taken(gone@, k as int, key));
                assert(self@.sessions.contains_key(key));
                assert(listed.take(k + 1).drop_last() =~= listed.take(k as int));
                assert(listed.take(k + 1).last().0 == key);
            }
            match self.sessions.remove(gone[k].0.as_str()) {
                Some(session) => {
                    let mut session = session;
                    session.ws_id_counter = session.ws_id_counter.wrapping_add(1);
                    self.detached.insert(text::number_text(session.serial), session);
                },
                None => {},
            }
            let _ = self.ws_connections.remove(gone[k].0.as_str());
            proof {
                let key = gone@[k as int].0@;
                assert(self@.sessions == before.sessions.remove(key));
                assert(self@.sockets == before.sockets.remove(key));
                assert forall|s: Seq<char>| taken(gone@, k + 1, s) == (taken(gone@, k as int, s) || s == key) by {
                    lemma_taken(gone@, k as int, s);
                }
            }
            k = k + 1;
        }
        proof {
            assert forall|s: Seq<char>| taken(gone@, gone@.len() as int, s) == belongs(start, s, acp_id@) by {
                if belongs(start, s, acp_id@) {
                    assert(order.contains(s));
                    let p = order.index_of(s);
                    assert(belongs(start, order[p], acp_id@));
                    let j = choose|j: int| 0 <= j < gone@.len() && (#[trigger] gone@[j]).0@ == order[p];
                    assert(gone@[j].0@ == s);
                }
            }
            assert(listed.take(listed.len() as int) =~= listed);
            assert(self@.sessions =~= exited(start, order, acp_id@).sessions);
            assert(self@.sockets =~= exited(start, order, acp_id@).sockets);
        }
        let update = match self.connections.get_mut(acp_id) {
            Some(connection) => {
                connection.status = ConnectionStatus::Error { message: "Process exited".to_owned() };
                Some(
                    ConnectionUpdate {
                        id: acp_id.to_owned(),
                        status: ConnectionStatus::Error { message: "Process exited".to_owned() },
                        capabilities: None,
                    },
                )
            },
            None => None,
        };
        assert(self@ =~= exited(start, order, acp_id@));
        (gone, update)
    }
}

proof fn lemma_exits_once(state: ServerStateView, order: Seq<Seq<char>>, acp_id: Seq<char>)
    requires
        order.no_duplicates(),
    ensures
        forall|i: int, j: int|
            0 <= i < j < exits(state, order, acp_id).len() ==> (#[trigger] exits(state, order, acp_id)[i]).0
                != (#[trigger] exits(state, order, acp_id)[j]).0,
        forall|i: int|
            0 <= i < exits(state, order, acp_id).len() ==> order.contains(
                (#[trigger] exits(state, order, acp_id)[i]).0,
            ),
    decreases order.len(),
{
    if order.len() > 0 {
        let shorter = order.drop_last();
        lemma_exits_once(state, shorter, acp_id);
        let rest = exits(state, shorter, acp_id);
        let all = exits(state, order, acp_id);
        assert forall|i: int| 0 <= i < all.len() implies order.contains((#[trigger] all[i]).0) && (i < rest.len()
            ==> all[i] == rest[i] && all[i].0 != order.last()) by {
            if i < rest.len() {
                assert(shorter.contains(rest[i].0));
                let j = shorter.index_of(rest[i].0);
                assert(order[j] == rest[i].0);
            } else {
                assert(order[order.len() - 1] == all[i].0);
            }
        }
    }
}

/// Whether a session is among the first of a list.
spec fn taken(list: Seq<(String, Option<ServerMessage>)>, n: int, session_id: Seq<char>) -> bool {
    exists|j: int| 0 <= j < n && (#[trigger] list[j]).0@ == session_id
}

proof fn lemma_taken(list: Seq<(String, Option<ServerMessage>)>, n: int, session_id: Seq<char>)
    requires
        0 <= n < list.len(),
    ensures
        taken(list, n + 1, session_id) == (taken(list, n, session_id) || session_id == list[n].0@),
{
    if taken(list, n, session_id) {
        let j = choose|j: int| 0 <= j < n && (#[trigger] list[j]).0@ == session_id;
        assert(list[j].0@ == session_id);
    }
    if session_id == list[n].0@ {
        assert(list[n].0@ == session_id);
    }
}

/// The number after which messages are asked for.
pub open spec fn start_of(from_id: Option<Seq<char>>) -> u64 {
    match from_id {
        Some(t) => match text::parsed_number(t) {
            Some(n) => n,
            None => 0,
        },
        None => 0,
    }
}

// ---------------------------------------------------------------------------
// Laws
// ---------------------------------------------------------------------------

proof fn lemma_later_than_push(messages: Seq<ServerView>, message: ServerView, id: u64)
    ensures
        later_than(messages.push(message), id) == (if message.id() > id {
            later_than(messages, id).push(message)
        } else {
            later_than(messages, id)
        }),
{
    assert(messages.push(message).drop_last() =~= messages);
}

/// A message that comes while the client is away is given to the client that comes back, if it has
/// not seen a message with that number.
pub proof fn lemma_missed_message_is_replayed(session: AcpSessionView, message: ServerView, seen: u64)
    requires
        message.id() > seen,
    ensures
        later_than(told(session, message, false).buffer, seen) == later_than(session.buffer, seen).push(
            message,
        ),
{
    lemma_later_than_push(session.buffer, message, seen);
}

/// Acknowledging messages up to a number does not change what follows that number or a later one.
pub proof fn lemma_ack_keeps_later(messages: Seq<ServerView>, acked: u64, seen: u64)
    requires
        acked <= seen,
    ensures
        later_than(later_than(messages, acked), seen) == later_than(messages, seen),
    decreases messages.len(),
{
    if messages.len() > 0 {
        lemma_ack_keeps_later(messages.drop_last(), acked, seen);
        if messages.last().id() > acked {
            lemma_later_than_push(later_than(messages.drop_last(), acked), messages.last(), seen);
        }
    }
}

/// The messages of a session are numbered one after the other, so that two of them never have the
/// same number before the counter has gone round.
pub proof fn lemma_numbers_grow(session: AcpSessionView, message: ServerView, present: bool)
    requires
        session.next < u64::MAX,
    ensures
        told(session, message, present).next > session.next,
{
}

/// A permission request is answered once.
pub proof fn lemma_permission_is_answered_once(
    state: ServerStateView,
    session_id: Seq<char>,
    serial: u64,
    id: u64,
    first: JsonView,
    second: JsonView,
)
    ensures
        ({
            let after = client_step(
                state,
                session_id,
                serial,
                ClientView::PermissionResponse { id, response: first },
            ).0;
            client_step(after, session_id, serial, ClientView::PermissionResponse { id, response: second })
                == (after, ClientStepView::Nothing)
        }),
{
}

/// An agent that has ended leaves no session behind, and takes none of another connection with it.
pub proof fn lemma_exit_ends_sessions(
    state: ServerStateView,
    order: Seq<Seq<char>>,
    acp_id: Seq<char>,
    session_id: Seq<char>,
)
    requires
        state.sessions.contains_key(session_id),
    ensures
        exited(state, order, acp_id).sessions.contains_key(session_id) == (
        state.sessions[session_id].acp_id != acp_id),
        state.sessions[session_id].acp_id != acp_id ==> exited(state, order, acp_id).sessions[session_id]
            == state.sessions[session_id],
{
}

} // verus!
