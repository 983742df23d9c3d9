//! What the ACP proxy keeps of a session, and what it reads from and adds to the messages of one.
//!
//! The agent's side of a session outlives the browser's connection. Messages for a session are
//! buffered until the client acknowledges them, so that a client that reconnects can ask for
//! everything after the last message it has seen.

use vstd::prelude::*;

use crate::json;
use crate::json::{Json, JsonView};
use crate::jsonrpc;
use crate::jsonrpc::{
    JsonRpcMessage, JsonRpcNotification, JsonRpcRequest, JsonRpcResponse, MessageView,
    NotificationView, ResponseView,
};
use crate::text;

pub mod laws;

verus! {

/// The identity of a channel.
pub type ChannelId = String;

/// The identity of an agent process.
pub type ProcessKey = String;

/// The identity of a session.
pub type SessionId = String;

/// The identity of a buffered message.
pub type NotificationId = String;

/// The parameters of `_tidewave.ai/session/load`.
#[derive(Debug)]
pub struct TidewaveSessionLoadRequest {
    pub session_id: String,
    pub latest_id: String,
}

/// The result of `_tidewave.ai/session/load`.
#[derive(Debug, Clone, Copy, PartialEq, Eq, Structural)]
pub struct TidewaveSessionLoadResponse {
    pub cancelled: bool,
}

/// The parameters of `_tidewave.ai/ack`. Without a session, the sessions of the client are meant
/// that wait for an acknowledgement of this message.
#[derive(Debug)]
pub struct TidewaveAckNotification {
    pub session_id: Option<String>,
    pub latest_id: String,
}

/// What a client is told when the agent process ends.
#[derive(Debug)]
pub struct TidewaveExitParams {
    pub error: String,
    pub message: String,
    pub stdout: Option<String>,
    pub stderr: Option<String>,
}

/// The part of the result of `session/new` that the proxy needs.
#[derive(Debug)]
pub struct NewSessionResponse {
    pub session_id: String,
}

/// The model of [`TidewaveExitParams`].
pub struct ExitView {
    pub error: Seq<char>,
    pub message: Seq<char>,
    pub stdout: Option<Seq<char>>,
    pub stderr: Option<Seq<char>>,
}

impl View for TidewaveExitParams {
    type V = ExitView;

    open spec fn view(&self) -> ExitView {
        ExitView {
            error: self.error@,
            message: self.message@,
            stdout: json::opt_text(self.stdout),
            stderr: json::opt_text(self.stderr),
        }
    }
}

/// A text as an optional JSON string.
pub open spec fn opt_str_json(value: Option<Seq<char>>) -> Option<JsonView> {
    match value {
        Some(s) => Some(JsonView::Str(s)),
        None => None,
    }
}

fn opt_string(value: &Option<String>) -> (r: Option<Json>)
    ensures
        json::opt_json(r) == opt_str_json(json::opt_text(*value)),
{
    match value {
        Some(s) => Some(Json::string(s.as_str())),
        None => None,
    }
}

/// The JSON form of the exit parameters: absent output is left out.
pub open spec fn exit_json(exit: ExitView) -> JsonView {
    jsonrpc::with_some(
        jsonrpc::with_some(
            json::empty_object().with("error"@, JsonView::Str(exit.error)).with(
                "message"@,
                JsonView::Str(exit.message),
            ),
            "stdout"@,
            opt_str_json(exit.stdout),
        ),
        "stderr"@,
        opt_str_json(exit.stderr),
    )
}

impl TidewaveExitParams {
    /// The JSON form of the parameters.
    pub fn to_json(&self) -> (r: Json)
        ensures
            r@ == exit_json(self@),
    {
        let base = Json::object().with("error", Json::string(self.error.as_str())).with(
            "message",
            Json::string(self.message.as_str()),
        );
        jsonrpc::with_optional(
            jsonrpc::with_optional(base, "stdout", opt_string(&self.stdout)),
            "stderr",
            opt_string(&self.stderr),
        )
    }
}

/// The JSON form of the result of `_tidewave.ai/session/load`.
pub open spec fn load_result_json(cancelled: bool) -> JsonView {
    json::empty_object().with("cancelled"@, JsonView::Bool(cancelled))
}

impl TidewaveSessionLoadResponse {
    /// The JSON form of the result.
    pub fn to_json(&self) -> (r: Json)
        ensures
            r@ == load_result_json(self.cancelled),
    {
        Json::object().with("cancelled", Json::Bool(self.cancelled))
    }
}

/// The session and the latest message that the parameters of a load request name.
pub open spec fn session_and_latest(params: Option<JsonView>) -> Option<(Seq<char>, Seq<char>)> {
    let record = jsonrpc::or_null(params);
    match (
        jsonrpc::text_field_of(record, "sessionId"@, 0, 2),
        jsonrpc::text_field_of(record, "latestId"@, 1, 2),
    ) {
        (Some(session_id), Some(latest_id)) => Some((session_id, latest_id)),
        _ => None,
    }
}

/// The latest message that the parameters of an acknowledgement name, and the session, where they
/// have that member.
pub open spec fn ack_of(params: Option<JsonView>) -> Option<(Option<Seq<char>>, Seq<char>)> {
    let record = jsonrpc::or_null(params);
    match (
        jsonrpc::text_field_of(record, "sessionId"@, 0, 2),
        jsonrpc::text_field_of(record, "latestId"@, 1, 2),
    ) {
        (Some(session_id), Some(latest_id)) => Some((Some(session_id), latest_id)),
        (None, Some(latest_id)) => if record is Obj && record.get("sessionId"@) is None {
            Some((None, latest_id))
        } else {
            None
        },
        _ => None,
    }
}

/// The session that the result of `session/new` or `session/fork` names.
pub open spec fn new_session_of(result: JsonView) -> Option<Seq<char>> {
    jsonrpc::text_field_of(result, "sessionId"@, 0, 1)
}

impl TidewaveSessionLoadRequest {
    /// Reads the parameters of a load request.
    pub fn from_params(params: &Option<Json>) -> (r: Option<Self>)
        ensures
            match r {
                Some(p) => session_and_latest(json::opt_json(*params)) == Some((p.session_id@, p.latest_id@)),
                None => session_and_latest(json::opt_json(*params)) is None,
            },
    {
        match params {
            Some(record) => match (
                jsonrpc::text_field(record, "sessionId", 0, 2),
                jsonrpc::text_field(record, "latestId", 1, 2),
            ) {
                (Some(session_id), Some(latest_id)) => Some(
                    TidewaveSessionLoadRequest { session_id, latest_id },
                ),
                _ => None,
            },
            None => None,
        }
    }
}

impl TidewaveAckNotification {
    /// Reads the parameters of an acknowledgement.
    pub fn from_params(params: &Option<Json>) -> (r: Option<Self>)
        ensures
            match r {
                Some(p) => ack_of(json::opt_json(*params)) == Some(
                    (json::opt_text(p.session_id), p.latest_id@),
                ),
                None => ack_of(json::opt_json(*params)) is None,
            },
    {
        match params {
            Some(record) => match (
                jsonrpc::text_field(record, "sessionId", 0, 2),
                jsonrpc::text_field(record, "latestId", 1, 2),
            ) {
                (Some(session_id), Some(latest_id)) => Some(
                    TidewaveAckNotification { session_id: Some(session_id), latest_id },
                ),
                (None, Some(latest_id)) => if record.is_object() && !record.has("sessionId") {
                    Some(TidewaveAckNotification { session_id: None, latest_id })
                } else {
                    None
                },
                _ => None,
            },
            None => None,
        }
    }
}

impl NewSessionResponse {
    /// Reads the result of a request that makes a session.
    pub fn from_result(result: &Json) -> (r: Option<Self>)
        ensures
            match r {
                Some(p) => new_session_of(result@) == Some(p.session_id@),
                None => new_session_of(result@) is None,
            },
    {
        match jsonrpc::text_field(result, "sessionId", 0, 1) {
            Some(session_id) => Some(NewSessionResponse { session_id }),
            None => None,
        }
    }
}

// ---------------------------------------------------------------------------
// Reading and extending messages
// ---------------------------------------------------------------------------

/// The session that an object names under `sessionId`.
pub open spec fn session_id_of(params: Option<JsonView>) -> Option<Seq<char>> {
    match params {
        Some(p) => match p.get("sessionId"@) {
            Some(v) => v.as_str(),
            None => None,
        },
        None => None,
    }
}

/// The part of a message that may name its session.
pub open spec fn scope_of(message: MessageView) -> Option<JsonView> {
    match message {
        MessageView::Request(m) => m.params,
        MessageView::Response(m) => m.result,
        MessageView::Notification(m) => m.params,
    }
}

fn extract_session_id(params: &Option<Json>) -> (r: Option<String>)
    ensures
        json::opt_text(r) == session_id_of(json::opt_json(*params)),
{
    match params {
        Some(p) => match p.get("sessionId") {
            Some(v) => match v.as_str() {
                Some(s) => Some(s.to_owned()),
                None => None,
            },
            None => None,
        },
        None => None,
    }
}

/// The session that a message belongs to.
pub fn extract_session_id_from_message(message: &JsonRpcMessage) -> (r: Option<String>)
    ensures
        json::opt_text(r) == session_id_of(scope_of(message@)),
{
    match message {
        JsonRpcMessage::Request(m) => extract_session_id(&m.params),
        JsonRpcMessage::Response(m) => extract_session_id(&m.result),
        JsonRpcMessage::Notification(m) => extract_session_id(&m.params),
    }
}

/// The session that a request belongs to.
pub fn extract_session_id_from_request(request: &JsonRpcRequest) -> (r: Option<String>)
    ensures
        json::opt_text(r) == session_id_of(request@.params),
{
    extract_session_id(&request.params)
}

/// The `_meta` object of a value, empty where it has none.
pub open spec fn meta_of(value: JsonView) -> JsonView {
    match value.get("_meta"@) {
        Some(JsonView::Obj(m)) => JsonView::Obj(m),
        _ => json::empty_object(),
    }
}

/// An object with one member of its `_meta` object set. Another value stays as it is.
pub open spec fn with_meta(value: JsonView, key: Seq<char>, meta: JsonView) -> JsonView {
    value.with("_meta"@, meta_of(value).with(key, meta))
}

fn set_meta(value: Json, key: &str, meta: Json) -> (r: Json)
    ensures
        r@ == with_meta(value@, key@, meta@),
{
    let old_meta = match value.get("_meta") {
        Some(m) => if m.is_object() {
            m.clone()
        } else {
            Json::object()
        },
        None => Json::object(),
    };
    value.with("_meta", old_meta.with(key, meta))
}

/// Parameters with the identity of their notification under `_meta`.
pub open spec fn with_notification_id(params: Option<JsonView>, id: Seq<char>) -> Option<JsonView> {
    match params {
        Some(p) => Some(with_meta(p, "tidewave.ai/notificationId"@, JsonView::Str(id))),
        None => Some(with_meta(json::empty_object(), "tidewave.ai/notificationId"@, JsonView::Str(id))),
    }
}

/// Adds the identity under which a notification is buffered to its parameters.
pub fn inject_notification_id(notification: &mut JsonRpcNotification, notif_id: NotificationId)
    ensures
        final(notification)@ == (NotificationView {
            params: with_notification_id(old(notification)@.params, notif_id@),
            ..old(notification)@
        }),
{
    let params = match notification.params.take() {
        Some(p) => p,
        None => Json::object(),
    };
    notification.params = Some(
        set_meta(params, "tidewave.ai/notificationId", Json::String(notif_id)),
    );
}

/// A result with the proxy's version under `_meta`.
pub open spec fn with_version(result: Option<JsonView>, version: Seq<char>) -> Option<JsonView> {
    match result {
        Some(v) => Some(
            with_meta(v, "tidewave.ai"@, json::empty_object().with("version"@, JsonView::Str(version))),
        ),
        None => None,
    }
}

/// Adds the proxy's version to the result of `initialize`.
pub fn inject_tidewave_version(response: &mut JsonRpcResponse, version: &str)
    ensures
        final(response)@ == (ResponseView {
            result: with_version(old(response)@.result, version@),
            ..old(response)@
        }),
{
    match response.result.take() {
        Some(result) => {
            response.result = Some(
                set_meta(
                    result,
                    "tidewave.ai",
                    Json::object().with("version", Json::string(version)),
                ),
            );
        },
        None => {},
    }
}

/// A result with capabilities of the proxy under the `_meta` of its `agentCapabilities`.
pub open spec fn with_own_capabilities(result: Option<JsonView>, own: JsonView) -> Option<JsonView> {
    match result {
        Some(v) => match v.get("agentCapabilities"@) {
            Some(caps) => Some(v.with("agentCapabilities"@, with_meta(caps, "tidewave.ai"@, own))),
            None => Some(v),
        },
        None => None,
    }
}

/// The capability to load a session that is still active on the agent's side.
pub open spec fn session_load_capability() -> JsonView {
    json::empty_object().with("session/load"@, JsonView::Bool(true))
}

/// A result with the proxy's capabilities: loading sessions, and ending the agent.
pub open spec fn with_capabilities(result: Option<JsonView>) -> Option<JsonView> {
    with_own_capabilities(result, session_load_capability().with("exit"@, JsonView::Bool(true)))
}

/// Adds capabilities of the proxy to those of the agent.
pub fn inject_capabilities(response: &mut JsonRpcResponse, own: Json)
    ensures
        final(response)@ == (ResponseView {
            result: with_own_capabilities(old(response)@.result, own@),
            ..old(response)@
        }),
{
    match response.result.take() {
        Some(result) => {
            let caps = match result.get("agentCapabilities") {
                Some(caps) => Some(caps.clone()),
                None => None,
            };
            response.result = match caps {
                Some(caps) => Some(result.with("agentCapabilities", set_meta(caps, "tidewave.ai", own))),
                None => Some(result),
            };
        },
        None => {},
    }
}

/// Adds the proxy's own capabilities to those of the agent.
pub fn inject_proxy_capabilities(response: &mut JsonRpcResponse)
    ensures
        final(response)@ == (ResponseView {
            result: with_capabilities(old(response)@.result),
            ..old(response)@
        }),
{
    inject_capabilities(
        response,
        Json::object().with("session/load", Json::Bool(true)).with("exit", Json::Bool(true)),
    );
}

/// A notification that was given an identity keeps its session, its other parameters and its other
/// metadata, and carries the identity.
pub proof fn lemma_notification_id(params: JsonView, id: Seq<char>)
    requires
        params is Obj,
    ensures
        ({
            let after = with_notification_id(Some(params), id)->0;
            &&& session_id_of(Some(after)) == session_id_of(Some(params))
            &&& forall|key: Seq<char>| key != "_meta"@ ==> #[trigger] after.get(key) == params.get(key)
            &&& meta_of(after).get("tidewave.ai/notificationId"@) == Some(JsonView::Str(id))
            &&& forall|key: Seq<char>|
                key != "tidewave.ai/notificationId"@ ==> #[trigger] meta_of(after).get(key) == meta_of(
                    params,
                ).get(key)
        }),
{
    reveal_strlit("_meta");
    reveal_strlit("sessionId");
    assert("_meta"@.len() == 5);
    assert("sessionId"@.len() == 9);
}

// ---------------------------------------------------------------------------
// Sessions
// ---------------------------------------------------------------------------

/// A message that waits for the client's acknowledgement.
#[derive(Debug)]
pub struct BufferedMessage {
    pub id: NotificationId,
    pub message: JsonRpcMessage,
}

/// The model of a [`BufferedMessage`].
pub struct BufferedView {
    pub id: Seq<char>,
    pub message: MessageView,
}

impl View for BufferedMessage {
    type V = BufferedView;

    open spec fn view(&self) -> BufferedView {
        BufferedView { id: self.id@, message: self.message@ }
    }
}

impl Clone for BufferedMessage {
    fn clone(&self) -> (r: Self)
        ensures
            r@ == self@,
    {
        BufferedMessage { id: self.id.clone(), message: self.message.clone() }
    }
}

/// What the proxy keeps of a session.
#[derive(Debug)]
pub struct SessionState {
    pub process_key: ProcessKey,
    pub message_buffer: Vec<BufferedMessage>,
    pub notification_id_counter: u64,
    pub cancelled: bool,
    pub cancel_counter: u64,
}

/// The model of a [`SessionState`].
pub struct SessionView {
    pub process_key: Seq<char>,
    pub buffer: Seq<BufferedView>,
    pub next_notification: u64,
    pub cancelled: bool,
    pub cancel_counter: u64,
}

/// The models of buffered messages.
pub open spec fn buffer_view(buffer: Seq<BufferedMessage>) -> Seq<BufferedView> {
    buffer.map_values(|m: BufferedMessage| m@)
}

impl View for SessionState {
    type V = SessionView;

    open spec fn view(&self) -> SessionView {
        SessionView {
            process_key: self.process_key@,
            buffer: buffer_view(self.message_buffer@),
            next_notification: self.notification_id_counter,
            cancelled: self.cancelled,
            cancel_counter: self.cancel_counter,
        }
    }
}

/// The place of the first message with an identity.
pub open spec fn is_first(buffer: Seq<BufferedView>, id: Seq<char>, i: int) -> bool {
    &&& 0 <= i < buffer.len()
    &&& buffer[i].id == id
    &&& forall|j: int| 0 <= j < i ==> (#[trigger] buffer[j]).id != id
}

/// Whether a message with this identity is buffered.
pub open spec fn is_buffered(buffer: Seq<BufferedView>, id: Seq<char>) -> bool {
    exists|i: int| is_first(buffer, id, i)
}

/// The messages after the first with this identity, or all of them where there is none.
pub open spec fn messages_after(buffer: Seq<BufferedView>, id: Seq<char>) -> Seq<BufferedView> {
    if is_buffered(buffer, id) {
        buffer.skip((choose|i: int| is_first(buffer, id, i)) + 1)
    } else {
        buffer
    }
}

/// The identity of the notification with this number.
pub open spec fn notification_id(n: u64) -> Seq<char> {
    "notif_"@ + text::decimal(n as nat)
}

/// The count after `n`. A counter that is full starts over.
pub open spec fn next_count(n: u64) -> u64 {
    if n == u64::MAX {
        0
    } else {
        (n + 1) as u64
    }
}

/// A session of which nothing has been heard yet.
pub open spec fn new_session(process_key: Seq<char>) -> SessionView {
    SessionView {
        process_key,
        buffer: seq![],
        next_notification: 1,
        cancelled: false,
        cancel_counter: 0,
    }
}

/// A session with one more message in its buffer.
pub open spec fn session_with(session: SessionView, message: MessageView, id: Seq<char>) -> SessionView {
    SessionView { buffer: session.buffer.push(BufferedView { id, message }), ..session }
}

/// A session whose messages up to one have been seen.
pub open spec fn pruned(session: SessionView, latest_id: Seq<char>) -> SessionView {
    SessionView { buffer: messages_after(session.buffer, latest_id), ..session }
}

proof fn lemma_first_unique(buffer: Seq<BufferedView>, id: Seq<char>, i: int, j: int)
    requires
        is_first(buffer, id, i),
        is_first(buffer, id, j),
    ensures
        i == j,
{
    if i < j {
        assert(buffer[i].id != id);
    } else if j < i {
        assert(buffer[j].id != id);
    }
}

/// What follows the first message with an identity.
pub proof fn lemma_after_at(buffer: Seq<BufferedView>, id: Seq<char>, i: int)
    requires
        is_first(buffer, id, i),
    ensures
        messages_after(buffer, id) == buffer.skip(i + 1),
{
    let j = choose|j: int| is_first(buffer, id, j);
    lemma_first_unique(buffer, id, i, j);
}

fn position(buffer: &[BufferedMessage], id: &str) -> (r: Option<usize>)
    ensures
        match r {
            Some(i) => i < buffer.len() && is_first(buffer_view(buffer@), id@, i as int),
            None => !is_buffered(buffer_view(buffer@), id@),
        },
{
    let mut i: usize = 0;
    while i < buffer.len()
        invariant
            i <= buffer.len(),
            forall|j: int| 0 <= j < i ==> (#[trigger] buffer_view(buffer@)[j]).id != id@,
        decreases buffer.len() - i,
    {
        if text::same_text(buffer[i].id.as_str(), id) {
            return Some(i);
        }
        assert(buffer_view(buffer@)[i as int].id != id@);
        i = i + 1;
    }
    None
}

impl SessionState {
    /// A session of which nothing has been heard yet.
    pub fn new(process_key: ProcessKey) -> (r: Self)
        ensures
            r@ == new_session(process_key@),
    {
        let r = SessionState {
            process_key,
            message_buffer: Vec::new(),
            notification_id_counter: 1,
            cancelled: false,
            cancel_counter: 0,
        };
        assert(buffer_view(r.message_buffer@) =~= seq![]);
        r
    }

    /// A fresh identity for a notification.
    pub fn generate_notification_id(&mut self) -> (r: NotificationId)
        ensures
            r@ == notification_id(old(self)@.next_notification),
            final(self)@ == (SessionView {
                next_notification: next_count(old(self)@.next_notification),
                ..old(self)@
            }),
    {
        let id: u64 = self.notification_id_counter;
        self.notification_id_counter = id.wrapping_add(1);
        text::joined("notif_", text::number_text(id).as_str())
    }

    /// Buffers a message under an identity, and gives the identity back.
    pub fn add_to_buffer(&mut self, message: JsonRpcMessage, id: NotificationId) -> (r: NotificationId)
        ensures
            r@ == id@,
            final(self)@ == session_with(old(self)@, message@, id@),
    {
        let r = id.clone();
        let ghost before = self.message_buffer@;
        self.message_buffer.push(BufferedMessage { id, message });
        assert(buffer_view(self.message_buffer@) =~= buffer_view(before).push(
            BufferedView { id: r@, message: message@ },
        ));
        r
    }

    /// Drops the messages up to and including the first with this identity. An unknown identity
    /// drops nothing.
    pub fn prune_buffer(&mut self, latest_id: &str)
        ensures
            final(self)@ == pruned(old(self)@, latest_id@),
    {
        match position(self.message_buffer.as_slice(), latest_id) {
            Some(index) => {
                let ghost before = self.message_buffer@;
                let rest = self.message_buffer.split_off(index + 1);
                self.message_buffer = rest;
                proof {
                    lemma_after_at(buffer_view(before), latest_id@, index as int);
                    assert(buffer_view(self.message_buffer@) =~= buffer_view(before).skip(index + 1));
                }
            },
            None => {},
        }
    }

    /// Copies of the messages after the first with this identity, or of all of them where there
    /// is none.
    pub fn get_buffered_messages_after(buffer: &[BufferedMessage], latest_id: &str) -> (r: Vec<
        BufferedMessage,
    >)
        ensures
            buffer_view(r@) == messages_after(buffer_view(buffer@), latest_id@),
    {
        let start: usize = match position(buffer, latest_id) {
            Some(index) => {
                proof {
                    lemma_after_at(buffer_view(buffer@), latest_id@, index as int);
                }
                index + 1
            },
            None => 0,
        };
        let mut r: Vec<BufferedMessage> = Vec::new();
        let mut i: usize = start;
        while i < buffer.len()
            invariant
                start <= i <= buffer.len(),
                buffer_view(r@) == buffer_view(buffer@).subrange(start as int, i as int),
            decreases buffer.len() - i,
        {
            let ghost before = r@;
            r.push(buffer[i].clone());
            assert(buffer_view(r@) =~= buffer_view(before).push(buffer@[i as int]@));
            assert(buffer_view(buffer@).subrange(start as int, i + 1) =~= buffer_view(buffer@).subrange(
                start as int,
                i as int,
            ).push(buffer@[i as int]@));
            i = i + 1;
        }
        proof {
            assert(buffer_view(buffer@).subrange(start as int, buffer@.len() as int) =~= buffer_view(
                buffer@,
            ).skip(start as int));
            if start == 0 {
                assert(buffer_view(buffer@).skip(0) =~= buffer_view(buffer@));
            }
        }
        r
    }
}

// ---------------------------------------------------------------------------
// Laws
// ---------------------------------------------------------------------------

/// Two notifications with different numbers have different identities.
pub proof fn lemma_notification_ids_distinct(a: u64, b: u64)
    requires
        a != b,
    ensures
        notification_id(a) != notification_id(b),
{
    if notification_id(a) == notification_id(b) {
        let n = "notif_"@.len() as int;
        assert(notification_id(a).skip(n) =~= text::decimal(a as nat));
        assert(notification_id(b).skip(n) =~= text::decimal(b as nat));
        text::lemma_decimal_injective(a as nat, b as nat);
    }
}

/// A message that is added later is among those that a client gets which asks for what follows a
/// message it has seen, whichever message that is but the new one itself.
pub proof fn lemma_later_message_is_replayed(buffer: Seq<BufferedView>, added: BufferedView, id: Seq<char>)
    requires
        is_buffered(buffer, id) || added.id != id,
    ensures
        messages_after(buffer.push(added), id) == messages_after(buffer, id).push(added),
{
    let longer = buffer.push(added);
    if is_buffered(buffer, id) {
        let i = choose|i: int| is_first(buffer, id, i);
        assert(is_first(longer, id, i)) by {
            assert forall|j: int| 0 <= j < i implies (#[trigger] longer[j]).id != id by {
                assert(buffer[j].id != id);
            }
        }
        lemma_after_at(longer, id, i);
        assert(longer.skip(i + 1) =~= buffer.skip(i + 1).push(added));
    } else {
        assert(!is_buffered(longer, id)) by {
            if is_buffered(longer, id) {
                let i = choose|i: int| is_first(longer, id, i);
                assert(i < buffer.len());
                assert(buffer[i].id == id);
                assert forall|j: int| 0 <= j < i implies (#[trigger] buffer[j]).id != id by {
                    assert(longer[j].id != id);
                }
                assert(is_first(buffer, id, i));
            }
        }
    }
}

/// Acknowledging a message does not change what follows a later message.
pub proof fn lemma_ack_keeps_later(
    buffer: Seq<BufferedView>,
    acked: Seq<char>,
    asked: Seq<char>,
    i: int,
    j: int,
)
    requires
        is_first(buffer, acked, i),
        is_first(buffer, asked, j),
        i < j,
    ensures
        messages_after(messages_after(buffer, acked), asked) == messages_after(buffer, asked),
{
    lemma_after_at(buffer, acked, i);
    lemma_after_at(buffer, asked, j);
    let rest = buffer.skip(i + 1);
    assert(is_first(rest, asked, j - i - 1)) by {
        assert forall|k: int| 0 <= k < j - i - 1 implies (#[trigger] rest[k]).id != asked by {
            assert(buffer[k + i + 1].id != asked);
        }
    }
    lemma_after_at(rest, asked, j - i - 1);
    assert(rest.skip(j - i) =~= buffer.skip(j + 1));
}

/// A client that acknowledges a message and reconnects with the same message as its latest gets
/// exactly what follows that message, as it would have without the acknowledgement.
pub proof fn lemma_ack_then_load(buffer: Seq<BufferedView>, id: Seq<char>)
    requires
        forall|i: int, j: int|
            0 <= i < j < buffer.len() ==> (#[trigger] buffer[i]).id != (#[trigger] buffer[j]).id,
    ensures
        messages_after(messages_after(buffer, id), id) == messages_after(buffer, id),
{
    if is_buffered(buffer, id) {
        let i = choose|i: int| is_first(buffer, id, i);
        lemma_after_at(buffer, id, i);
        let rest = buffer.skip(i + 1);
        assert(!is_buffered(rest, id)) by {
            if is_buffered(rest, id) {
                let k = choose|k: int| is_first(rest, id, k);
                assert(rest[k] == buffer[k + i + 1]);
                assert(buffer[i].id != buffer[k + i + 1].id);
            }
        }
    }
}

} // verus!
