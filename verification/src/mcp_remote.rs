//! The MCP reverse proxy on a WebSocket of its own.
//!
//! A browser sends `register-{session id}` for each session it serves, and may send `ping`. Agents
//! send MCP messages by HTTP; the browser gets each with its session around it, and answers the
//! same way. When a browser reloads, its new socket may register a session before the old socket is
//! gone, so that a socket removes on its way out only the registrations that are still its own.

use vstd::prelude::*;

use crate::json;
use crate::json::{Json, JsonView};
use crate::jsonrpc;
use crate::mcp;
use crate::mcp::{AwaitingAnswers, HttpAnswer, TicketMap};
use crate::registry;
use crate::registry::Registry;
use crate::text;

verus! {

broadcast use crate::registry::group_viewed;

/// A browser's registration for a session.
#[derive(Debug)]
pub struct McpSession {
    pub websocket_id: String,
}

impl View for McpSession {
    type V = Seq<char>;

    open spec fn view(&self) -> Seq<char> {
        self.websocket_id@
    }
}

/// A message for a browser's socket.
#[derive(Debug)]
pub enum McpMessage {
    System { message: String },
    /// A message of an agent, with the ticket of the one who waits for the answer.
    JsonRpc { session_id: String, json_rpc_message: Json, ticket: Option<u64> },
}

/// A message as it goes over the socket.
#[derive(Debug)]
pub enum McpOutboundMessage {
    System { message: String },
    McpJsonRpc { session_id: String, json_rpc_message: Json },
}

/// The fields of a message, in their order.
pub open spec fn outbound_fields(message: McpOutboundMessage) -> Seq<(Seq<char>, Seq<char>)> {
    match message {
        McpOutboundMessage::System { message } => seq![
            ("type"@, json::json_text(JsonView::Str("system"@))),
            ("message"@, json::json_text(JsonView::Str(message@))),
        ],
        McpOutboundMessage::McpJsonRpc { session_id, json_rpc_message } => seq![
            ("type"@, json::json_text(JsonView::Str("mcp-jsonrpc"@))),
            ("sessionId"@, json::json_text(JsonView::Str(session_id@))),
            ("jsonRpcMessage"@, json::json_text(json_rpc_message@)),
        ],
    }
}

impl McpOutboundMessage {
    /// The text of the message: its fields in their order.
    pub fn to_text(&self) -> (r: String)
        ensures
            r@ == json::record_text(outbound_fields(*self)),
    {
        let mut fields: Vec<(&'static str, String)> = Vec::new();
        match self {
            McpOutboundMessage::System { message } => {
                fields.push(("type", Json::string("system").to_text()));
                fields.push(("message", Json::string(message.as_str()).to_text()));
            },
            McpOutboundMessage::McpJsonRpc { session_id, json_rpc_message } => {
                fields.push(("type", Json::string("mcp-jsonrpc").to_text()));
                fields.push(("sessionId", Json::string(session_id.as_str()).to_text()));
                fields.push(("jsonRpcMessage", json_rpc_message.to_text()));
            },
        }
        assert(json::fields_view(fields@) =~= outbound_fields(*self));
        json::write_record(fields)
    }
}

/// The query of an agent's HTTP request.
#[derive(Debug)]
pub struct McpParams {
    pub session_id: Option<String>,
}

/// A message that a browser sends: a JSON-RPC message with its session around it.
#[derive(Debug)]
pub struct McpRemoteMessage {
    pub session_id: String,
    pub json_rpc_message: Json,
}

/// The session and the message that a JSON value holds.
pub open spec fn remote_message_of(v: JsonView) -> Option<(Seq<char>, JsonView)> {
    match (
        jsonrpc::text_field_of(v, "sessionId"@, 0, 2),
        jsonrpc::field_of(v, "jsonRpcMessage"@, 1, 2),
    ) {
        (Some(session_id), Some(message)) => Some((session_id, message)),
        _ => None,
    }
}

impl McpRemoteMessage {
    /// The message that a JSON value holds.
    pub fn from_json(v: &Json) -> (r: Option<McpRemoteMessage>)
        ensures
            match r {
                Some(m) => remote_message_of(v@) == Some((m.session_id@, m.json_rpc_message@)),
                None => remote_message_of(v@) is None,
            },
    {
        match (jsonrpc::text_field(v, "sessionId", 0, 2), jsonrpc::field(v, "jsonRpcMessage", 1, 2)) {
            (Some(session_id), Some(message)) => Some(
                McpRemoteMessage { session_id, json_rpc_message: message.clone() },
            ),
            _ => None,
        }
    }
}

/// What a text from a browser asks for.
#[derive(Debug)]
pub enum RemoteText {
    Ping,
    Register { session_id: String },
    /// It should hold a [`McpRemoteMessage`].
    Other,
}

/// What a text from a browser asks for.
pub fn classify(message: &str) -> (r: RemoteText)
    ensures
        if message@ == "ping"@ {
            r is Ping
        } else {
            match text::after_prefix(message@, "register-"@) {
                Some(session_id) => r is Register && r->session_id@ == session_id,
                None => r is Other,
            }
        },
{
    if text::same_text(message, "ping") {
        return RemoteText::Ping;
    }
    match text::strip_prefix(message, "register-") {
        Some(session_id) => RemoteText::Register { session_id },
        None => RemoteText::Other,
    }
}

/// The registrations by session, and the requests that wait for answers.
pub struct McpRemoteState {
    pub registry: Registry<McpSession>,
    pub awaiting_answers: AwaitingAnswers,
}

/// The model of a [`McpRemoteState`].
pub struct RemoteView {
    pub registry: Map<Seq<char>, Seq<char>>,
    pub waiting: TicketMap,
}

impl View for McpRemoteState {
    type V = RemoteView;

    open spec fn view(&self) -> RemoteView {
        RemoteView { registry: registry::viewed(self.registry@), waiting: self.awaiting_answers@ }
    }
}

/// The registrations without those that a socket holds among the sessions listed.
pub open spec fn without_own(
    registrations: Map<Seq<char>, Seq<char>>,
    sessions: Seq<Seq<char>>,
    websocket_id: Seq<char>,
) -> Map<Seq<char>, Seq<char>> {
    registrations.remove_keys(
        Set::new(|s: Seq<char>| sessions.contains(s) && registrations[s] == websocket_id),
    )
}

/// The requests without those of the sessions listed.
pub open spec fn without_sessions(waiting: TicketMap, sessions: Seq<Seq<char>>) -> TicketMap {
    waiting.remove_keys(Set::new(|s: Seq<char>| sessions.contains(s)))
}

/// What is to be done with an agent's HTTP request.
#[derive(Debug)]
pub enum ClientStep {
    /// Answer it.
    Answer(HttpAnswer),
    /// Hand the message over to the browser's socket, and answer with 500 where that fails. Else
    /// answer with what the browser sends, where the message carries a ticket, or with 202.
    Deliver(McpMessage),
}

impl McpRemoteState {
    /// The tables are well formed.
    pub open spec fn wf(&self) -> bool {
        self.registry.wf() && self.awaiting_answers.wf()
    }

    /// No registrations and no requests.
    pub fn new() -> (r: Self)
        ensures
            r.wf(),
            r@.registry == Map::<Seq<char>, Seq<char>>::empty(),
            r@.waiting == Map::<Seq<char>, Map<Seq<char>, u64>>::empty(),
    {
        let r = McpRemoteState { registry: Registry::new(), awaiting_answers: AwaitingAnswers::new() };
        assert(r@.registry =~= Map::<Seq<char>, Seq<char>>::empty());
        r
    }

    /// Registers a socket for a session. The result is the confirmation for the browser.
    pub fn register(&mut self, session_id: &str, websocket_id: &str, registered: &mut Vec<String>) -> (r:
        McpMessage)
        requires
            old(self).wf(),
        ensures
            final(self).wf(),
            final(self)@ == (RemoteView {
                registry: old(self)@.registry.insert(session_id@, websocket_id@),
                ..old(self)@
            }),
            text::texts(final(registered)@) == (if text::texts(old(registered)@).contains(session_id@) {
                text::texts(old(registered)@)
            } else {
                text::texts(old(registered)@).push(session_id@)
            }),
            r matches McpMessage::System { message } && message@ == "registered-"@ + session_id@,
    {
        self.registry.insert(session_id.to_owned(), McpSession { websocket_id: websocket_id.to_owned() });
        if !text::list_has(registered, session_id) {
            let ghost before = registered@;
            registered.push(session_id.to_owned());
            assert(text::texts(registered@) =~= text::texts(before).push(session_id@));
        }
        McpMessage::System { message: text::joined("registered-", session_id) }
    }

    /// The message to send over a browser's socket. A request of an agent is noted, so that its
    /// answer finds the one who waits. The second part of the result is the ticket of an earlier
    /// request with the same `id`, which will not be answered any more.
    pub fn outbound(&mut self, message: McpMessage) -> (r: (McpOutboundMessage, Option<u64>))
        requires
            old(self).wf(),
        ensures
            final(self).wf(),
            match message {
                McpMessage::System { message: given } => {
                    &&& r.0 matches McpOutboundMessage::System { message } && message == given
                    &&& r.1 is None
                    &&& final(self)@ == old(self)@
                },
                McpMessage::JsonRpc { session_id: session, json_rpc_message: given, ticket } => {
                    let id = given@.get("id"@);
                    &&& r.0 matches McpOutboundMessage::McpJsonRpc { session_id, json_rpc_message }
                        && session_id@ == session@ && json_rpc_message@ == given@
                    &&& if ticket is Some && id is Some {
                        &&& r.1 == mcp::ticket(old(self)@.waiting, session@, id->0)
                        &&& final(self)@ == (RemoteView {
                            waiting: mcp::with_ticket(old(self)@.waiting, session@, id->0, ticket->0),
                            ..old(self)@
                        })
                    } else {
                        r.1 is None && final(self)@ == old(self)@
                    }
                },
            },
    {
        match message {
            McpMessage::System { message } => (McpOutboundMessage::System { message }, None),
            McpMessage::JsonRpc { session_id, json_rpc_message, ticket } => {
                let replaced = match (ticket, json_rpc_message.get("id")) {
                    (Some(ticket), Some(id)) => self.awaiting_answers.insert(
                        session_id.as_str(),
                        id,
                        ticket,
                    ),
                    _ => None,
                };
                (McpOutboundMessage::McpJsonRpc { session_id, json_rpc_message }, replaced)
            },
        }
    }

    /// Handles a message of a browser. Where it answers a request that waits, the result is the
    /// ticket of the one who waits and the answer.
    pub fn handle_message(&mut self, message: McpRemoteMessage) -> (r: Option<(u64, Json)>)
        requires
            old(self).wf(),
        ensures
            final(self).wf(),
            ({
                let id = message.json_rpc_message@.get("id"@);
                let found = if id is Some {
                    mcp::ticket(old(self)@.waiting, message.session_id@, id->0)
                } else {
                    None
                };
                match found {
                    Some(ticket) => {
                        &&& r is Some
                        &&& (r->0).0 == ticket
                        &&& (r->0).1@ == message.json_rpc_message@
                        &&& final(self)@ == (RemoteView {
                            waiting: mcp::without_ticket(
                                old(self)@.waiting,
                                message.session_id@,
                                id->0,
                            ),
                            ..old(self)@
                        })
                    },
                    None => r is None && final(self)@ == old(self)@,
                }
            }),
    {
        let taken = match message.json_rpc_message.get("id") {
            Some(id) => self.awaiting_answers.take(message.session_id.as_str(), id),
            None => None,
        };
        match taken {
            Some(ticket) => Some((ticket, message.json_rpc_message)),
            None => None,
        }
    }

    /// Removes what is left of a socket that is closed: the registrations that are still its own,
    /// and all requests of the sessions that it has registered. The result is the tickets of those
    /// who wait, and their answer.
    pub fn close(&mut self, websocket_id: &str, registered: &Vec<String>) -> (r: (Vec<u64>, Json))
        requires
            old(self).wf(),
        ensures
            final(self).wf(),
            final(self)@ == (RemoteView {
                registry: without_own(
                    old(self)@.registry,
                    text::texts(registered@),
                    websocket_id@,
                ),
                waiting: without_sessions(old(self)@.waiting, text::texts(registered@)),
            }),
            r.1@ == mcp::closed_json("WebSocket connection closed"@),
            mcp::each_once(old(self)@.waiting, text::texts(registered@), r.0@),
    {
        let ghost before = self@;
        let ghost all = text::texts(registered@);
        let mut tickets: Vec<u64> = Vec::new();
        let mut i: usize = 0;
        proof {
            assert(self@.registry =~= without_own(before.registry, all.take(0), websocket_id@));
            assert(self@.waiting =~= without_sessions(before.waiting, all.take(0)));
            let none = Seq::<(Seq<char>, Seq<char>)>::empty();
            assert(mcp::lists_requests(before.waiting, all.take(0), none));
            assert(tickets@ =~= mcp::tickets_for(before.waiting, none));
        }
        while i < registered.len()
            invariant
                self.wf(),
                before == old(self)@,
                all == text::texts(registered@),
                i <= registered.len(),
                self@.registry =~= without_own(before.registry, all.take(i as int), websocket_id@),
                self@.waiting =~= without_sessions(before.waiting, all.take(i as int)),
                mcp::each_once(before.waiting, all.take(i as int), tickets@),
            decreases registered.len() - i,
        {
            let ghost done = all.take(i as int);
            let ghost longer = all.take(i + 1);
            let session_id = registered[i].as_str();
            let ghost known = self@;
            let ghost earlier = tickets@;
            proof {
                assert(longer =~= done.push(session_id@));
                assert forall|s: Seq<char>| longer.contains(s) <==> done.contains(s) || s == session_id@ by {
                    if done.contains(s) {
                        let k = done.index_of(s);
                        assert(longer[k] == s);
                    }
                    if s == session_id@ {
                        assert(longer[i as int] == s);
                    }
                }
            }
            let own = match self.registry.get(session_id) {
                Some(session) => text::same_text(session.websocket_id.as_str(), websocket_id),
                None => false,
            };
            if own {
                let _ = self.registry.remove(session_id);
            }
            proof {
                let target = without_own(before.registry, longer, websocket_id@);
                let partial = without_own(before.registry, done, websocket_id@);
                assert(known.registry == partial);
                assert(own == (partial.contains_key(session_id@) && partial[session_id@] == websocket_id@));
                assert(self@.registry == (if own {
                    partial.remove(session_id@)
                } else {
                    partial
                }));
                assert forall|s: Seq<char>| target.contains_key(s) <==> self@.registry.contains_key(s) by {
                    assert(longer.contains(s) <==> done.contains(s) || s == session_id@);
                }
                assert(self@.registry =~= target);
            }
            let mut taken = self.awaiting_answers.take_session(session_id);
            assert(self@.waiting =~= without_sessions(before.waiting, longer));
            let ghost more = taken@;
            tickets.append(&mut taken);
            proof {
                mcp::lemma_requests_of_more(
                    before.waiting,
                    known.waiting,
                    done,
                    session_id@,
                    earlier,
                    more,
                );
                assert(tickets@ =~= earlier + more);
            }
            i = i + 1;
        }
        assert(all.take(all.len() as int) =~= all);
        (tickets, mcp::closed_answer("WebSocket connection closed"))
    }

    /// Decides what to do with an agent's HTTP request. `ticket` stands for the one who waits for
    /// the answer.
    pub fn handle_client(&self, params: McpParams, body: &[u8], ticket: u64) -> (r: ClientStep)
        requires
            self.wf(),
        ensures
            match (params.session_id, mcp::body_message(body@)) {
                (Some(session), Some(message)) => if self@.registry.contains_key(session@) {
                    match r {
                        ClientStep::Deliver(
                            McpMessage::JsonRpc { session_id, json_rpc_message, ticket: noted },
                        ) => {
                            &&& session_id@ == session@
                            &&& json_rpc_message@ == message
                            &&& noted == (if message.get("id"@) is Some {
                                Some(ticket)
                            } else {
                                None
                            })
                        },
                        _ => false,
                    }
                } else {
                    &&& r is Answer && r->Answer_0 is Body
                    &&& r->Answer_0->Body_0@ == mcp::not_connected_json(message)
                },
                _ => r is Answer && r->Answer_0 is BadRequest,
            },
    {
        let session_id = match params.session_id {
            Some(session_id) => session_id,
            None => {
                return ClientStep::Answer(HttpAnswer::BadRequest);
            },
        };
        let message = match mcp::parse_body(body) {
            Some(message) => message,
            None => {
                return ClientStep::Answer(HttpAnswer::BadRequest);
            },
        };
        if self.registry.contains_key(session_id.as_str()) {
            let noted = if message.has("id") {
                Some(ticket)
            } else {
                None
            };
            ClientStep::Deliver(
                McpMessage::JsonRpc { session_id, json_rpc_message: message, ticket: noted },
            )
        } else {
            ClientStep::Answer(HttpAnswer::Body(mcp::not_connected_answer(&message)))
        }
    }
}

/// A socket that closes leaves a session alone that another socket has registered since.
pub proof fn lemma_newer_registration_stays(
    registrations: Map<Seq<char>, Seq<char>>,
    sessions: Seq<Seq<char>>,
    websocket_id: Seq<char>,
    session_id: Seq<char>,
)
    requires
        registrations.contains_key(session_id),
        registrations[session_id] != websocket_id,
    ensures
        without_own(registrations, sessions, websocket_id).contains_key(session_id),
        without_own(registrations, sessions, websocket_id)[session_id] == registrations[session_id],
{
}

/// The text of a message to a browser: its kind first, then the session and the agent's message as it
/// is, or the text of a message of the proxy itself.
pub proof fn lemma_outbound_text(message: String, session_id: String, json_rpc_message: Json)
    ensures
        json::record_text(outbound_fields(McpOutboundMessage::System { message })) == "{\"type\":"@
            + json::json_text(JsonView::Str("system"@)) + ",\"message\":"@ + json::json_text(
            JsonView::Str(message@),
        ) + "}"@,
        json::record_text(
            outbound_fields(McpOutboundMessage::McpJsonRpc { session_id, json_rpc_message }),
        ) == "{\"type\":"@ + json::json_text(JsonView::Str("mcp-jsonrpc"@)) + ",\"sessionId\":"@
            + json::json_text(JsonView::Str(session_id@)) + ",\"jsonRpcMessage\":"@ + json::json_text(
            json_rpc_message@,
        ) + "}"@,
{
    reveal_strlit("{");
    reveal_strlit("\"");
    reveal_strlit("\":");
    reveal_strlit(",");
    reveal_strlit("type");
    reveal_strlit("message");
    reveal_strlit("sessionId");
    reveal_strlit("jsonRpcMessage");
    reveal_strlit("{\"type\":");
    reveal_strlit(",\"message\":");
    reveal_strlit(",\"sessionId\":");
    reveal_strlit(",\"jsonRpcMessage\":");
    assert("{\"type\":"@ =~= "{"@ + "\""@ + "type"@ + "\":"@);
    assert(",\"message\":"@ =~= ","@ + "\""@ + "message"@ + "\":"@);
    assert(",\"sessionId\":"@ =~= ","@ + "\""@ + "sessionId"@ + "\":"@);
    assert(",\"jsonRpcMessage\":"@ =~= ","@ + "\""@ + "jsonRpcMessage"@ + "\":"@);
    let own = ("type"@, json::json_text(JsonView::Str("system"@)));
    let told = ("message"@, json::json_text(JsonView::Str(message@)));
    jsonrpc::laws::lemma_two_fields(own, told);
    assert("{"@ + json::fields_text(seq![own, told]) =~= "{\"type\":"@ + own.1 + ",\"message\":"@ + told.1);
    let kind = ("type"@, json::json_text(JsonView::Str("mcp-jsonrpc"@)));
    let session = ("sessionId"@, json::json_text(JsonView::Str(session_id@)));
    let inner = ("jsonRpcMessage"@, json::json_text(json_rpc_message@));
    jsonrpc::laws::lemma_two_fields(kind, session);
    jsonrpc::laws::lemma_one_more(seq![kind, session], inner);
    let all = seq![kind, session].push(inner);
    assert(all =~= outbound_fields(McpOutboundMessage::McpJsonRpc { session_id, json_rpc_message }));
    assert("{"@ + json::fields_text(all) =~= "{\"type\":"@ + kind.1 + ",\"sessionId\":"@ + session.1
        + ",\"jsonRpcMessage\":"@ + inner.1);
}

/// A browser's message names its session and holds a message of any kind. It may come as an object, or
/// as a list of the two.
pub proof fn lemma_remote_message(members: Map<Seq<char>, JsonView>, items: Seq<JsonView>)
    ensures
        remote_message_of(JsonView::Obj(members)) is Some <==> members.contains_key("sessionId"@)
            && members["sessionId"@] is Str && members.contains_key("jsonRpcMessage"@),
        remote_message_of(JsonView::Obj(members)) is Some ==> remote_message_of(JsonView::Obj(members))
            == Some((members["sessionId"@]->Str_0, members["jsonRpcMessage"@])),
        remote_message_of(JsonView::Arr(items)) is Some <==> items.len() == 2 && items[0] is Str,
        remote_message_of(JsonView::Arr(items)) is Some ==> remote_message_of(JsonView::Arr(items)) == Some(
            (items[0]->Str_0, items[1]),
        ),
        remote_message_of(JsonView::Null) is None,
{
}

/// A socket that closes takes the registrations that are its own, and the requests of its sessions.
/// Nothing else is taken.
pub proof fn lemma_closed_socket(
    registrations: Map<Seq<char>, Seq<char>>,
    waiting: TicketMap,
    sessions: Seq<Seq<char>>,
    websocket_id: Seq<char>,
    session_id: Seq<char>,
)
    ensures
        ({
            let left = without_own(registrations, sessions, websocket_id);
            &&& left.contains_key(session_id) <==> registrations.contains_key(session_id) && !(
            sessions.contains(session_id) && registrations[session_id] == websocket_id)
            &&& left.contains_key(session_id) ==> left[session_id] == registrations[session_id]
        }),
        ({
            let left = without_sessions(waiting, sessions);
            &&& left.contains_key(session_id) <==> waiting.contains_key(session_id) && !sessions.contains(
                session_id,
            )
            &&& left.contains_key(session_id) ==> left[session_id] == waiting[session_id]
        }),
{
}

/// A browser's text is a ping, a registration of the session that follows `register-`, or something else.
pub proof fn lemma_classify_call(message: &str, session_id: Seq<char>, r: RemoteText)
    requires
        call_ensures(classify, (message,), r),
    ensures
        message@ == "ping"@ ==> r is Ping,
        message@ == "register-"@ + session_id ==> r is Register && r->session_id@ == session_id,
        message@ != "ping"@ && !text::starts_with(message@, "register-"@) ==> r is Other,
{
    text::laws::lemma_prefixes(message@, "register-"@, session_id);
    reveal_strlit("ping");
    reveal_strlit("register-");
    assert("ping"@.len() == 4);
    assert("register-"@.len() == 9);
}

/// A browser that registers for a session gets its messages from then on, and is told so. It keeps the
/// sessions that it registered before.
pub proof fn lemma_register_call(
    state: &mut McpRemoteState,
    session_id: &str,
    websocket_id: &str,
    registered: &mut Vec<String>,
    r: McpMessage,
)
    requires
        call_ensures(McpRemoteState::register, (state, session_id, websocket_id, registered), r),
    ensures
        final(state)@.registry == old(state)@.registry.insert(session_id@, websocket_id@),
        final(state)@.waiting == old(state)@.waiting,
        text::texts(final(registered)@).contains(session_id@),
        forall|other: Seq<char>|
            text::texts(old(registered)@).contains(other) ==> #[trigger] text::texts(
                final(registered)@,
            ).contains(other),
        r is System,
        r->System_message@ == "registered-"@ + session_id@,
{
    let before = text::texts(old(registered)@);
    let after = text::texts(final(registered)@);
    if !before.contains(session_id@) {
        assert(after[before.len() as int] == session_id@);
        assert forall|other: Seq<char>| before.contains(other) implies #[trigger] after.contains(other) by {
            let i = before.index_of(other);
            assert(after[i] == other);
        }
    }
}

/// An agent's message goes to the browser as it is, with its session. The one who waits for the answer is
/// noted under the identity of the message, in the place of an earlier one.
pub proof fn lemma_outbound_call(
    state: &mut McpRemoteState,
    session_id: String,
    json_rpc_message: Json,
    ticket: Option<u64>,
    r: (McpOutboundMessage, Option<u64>),
)
    requires
        call_ensures(
            McpRemoteState::outbound,
            (state, McpMessage::JsonRpc { session_id, json_rpc_message, ticket }),
            r,
        ),
    ensures
        ({
            let id = json_rpc_message@.get("id"@);
            let waits = ticket is Some && id is Some;
            &&& r.0 is McpJsonRpc
            &&& (r.0)->session_id@ == session_id@
            &&& (r.0)->json_rpc_message@ == json_rpc_message@
            &&& waits ==> mcp::ticket(final(state)@.waiting, session_id@, id->0) == ticket
            &&& waits ==> r.1 == mcp::ticket(old(state)@.waiting, session_id@, id->0)
            &&& !waits ==> r.1 is None && final(state)@ == old(state)@
            &&& final(state)@.registry == old(state)@.registry
        }),
{
}

/// A browser's message answers the request of the same session and identity, if one waits, and is handed
/// over as it is. The request waits no longer. Any other message does nothing.
pub proof fn lemma_message_call(state: &mut McpRemoteState, message: McpRemoteMessage, r: Option<(u64, Json)>)
    requires
        call_ensures(McpRemoteState::handle_message, (state, message), r),
    ensures
        ({
            let id = message.json_rpc_message@.get("id"@);
            let before = old(state)@.waiting;
            let found = id is Some && mcp::ticket(before, message.session_id@, id->0) is Some;
            &&& r is Some <==> found
            &&& found ==> Some((r->0).0) == mcp::ticket(before, message.session_id@, id->0)
            &&& found ==> (r->0).1@ == message.json_rpc_message@
            &&& found ==> mcp::ticket(final(state)@.waiting, message.session_id@, id->0) is None
            &&& !found ==> final(state)@ == old(state)@
            &&& final(state)@.registry == old(state)@.registry
        }),
{
}

/// An agent's request: a bad one is refused, one for a browser that is not connected is answered so, and
/// any other goes to the browser as it is. An answer is waited for exactly if the message has an `id`.
pub proof fn lemma_client_call(state: &McpRemoteState, params: McpParams, body: &[u8], ticket: u64, r: ClientStep)
    requires
        call_ensures(McpRemoteState::handle_client, (state, params, body, ticket), r),
    ensures
        ({
            let message = json::json_parsed_bytes(body@);
            let good = params.session_id is Some && message is Some && message->0.get("jsonrpc"@) is Some;
            let connected = state@.registry.contains_key((params.session_id)->0@);
            &&& !good ==> r is Answer && r->Answer_0 is BadRequest
            &&& good && !connected ==> r is Answer && r->Answer_0 is Body && r->Answer_0->Body_0@
                == mcp::not_connected_json(message->0)
            &&& good && connected ==> {
                &&& r is Deliver
                &&& r->Deliver_0 is JsonRpc
                &&& (r->Deliver_0)->session_id@ == (params.session_id)->0@
                &&& (r->Deliver_0)->json_rpc_message@ == message->0
                &&& message->0.get("id"@) is Some ==> (r->Deliver_0)->ticket == Some(ticket)
                &&& message->0.get("id"@) is None ==> (r->Deliver_0)->ticket is None
            }
        }),
{
}

/// Those who wait for a browser that closes are told so.
pub proof fn lemma_close_call(
    state: &mut McpRemoteState,
    websocket_id: &str,
    registered: &Vec<String>,
    r: (Vec<u64>, Json),
)
    requires
        call_ensures(McpRemoteState::close, (state, websocket_id, registered), r),
    ensures
        r.1@ == mcp::closed_json("WebSocket connection closed"@),
        mcp::each_once(old(state)@.waiting, text::texts(registered@), r.0@),
        final(state)@.registry == without_own(old(state)@.registry, text::texts(registered@), websocket_id@),
        final(state)@.waiting == without_sessions(old(state)@.waiting, text::texts(registered@)),
{
}

/// A message may be written as the list of its session and the JSON-RPC message.
pub proof fn lemma_remote_message_list(items: Seq<JsonView>)
    ensures
        ({
            let read = remote_message_of(JsonView::Arr(items));
            let session = items[0].as_str();
            &&& items.len() == 2 && session is Some ==> read == Some((session->0, items[1]))
            &&& items.len() != 2 || session is None ==> read is None
        }),
{
}

} // verus!
