//! The MCP reverse proxy as a Phoenix channel `mcp:{session_id}` whose task receives the agents'
//! messages.
//!
//! The HTTP side hands a message over to the channel's task ([`McpChannelInfo`]), which notes who
//! waits for the answer and pushes the message to the browser.

use vstd::prelude::*;

use crate::channel_result::{JoinResult, JoinView};
use crate::channel_result;
use crate::json;
use crate::json::{Json, JsonView};
use crate::mcp;
use crate::mcp::{AwaitingAnswers, HttpAnswer, TicketMap};
use crate::registry;
use crate::registry::Registry;
use crate::text;
use crate::ws::{ChannelSender, SenderView};

verus! {

broadcast use crate::registry::group_viewed;

/// A message for a channel's task.
#[derive(Debug)]
pub enum McpChannelInfo {
    /// A message of an agent for the browser, with the ticket of the one who waits for the answer.
    JsonRpc { session_id: String, json_rpc_message: Json, ticket: Option<u64> },
}

/// The query of an agent's HTTP request.
#[derive(Debug)]
pub struct McpParams {
    pub session_id: Option<String>,
}

/// The browsers by session, and the requests that wait for their answers.
pub struct McpChannelState {
    pub sessions: Registry<ChannelSender>,
    pub awaiting_answers: AwaitingAnswers,
}

/// The model of a [`McpChannelState`].
pub struct McpView {
    pub sessions: Map<Seq<char>, SenderView>,
    pub waiting: TicketMap,
}

impl View for McpChannelState {
    type V = McpView;

    open spec fn view(&self) -> McpView {
        McpView { sessions: registry::viewed(self.sessions@), waiting: self.awaiting_answers@ }
    }
}

impl McpChannelState {
    /// The tables are well formed.
    pub open spec fn wf(&self) -> bool {
        self.sessions.wf() && self.awaiting_answers.wf()
    }

    /// No browsers and no requests.
    pub fn new() -> (r: Self)
        ensures
            r.wf(),
            r@.sessions == Map::<Seq<char>, SenderView>::empty(),
            r@.waiting == Map::<Seq<char>, Map<Seq<char>, u64>>::empty(),
    {
        let r = McpChannelState { sessions: Registry::new(), awaiting_answers: AwaitingAnswers::new() };
        assert(r@.sessions =~= Map::<Seq<char>, SenderView>::empty());
        r
    }
}

impl Default for McpChannelState {
    fn default() -> (r: Self)
        ensures
            r.wf(),
            r@.sessions == Map::<Seq<char>, SenderView>::empty(),
            r@.waiting == Map::<Seq<char>, Map<Seq<char>, u64>>::empty(),
    {
        McpChannelState::new()
    }
}

/// The reply to a browser that has joined.
pub open spec fn registered_json(session_id: Seq<char>) -> JsonView {
    json::empty_object().with("status"@, JsonView::Str("registered"@)).with(
        "session_id"@,
        JsonView::Str(session_id),
    )
}

/// What is to be done with an agent's HTTP request.
#[derive(Debug)]
pub enum ClientStep {
    /// Answer it.
    Answer(HttpAnswer),
    /// Hand the message over to the channel's task, and answer with 500 where that fails. Else
    /// answer with what the browser sends, where the message carries a ticket, or with 202.
    Deliver(McpChannelInfo),
}

/// The channel handler.
pub struct McpChannel {
    state: McpChannelState,
}

impl View for McpChannel {
    type V = McpView;

    closed spec fn view(&self) -> McpView {
        self.state@
    }
}

impl McpChannel {
    /// The state is well formed.
    pub closed spec fn wf(&self) -> bool {
        self.state.wf()
    }

    /// A handler with an empty state.
    pub fn new() -> (r: Self)
        ensures
            r.wf(),
            r@.sessions == Map::<Seq<char>, SenderView>::empty(),
            r@.waiting == Map::<Seq<char>, Map<Seq<char>, u64>>::empty(),
    {
        McpChannel { state: McpChannelState::new() }
    }

    /// A handler with this state.
    pub fn with_state(state: McpChannelState) -> (r: Self)
        requires
            state.wf(),
        ensures
            r.wf(),
            r@ == state@,
    {
        McpChannel { state }
    }

    /// The handler's state.
    pub fn state(&self) -> (r: &McpChannelState)
        requires
            self.wf(),
        ensures
            r.wf(),
            r@ == self@,
    {
        &self.state
    }

    /// Registers a browser for the session that the topic names.
    pub fn join(&mut self, topic: &str, join_ref: Option<String>) -> (r: JoinResult)
        requires
            old(self).wf(),
        ensures
            final(self).wf(),
            match text::after_prefix(topic@, "mcp:"@) {
                Some(session_id) => {
                    &&& r@ == JoinView::Granted(registered_json(session_id))
                    &&& final(self)@ == (McpView {
                        sessions: old(self)@.sessions.insert(
                            session_id,
                            SenderView { topic: topic@, join_ref: json::opt_text(join_ref) },
                        ),
                        ..old(self)@
                    })
                },
                None => {
                    &&& r@ == channel_result::refused("invalid topic format, expected mcp:{session_id}"@)
                    &&& final(self)@ == old(self)@
                },
            },
    {
        match text::strip_prefix(topic, "mcp:") {
            Some(session_id) => {
                let reply = Json::object().with("status", Json::string("registered")).with(
                    "session_id",
                    Json::string(session_id.as_str()),
                );
                self.state.sessions.insert(
                    session_id,
                    ChannelSender { topic: topic.to_owned(), join_ref },
                );
                JoinResult::Granted(reply)
            },
            None => JoinResult::refuse("invalid topic format, expected mcp:{session_id}"),
        }
    }

    /// Handles a message that a browser sends. Where it answers a request that waits, the result is
    /// the ticket of the one who waits and the answer. There is never a reply to the browser.
    pub fn handle_in(&mut self, session_id: &str, event: &str, payload: Json) -> (r: Option<(u64, Json)>)
        requires
            old(self).wf(),
        ensures
            final(self).wf(),
            ({
                let found = if event@ == "mcp_message"@ && payload@.get("id"@) is Some {
                    mcp::ticket(old(self)@.waiting, session_id@, payload@.get("id"@)->0)
                } else {
                    None
                };
                match found {
                    Some(ticket) => {
                        &&& r is Some
                        &&& (r->0).0 == ticket
                        &&& (r->0).1@ == payload@
                        &&& final(self)@ == (McpView {
                            waiting: mcp::without_ticket(
                                old(self)@.waiting,
                                session_id@,
                                payload@.get("id"@)->0,
                            ),
                            ..old(self)@
                        })
                    },
                    None => r is None && final(self)@ == old(self)@,
                }
            }),
    {
        if !text::same_text(event, "mcp_message") {
            return None;
        }
        let taken = match payload.get("id") {
            Some(id) => self.state.awaiting_answers.take(session_id, id),
            None => None,
        };
        match taken {
            Some(ticket) => Some((ticket, payload)),
            None => None,
        }
    }

    /// Handles a message of an agent in the channel's task: notes who waits for the answer, and
    /// gives the payload to push to the browser as `mcp_message`. The second part of the result is
    /// the ticket of an earlier request with the same `id`, which will not be answered any more.
    pub fn handle_info(&mut self, info: McpChannelInfo) -> (r: (Json, Option<u64>))
        requires
            old(self).wf(),
        ensures
            final(self).wf(),
            match info {
                McpChannelInfo::JsonRpc { session_id, json_rpc_message, ticket } => {
                    let id = json_rpc_message@.get("id"@);
                    &&& r.0@ == json_rpc_message@
                    &&& if ticket is Some && id is Some {
                        &&& r.1 == mcp::ticket(old(self)@.waiting, session_id@, id->0)
                        &&& final(self)@ == (McpView {
                            waiting: mcp::with_ticket(
                                old(self)@.waiting,
                                session_id@,
                                id->0,
                                ticket->0,
                            ),
                            ..old(self)@
                        })
                    } else {
                        r.1 is None && final(self)@ == old(self)@
                    }
                },
            },
    {
        match info {
            McpChannelInfo::JsonRpc { session_id, json_rpc_message, ticket } => {
                let replaced = match (ticket, json_rpc_message.get("id")) {
                    (Some(ticket), Some(id)) => self.state.awaiting_answers.insert(
                        session_id.as_str(),
                        id,
                        ticket,
                    ),
                    _ => None,
                };
                (json_rpc_message, replaced)
            },
        }
    }

    /// Removes the browser of a session. The result is the tickets of those who wait for it, and
    /// their answer.
    pub fn terminate(&mut self, session_id: &str) -> (r: (Vec<u64>, Json))
        requires
            old(self).wf(),
        ensures
            final(self).wf(),
            final(self)@ == (McpView {
                sessions: old(self)@.sessions.remove(session_id@),
                waiting: old(self)@.waiting.remove(session_id@),
            }),
            r.1@ == mcp::closed_json("Channel connection closed"@),
            mcp::each_once(old(self)@.waiting, seq![session_id@], r.0@),
    {
        let _ = self.state.sessions.remove(session_id);
        let tickets = self.state.awaiting_answers.take_session(session_id);
        (tickets, mcp::closed_answer("Channel connection closed"))
    }

    /// Decides what to do with an agent's HTTP request. `ticket` stands for the one who waits for
    /// the answer.
    pub fn handle_client(&self, params: McpParams, body: &[u8], ticket: u64) -> (r: ClientStep)
        requires
            self.wf(),
        ensures
            match (params.session_id, mcp::body_message(body@)) {
                (Some(session), Some(message)) => if self@.sessions.contains_key(session@) {
                    match r {
                        ClientStep::Deliver(
                            McpChannelInfo::JsonRpc { session_id, json_rpc_message, ticket: noted },
                        ) => {
                            &&& session_id@ == session@
                            &&& json_rpc_message@ == message
                            &&& noted == (if message.get("id"@) is Some {
                                Some(ticket)
                            } else {
                                None
                            })
                        },
                        _ => false,
                    }
                } else {
                    &&& r is Answer && r->Answer_0 is Body
                    &&& r->Answer_0->Body_0@ == mcp::not_connected_json(message)
                },
                _ => r is Answer && r->Answer_0 is BadRequest,
            },
    {
        let session_id = match params.session_id {
            Some(session_id) => session_id,
            None => {
                return ClientStep::Answer(HttpAnswer::BadRequest);
            },
        };
        let message = match mcp::parse_body(body) {
            Some(message) => message,
            None => {
                return ClientStep::Answer(HttpAnswer::BadRequest);
            },
        };
        if self.state.sessions.contains_key(session_id.as_str()) {
            let noted = if message.has("id") {
                Some(ticket)
            } else {
                None
            };
            ClientStep::Deliver(
                McpChannelInfo::JsonRpc { session_id, json_rpc_message: message, ticket: noted },
            )
        } else {
            ClientStep::Answer(HttpAnswer::Body(mcp::not_connected_answer(&message)))
        }
    }
}

impl Default for McpChannel {
    fn default() -> (r: Self)
        ensures
            r.wf(),
            r@.sessions == Map::<Seq<char>, SenderView>::empty(),
            r@.waiting == Map::<Seq<char>, Map<Seq<char>, u64>>::empty(),
    {
        McpChannel::new()
    }
}

/// The members of the reply to a browser that has joined: that it is registered, and for which session.
pub proof fn lemma_registered_members(session_id: Seq<char>)
    ensures
        registered_json(session_id) is Obj,
        registered_json(session_id)->Obj_0.dom() == set!["status"@, "session_id"@],
        registered_json(session_id).get("status"@) == Some(JsonView::Str("registered"@)),
        registered_json(session_id).get("session_id"@) == Some(JsonView::Str(session_id)),
{
    reveal_strlit("status");
    reveal_strlit("session_id");
    assert("status"@.len() == 6);
    assert("session_id"@.len() == 10);
    assert(registered_json(session_id)->Obj_0.dom() =~= set!["status"@, "session_id"@]);
}

/// A browser that joins is registered for the session of its topic. A topic of another form is refused.
pub proof fn lemma_join_call(
    channel: &mut McpChannel,
    topic: &str,
    join_ref: Option<String>,
    session_id: Seq<char>,
    r: JoinResult,
)
    requires
        call_ensures(McpChannel::join, (channel, topic, join_ref), r),
    ensures
        topic@ == "mcp:"@ + session_id ==> {
            &&& r@ == JoinView::Granted(
                JsonView::Obj(
                    map![
                        "status"@ => JsonView::Str("registered"@),
                        "session_id"@ => JsonView::Str(session_id),
                    ],
                ),
            )
            &&& final(channel)@.sessions == old(channel)@.sessions.insert(
                session_id,
                SenderView { topic: topic@, join_ref: json::opt_text(join_ref) },
            )
            &&& final(channel)@.waiting == old(channel)@.waiting
        },
        !text::starts_with(topic@, "mcp:"@) ==> {
            &&& r@ == JoinView::Refused(
                JsonView::Obj(
                    map!["reason"@ => JsonView::Str("invalid topic format, expected mcp:{session_id}"@)],
                ),
            )
            &&& final(channel)@ == old(channel)@
        },
{
    text::laws::lemma_prefixes(topic@, "mcp:"@, session_id);
}

/// A browser's message answers the request of the same session and identity, if one waits, and is handed
/// over as it is. The request waits no longer. Any other message does nothing.
pub proof fn lemma_in_call(
    channel: &mut McpChannel,
    session_id: &str,
    event: &str,
    payload: Json,
    r: Option<(u64, Json)>,
)
    requires
        call_ensures(McpChannel::handle_in, (channel, session_id, event, payload), r),
    ensures
        ({
            let id = payload@.get("id"@);
            let before = old(channel)@.waiting;
            let found = event@ == "mcp_message"@ && id is Some && mcp::ticket(before, session_id@, id->0)
                is Some;
            &&& r is Some <==> found
            &&& found ==> Some((r->0).0) == mcp::ticket(before, session_id@, id->0)
            &&& found ==> (r->0).1@ == payload@
            &&& found ==> mcp::ticket(final(channel)@.waiting, session_id@, id->0) is None
            &&& !found ==> final(channel)@ == old(channel)@
            &&& final(channel)@.sessions == old(channel)@.sessions
        }),
{
}

/// An agent's message is pushed to the browser as it is. The one who waits for the answer is noted under
/// the identity of the message, in the place of an earlier one.
pub proof fn lemma_info_call(
    channel: &mut McpChannel,
    session_id: String,
    json_rpc_message: Json,
    ticket: Option<u64>,
    r: (Json, Option<u64>),
)
    requires
        call_ensures(
            McpChannel::handle_info,
            (channel, McpChannelInfo::JsonRpc { session_id, json_rpc_message, ticket }),
            r,
        ),
    ensures
        ({
            let id = json_rpc_message@.get("id"@);
            let waits = ticket is Some && id is Some;
            &&& r.0@ == json_rpc_message@
            &&& waits ==> mcp::ticket(final(channel)@.waiting, session_id@, id->0) == ticket
            &&& waits ==> r.1 == mcp::ticket(old(channel)@.waiting, session_id@, id->0)
            &&& !waits ==> r.1 is None && final(channel)@ == old(channel)@
            &&& final(channel)@.sessions == old(channel)@.sessions
        }),
{
}

/// A browser that leaves is forgotten with those who wait for it, and they are told so.
pub proof fn lemma_terminate_call(channel: &mut McpChannel, session_id: &str, r: (Vec<u64>, Json))
    requires
        call_ensures(McpChannel::terminate, (channel, session_id), r),
    ensures
        final(channel)@.sessions == old(channel)@.sessions.remove(session_id@),
        final(channel)@.waiting == old(channel)@.waiting.remove(session_id@),
        r.1@ == mcp::closed_json("Channel connection closed"@),
        mcp::each_once(old(channel)@.waiting, seq![session_id@], r.0@),
{
}

/// An agent's request: a bad one is refused, one for a browser that is not connected is answered so, and
/// any other goes to the browser as it is. An answer is waited for exactly if the message has an `id`.
pub proof fn lemma_client_call(channel: &McpChannel, params: McpParams, body: &[u8], ticket: u64, r: ClientStep)
    requires
        call_ensures(McpChannel::handle_client, (channel, params, body, ticket), r),
    ensures
        ({
            let message = json::json_parsed_bytes(body@);
            let good = params.session_id is Some && message is Some && message->0.get("jsonrpc"@) is Some;
            let connected = channel@.sessions.contains_key((params.session_id)->0@);
            &&& !good ==> r is Answer && r->Answer_0 is BadRequest
            &&& good && !connected ==> r is Answer && r->Answer_0 is Body && r->Answer_0->Body_0@
                == mcp::not_connected_json(message->0)
            &&& good && connected ==> {
                &&& r is Deliver
                &&& (r->Deliver_0)->session_id@ == (params.session_id)->0@
                &&& (r->Deliver_0)->json_rpc_message@ == message->0
                &&& message->0.get("id"@) is Some ==> (r->Deliver_0)->ticket == Some(ticket)
                &&& message->0.get("id"@) is None ==> (r->Deliver_0)->ticket is None
            }
        }),
{
}

} // verus!
