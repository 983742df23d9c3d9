//! The MCP reverse proxy on a Phoenix channel `mcp:{session_id}`.
//!
//! The browser that joins the channel is registered for the session. Agents send MCP messages by
//! HTTP, which are pushed to the browser, and the browser's answers go back to the agents.

use vstd::prelude::*;

use crate::json;
use crate::json::Json;
use crate::mcp;
use crate::mcp::{AwaitingAnswers, HttpAnswer, TicketMap};
use crate::phoenix;
use crate::phoenix::{InitResult, InitView, PhxMessage};
use crate::registry;
use crate::registry::Registry;
use crate::text;
use crate::ws::{ChannelSender, SenderView};

verus! {

broadcast use crate::registry::group_viewed;

/// The query of an agent's HTTP request.
#[derive(Debug)]
pub struct McpParams {
    pub session_id: Option<String>,
}

/// The browsers by session, and the requests that wait for their answers.
pub struct McpChannelState {
    pub sessions: Registry<ChannelSender>,
    pub awaiting_answers: AwaitingAnswers,
}

/// The model of a [`McpChannelState`].
pub struct McpView {
    pub sessions: Map<Seq<char>, SenderView>,
    pub waiting: TicketMap,
}

impl View for McpChannelState {
    type V = McpView;

    open spec fn view(&self) -> McpView {
        McpView { sessions: registry::viewed(self.sessions@), waiting: self.awaiting_answers@ }
    }
}

/// What is to be done with an agent's HTTP request.
#[derive(Debug)]
pub enum ClientStep {
    /// Answer it.
    Answer(HttpAnswer),
    /// Push the message to the browser. The one who waits under `replaced` gets no answer any more.
    /// Where `waits`, answer the request with what the browser sends (see
    /// [`mcp::answer_waiting`]), else with 202.
    Forward { push: PhxMessage, waits: bool, replaced: Option<u64> },
}

impl McpChannelState {
    /// The tables are well formed.
    pub open spec fn wf(&self) -> bool {
        self.sessions.wf() && self.awaiting_answers.wf()
    }

    /// No browsers and no requests.
    pub fn new() -> (r: Self)
        ensures
            r.wf(),
            r@.sessions == Map::<Seq<char>, SenderView>::empty(),
            r@.waiting == Map::<Seq<char>, Map<Seq<char>, u64>>::empty(),
    {
        let r = McpChannelState { sessions: Registry::new(), awaiting_answers: AwaitingAnswers::new() };
        assert(r@.sessions =~= Map::<Seq<char>, SenderView>::empty());
        r
    }

    /// Joins a browser for the session that the topic names. The result is the session and the
    /// reply.
    pub fn join(&mut self, msg: &PhxMessage) -> (r: Result<(String, PhxMessage), InitResult>)
        requires
            old(self).wf(),
        ensures
            final(self).wf(),
            match text::after_prefix(msg@.topic, "mcp:"@) {
                Some(session_id) => {
                    &&& r is Ok
                    &&& r->Ok_0.0@ == session_id
                    &&& r->Ok_0.1@ == phoenix::reply_view(msg@, "ok"@, json::empty_object())
                    &&& final(self)@ == (McpView {
                        sessions: old(self)@.sessions.insert(
                            session_id,
                            SenderView { topic: msg@.topic, join_ref: msg@.join_ref },
                        ),
                        ..old(self)@
                    })
                },
                None => {
                    &&& r is Err
                    &&& r->Err_0@ == InitView::Error("invalid topic format, expected mcp:{session_id}"@)
                    &&& final(self)@ == old(self)@
                },
            },
    {
        match text::strip_prefix(msg.topic.as_str(), "mcp:") {
            Some(session_id) => {
                self.sessions.insert(session_id.clone(), ChannelSender::of_join(msg));
                Ok((session_id, PhxMessage::ok_reply(msg, Json::object())))
            },
            None => Err(
                InitResult::Error("invalid topic format, expected mcp:{session_id}".to_owned()),
            ),
        }
    }

    /// Handles a message that a browser sends on its channel. Where it answers a request that
    /// waits, the result is the ticket of the one who waits and the answer.
    pub fn handle_incoming(&mut self, session_id: &str, msg: PhxMessage) -> (r: Option<(u64, Json)>)
        requires
            old(self).wf(),
            msg@.event == "mcp_message"@ ==> msg@.payload is Json,
        ensures
            final(self).wf(),
            ({
                let message = msg@.payload->Json_0;
                let found = if msg@.event == "mcp_message"@ && message.get("id"@) is Some {
                    mcp::ticket(old(self)@.waiting, session_id@, message.get("id"@)->0)
                } else {
                    None
                };
                match found {
                    Some(ticket) => {
                        &&& r is Some
                        &&& (r->0).0 == ticket
                        &&& (r->0).1@ == message
                        &&& final(self)@ == (McpView {
                            waiting: mcp::without_ticket(
                                old(self)@.waiting,
                                session_id@,
                                message.get("id"@)->0,
                            ),
                            ..old(self)@
                        })
                    },
                    None => r is None && final(self)@ == old(self)@,
                }
            }),
    {
        if !text::same_text(msg.event.as_str(), "mcp_message") {
            return None;
        }
        let message = msg.payload.into_json();
        let taken = match message.get("id") {
            Some(id) => self.awaiting_answers.take(session_id, id),
            None => None,
        };
        match taken {
            Some(ticket) => Some((ticket, message)),
            None => None,
        }
    }

    /// Removes the browser of a session. The result is the tickets of those who wait for it; each
    /// gets the answer that [`mcp::closed_answer`] gives for "Channel connection closed".
    pub fn leave(&mut self, session_id: &str) -> (r: (Vec<u64>, Json))
        requires
            old(self).wf(),
        ensures
            final(self).wf(),
            final(self)@ == (McpView {
                sessions: old(self)@.sessions.remove(session_id@),
                waiting: old(self)@.waiting.remove(session_id@),
            }),
            r.1@ == mcp::closed_json("Channel connection closed"@),
            mcp::each_once(old(self)@.waiting, seq![session_id@], r.0@),
    {
        let _ = self.sessions.remove(session_id);
        let tickets = self.awaiting_answers.take_session(session_id);
        (tickets, mcp::closed_answer("Channel connection closed"))
    }

    /// Handles an agent's HTTP request. `ticket` stands for the one who waits for the answer.
    pub fn handle_client(&mut self, params: McpParams, body: &[u8], ticket: u64) -> (r: ClientStep)
        requires
            old(self).wf(),
        ensures
            final(self).wf(),
            match (params.session_id, mcp::body_message(body@)) {
                (Some(session_id), Some(message)) => if old(self)@.sessions.contains_key(session_id@) {
                    let id = message.get("id"@);
                    &&& r is Forward
                    &&& r->push@ == old(self)@.sessions[session_id@].push("mcp_message"@, message)
                    &&& r->waits == id is Some
                    &&& match id {
                        Some(id) => {
                            &&& r->replaced == mcp::ticket(old(self)@.waiting, session_id@, id)
                            &&& final(self)@ == (McpView {
                                waiting: mcp::with_ticket(old(self)@.waiting, session_id@, id, ticket),
                                ..old(self)@
                            })
                        },
                        None => r->replaced is None && final(self)@ == old(self)@,
                    }
                } else {
                    &&& r is Answer && r->Answer_0 is Body
                    &&& r->Answer_0->Body_0@ == mcp::not_connected_json(message)
                    &&& final(self)@ == old(self)@
                },
                _ => r is Answer && r->Answer_0 is BadRequest && final(self)@ == old(self)@,
            },
    {
        let session_id = match params.session_id {
            Some(session_id) => session_id,
            None => {
                return ClientStep::Answer(HttpAnswer::BadRequest);
            },
        };
        let message = match mcp::parse_body(body) {
            Some(message) => message,
            None => {
                return ClientStep::Answer(HttpAnswer::BadRequest);
            },
        };
        match self.sessions.get(session_id.as_str()) {
            Some(sender) => {
                let (waits, replaced) = match message.get("id") {
                    Some(id) => (true, self.awaiting_answers.insert(session_id.as_str(), id, ticket)),
                    None => (false, None),
                };
                ClientStep::Forward { push: sender.push("mcp_message", message), waits, replaced }
            },
            None => ClientStep::Answer(HttpAnswer::Body(mcp::not_connected_answer(&message))),
        }
    }
}

impl Default for McpChannelState {
    fn default() -> (r: Self)
        ensures
            r.wf(),
            r@.sessions == Map::<Seq<char>, SenderView>::empty(),
            r@.waiting == Map::<Seq<char>, Map<Seq<char>, u64>>::empty(),
    {
        McpChannelState::new()
    }
}

/// A browser that joins is registered for the session of its topic. A topic of another form is refused.
pub proof fn lemma_join_call(
    state: &mut McpChannelState,
    msg: &PhxMessage,
    session_id: Seq<char>,
    r: Result<(String, PhxMessage), InitResult>,
)
    requires
        call_ensures(McpChannelState::join, (state, msg), r),
    ensures
        msg@.topic == "mcp:"@ + session_id ==> {
            &&& r is Ok
            &&& (r->Ok_0).0@ == session_id
            &&& (r->Ok_0).1@ == phoenix::reply_view(
                msg@,
                "ok"@,
                json::JsonView::Obj(Map::<Seq<char>, json::JsonView>::empty()),
            )
            &&& final(state)@.sessions == old(state)@.sessions.insert(
                session_id,
                SenderView { topic: msg@.topic, join_ref: msg@.join_ref },
            )
            &&& final(state)@.waiting == old(state)@.waiting
        },
        !text::starts_with(msg@.topic, "mcp:"@) ==> {
            &&& r is Err
            &&& r->Err_0@ == InitView::Error("invalid topic format, expected mcp:{session_id}"@)
            &&& final(state)@ == old(state)@
        },
{
    text::laws::lemma_prefixes(msg@.topic, "mcp:"@, session_id);
}

/// A browser's message answers the request of the same session and identity, if one waits, and is handed
/// over as it is. The request waits no longer. Any other message does nothing.
pub proof fn lemma_incoming_call(
    state: &mut McpChannelState,
    session_id: &str,
    msg: PhxMessage,
    r: Option<(u64, Json)>,
)
    requires
        call_ensures(McpChannelState::handle_incoming, (state, session_id, msg), r),
    ensures
        ({
            let message = msg@.payload->Json_0;
            let id = message.get("id"@);
            let before = old(state)@.waiting;
            let found = msg@.event == "mcp_message"@ && id is Some && mcp::ticket(
                before,
                session_id@,
                id->0,
            ) is Some;
            &&& r is Some <==> found
            &&& found ==> Some((r->0).0) == mcp::ticket(before, session_id@, id->0)
            &&& found ==> (r->0).1@ == message
            &&& found ==> mcp::ticket(final(state)@.waiting, session_id@, id->0) is None
            &&& !found ==> final(state)@ == old(state)@
            &&& final(state)@.sessions == old(state)@.sessions
        }),
{
}

/// A browser that leaves is forgotten with those who wait for it, and they are told so.
pub proof fn lemma_leave_call(state: &mut McpChannelState, session_id: &str, r: (Vec<u64>, Json))
    requires
        call_ensures(McpChannelState::leave, (state, session_id), r),
    ensures
        final(state)@.sessions == old(state)@.sessions.remove(session_id@),
        final(state)@.waiting == old(state)@.waiting.remove(session_id@),
        r.1@ == mcp::closed_json("Channel connection closed"@),
        mcp::each_once(old(state)@.waiting, seq![session_id@], r.0@),
{
}

/// An agent's request: a bad one is refused, one for a browser that is not connected is answered so, and
/// any other is pushed to the browser as it is, under `mcp_message`. An answer is waited for exactly if
/// the message has an `id`, and then the one who waits is noted.
pub proof fn lemma_client_call(
    state: &mut McpChannelState,
    params: McpParams,
    body: &[u8],
    ticket: u64,
    r: ClientStep,
)
    requires
        call_ensures(McpChannelState::handle_client, (state, params, body, ticket), r),
    ensures
        ({
            let message = json::json_parsed_bytes(body@);
            let good = params.session_id is Some && message is Some && message->0.get("jsonrpc"@) is Some;
            let session_id = (params.session_id)->0@;
            let connected = old(state)@.sessions.contains_key(session_id);
            let id = message->0.get("id"@);
            &&& !good ==> r is Answer && r->Answer_0 is BadRequest && final(state)@ == old(state)@
            &&& good && !connected ==> r is Answer && r->Answer_0 is Body && r->Answer_0->Body_0@
                == mcp::not_connected_json(message->0) && final(state)@ == old(state)@
            &&& good && connected ==> {
                &&& r is Forward
                &&& r->push@ == old(state)@.sessions[session_id].push("mcp_message"@, message->0)
                &&& r->waits == (id is Some)
                &&& id is Some ==> mcp::ticket(final(state)@.waiting, session_id, id->0) == Some(ticket)
                &&& id is None ==> final(state)@ == old(state)@
                &&& final(state)@.sessions == old(state)@.sessions
            }
        }),
{
}

} // verus!
