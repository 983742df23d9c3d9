//! The features that share one WebSocket connection, each on its own Phoenix topic:
//! `watch:<ref>`, `acp:<id>`, `mcp:<session id>`, `terminal:<ref>`, `recording:<ref>` and
//! `upload:<ref>`.

use vstd::prelude::*;

use crate::json;
use crate::json::{Json, JsonView};
use crate::phoenix;
use crate::phoenix::{PhxMessage, PhxView};
use crate::registry::Registry;

pub mod acp;
pub mod connection;
pub mod mcp;
pub mod recording;
pub mod terminal;
pub mod upload;
pub mod watch;

verus! {

broadcast use crate::registry::group_viewed;

/// Where the messages of a channel go: the topic and the join that they belong to.
#[derive(Debug)]
pub struct ChannelSender {
    pub topic: String,
    pub join_ref: Option<String>,
}

/// The model of a [`ChannelSender`].
pub struct SenderView {
    pub topic: Seq<char>,
    pub join_ref: Option<Seq<char>>,
}

impl View for ChannelSender {
    type V = SenderView;

    open spec fn view(&self) -> SenderView {
        SenderView { topic: self.topic@, join_ref: json::opt_text(self.join_ref) }
    }
}

impl SenderView {
    /// The message that carries an event to the channel's client.
    pub open spec fn push(self, event: Seq<char>, payload: JsonView) -> PhxView {
        phoenix::push_view(self.join_ref, self.topic, event, payload)
    }
}

impl ChannelSender {
    /// The sender of the channel that a join message opens.
    pub fn of_join(msg: &PhxMessage) -> (r: Self)
        ensures
            r@ == (SenderView { topic: msg@.topic, join_ref: msg@.join_ref }),
    {
        ChannelSender { topic: msg.topic.clone(), join_ref: phoenix::clone_text(&msg.join_ref) }
    }

    /// The message that carries an event to the channel's client.
    pub fn push(&self, event: &str, payload: Json) -> (r: PhxMessage)
        ensures
            r@ == self@.push(event@, payload@),
    {
        let mut phx = PhxMessage::new(self.topic.as_str(), event, payload);
        phx.join_ref = phoenix::clone_text(&self.join_ref);
        phx
    }
}

/// The state that all connections share.
pub struct WsState {
    pub watch: watch::WatchFeatureState,
    pub acp: acp::AcpChannelState,
    pub mcp: mcp::McpChannelState,
}

impl WsState {
    /// The state of each feature is well formed.
    pub open spec fn wf(&self) -> bool {
        self.watch.wf() && self.acp.wf() && self.mcp.wf()
    }

    /// Nothing runs and nobody is connected.
    pub fn new() -> (r: Self)
        ensures
            r.wf(),
            r.watch@ == Map::<Seq<char>, bool>::empty(),
            r.acp@.processes.dom() == Set::<Seq<char>>::empty(),
            r.acp@.retired.dom() == Set::<Seq<char>>::empty(),
            r.acp@.senders.dom() == Set::<Seq<char>>::empty(),
            r.mcp@.sessions.dom() == Set::<Seq<char>>::empty(),
            r.mcp@.waiting.dom() == Set::<Seq<char>>::empty(),
    {
        WsState {
            watch: watch::WatchFeatureState::new(),
            acp: acp::AcpChannelState::new(),
            mcp: mcp::McpChannelState::new(),
        }
    }

    /// The same with another ACP state.
    pub fn with_acp_state(self, acp: acp::AcpChannelState) -> (r: Self)
        ensures
            r == (WsState { acp, ..self }),
    {
        WsState { acp, ..self }
    }

    /// The same with another MCP state.
    pub fn with_mcp_state(self, mcp: mcp::McpChannelState) -> (r: Self)
        ensures
            r == (WsState { mcp, ..self }),
    {
        WsState { mcp, ..self }
    }

    /// Forgets everything: the file watchers, the agent processes with their channels, the browsers
    /// and the requests that wait for them. The result names the processes, each of which is to be
    /// stopped. Generations go on, so that a process that ends late is not taken for a new one.
    pub fn clear(&mut self) -> (r: Vec<String>)
        requires
            old(self).wf(),
        ensures
            final(self).wf(),
            final(self).watch@ == Map::<Seq<char>, bool>::empty(),
            final(self).acp@.processes.dom() == Set::<Seq<char>>::empty(),
            final(self).acp@.retired.dom() == Set::<Seq<char>>::empty(),
            final(self).acp@.senders.dom() == Set::<Seq<char>>::empty(),
            final(self).acp@.next_generation == old(self).acp@.next_generation,
            final(self).mcp@.sessions.dom() == Set::<Seq<char>>::empty(),
            final(self).mcp@.waiting.dom() == Set::<Seq<char>>::empty(),
            crate::text::texts(r@) == old(self).acp.processes.order(),
    {
        let mut keys: Vec<String> = Vec::new();
        let count: usize = self.acp.processes.len();
        let mut i: usize = 0;
        while i < count
            invariant
                self.wf(),
                *self == *old(self),
                i <= count,
                count == self.acp.processes.order().len(),
                keys@.len() == i,
                forall|k: int|
                    0 <= k < i ==> (#[trigger] keys@[k])@ == self.acp.processes.order()[k],
            decreases count - i,
        {
            keys.push(self.acp.processes.key_at(i).clone());
            i = i + 1;
        }
        assert(crate::text::texts(keys@) =~= self.acp.processes.order());
        self.watch.clear();
        self.acp.processes = Registry::new();
        self.acp.retired = Registry::new();
        self.acp.channel_senders = Registry::new();
        self.mcp = mcp::McpChannelState::new();
        keys
    }
}

/// The processes that clearing names are those that run, each once.
pub proof fn lemma_clear_stops_all(state: WsState, keys: Seq<Seq<char>>)
    requires
        state.wf(),
        keys == state.acp.processes.order(),
    ensures
        forall|key: Seq<char>| #[trigger]
            state.acp@.processes.contains_key(key) == keys.contains(key),
        keys.no_duplicates(),
{
    state.acp.processes.lemma_order();
}

/// The channel that a join opens gets its messages on the topic and under the reference of the join.
pub proof fn lemma_sender_calls(
    msg: &PhxMessage,
    sender: &ChannelSender,
    event: &str,
    payload: Json,
    opened: ChannelSender,
    pushed: PhxMessage,
)
    requires
        call_ensures(ChannelSender::of_join, (msg,), opened),
        call_ensures(ChannelSender::push, (sender, event, payload), pushed),
    ensures
        opened@.topic == msg@.topic,
        opened@.join_ref == msg@.join_ref,
        pushed@ == (PhxView {
            join_ref: sender@.join_ref,
            ref_: None,
            topic: sender@.topic,
            event: event@,
            payload: phoenix::PayloadView::Json(payload@),
        }),
{
}

} // verus!
