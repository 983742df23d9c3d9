//! What the proxy keeps of one agent process: the requests in flight, the sessions and who they
//! belong to, the initialization, the output of an agent that has not answered yet.

use vstd::prelude::*;

use crate::acp_session;
use crate::acp_session::{ChannelId, ProcessKey, SessionId, SessionState};
use crate::json;
use crate::json::Json;
use crate::registry;
use crate::registry::Registry;
use crate::text;
use crate::ws::acp::{
    EntryView, InflightRequest, InflightView, InitState, InitStateView, PendingRequest, SessionEntry,
    SpawnView, TidewaveSpawnOptions,
};

verus! {

broadcast use crate::registry::group_viewed;

/// Whether messages can be written to an agent.
#[derive(Debug, Clone, Copy, PartialEq, Eq, Structural)]
pub enum Stdin {
    /// The process was not started.
    Missing,
    Open,
    /// Writing to the process has failed.
    Closed,
}

/// One agent process.
pub struct ProcessState {
    pub key: ProcessKey,
    pub spawn_opts: TidewaveSpawnOptions,
    /// Tells processes apart that ran under the same key one after the other.
    pub generation: u64,
    pub stdin: Stdin,
    pub next_proxy_id: u64,
    /// The requests in flight, by the text of the identity that the proxy gave them.
    pub inflight_requests: Registry<InflightRequest>,
    pub sessions: Registry<SessionEntry>,
    pub init_state: InitState,
    /// Lines that an agent wrote before it was initialized.
    pub stdout_buffer: Vec<String>,
    pub stderr_buffer: Vec<String>,
    /// Counts the channels that have joined, so that a timer can tell whether one has since.
    pub connect_epoch: u64,
    pub channels: Vec<ChannelId>,
}

/// The model of a [`ProcessState`].
pub struct ProcessView {
    pub key: Seq<char>,
    pub spawn: SpawnView,
    pub generation: u64,
    pub stdin: Stdin,
    pub next_proxy_id: u64,
    pub inflight: Map<Seq<char>, InflightView>,
    pub sessions: Map<Seq<char>, EntryView>,
    pub init: InitStateView,
    pub stdout: Seq<Seq<char>>,
    pub stderr: Seq<Seq<char>>,
    pub epoch: u64,
    pub channels: Seq<Seq<char>>,
}

impl View for ProcessState {
    type V = ProcessView;

    open spec fn view(&self) -> ProcessView {
        ProcessView {
            key: self.key@,
            spawn: self.spawn_opts@,
            generation: self.generation,
            stdin: self.stdin,
            next_proxy_id: self.next_proxy_id,
            inflight: registry::viewed(self.inflight_requests@),
            sessions: registry::viewed(self.sessions@),
            init: self.init_state@,
            stdout: text::texts(self.stdout_buffer@),
            stderr: text::texts(self.stderr_buffer@),
            epoch: self.connect_epoch,
            channels: text::texts(self.channels@),
        }
    }
}

/// A process that was just started.
pub open spec fn new_process(key: Seq<char>, spawn: SpawnView, generation: u64) -> ProcessView {
    ProcessView {
        key,
        spawn,
        generation,
        stdin: Stdin::Missing,
        next_proxy_id: 1,
        inflight: Map::empty(),
        sessions: Map::empty(),
        init: InitStateView::NotStarted,
        stdout: seq![],
        stderr: seq![],
        epoch: 0,
        channels: seq![],
    }
}

/// The channel that a session belongs to.
pub open spec fn owner(sessions: Map<Seq<char>, EntryView>, session_id: Seq<char>) -> Option<Seq<char>> {
    if sessions.contains_key(session_id) {
        sessions[session_id].channel_id
    } else {
        None
    }
}

/// The sessions with one given to a channel, or taken from it.
pub open spec fn with_owner(
    sessions: Map<Seq<char>, EntryView>,
    session_id: Seq<char>,
    channel_id: Option<Seq<char>>,
) -> Map<Seq<char>, EntryView> {
    if sessions.contains_key(session_id) {
        sessions.insert(session_id, EntryView { channel_id, ..sessions[session_id] })
    } else {
        sessions
    }
}

/// The sessions with one taken from a channel, where it belongs to that channel.
pub open spec fn released_one(
    sessions: Map<Seq<char>, EntryView>,
    session_id: Seq<char>,
    channel_id: Seq<char>,
) -> Map<Seq<char>, EntryView> {
    if owner(sessions, session_id) == Some(channel_id) {
        with_owner(sessions, session_id, None)
    } else {
        sessions
    }
}

/// An entry that does not belong to this channel any more.
pub open spec fn released_entry(entry: EntryView, channel_id: Seq<char>) -> EntryView {
    if entry.channel_id == Some(channel_id) {
        EntryView { channel_id: None, ..entry }
    } else {
        entry
    }
}

/// The sessions with all of a channel's taken from it.
pub open spec fn released(sessions: Map<Seq<char>, EntryView>, channel_id: Seq<char>) -> Map<
    Seq<char>,
    EntryView,
> {
    Map::new(
        |id: Seq<char>| sessions.contains_key(id),
        |id: Seq<char>| released_entry(sessions[id], channel_id),
    )
}

/// Of the sessions listed in `order`, those of a channel, each with its cancel counter.
pub open spec fn owned_by(
    order: Seq<Seq<char>>,
    sessions: Map<Seq<char>, EntryView>,
    channel_id: Seq<char>,
) -> Seq<(Seq<char>, u64)>
    decreases order.len(),
{
    if order.len() == 0 {
        seq![]
    } else {
        let rest = owned_by(order.drop_last(), sessions, channel_id);
        if owner(sessions, order.last()) == Some(channel_id) {
            rest.push((order.last(), sessions[order.last()].state.cancel_counter))
        } else {
            rest
        }
    }
}

/// The model of a list of sessions with their cancel counters.
pub open spec fn counters_view(list: Seq<(SessionId, u64)>) -> Seq<(Seq<char>, u64)> {
    list.map_values(|e: (SessionId, u64)| (e.0@, e.1))
}

/// Whether an optional channel is this one.
pub open spec fn is_channel(channel: Option<String>, id: Seq<char>) -> bool {
    json::opt_text(channel) == Some(id)
}

fn belongs_to(channel: &Option<ChannelId>, id: &str) -> (r: bool)
    ensures
        r == is_channel(*channel, id@),
{
    match channel {
        Some(c) => text::same_text(c.as_str(), id),
        None => false,
    }
}

impl ProcessState {
    /// The tables are well formed, and no channel is listed twice.
    pub open spec fn wf(&self) -> bool {
        self.inflight_requests.wf() && self.sessions.wf() && self@.channels.no_duplicates()
    }

    /// A process that was just started.
    pub fn new(key: ProcessKey, spawn_opts: TidewaveSpawnOptions, generation: u64) -> (r: Self)
        ensures
            r.wf(),
            r@ == new_process(key@, spawn_opts@, generation),
    {
        let r = ProcessState {
            key,
            spawn_opts,
            generation,
            stdin: Stdin::Missing,
            next_proxy_id: 1,
            inflight_requests: Registry::new(),
            sessions: Registry::new(),
            init_state: InitState::new(),
            stdout_buffer: Vec::new(),
            stderr_buffer: Vec::new(),
            connect_epoch: 0,
            channels: Vec::new(),
        };
        proof {
            assert(r@.inflight =~= Map::empty());
            assert(r@.sessions =~= Map::empty());
            assert(r@.stdout =~= seq![]);
            assert(r@.stderr =~= seq![]);
            assert(r@.channels =~= seq![]);
        }
        r
    }

    /// A fresh identity for a request.
    pub fn generate_proxy_id(&mut self) -> (r: Json)
        ensures
            r@ == json::uint_json(old(self)@.next_proxy_id),
            final(self)@ == (ProcessView {
                next_proxy_id: acp_session::next_count(old(self)@.next_proxy_id),
                ..old(self)@
            }),
            old(self).wf() ==> final(self).wf(),
            final(self).sessions.order() == old(self).sessions.order(),
    {
        let id: u64 = self.next_proxy_id;
        self.next_proxy_id = id.wrapping_add(1);
        Json::uint(id)
    }

    /// Notes a request under a fresh identity, and gives the identity.
    pub fn map_client_id_to_proxy(
        &mut self,
        channel_id: ChannelId,
        client_id: Json,
        session_id: Option<SessionId>,
        pending: Option<PendingRequest>,
    ) -> (r: Json)
        requires
            old(self).wf(),
        ensures
            final(self).wf(),
            r@ == json::uint_json(old(self)@.next_proxy_id),
            json::id_text(r@) == text::decimal(old(self)@.next_proxy_id as nat),
            final(self)@ == (ProcessView {
                next_proxy_id: acp_session::next_count(old(self)@.next_proxy_id),
                inflight: old(self)@.inflight.insert(
                    text::decimal(old(self)@.next_proxy_id as nat),
                    InflightView {
                        channel_id: channel_id@,
                        client_id: client_id@,
                        session_id: json::opt_text(session_id),
                        pending: crate::ws::acp::opt_pending(pending),
                    },
                ),
                ..old(self)@
            }),
    {
        let proxy_id = self.generate_proxy_id();
        self.register_inflight_request(proxy_id.clone(), channel_id, client_id, session_id, pending);
        proxy_id
    }

    /// Notes a request under an identity.
    pub fn register_inflight_request(
        &mut self,
        proxy_id: Json,
        channel_id: ChannelId,
        client_id: Json,
        session_id: Option<SessionId>,
        pending: Option<PendingRequest>,
    )
        requires
            old(self).wf(),
        ensures
            final(self).wf(),
            final(self)@ == (ProcessView {
                inflight: old(self)@.inflight.insert(
                    json::id_text(proxy_id@),
                    InflightView {
                        channel_id: channel_id@,
                        client_id: client_id@,
                        session_id: json::opt_text(session_id),
                        pending: crate::ws::acp::opt_pending(pending),
                    },
                ),
                ..old(self)@
            }),
            forall|n: u64|
                proxy_id@ == json::uint_json(n) ==> json::id_text(proxy_id@) == #[trigger] text::decimal(
                    n as nat,
                ),
    {
        self.inflight_requests.insert(
            proxy_id.id_text(),
            InflightRequest { channel_id, client_id, session_id, pending },
        );
    }

    /// The request with this identity.
    pub fn inflight_request(&self, proxy_id: &Json) -> (r: Option<InflightRequest>)
        requires
            self.wf(),
        ensures
            r is Some == self@.inflight.contains_key(json::id_text(proxy_id@)),
            r is Some ==> r->0@ == self@.inflight[json::id_text(proxy_id@)],
    {
        match self.inflight_requests.get(proxy_id.id_text().as_str()) {
            Some(request) => Some(request.clone()),
            None => None,
        }
    }

    /// Forgets the request with this identity, and gives it back.
    pub fn remove_inflight_request(&mut self, proxy_id: &Json) -> (r: Option<InflightRequest>)
        requires
            old(self).wf(),
        ensures
            final(self).wf(),
            r is Some == old(self)@.inflight.contains_key(json::id_text(proxy_id@)),
            r is Some ==> r->0@ == old(self)@.inflight[json::id_text(proxy_id@)],
            final(self)@ == (ProcessView {
                inflight: old(self)@.inflight.remove(json::id_text(proxy_id@)),
                ..old(self)@
            }),
            final(self).sessions.order() == old(self).sessions.order(),
    {
        self.inflight_requests.remove(proxy_id.id_text().as_str())
    }

    /// Adds a channel to those connected.
    pub fn add_channel(&mut self, channel_id: ChannelId)
        requires
            old(self).wf(),
        ensures
            final(self).wf(),
            final(self)@ == (ProcessView {
                channels: (if old(self)@.channels.contains(channel_id@) {
                    old(self)@.channels
                } else {
                    old(self)@.channels.push(channel_id@)
                }),
                ..old(self)@
            }),
    {
        if !text::list_has(&self.channels, channel_id.as_str()) {
            self.channels.push(channel_id);
            assert(text::texts(self.channels@) =~= text::texts(old(self).channels@).push(channel_id@));
        }
    }

    /// Removes a channel from those connected.
    pub fn remove_channel(&mut self, channel_id: &str)
        requires
            old(self).wf(),
        ensures
            final(self).wf(),
            final(self)@ == (ProcessView {
                channels: registry::keys_without(old(self)@.channels, channel_id@),
                ..old(self)@
            }),
            final(self).sessions.order() == old(self).sessions.order(),
    {
        let kept = text::list_without(&self.channels, channel_id);
        proof {
            registry::lemma_keys_without(self@.channels, channel_id@);
        }
        self.channels = kept;
    }

    /// The channels connected to the process.
    pub fn connected_channels(&self) -> (r: Vec<ChannelId>)
        ensures
            text::texts(r@) == self@.channels,
    {
        text::clone_list(&self.channels)
    }

    /// The state of a session.
    pub fn session_state(&self, session_id: &str) -> (r: Option<&SessionState>)
        requires
            self.wf(),
        ensures
            r is Some == self@.sessions.contains_key(session_id@),
            r is Some ==> r->0@ == self@.sessions[session_id@].state,
    {
        match self.sessions.get(session_id) {
            Some(entry) => Some(&entry.state),
            None => None,
        }
    }

    /// The channel that a session belongs to.
    pub fn session_channel(&self, session_id: &str) -> (r: Option<ChannelId>)
        requires
            self.wf(),
        ensures
            json::opt_text(r) == owner(self@.sessions, session_id@),
    {
        match self.sessions.get(session_id) {
            Some(entry) => match &entry.channel_id {
                Some(c) => Some(c.clone()),
                None => None,
            },
            None => None,
        }
    }

    /// Whether a session belongs to a channel.
    pub fn has_session_channel(&self, session_id: &str) -> (r: bool)
        requires
            self.wf(),
        ensures
            r == owner(self@.sessions, session_id@) is Some,
    {
        self.session_channel(session_id).is_some()
    }

    /// Gives a session to a channel.
    pub fn map_session_channel(&mut self, session_id: &str, channel_id: ChannelId)
        requires
            old(self).wf(),
        ensures
            final(self).wf(),
            final(self)@ == (ProcessView {
                sessions: with_owner(old(self)@.sessions, session_id@, Some(channel_id@)),
                ..old(self)@
            }),
    {
        match self.sessions.get_mut(session_id) {
            Some(entry) => {
                entry.channel_id = Some(channel_id);
            },
            None => {},
        }
    }

    /// Takes a session from a channel, and says whether it belonged to the channel.
    pub fn unmap_session_if_owned_by(&mut self, session_id: &str, channel_id: &str) -> (r: bool)
        requires
            old(self).wf(),
        ensures
            final(self).wf(),
            r == (owner(old(self)@.sessions, session_id@) == Some(channel_id@)),
            final(self)@ == (ProcessView {
                sessions: released_one(old(self)@.sessions, session_id@, channel_id@),
                ..old(self)@
            }),
    {
        match self.sessions.get_mut(session_id) {
            Some(entry) => {
                if belongs_to(&entry.channel_id, channel_id) {
                    entry.channel_id = None;
                    true
                } else {
                    assert(old(self).sessions@.insert(session_id@, *entry) =~= old(self).sessions@);
                    false
                }
            },
            None => false,
        }
    }

    /// Gives a session to a channel, unless it belongs to one already. A session that is not known
    /// is made. The result says whether it was.
    pub fn claim_or_insert_session_channel(
        &mut self,
        session_id: SessionId,
        channel_id: ChannelId,
        process_key: &ProcessKey,
    ) -> (r: Result<bool, ()>)
        requires
            old(self).wf(),
        ensures
            final(self).wf(),
            r is Err == owner(old(self)@.sessions, session_id@) is Some,
            r is Ok ==> r->Ok_0 == !old(self)@.sessions.contains_key(session_id@),
            final(self)@ == (ProcessView {
                sessions: match r {
                    Err(_) => old(self)@.sessions,
                    Ok(false) => with_owner(old(self)@.sessions, session_id@, Some(channel_id@)),
                    Ok(true) => old(self)@.sessions.insert(
                        session_id@,
                        EntryView {
                            state: acp_session::new_session(process_key@),
                            channel_id: Some(channel_id@),
                        },
                    ),
                },
                ..old(self)@
            }),
    {
        match self.sessions.get_mut(session_id.as_str()) {
            Some(entry) => {
                if entry.channel_id.is_some() {
                    assert(old(self).sessions@.insert(session_id@, *entry) =~= old(self).sessions@);
                    Err(())
                } else {
                    entry.channel_id = Some(channel_id);
                    Ok(false)
                }
            },
            None => {
                let entry = SessionEntry {
                    state: SessionState::new(process_key.clone()),
                    channel_id: Some(channel_id),
                };
                self.sessions.insert(session_id, entry);
                Ok(true)
            },
        }
    }

    /// Takes all of a channel's sessions from it, and lists them with their cancel counters.
    pub fn unmap_sessions_for_channel(&mut self, channel_id: &str) -> (r: Vec<(SessionId, u64)>)
        requires
            old(self).wf(),
        ensures
            final(self).wf(),
            final(self)@ == (ProcessView {
                sessions: released(old(self)@.sessions, channel_id@),
                ..old(self)@
            }),
            counters_view(r@) == owned_by(old(self).sessions.order(), old(self)@.sessions, channel_id@),
    {
        let ghost before = self@;
        let ghost order = self.sessions.order();
        let mut unmapped: Vec<(SessionId, u64)> = Vec::new();
        let mut i: usize = 0;
        proof {
            self.sessions.lemma_order();
            assert(counters_view(unmapped@) =~= seq![]);
        }
        while i < self.sessions.len()
            invariant
                self.wf(),
                before == old(self)@,
                order == old(self).sessions.order(),
                self.sessions.order() == order,
                order.no_duplicates(),
                forall|key: Seq<char>| #[trigger] order.contains(key) <==> before.sessions.contains_key(key),
                self@ == (ProcessView { sessions: self@.sessions, ..before }),
                self@.sessions.dom() =~= before.sessions.dom(),
                forall|k: int|
                    0 <= k < i ==> self@.sessions[#[trigger] order[k]] == released_entry(
                        before.sessions[order[k]],
                        channel_id@,
                    ),
                forall|k: int|
                    i <= k < order.len() ==> self@.sessions[#[trigger] order[k]] == before.sessions[order[k]],
                counters_view(unmapped@) == owned_by(order.take(i as int), before.sessions, channel_id@),
                i <= order.len(),
            decreases order.len() - i,
        {
            let ghost last = unmapped@;
            proof {
                assert(order.contains(order[i as int]));
                assert(order.take(i + 1).drop_last() =~= order.take(i as int));
                assert(order.take(i + 1).last() == order[i as int]);
            }
            let owned = belongs_to(&self.sessions.value_at(i).channel_id, channel_id);
            if owned {
                let key = self.sessions.key_at(i).clone();
                match self.sessions.get_mut(key.as_str()) {
                    Some(entry) => {
                        entry.channel_id = None;
                        unmapped.push((key, entry.state.cancel_counter));
                    },
                    None => {},
                }
                assert(counters_view(unmapped@) =~= counters_view(last).push(
                    (key@, before.sessions[key@].state.cancel_counter),
                ));
            }
            i = i + 1;
        }
        proof {
            assert(order.take(order.len() as int) =~= order);
            assert forall|key: Seq<char>| before.sessions.contains_key(key) implies self@.sessions[key]
                == released_entry(before.sessions[key], channel_id@) by {
                assert(order.contains(key));
                let k = order.index_of(key);
                assert(order[k] == key);
            }
            assert(self@.sessions =~= released(before.sessions, channel_id@));
        }
        unmapped
    }

    /// Adds a session, unless it is known. The result says whether it was added.
    pub fn insert_session(
        &mut self,
        session_id: SessionId,
        session_state: SessionState,
        channel_id: Option<ChannelId>,
    ) -> (r: bool)
        requires
            old(self).wf(),
        ensures
            final(self).wf(),
            r == !old(self)@.sessions.contains_key(session_id@),
            final(self)@ == (ProcessView {
                sessions: (if r {
                    old(self)@.sessions.insert(
                        session_id@,
                        EntryView { state: session_state@, channel_id: json::opt_text(channel_id) },
                    )
                } else {
                    old(self)@.sessions
                }),
                ..old(self)@
            }),
    {
        if self.sessions.contains_key(session_id.as_str()) {
            return false;
        }
        self.sessions.insert(session_id, SessionEntry { state: session_state, channel_id });
        true
    }

    /// Forgets a session.
    pub fn remove_session(&mut self, session_id: &str)
        requires
            old(self).wf(),
        ensures
            final(self).wf(),
            final(self)@ == (ProcessView {
                sessions: old(self)@.sessions.remove(session_id@),
                ..old(self)@
            }),
    {
        let _ = self.sessions.remove(session_id);
    }

    /// Forgets a session that belongs to this channel or to none. The result says whether it did.
    pub fn remove_session_if_unowned_or_owned_by(&mut self, session_id: &str, channel_id: &str) -> (r: bool)
        requires
            old(self).wf(),
        ensures
            final(self).wf(),
            r == (old(self)@.sessions.contains_key(session_id@) && (owner(
                old(self)@.sessions,
                session_id@,
            ) is None || owner(old(self)@.sessions, session_id@) == Some(channel_id@))),
            final(self)@ == (ProcessView {
                sessions: (if r {
                    old(self)@.sessions.remove(session_id@)
                } else {
                    old(self)@.sessions
                }),
                ..old(self)@
            }),
    {
        let should_remove = match self.sessions.get(session_id) {
            Some(entry) => entry.channel_id.is_none() || belongs_to(&entry.channel_id, channel_id),
            None => false,
        };
        if should_remove {
            let _ = self.sessions.remove(session_id);
        }
        should_remove
    }
}

} // verus!
