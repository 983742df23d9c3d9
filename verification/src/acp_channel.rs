//! The ACP proxy on Phoenix channels `acp:<id>`.
//!
//! An agent is started when a channel joins, unless one runs for the same command in the same
//! directory.

use vstd::prelude::*;

use crate::acp_relay;
use crate::acp_relay::{Relay, RelayEffect, RelayView, Style};
use crate::acp_session;
use crate::acp_session::{ChannelId, ProcessKey};
use crate::channel_result;
use crate::channel_result::{HandleResult, HandleView, JoinResult, JoinView};
use crate::json;
use crate::json::{Json, JsonView};
use crate::jsonrpc;
use crate::text;
use crate::ws::acp::process::Stdin;

pub use crate::acp_relay::{generate_process_key, version, ProcessState, TidewaveSpawnOptions};
pub use crate::acp_session::{
    BufferedMessage, NewSessionResponse, SessionState, TidewaveAckNotification, TidewaveExitParams,
    TidewaveSessionLoadRequest, TidewaveSessionLoadResponse,
};
pub use crate::jsonrpc::{
    JsonRpcError, JsonRpcMessage, JsonRpcNotification, JsonRpcRequest, JsonRpcResponse,
};

verus! {

broadcast use crate::registry::group_viewed;

/// The state that all channels share.
pub type AcpChannelState = Relay;

/// What a channel is told by the agent's side.
#[derive(Debug)]
pub enum AcpChannelInfo {
    JsonRpc(JsonRpcMessage),
    AgentExit(TidewaveExitParams),
}

/// The ACP proxy on Phoenix channels.
pub struct AcpChannel {
    pub state: AcpChannelState,
}

/// What is to be done for a channel that joins.
#[derive(Debug)]
pub enum JoinStep {
    /// Answer the join.
    Answer(JoinResult),
    /// Start a process, then see [`AcpChannel::process_started`].
    Start { process_key: ProcessKey, spawn_opts: TidewaveSpawnOptions },
}

/// The answer to a join that is granted.
pub open spec fn joined_json(channel_id: Seq<char>) -> JsonView {
    json::empty_object().with("channel_id"@, JsonView::Str(channel_id)).with(
        "version"@,
        JsonView::Str(acp_relay::VERSION@),
    )
}

fn granted(channel_id: &str) -> (r: JoinResult)
    ensures
        r@ == JoinView::Granted(joined_json(channel_id@)),
{
    JoinResult::Granted(
        Json::object().with("channel_id", Json::string(channel_id)).with(
            "version",
            Json::string(version()),
        ),
    )
}

/// The key of the agent that a channel asks for.
pub open spec fn wanted_key(options: TidewaveSpawnOptions) -> Seq<char> {
    acp_relay::process_key(options.command@, options.cwd@, JsonView::Null)
}

/// Why a message of a client is refused that is no JSON-RPC message.
pub const NOT_JSONRPC: &'static str = "failed to parse JSON-RPC message: data did not match any variant of untagged enum JsonRpcMessage";

impl AcpChannel {
    /// The proxy with no agents and no channels.
    pub fn new() -> (r: Self)
        ensures
            r.state.wf(),
            r.state@ == (RelayView {
                style: Style::Channel,
                processes: Map::empty(),
                channels: Map::empty(),
                sessions: Map::empty(),
                owners: Map::empty(),
                homes: Map::empty(),
            }),
    {
        AcpChannel { state: Relay::new(Style::Channel) }
    }

    /// The proxy with this state.
    pub fn with_state(state: AcpChannelState) -> (r: Self)
        ensures
            r.state == state,
    {
        AcpChannel { state }
    }

    /// The first step of a join. `info_sender` says whether the channel can be told anything by the
    /// agent's side, and `spawn` is what the join's payload says of the agent, or why it says
    /// nothing.
    pub fn join(
        &mut self,
        topic: &str,
        channel_id: ChannelId,
        info_sender: bool,
        spawn: Result<TidewaveSpawnOptions, String>,
    ) -> (r: JoinStep)
        requires
            old(self).state.wf(),
        ensures
            final(self).state.wf(),
            ({
                let before = old(self).state@;
                let connected = RelayView { channels: before.channels.insert(channel_id@, ()), ..before };
                if !text::starts_with(topic@, "acp:"@) {
                    &&& r is Answer
                    &&& r->Answer_0@ == channel_result::refused(
                        "invalid topic format, expected acp:{acp_id}"@,
                    )
                    &&& final(self).state@ == before
                } else if !info_sender {
                    &&& r is Answer
                    &&& r->Answer_0@ == channel_result::refused("failed to get info sender"@)
                    &&& final(self).state@ == before
                } else {
                    match spawn {
                        Err(e) => {
                            &&& r is Answer
                            &&& r->Answer_0@ == channel_result::refused("invalid spawn options: "@ + e@)
                            &&& final(self).state@ == connected
                        },
                        Ok(options) => if before.processes.contains_key(wanted_key(options)) {
                            &&& r is Answer
                            &&& r->Answer_0@ == JoinView::Granted(joined_json(channel_id@))
                            &&& final(self).state@ == connected.with_home(
                                channel_id@,
                                wanted_key(options),
                            )
                        } else {
                            &&& r matches JoinStep::Start { process_key, spawn_opts }
                            &&& process_key@ == wanted_key(options)
                            &&& spawn_opts == options
                            &&& final(self).state@ == connected
                        },
                    }
                }
            }),
    {
        if !text::has_prefix(topic, "acp:") {
            return JoinStep::Answer(JoinResult::refuse("invalid topic format, expected acp:{acp_id}"));
        }
        if !info_sender {
            return JoinStep::Answer(JoinResult::refuse("failed to get info sender"));
        }
        self.state.connect(channel_id.clone());
        match spawn {
            Err(e) => JoinStep::Answer(
                JoinResult::refuse(text::joined("invalid spawn options: ", e.as_str()).as_str()),
            ),
            Ok(options) => {
                let key = generate_process_key(
                    options.command.as_str(),
                    options.cwd.as_str(),
                    &Json::Null,
                );
                if self.state.processes.contains_key(key.as_str()) {
                    let answer = granted(channel_id.as_str());
                    self.state.channel_to_process.insert(channel_id, key);
                    JoinStep::Answer(answer)
                } else {
                    JoinStep::Start { process_key: key, spawn_opts: options }
                }
            },
        }
    }

    /// Goes on with a join once the agent was started, or could not be.
    pub fn process_started(
        &mut self,
        channel_id: ChannelId,
        process_key: ProcessKey,
        outcome: Result<(), String>,
    ) -> (r: JoinResult)
        requires
            old(self).state.wf(),
        ensures
            final(self).state.wf(),
            match outcome {
                Ok(_) => {
                    &&& r@ == JoinView::Granted(joined_json(channel_id@))
                    &&& final(self).state@ == old(self).state@.with_process(
                        process_key@,
                        acp_relay::new_process(process_key@, Stdin::Open),
                    ).with_home(channel_id@, process_key@)
                },
                Err(e) => {
                    &&& r@ == channel_result::refused("failed to start process: "@ + e@)
                    &&& final(self).state@ == old(self).state@
                },
            },
    {
        match outcome {
            Ok(()) => {
                self.state.processes.insert(
                    process_key.clone(),
                    ProcessState::new(process_key.clone(), Stdin::Open),
                );
                let answer = granted(channel_id.as_str());
                self.state.channel_to_process.insert(channel_id, process_key);
                answer
            },
            Err(e) => JoinResult::refuse(
                text::joined("failed to start process: ", e.as_str()).as_str(),
            ),
        }
    }

    /// Handles a message of a client. `channel_id` is absent where the join was refused.
    pub fn handle_in(
        &mut self,
        event: &str,
        payload: &Json,
        channel_id: &Option<ChannelId>,
        out: &mut Vec<RelayEffect>,
    ) -> (r: HandleResult)
        requires
            old(self).state.wf(),
        ensures
            final(self).state.wf(),
            ({
                let before = old(self).state@;
                let now = final(self).state@;
                let effects = acp_relay::effects_view(old(out)@);
                match channel_id {
                    None => {
                        &&& r@ == HandleView::Refused(
                            crate::phoenix::reason_json("no channel_id in assigns"@),
                        )
                        &&& now == before
                        &&& final(out)@ == old(out)@
                    },
                    Some(channel_id) => if event@ == "jsonrpc"@ {
                        match jsonrpc::message_of(payload@) {
                            None => {
                                &&& r@ == HandleView::Refused(crate::phoenix::reason_json(NOT_JSONRPC@))
                                &&& now == before
                                &&& final(out)@ == old(out)@
                            },
                            Some(message) => {
                                let step = acp_relay::from_client(before, channel_id@, message);
                                &&& r@ == HandleView::NoReply
                                &&& now == step.state
                                &&& acp_relay::effects_view(final(out)@) == effects + step.effects
                            },
                        }
                    } else if event@ == "exit"@ {
                        &&& r@ == HandleView::NoReply
                        &&& now == before
                        &&& acp_relay::effects_view(final(out)@) == effects + acp_relay::exit_asked(
                            before,
                            channel_id@,
                        ).effects
                    } else {
                        &&& r@ == HandleView::NoReply
                        &&& now == before
                        &&& final(out)@ == old(out)@
                    },
                }
            }),
    {
        let channel_id = match channel_id {
            Some(id) => id,
            None => {
                return HandleResult::Refused(
                    Json::object().with("reason", Json::string("no channel_id in assigns")),
                );
            },
        };
        if text::same_text(event, "jsonrpc") {
            match JsonRpcMessage::from_json(payload) {
                Some(message) => {
                    let _ = self.state.handle_client_message(channel_id.as_str(), &message, out);
                    HandleResult::NoReply
                },
                None => HandleResult::Refused(
                    Json::object().with("reason", Json::string(NOT_JSONRPC)),
                ),
            }
        } else if text::same_text(event, "exit") {
            self.state.handle_exit_request(channel_id.as_str(), out);
            HandleResult::NoReply
        } else {
            HandleResult::NoReply
        }
    }

    /// The message that tells the client what the agent's side says: its name and its payload.
    pub fn handle_info(&self, info: &AcpChannelInfo) -> (r: (&'static str, Json))
        ensures
            match info {
                AcpChannelInfo::JsonRpc(message) => {
                    &&& r.0@ == "jsonrpc"@
                    &&& r.1@ == jsonrpc::message_json(message@)
                },
                AcpChannelInfo::AgentExit(exit) => {
                    &&& r.0@ == "agent_exit"@
                    &&& r.1@ == acp_session::exit_json(exit@)
                },
            },
    {
        match info {
            AcpChannelInfo::JsonRpc(message) => ("jsonrpc", message.to_json()),
            AcpChannelInfo::AgentExit(exit) => ("agent_exit", exit.to_json()),
        }
    }

    /// A channel is gone. The result lists the sessions that it leaves behind; each is to be
    /// cancelled after ten seconds (see [`Relay::cancel_session`]).
    pub fn terminate(&mut self, channel_id: &Option<ChannelId>) -> (r: Vec<(String, u64)>)
        requires
            old(self).state.wf(),
        ensures
            final(self).state.wf(),
            match channel_id {
                Some(channel_id) => {
                    &&& final(self).state@ == acp_relay::disconnected(old(self).state@, channel_id@)
                    &&& acp_relay::counters_view(r@) == acp_relay::left_behind(
                        old(self).state@,
                        old(self).state.session_to_channel.order(),
                        channel_id@,
                    )
                },
                None => r@.len() == 0 && *final(self) == *old(self),
            },
    {
        match channel_id {
            Some(channel_id) => self.state.disconnect(channel_id.as_str()),
            None => Vec::new(),
        }
    }
}

impl Default for AcpChannel {
    fn default() -> (r: Self)
        ensures
            r.state.wf(),
            r.state@.style == Style::Channel,
            r.state@.processes == Map::<Seq<char>, acp_relay::ProcessView>::empty(),
    {
        AcpChannel::new()
    }
}

/// The members of the answer to a join: the identity of the channel, and the version.
pub proof fn lemma_joined_members(channel_id: Seq<char>)
    ensures
        joined_json(channel_id) == JsonView::Obj(
            map![
                "channel_id"@ => JsonView::Str(channel_id),
                "version"@ => JsonView::Str(acp_relay::VERSION@),
            ],
        ),
{
}

/// A join is refused with the reason if its topic has another form, if the channel cannot be told
/// anything, or if the options cannot be read. Otherwise it is granted if the agent runs, and the agent
/// is started if it does not.
pub proof fn lemma_join_call(
    channel: &mut AcpChannel,
    topic: &str,
    channel_id: ChannelId,
    info_sender: bool,
    spawn: Result<TidewaveSpawnOptions, String>,
    r: JoinStep,
)
    requires
        call_ensures(AcpChannel::join, (channel, topic, channel_id, info_sender, spawn), r),
    ensures
        ({
            let named = text::starts_with(topic@, "acp:"@);
            let before = old(channel).state@;
            let after = final(channel).state@;
            &&& !named ==> r is Answer && r->Answer_0@ == JoinView::Refused(
                JsonView::Obj(
                    map!["reason"@ => JsonView::Str("invalid topic format, expected acp:{acp_id}"@)],
                ),
            ) && after == before
            &&& named && !info_sender ==> r is Answer && r->Answer_0@ == JoinView::Refused(
                JsonView::Obj(map!["reason"@ => JsonView::Str("failed to get info sender"@)]),
            ) && after == before
            &&& named && info_sender && spawn is Err ==> r is Answer && r->Answer_0@ == JoinView::Refused(
                JsonView::Obj(
                    map!["reason"@ => JsonView::Str("invalid spawn options: "@ + spawn->Err_0@)],
                ),
            )
            &&& named && info_sender ==> after.channels == before.channels.insert(channel_id@, ())
            &&& named && info_sender && spawn is Ok ==> {
                let key = acp_relay::process_key(
                    spawn->Ok_0.command@,
                    spawn->Ok_0.cwd@,
                    JsonView::Null,
                );
                &&& before.processes.contains_key(key) ==> r is Answer && r->Answer_0@ == JoinView::Granted(
                    joined_json(channel_id@),
                ) && after.homes == before.homes.insert(channel_id@, key)
                &&& !before.processes.contains_key(key) ==> r is Start && r->process_key@ == key
                    && r->spawn_opts == spawn->Ok_0 && after.homes == before.homes
            }
        }),
{
}

/// An agent that has started runs for the channel; one that has not refuses the join with the reason.
pub proof fn lemma_started_call(
    channel: &mut AcpChannel,
    channel_id: ChannelId,
    process_key: ProcessKey,
    outcome: Result<(), String>,
    r: JoinResult,
)
    requires
        call_ensures(AcpChannel::process_started, (channel, channel_id, process_key, outcome), r),
    ensures
        outcome is Ok ==> r@ == JoinView::Granted(joined_json(channel_id@))
            && final(channel).state@.homes == old(channel).state@.homes.insert(channel_id@, process_key@)
            && final(channel).state@.processes.contains_key(process_key@)
            && final(channel).state@.processes[process_key@].stdin == Stdin::Open
            && final(channel).state@.processes[process_key@].next_proxy_id == 1,
        outcome is Err ==> r@ == JoinView::Refused(
            JsonView::Obj(
                map!["reason"@ => JsonView::Str("failed to start process: "@ + outcome->Err_0@)],
            ),
        ) && final(channel).state@ == old(channel).state@,
{
}

/// A client's JSON-RPC message is handled by the relay. One that cannot be read is refused, a request to
/// exit stops the agent of the channel, and anything else does nothing.
pub proof fn lemma_in_call(
    channel: &mut AcpChannel,
    event: &str,
    payload: &Json,
    channel_id: &Option<ChannelId>,
    out: &mut Vec<RelayEffect>,
    r: HandleResult,
)
    requires
        call_ensures(AcpChannel::handle_in, (channel, event, payload, channel_id, out), r),
    ensures
        ({
            let before = old(channel).state@;
            let after = final(channel).state@;
            let earlier = acp_relay::effects_view(old(out)@);
            let now = acp_relay::effects_view(final(out)@);
            let message = jsonrpc::message_of(payload@);
            let named = *channel_id is Some;
            let id = channel_id->0@;
            &&& !named ==> r@ == HandleView::Refused(
                JsonView::Obj(map!["reason"@ => JsonView::Str("no channel_id in assigns"@)]),
            ) && after == before && now == earlier
            &&& named && event@ == "jsonrpc"@ && message is None ==> r@ is Refused && after == before && now
                == earlier
            &&& named && event@ == "jsonrpc"@ && message is Some ==> r@ is NoReply && after
                == acp_relay::from_client(before, id, message->0).state && now == earlier
                + acp_relay::from_client(before, id, message->0).effects
            &&& named && event@ == "exit"@ ==> r@ is NoReply && after == before && now == (
            if before.homes.contains_key(id) && before.processes.contains_key(before.homes[id]) {
                earlier.push(acp_relay::EffectView::Stop { process_key: before.homes[id] })
            } else {
                earlier
            })
            &&& named && event@ != "jsonrpc"@ && event@ != "exit"@ ==> r@ is NoReply && after == before
                && now == earlier
        }),
{
    reveal_strlit("jsonrpc");
    reveal_strlit("exit");
    assert("jsonrpc"@.len() == 7);
    assert("exit"@.len() == 4);
    let earlier = acp_relay::effects_view(old(out)@);
    let before = old(channel).state@;
    let stop = acp_relay::EffectView::Stop { process_key: before.homes[channel_id->0@] };
    assert(earlier + seq![stop] =~= earlier.push(stop));
    assert(earlier + Seq::<acp_relay::EffectView>::empty() =~= earlier);
}

/// A client is pushed messages as `jsonrpc` and the end of its agent as `agent_exit`, each with what it
/// holds.
pub proof fn lemma_info_call(channel: &AcpChannel, info: &AcpChannelInfo, r: (&'static str, Json))
    requires
        call_ensures(AcpChannel::handle_info, (channel, info), r),
    ensures
        *info is JsonRpc ==> r.0@ == "jsonrpc"@ && r.1@ == jsonrpc::message_json(info->JsonRpc_0@),
        *info is AgentExit ==> r.0@ == "agent_exit"@ && r.1@ == acp_session::exit_json(info->AgentExit_0@),
{
}

} // verus!
