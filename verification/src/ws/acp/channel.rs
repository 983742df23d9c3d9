//! The life of an `acp:{id}` channel and of the agent process behind it: joining, leaving, the
//! timers that follow, and the end of the process.

use vstd::prelude::*;

use crate::acp_session;
use crate::acp_session::{ChannelId, ExitView, ProcessKey, SessionId, TidewaveExitParams};
use crate::json;
use crate::json::Json;
use crate::jsonrpc;
use crate::jsonrpc::{JsonRpcMessage, MessageView};
use crate::phoenix;
use crate::phoenix::{InitResult, InitView, PhxMessage};
use crate::registry;
use crate::registry::Registry;
use crate::text;
use crate::ws::acp;
use crate::ws::acp::process;
use crate::ws::acp::process::{ProcessState, ProcessView, Stdin};
use crate::ws::acp::proxy;
use crate::ws::acp::proxy::{AcpError, Effect, EffectView, Handled, Senders};
use crate::ws::acp::{AgentExitEvent, InitStateView, SpawnView, TidewaveSpawnOptions};
use crate::ws::{ChannelSender, SenderView};

verus! {

broadcast use crate::registry::group_viewed;

/// The agent processes and the connected channels.
pub struct AcpChannelState {
    /// The processes that clients reach, by key.
    pub processes: Registry<ProcessState>,
    /// Processes that clients do not reach any more, by generation: they are about to end or have
    /// ended, or another process that ended has taken their key from them.
    pub retired: Registry<ProcessState>,
    pub channel_senders: Registry<ChannelSender>,
    pub next_generation: u64,
}

/// The model of an [`AcpChannelState`].
pub struct AcpView {
    pub processes: Map<Seq<char>, ProcessView>,
    pub retired: Map<Seq<char>, ProcessView>,
    pub senders: Senders,
    pub next_generation: u64,
}

impl View for AcpChannelState {
    type V = AcpView;

    open spec fn view(&self) -> AcpView {
        AcpView {
            processes: registry::viewed(self.processes@),
            retired: registry::viewed(self.retired@),
            senders: registry::viewed(self.channel_senders@),
            next_generation: self.next_generation,
        }
    }
}

impl AcpView {
    /// The state with one process replaced.
    pub open spec fn with_process(self, key: Seq<char>, process: ProcessView) -> AcpView {
        AcpView { processes: self.processes.insert(key, process), ..self }
    }

    /// The state in which clients do not reach the process under this key any more, where there is
    /// one.
    pub open spec fn retire(self, key: Seq<char>) -> AcpView {
        if self.processes.contains_key(key) {
            let process = self.processes[key];
            AcpView {
                processes: self.processes.remove(key),
                retired: self.retired.insert(text::decimal(process.generation as nat), process),
                ..self
            }
        } else {
            self
        }
    }

    /// The state without one channel.
    pub open spec fn without_sender(self, channel_id: Seq<char>) -> AcpView {
        AcpView { senders: self.senders.remove(channel_id), ..self }
    }

    /// Whether clients reach the process of this generation under this key.
    pub open spec fn is_current(self, key: Seq<char>, generation: u64) -> bool {
        self.processes.contains_key(key) && self.processes[key].generation == generation
    }

    /// Whether the process of this generation is known, be it reached or retired.
    pub open spec fn knows(self, key: Seq<char>, generation: u64) -> bool {
        self.is_current(key, generation) || self.retired.contains_key(text::decimal(generation as nat))
    }

    /// The process of this generation.
    pub open spec fn process_of(self, key: Seq<char>, generation: u64) -> ProcessView {
        if self.is_current(key, generation) {
            self.processes[key]
        } else {
            self.retired[text::decimal(generation as nat)]
        }
    }

    /// The state with the process of this generation replaced, where it is known.
    pub open spec fn with_process_of(self, key: Seq<char>, generation: u64, process: ProcessView) -> AcpView {
        if self.is_current(key, generation) {
            self.with_process(key, process)
        } else if self.retired.contains_key(text::decimal(generation as nat)) {
            AcpView { retired: self.retired.insert(text::decimal(generation as nat), process), ..self }
        } else {
            self
        }
    }
}

/// What is to be done for a channel that joins.
pub enum JoinStep {
    /// Nothing: the join is refused.
    Refused(InitResult),
    /// Start a process with these options, then see [`AcpChannelState::process_started`].
    Start { process_key: ProcessKey, spawn_opts: TidewaveSpawnOptions },
    /// The process runs. See [`AcpChannelState::complete_join`].
    Ready { process_key: ProcessKey },
}

/// Whether a timer is to stop a process that nobody is connected to. It fires after a minute, and
/// then does nothing if a channel has joined since `epoch`.
#[derive(Debug, Clone, Copy, PartialEq, Eq, Structural)]
pub enum InactivityTimer {
    No,
    /// Start the timer for the process of this generation.
    Start { generation: u64, epoch: u64 },
    /// Start the timer once the agent has been initialized, if it can restore sessions.
    AfterInit { generation: u64, epoch: u64 },
}

/// What follows when a channel has left.
pub struct Leave {
    /// The sessions that belonged to the channel. After ten seconds each is to be stopped, unless
    /// a client has come back to it.
    pub sessions: Vec<(SessionId, u64)>,
    pub timer: InactivityTimer,
}

/// Why an agent process has ended.
#[derive(Debug)]
pub enum ExitReason {
    /// It exited, with a code unless a signal ended it.
    Exited { success: bool, code: Option<i32> },
    /// Its exit status could not be read.
    WaitFailed { error: String },
    /// It was stopped.
    Requested,
}

/// The streams of an agent process that are read line by line.
#[derive(Debug, Clone, Copy, PartialEq, Eq, Structural)]
pub enum OutputStream {
    Stdout,
    Stderr,
}

/// The error class and the message that tell clients why their agent has ended.
pub open spec fn exit_reason_view(reason: ExitReason) -> (Seq<char>, Seq<char>) {
    match reason {
        ExitReason::Exited { success, code } => {
            let code = match code {
                Some(c) => c as int,
                None => if success {
                    0
                } else {
                    -1int
                },
            };
            ("process_exit"@, "ACP process exited with code "@ + text::signed_decimal(code))
        },
        ExitReason::WaitFailed { error } => ("process_exit"@, "ACP process failed: "@ + error@),
        ExitReason::Requested => ("exit_requested"@, "ACP process was stopped by exit request"@),
    }
}

/// The error class and the message that tell clients why their agent has ended.
pub fn exit_reason_texts(reason: &ExitReason) -> (r: (String, String))
    ensures
        (r.0@, r.1@) == exit_reason_view(*reason),
{
    match reason {
        ExitReason::Exited { success, code } => {
            let code: i64 = match code {
                Some(c) => *c as i64,
                None => if *success {
                    0
                } else {
                    -1
                },
            };
            (
                "process_exit".to_owned(),
                text::joined("ACP process exited with code ", text::signed_text(code).as_str()),
            )
        },
        ExitReason::WaitFailed { error } => (
            "process_exit".to_owned(),
            text::joined("ACP process failed: ", error.as_str()),
        ),
        ExitReason::Requested => (
            "exit_requested".to_owned(),
            "ACP process was stopped by exit request".to_owned(),
        ),
    }
}

/// Buffered lines as one text, absent where there are none.
pub open spec fn output_text(lines: Seq<Seq<char>>) -> Option<Seq<char>> {
    if lines.len() == 0 {
        None
    } else {
        Some(text::join_views(lines, "\n"@))
    }
}

/// Buffered lines as one text, absent where there are none.
pub fn joined_output(lines: &Vec<String>) -> (r: Option<String>)
    ensures
        json::opt_text(r) == output_text(text::texts(lines@)),
{
    if lines.len() == 0 {
        None
    } else {
        Some(text::join(lines, "\n"))
    }
}

/// What clients are told when a process has ended: an agent that never answered `initialize` shows
/// what it wrote.
pub open spec fn exit_view(process: ProcessView, reason: ExitReason) -> ExitView {
    let (error, message) = exit_reason_view(reason);
    if process.init is Complete {
        ExitView { error, message, stdout: None, stderr: None }
    } else {
        ExitView { error, message, stdout: output_text(process.stdout), stderr: output_text(process.stderr) }
    }
}

/// A process to which a channel has connected.
pub open spec fn connected(process: ProcessView, channel_id: Seq<char>) -> ProcessView {
    ProcessView {
        epoch: acp_session::next_count(process.epoch),
        channels: (if process.channels.contains(channel_id) {
            process.channels
        } else {
            process.channels.push(channel_id)
        }),
        ..process
    }
}

/// A process that a channel has left.
pub open spec fn disconnected(process: ProcessView, channel_id: Seq<char>) -> ProcessView {
    ProcessView {
        channels: registry::keys_without(process.channels, channel_id),
        sessions: process::released(process.sessions, channel_id),
        ..process
    }
}

/// The state after the last step of a join: the process counts the channel among its own. A channel
/// whose process has ended meanwhile is forgotten.
pub open spec fn joined(state: AcpView, channel_id: Seq<char>, process_key: Seq<char>) -> AcpView {
    if state.processes.contains_key(process_key) {
        state.with_process(process_key, connected(state.processes[process_key], channel_id))
    } else {
        state.without_sender(channel_id)
    }
}

/// The state after a channel has left.
pub open spec fn left(state: AcpView, channel_id: Seq<char>, process_key: Seq<char>, generation: u64) -> AcpView {
    state.with_process_of(
        process_key,
        generation,
        disconnected(state.process_of(process_key, generation), channel_id),
    ).without_sender(channel_id)
}

/// A process that has ended: its sessions are gone, and nobody waits for its initialization.
pub open spec fn ended(process: ProcessView) -> ProcessView {
    ProcessView { sessions: Map::empty(), init: InitStateView::Failed, ..process }
}

/// The state after a process has ended. Whatever clients reach under its key is reached no more.
pub open spec fn exited(state: AcpView, process_key: Seq<char>, generation: u64) -> AcpView {
    state.with_process_of(
        process_key,
        generation,
        ended(state.process_of(process_key, generation)),
    ).retire(process_key)
}

/// The state after the agent of a process has sent a message. A session that a retired process makes
/// goes to the process that clients reach under the key.
pub open spec fn spoken(
    state: AcpView,
    process_key: Seq<char>,
    generation: u64,
    message: MessageView,
) -> (AcpView, Seq<EffectView>) {
    if state.is_current(process_key, generation) {
        let (after, effects) = proxy::from_process(state.processes[process_key], state.senders, message);
        (state.with_process(process_key, after), effects)
    } else if state.retired.contains_key(text::decimal(generation as nat)) {
        let process = state.retired[text::decimal(generation as nat)];
        let (after, effects) = proxy::from_retired(process, state.senders, message);
        let noted = state.with_process_of(process_key, generation, after);
        match proxy::made_elsewhere(process, message) {
            Some((session_id, channel_id)) => if state.processes.contains_key(process_key) {
                (
                    noted.with_process(
                        process_key,
                        proxy::session_created(
                            state.processes[process_key],
                            state.senders,
                            session_id,
                            channel_id,
                        ),
                    ),
                    effects,
                )
            } else {
                (noted, effects)
            },
            None => (noted, effects),
        }
    } else {
        (state, seq![])
    }
}

/// The state after a process was started.
pub open spec fn started(state: AcpView, process_key: Seq<char>, spawn: SpawnView) -> AcpView {
    AcpView {
        next_generation: acp_session::next_count(state.next_generation),
        ..state.with_process(
            process_key,
            ProcessView {
                stdin: Stdin::Open,
                ..process::new_process(process_key, spawn, state.next_generation)
            },
        )
    }
}

/// A process that has written a line which is no message: the line is kept until the agent has been
/// initialized.
pub open spec fn with_line(process: ProcessView, stream: OutputStream, line: Seq<char>) -> ProcessView {
    if process.init is Complete {
        process
    } else if stream == OutputStream::Stdout {
        ProcessView { stdout: process.stdout.push(line), ..process }
    } else {
        ProcessView { stderr: process.stderr.push(line), ..process }
    }
}

/// The timer after a channel has left: one for the process that clients reach under its key.
pub open spec fn timer_for(state: AcpView, process_key: Seq<char>) -> InactivityTimer {
    if state.processes.contains_key(process_key) {
        inactivity_timer(state.processes[process_key])
    } else {
        InactivityTimer::No
    }
}

/// The timer for a process that a channel has left.
pub open spec fn inactivity_timer(process: ProcessView) -> InactivityTimer {
    if process.channels.len() != 0 {
        InactivityTimer::No
    } else if process.init is InFlight {
        InactivityTimer::AfterInit { generation: process.generation, epoch: process.epoch }
    } else if can_restore(process) {
        InactivityTimer::Start { generation: process.generation, epoch: process.epoch }
    } else {
        InactivityTimer::No
    }
}

/// Whether the agent has said that it can restore sessions.
pub open spec fn can_restore(process: ProcessView) -> bool {
    match acp::known_capabilities(process.init) {
        Some(capabilities) => capabilities.supports_resuming,
        None => false,
    }
}

fn agent_can_restore(process: &ProcessState) -> (r: bool)
    ensures
        r == can_restore(process@),
{
    match process.init_state.capabilities() {
        Some(capabilities) => capabilities.supports_resuming,
        None => false,
    }
}

impl AcpChannelState {
    /// The tables are well formed, and each process runs under its own key.
    pub open spec fn wf(&self) -> bool {
        &&& self.processes.wf()
        &&& self.retired.wf()
        &&& self.channel_senders.wf()
        &&& forall|key: Seq<char>| #[trigger] self.retired@.contains_key(key) ==> self.retired@[key].wf()
        &&& forall|key: Seq<char>| #[trigger]
            self.processes@.contains_key(key) ==> self.processes@[key].wf() && self.processes@[key].key@ == key
    }

    /// The process of this generation.
    pub open spec fn known(&self, key: Seq<char>, generation: u64) -> ProcessState {
        if self@.is_current(key, generation) {
            self.processes@[key]
        } else {
            self.retired@[text::decimal(generation as nat)]
        }
    }

    /// No processes and no channels.
    pub fn new() -> (r: Self)
        ensures
            r.wf(),
            r@.processes == Map::<Seq<char>, ProcessView>::empty(),
            r@.retired == Map::<Seq<char>, ProcessView>::empty(),
            r@.senders == Map::<Seq<char>, SenderView>::empty(),
    {
        let r = AcpChannelState {
            processes: Registry::new(),
            retired: Registry::new(),
            channel_senders: Registry::new(),
            next_generation: 0,
        };
        assert(r@.processes =~= Map::<Seq<char>, ProcessView>::empty());
        assert(r@.retired =~= Map::<Seq<char>, ProcessView>::empty());
        assert(r@.senders =~= Map::<Seq<char>, SenderView>::empty());
        r
    }

    fn reaches(&self, process_key: &str, generation: u64) -> (r: bool)
        requires
            self.wf(),
        ensures
            r == self@.is_current(process_key@, generation),
    {
        match self.processes.get(process_key) {
            Some(process) => process.generation == generation,
            None => false,
        }
    }

    fn retire(&mut self, process_key: &str)
        requires
            old(self).wf(),
        ensures
            final(self).wf(),
            final(self)@ == old(self)@.retire(process_key@),
    {
        match self.processes.remove(process_key) {
            Some(process) => {
                self.retired.insert(text::number_text(process.generation), process);
            },
            None => {
                assert(old(self).processes@.remove(process_key@) =~= old(self).processes@);
            },
        }
    }

    /// The first step of a join. `spawn` is what the join's payload says of the process, or why it
    /// says nothing.
    pub fn begin_join(
        &mut self,
        msg: &PhxMessage,
        channel_id: ChannelId,
        spawn: Result<TidewaveSpawnOptions, String>,
    ) -> (r: JoinStep)
        requires
            old(self).wf(),
        ensures
            final(self).wf(),
            ({
                let sender = SenderView { topic: msg@.topic, join_ref: msg@.join_ref };
                if !text::starts_with(msg@.topic, "acp:"@) {
                    &&& r is Refused
                    &&& r->Refused_0@ == InitView::Error("invalid topic format, expected acp:{acp_id}"@)
                    &&& final(self)@ == old(self)@
                } else {
                    match spawn {
                        Err(e) => {
                            &&& r is Refused
                            &&& r->Refused_0@ == InitView::Error("invalid spawn options: "@ + e@)
                            &&& final(self)@ == old(self)@
                        },
                        Ok(options) => {
                            &&& final(self)@ == (AcpView {
                                senders: old(self)@.senders.insert(channel_id@, sender),
                                ..old(self)@
                            })
                            &&& match r {
                                JoinStep::Ready { process_key } => {
                                    &&& process_key@ == options.key_view()
                                    &&& old(self)@.processes.contains_key(process_key@)
                                },
                                JoinStep::Start { process_key, spawn_opts } => {
                                    &&& process_key@ == options.key_view()
                                    &&& !old(self)@.processes.contains_key(process_key@)
                                    &&& spawn_opts == options
                                },
                                JoinStep::Refused(_) => false,
                            }
                        },
                    }
                }
            }),
    {
        if !text::has_prefix(msg.topic.as_str(), "acp:") {
            return JoinStep::Refused(
                InitResult::Error("invalid topic format, expected acp:{acp_id}".to_owned()),
            );
        }
        match spawn {
            Err(e) => JoinStep::Refused(
                InitResult::Error(text::joined("invalid spawn options: ", e.as_str())),
            ),
            Ok(spawn_opts) => {
                self.channel_senders.insert(channel_id, ChannelSender::of_join(msg));
                let process_key = spawn_opts.process_key();
                if self.processes.contains_key(process_key.as_str()) {
                    JoinStep::Ready { process_key }
                } else {
                    JoinStep::Start { process_key, spawn_opts }
                }
            },
        }
    }

    /// The second step of a join that had to start a process: the process is added, or the join
    /// fails.
    pub fn process_started(
        &mut self,
        channel_id: &str,
        process_key: &ProcessKey,
        spawn_opts: TidewaveSpawnOptions,
        outcome: Result<(), String>,
    ) -> (r: Result<u64, InitResult>)
        requires
            old(self).wf(),
        ensures
            final(self).wf(),
            match outcome {
                Ok(_) => {
                    &&& r == Ok::<u64, InitResult>(old(self)@.next_generation)
                    &&& final(self)@ == started(old(self)@, process_key@, spawn_opts@)
                },
                Err(e) => {
                    &&& r is Err
                    &&& r->Err_0@ == InitView::Error("failed to start process: "@ + e@)
                    &&& final(self)@ == old(self)@.without_sender(channel_id@)
                },
            },
    {
        match outcome {
            Ok(()) => {
                let generation: u64 = self.next_generation;
                self.next_generation = generation.wrapping_add(1);
                let mut started_process = ProcessState::new(process_key.clone(), spawn_opts, generation);
                started_process.stdin = Stdin::Open;
                self.processes.insert(process_key.clone(), started_process);
                Ok(generation)
            },
            Err(e) => {
                let _ = self.channel_senders.remove(channel_id);
                Err(InitResult::Error(text::joined("failed to start process: ", e.as_str())))
            },
        }
    }

    /// The last step of a join: the channel is counted among those of its process, and the join is
    /// granted, unless the process has ended meanwhile. The result names the generation of the process.
    pub fn complete_join(&mut self, msg: &PhxMessage, channel_id: ChannelId, process_key: &str) -> (r: Result<
        (PhxMessage, u64),
        InitResult,
    >)
        requires
            old(self).wf(),
        ensures
            final(self).wf(),
            final(self)@ == joined(old(self)@, channel_id@, process_key@),
            if old(self)@.processes.contains_key(process_key@) {
                &&& r is Ok
                &&& (r->Ok_0).0@ == phoenix::reply_view(msg@, "ok"@, json::empty_object())
                &&& (r->Ok_0).1 == old(self)@.processes[process_key@].generation
            } else {
                &&& r is Err
                &&& r->Err_0@ == InitView::Error("process exited before channel init"@)
            },
    {
        match self.processes.get_mut(process_key) {
            Some(process) => {
                process.connect_epoch = process.connect_epoch.wrapping_add(1);
                process.add_channel(channel_id);
                Ok((PhxMessage::ok_reply(msg, Json::object()), process.generation))
            },
            None => {
                let _ = self.channel_senders.remove(channel_id.as_str());
                Err(InitResult::Error("process exited before channel init".to_owned()))
            },
        }
    }

    /// Handles a message that a client sends on its channel. An event other than `jsonrpc` and
    /// `exit` does nothing, nor does a payload that is not a JSON-RPC message.
    pub fn handle_incoming(
        &mut self,
        channel_id: &str,
        process_key: &str,
        msg: PhxMessage,
        out: &mut Vec<Effect>,
    ) -> (r: Result<Handled, AcpError>)
        requires
            old(self).wf(),
            msg@.event == "jsonrpc"@ ==> msg@.payload is Json,
        ensures
            final(self).wf(),
            ({
                let running = old(self)@.processes.contains_key(process_key@);
                let process = old(self)@.processes[process_key@];
                if msg@.event == "jsonrpc"@ {
                    match jsonrpc::message_of(msg@.payload->Json_0) {
                        Some(message) => if running {
                            let (after, effects) = proxy::from_client(
                                process,
                                old(self)@.senders,
                                channel_id@,
                                message,
                            );
                            &&& final(self)@ == old(self)@.with_process(process_key@, after)
                            &&& proxy::effects_view(final(out)@) == proxy::effects_view(old(out)@) + effects
                            &&& (r is Ok && r->Ok_0 is AwaitInit) == (message is Request
                                && message->Request_0.method == "initialize"@ && process.init is InFlight)
                            &&& r is Ok && r->Ok_0 is AwaitInit ==> r->Ok_0->generation
                                == process.generation
                            &&& r is Ok == (proxy::has_valid_params(message) && (proxy::is_passed_on(message)
                                ==> process.stdin == Stdin::Open))
                        } else {
                            &&& r is Err && r->Err_0 is ProcessNotFound
                            &&& r->Err_0->process_key@ == process_key@
                            &&& final(self)@ == old(self)@
                            &&& final(out)@ == old(out)@
                        },
                        None => r == Ok::<Handled, AcpError>(Handled::Done) && final(self)@ == old(self)@
                            && final(out)@ == old(out)@,
                    }
                } else {
                    &&& r == Ok::<Handled, AcpError>(Handled::Done)
                    &&& final(self)@ == old(self)@
                    &&& proxy::effects_view(final(out)@) == proxy::effects_view(old(out)@) + (if msg@.event
                        == "exit"@ && running {
                        seq![EffectView::Stop { generation: process.generation }]
                    } else {
                        seq![]
                    })
                }
            }),
    {
        proof {
            proxy::lemma_methods_differ();
        }
        if text::same_text(msg.event.as_str(), "jsonrpc") {
            let payload = msg.payload.into_json();
            match JsonRpcMessage::from_json(&payload) {
                Some(message) => {
                    match self.processes.get_mut(process_key) {
                        Some(process) => proxy::handle_client_message(
                            process,
                            &self.channel_senders,
                            channel_id,
                            message,
                            out,
                        ),
                        None => Err(AcpError::ProcessNotFound { process_key: process_key.to_owned() }),
                    }
                },
                None => Ok(Handled::Done),
            }
        } else {
            let ghost before = proxy::effects_view(out@);
            if text::same_text(msg.event.as_str(), "exit") {
                match self.processes.get(process_key) {
                    Some(process) => {
                        let generation: u64 = process.generation;
                        out.push(Effect::Stop { generation });
                        assert(proxy::effects_view(out@) =~= before + seq![EffectView::Stop { generation }]);
                    },
                    None => {
                        assert(proxy::effects_view(out@) =~= before + seq![]);
                    },
                }
            } else {
                assert(proxy::effects_view(out@) =~= before + seq![]);
            }
            Ok(Handled::Done)
        }
    }

    /// Ends a client's wait for the answer to another client's `initialize`, where it is over. The
    /// result says whether it is. A process that is not known any more counts as one whose
    /// initialization failed.
    pub fn finish_initialize(
        &self,
        channel_id: &str,
        process_key: &str,
        generation: u64,
        request_id: &Json,
        out: &mut Vec<Effect>,
    ) -> (finished: bool)
        requires
            self.wf(),
        ensures
            ({
                let init = if self@.knows(process_key@, generation) {
                    self@.process_of(process_key@, generation).init
                } else {
                    InitStateView::Failed
                };
                match proxy::wait_finished(init, self@.senders, channel_id@, request_id@) {
                    Some(effects) => finished && proxy::effects_view(final(out)@) == proxy::effects_view(
                        old(out)@,
                    ) + effects,
                    None => !finished && final(out)@ == old(out)@,
                }
            }),
    {
        let found = if self.reaches(process_key, generation) {
            self.processes.get(process_key)
        } else {
            self.retired.get(text::number_text(generation).as_str())
        };
        match found {
            Some(process) => proxy::finish_initialize(
                &process.init_state,
                &self.channel_senders,
                channel_id,
                request_id,
                out,
            ),
            None => proxy::finish_initialize(
                &acp::InitState::Failed,
                &self.channel_senders,
                channel_id,
                request_id,
                out,
            ),
        }
    }

    /// Whether the answer to `initialize` is awaited from the process of this generation.
    pub fn is_initializing(&self, process_key: &str, generation: u64) -> (r: bool)
        requires
            self.wf(),
        ensures
            r == (self@.knows(process_key@, generation) && self@.process_of(
                process_key@,
                generation,
            ).init is InFlight),
    {
        let found = if self.reaches(process_key, generation) {
            self.processes.get(process_key)
        } else {
            self.retired.get(text::number_text(generation).as_str())
        };
        match found {
            Some(process) => process.init_state.is_in_flight(),
            None => false,
        }
    }

    /// Tells a channel that its agent has ended, and ends the channel.
    pub fn agent_exited(&self, channel_id: &str, event: &AgentExitEvent, out: &mut Vec<Effect>) -> (r:
        InitResult)
        requires
            self.wf(),
        ensures
            r@ == InitView::Shutdown("agent_exit"@),
            proxy::effects_view(final(out)@) == proxy::effects_view(old(out)@) + proxy::exit_to(
                self@.senders,
                channel_id@,
                event@,
            ),
    {
        let exit = TidewaveExitParams {
            error: event.error.clone(),
            message: event.message.clone(),
            stdout: phoenix::clone_text(&event.stdout),
            stderr: phoenix::clone_text(&event.stderr),
        };
        proxy::send_agent_exit(&self.channel_senders, channel_id, &exit, out);
        InitResult::Shutdown("agent_exit".to_owned())
    }

    /// Removes a channel from the process that it has joined. Its sessions belong to nobody until a
    /// client comes back to them.
    pub fn leave(&mut self, channel_id: &str, process_key: &str, generation: u64) -> (r: Leave)
        requires
            old(self).wf(),
        ensures
            final(self).wf(),
            final(self)@ == left(old(self)@, channel_id@, process_key@, generation),
            process::counters_view(r.sessions@) == (if old(self)@.knows(process_key@, generation) {
                process::owned_by(
                    old(self).known(process_key@, generation).sessions.order(),
                    old(self)@.process_of(process_key@, generation).sessions,
                    channel_id@,
                )
            } else {
                seq![]
            }),
            r.timer == timer_for(final(self)@, process_key@),
    {
        let _ = self.channel_senders.remove(channel_id);
        let found = if self.reaches(process_key, generation) {
            self.processes.get_mut(process_key)
        } else {
            self.retired.get_mut(text::number_text(generation).as_str())
        };
        let sessions = match found {
            Some(process) => {
                process.remove_channel(channel_id);
                process.unmap_sessions_for_channel(channel_id)
            },
            None => {
                let none: Vec<(SessionId, u64)> = Vec::new();
                assert(process::counters_view(none@) =~= seq![]);
                none
            },
        };
        let timer = match self.processes.get(process_key) {
            Some(process) => {
                let generation: u64 = process.generation;
                let epoch: u64 = process.connect_epoch;
                if process.channels.len() != 0 {
                    InactivityTimer::No
                } else if process.init_state.is_in_flight() {
                    InactivityTimer::AfterInit { generation, epoch }
                } else if agent_can_restore(process) {
                    InactivityTimer::Start { generation, epoch }
                } else {
                    InactivityTimer::No
                }
            },
            None => InactivityTimer::No,
        };
        Leave { sessions, timer }
    }

    /// Stops a session of a channel that has left, unless a client has come back to it or its
    /// process has ended.
    pub fn stop_session(
        &mut self,
        process_key: &str,
        generation: u64,
        session_id: &str,
        counter: u64,
        out: &mut Vec<Effect>,
    )
        requires
            old(self).wf(),
        ensures
            final(self).wf(),
            if old(self)@.knows(process_key@, generation) {
                let (after, effects) = proxy::stopped(
                    old(self)@.process_of(process_key@, generation),
                    session_id@,
                    counter,
                );
                &&& final(self)@ == old(self)@.with_process_of(process_key@, generation, after)
                &&& proxy::effects_view(final(out)@) == proxy::effects_view(old(out)@) + effects
            } else {
                final(self)@ == old(self)@ && final(out)@ == old(out)@
            },
    {
        let found = if self.reaches(process_key, generation) {
            self.processes.get_mut(process_key)
        } else {
            self.retired.get_mut(text::number_text(generation).as_str())
        };
        match found {
            Some(process) => {
                proxy::stop_unmapped_session_if_still_disconnected(process, session_id, counter, out);
            },
            None => {},
        }
    }

    /// Stops a process that nobody has been connected to for a while. It does nothing if a channel
    /// has joined since `epoch`, or if the agent cannot restore sessions. The result says whether
    /// the process is stopped. Clients then do not reach what runs under its key any more.
    pub fn stop_after_inactivity(
        &mut self,
        process_key: &str,
        generation: u64,
        epoch: u64,
        out: &mut Vec<Effect>,
    ) -> (r: bool)
        requires
            old(self).wf(),
        ensures
            final(self).wf(),
            r == (old(self)@.knows(process_key@, generation) && old(self)@.process_of(
                process_key@,
                generation,
            ).epoch == epoch && can_restore(old(self)@.process_of(process_key@, generation))),
            final(self)@ == (if r {
                old(self)@.retire(process_key@)
            } else {
                old(self)@
            }),
            proxy::effects_view(final(out)@) == proxy::effects_view(old(out)@) + (if r {
                seq![EffectView::Stop { generation }]
            } else {
                seq![]
            }),
    {
        let found = if self.reaches(process_key, generation) {
            self.processes.get(process_key)
        } else {
            self.retired.get(text::number_text(generation).as_str())
        };
        let stop = match found {
            Some(process) => process.connect_epoch == epoch && agent_can_restore(process),
            None => false,
        };
        if stop {
            self.retire(process_key);
            out.push(Effect::Stop { generation });
            assert(proxy::effects_view(out@) =~= proxy::effects_view(old(out)@) + seq![
                EffectView::Stop { generation },
            ]);
        } else {
            assert(proxy::effects_view(out@) =~= proxy::effects_view(old(out)@) + seq![]);
        }
        stop
    }

    /// Handles a line that an agent wrote: a JSON-RPC message on its standard output, as `message`
    /// gives it, is handled, another line is kept until the agent has been initialized.
    pub fn handle_process_line(
        &mut self,
        process_key: &str,
        generation: u64,
        stream: OutputStream,
        line: String,
        message: Option<JsonRpcMessage>,
        out: &mut Vec<Effect>,
    )
        requires
            old(self).wf(),
        ensures
            final(self).wf(),
            if stream == OutputStream::Stdout && message is Some {
                let (after, effects) = spoken(old(self)@, process_key@, generation, message->0@);
                &&& final(self)@ == after
                &&& proxy::effects_view(final(out)@) == proxy::effects_view(old(out)@) + effects
            } else {
                &&& final(self)@ == old(self)@.with_process_of(
                    process_key@,
                    generation,
                    with_line(old(self)@.process_of(process_key@, generation), stream, line@),
                )
                &&& final(out)@ == old(out)@
            },
    {
        match (stream, message) {
            (OutputStream::Stdout, Some(message)) => {
                self.handle_agent_message(process_key, generation, message, out);
            },
            _ => {
                let found = if self.reaches(process_key, generation) {
                    self.processes.get_mut(process_key)
                } else {
                    self.retired.get_mut(text::number_text(generation).as_str())
                };
                match found {
                    Some(process) => {
                        keep_line(process, stream, line);
                    },
                    None => {},
                }
            },
        }
    }

    fn handle_agent_message(
        &mut self,
        process_key: &str,
        generation: u64,
        message: JsonRpcMessage,
        out: &mut Vec<Effect>,
    )
        requires
            old(self).wf(),
        ensures
            final(self).wf(),
            final(self)@ == spoken(old(self)@, process_key@, generation, message@).0,
            proxy::effects_view(final(out)@) == proxy::effects_view(old(out)@) + spoken(
                old(self)@,
                process_key@,
                generation,
                message@,
            ).1,
    {
        if self.reaches(process_key, generation) {
            match self.processes.get_mut(process_key) {
                Some(process) => {
                    proxy::handle_process_message(process, &self.channel_senders, message, out);
                },
                None => {},
            }
        } else {
            let made = match self.retired.get_mut(text::number_text(generation).as_str()) {
                Some(process) => proxy::handle_retired_message(
                    process,
                    &self.channel_senders,
                    message,
                    out,
                ),
                None => {
                    assert(proxy::effects_view(out@) =~= proxy::effects_view(old(out)@) + seq![]);
                    None
                },
            };
            match made {
                Some((session_id, channel_id)) => match self.processes.get_mut(process_key) {
                    Some(process) => {
                        proxy::create_session_from_agent_response(
                            process,
                            &self.channel_senders,
                            session_id.as_str(),
                            channel_id.as_str(),
                        );
                    },
                    None => {},
                },
                None => {},
            }
        }
    }

    /// Notes that messages cannot be written to a process any more.
    pub fn stdin_closed(&mut self, process_key: &str, generation: u64)
        requires
            old(self).wf(),
        ensures
            final(self).wf(),
            final(self)@ == old(self)@.with_process_of(
                process_key@,
                generation,
                ProcessView { stdin: Stdin::Closed, ..old(self)@.process_of(process_key@, generation) },
            ),
    {
        let found = if self.reaches(process_key, generation) {
            self.processes.get_mut(process_key)
        } else {
            self.retired.get_mut(text::number_text(generation).as_str())
        };
        match found {
            Some(process) => {
                process.stdin = Stdin::Closed;
            },
            None => {},
        }
    }

    /// Handles the end of a process. The result is what its clients are told, and who they are.
    /// Clients do not reach what runs under its key any more, even if that is another process.
    pub fn process_exited(&mut self, process_key: &str, generation: u64, reason: &ExitReason) -> (r: Option<
        (AgentExitEvent, Vec<ChannelId>),
    >)
        requires
            old(self).wf(),
        ensures
            final(self).wf(),
            final(self)@ == exited(old(self)@, process_key@, generation),
            r is Some == old(self)@.knows(process_key@, generation),
            r matches Some((event, channels)) ==> {
                &&& event@ == exit_view(old(self)@.process_of(process_key@, generation), *reason)
                &&& text::texts(channels@) == old(self)@.process_of(process_key@, generation).channels
            },
    {
        let found = if self.reaches(process_key, generation) {
            self.processes.get_mut(process_key)
        } else {
            self.retired.get_mut(text::number_text(generation).as_str())
        };
        let told = match found {
            Some(process) => {
                let (error, message) = exit_reason_texts(reason);
                let (stdout, stderr) = if process.init_state.is_complete() {
                    (None, None)
                } else {
                    (joined_output(&process.stdout_buffer), joined_output(&process.stderr_buffer))
                };
                let event = AgentExitEvent { error, message, stdout, stderr };
                let channels = process.connected_channels();
                process.sessions = Registry::new();
                process.init_state.fail();
                Some((event, channels))
            },
            None => None,
        };
        self.retire(process_key);
        told
    }

    /// Forgets a retired process that will write nothing more.
    pub fn forget(&mut self, generation: u64)
        requires
            old(self).wf(),
        ensures
            final(self).wf(),
            final(self)@ == (AcpView {
                retired: old(self)@.retired.remove(text::decimal(generation as nat)),
                ..old(self)@
            }),
    {
        let _ = self.retired.remove(text::number_text(generation).as_str());
    }
}

fn keep_line(process: &mut ProcessState, stream: OutputStream, line: String)
    requires
        old(process).wf(),
    ensures
        final(process).wf(),
        final(process).key == old(process).key,
        final(process)@ == with_line(old(process)@, stream, line@),
{
    if !process.init_state.is_complete() {
        let ghost stdout = process.stdout_buffer@;
        let ghost stderr = process.stderr_buffer@;
        match stream {
            OutputStream::Stdout => {
                process.stdout_buffer.push(line);
                assert(text::texts(process.stdout_buffer@) =~= text::texts(stdout).push(line@));
            },
            OutputStream::Stderr => {
                process.stderr_buffer.push(line);
                assert(text::texts(process.stderr_buffer@) =~= text::texts(stderr).push(line@));
            },
        }
    }
}

} // verus!
