//! What the calls of the proxy do, from a channel's join to its end.

use vstd::prelude::*;

use crate::acp_session;
use crate::acp_session::ProcessKey;
use crate::json;
use crate::json::{Json, JsonView};
use crate::jsonrpc;
use crate::jsonrpc::{JsonRpcMessage, JsonRpcResponse};
use crate::phoenix;
use crate::phoenix::{InitResult, InitView, PhxMessage};
use crate::text;
use crate::ws::acp;
use crate::ws::acp::channel;
use crate::ws::acp::channel::{AcpView, ExitReason, JoinStep, Leave, OutputStream};
use crate::ws::acp::process::{ProcessView, Stdin};
use crate::ws::acp::proxy;
use crate::ws::acp::proxy::{AcpError, Effect, EffectView, Handled};
use crate::ws::acp::routing;
use crate::ws::acp::{
    AcpChannelState, AgentCapabilities, AgentExitEvent, BeginInit, CompleteView, InitComplete, InitState, InitStateView,
    TidewaveSpawnOptions,
};
use crate::ws::SenderView;

verus! {

/// A join of a topic of another form, or with options that cannot be read, is refused with the reason
/// and leaves nothing. Otherwise the channel can be reached, and its process is looked for under the
/// command and the directory: it is started if it does not run.
pub proof fn lemma_begin_join_call(
    state: &mut AcpChannelState,
    msg: &PhxMessage,
    channel_id: String,
    spawn: Result<TidewaveSpawnOptions, String>,
    r: JoinStep,
)
    requires
        call_ensures(AcpChannelState::begin_join, (state, msg, channel_id, spawn), r),
    ensures
        ({
            let named = text::starts_with(msg@.topic, "acp:"@);
            let before = old(state)@;
            let after = final(state)@;
            &&& !named ==> r is Refused && r->Refused_0@ == InitView::Error(
                "invalid topic format, expected acp:{acp_id}"@,
            ) && after == before
            &&& named && spawn is Err ==> r is Refused && r->Refused_0@ == InitView::Error(
                "invalid spawn options: "@ + spawn->Err_0@,
            ) && after == before
            &&& named && spawn is Ok ==> {
                let key = spawn->Ok_0.command@ + ":"@ + spawn->Ok_0.cwd@;
                &&& after == (AcpView {
                    senders: before.senders.insert(
                        channel_id@,
                        SenderView { topic: msg@.topic, join_ref: msg@.join_ref },
                    ),
                    ..before
                })
                &&& before.processes.contains_key(key) ==> r is Ready && r->Ready_process_key@ == key
                &&& !before.processes.contains_key(key) ==> r is Start && r->Start_process_key@ == key
                    && r->spawn_opts == spawn->Ok_0
            }
        }),
{
}

/// A process that has started runs under its key with a generation of its own, which the call gives. One
/// that could not be started refuses the join with the reason, and the channel is forgotten.
pub proof fn lemma_started_call(
    state: &mut AcpChannelState,
    channel_id: &str,
    process_key: &ProcessKey,
    spawn_opts: TidewaveSpawnOptions,
    outcome: Result<(), String>,
    r: Result<u64, InitResult>,
)
    requires
        call_ensures(
            AcpChannelState::process_started,
            (state, channel_id, process_key, spawn_opts, outcome),
            r,
        ),
    ensures
        outcome is Ok ==> {
            &&& r is Ok
            &&& r->Ok_0 == old(state)@.next_generation
            &&& final(state)@.processes.contains_key(process_key@)
            &&& final(state)@.processes[process_key@].generation == r->Ok_0
            &&& final(state)@.processes[process_key@].stdin == Stdin::Open
            &&& final(state)@.senders == old(state)@.senders
        },
        outcome is Err ==> {
            &&& r is Err
            &&& r->Err_0@ == InitView::Error("failed to start process: "@ + outcome->Err_0@)
            &&& final(state)@.processes == old(state)@.processes
            &&& !final(state)@.senders.contains_key(channel_id@)
        },
{
}

/// A join is granted with an empty answer, for the process that runs then. Where it has ended meanwhile
/// the join is refused.
pub proof fn lemma_complete_join_call(
    state: &mut AcpChannelState,
    msg: &PhxMessage,
    channel_id: String,
    process_key: &str,
    r: Result<(PhxMessage, u64), InitResult>,
)
    requires
        call_ensures(AcpChannelState::complete_join, (state, msg, channel_id, process_key), r),
    ensures
        ({
            let runs = old(state)@.processes.contains_key(process_key@);
            &&& runs ==> r is Ok && (r->Ok_0).0@ == phoenix::reply_view(
                msg@,
                "ok"@,
                JsonView::Obj(Map::<Seq<char>, JsonView>::empty()),
            ) && (r->Ok_0).1 == old(state)@.processes[process_key@].generation
            &&& runs ==> final(state)@.processes[process_key@].channels.contains(channel_id@)
            &&& !runs ==> r is Err && r->Err_0@ == InitView::Error("process exited before channel init"@)
            &&& !runs ==> !final(state)@.senders.contains_key(channel_id@)
        }),
{
    let before = old(state)@.processes[process_key@];
    let after = final(state)@.processes[process_key@];
    if old(state)@.processes.contains_key(process_key@) && !before.channels.contains(channel_id@) {
        assert(after.channels[before.channels.len() as int] == channel_id@);
    }
}

/// A client's message on its channel: a JSON-RPC message is handled for the process of the channel. A
/// request to exit stops that process. Whatever cannot be read, or is something else, does nothing.
pub proof fn lemma_incoming_call(
    state: &mut AcpChannelState,
    channel_id: &str,
    process_key: &str,
    msg: PhxMessage,
    out: &mut Vec<Effect>,
    r: Result<Handled, AcpError>,
)
    requires
        call_ensures(AcpChannelState::handle_incoming, (state, channel_id, process_key, msg, out), r),
    ensures
        ({
            let before = old(state)@;
            let runs = before.processes.contains_key(process_key@);
            let process = before.processes[process_key@];
            let message = jsonrpc::message_of(msg@.payload->Json_0);
            let spoken = msg@.event == "jsonrpc"@;
            let earlier = proxy::effects_view(old(out)@);
            let now = proxy::effects_view(final(out)@);
            &&& spoken && message is Some && runs ==> {
                &&& final(state)@ == (AcpView {
                    processes: before.processes.insert(
                        process_key@,
                        proxy::from_client(process, before.senders, channel_id@, message->0).0,
                    ),
                    ..before
                })
                &&& now == earlier + proxy::from_client(process, before.senders, channel_id@, message->0).1
            }
            &&& spoken && message is Some && !runs ==> {
                &&& r is Err && r->Err_0 is ProcessNotFound
                &&& final(state)@ == before && now == earlier
            }
            &&& spoken && message is None ==> {
                &&& r is Ok && r->Ok_0 is Done
                &&& final(state)@ == before && now == earlier
            }
            &&& !spoken ==> r is Ok && r->Ok_0 is Done && final(state)@ == before
            &&& msg@.event == "exit"@ && runs ==> now == earlier.push(
                EffectView::Stop { generation: process.generation },
            )
            &&& msg@.event == "exit"@ && !runs ==> now == earlier
            &&& !spoken && msg@.event != "exit"@ ==> now == earlier
        }),
{
    reveal_strlit("jsonrpc");
    reveal_strlit("exit");
    assert("jsonrpc"@.len() == 7);
    assert("exit"@.len() == 4);
    let earlier = proxy::effects_view(old(out)@);
    let process = old(state)@.processes[process_key@];
    let stop = EffectView::Stop { generation: process.generation };
    assert(earlier + seq![stop] =~= earlier.push(stop));
    assert(earlier + Seq::<EffectView>::empty() =~= earlier);
}

/// A client that waits for the answer to `initialize` gets it when it is there, under its own identity,
/// and is told if it will never come. Until then it waits.
pub proof fn lemma_finish_initialize_call(
    state: &AcpChannelState,
    channel_id: &str,
    process_key: &str,
    generation: u64,
    request_id: &Json,
    out: &mut Vec<Effect>,
    finished: bool,
)
    requires
        call_ensures(
            AcpChannelState::finish_initialize,
            (state, channel_id, process_key, generation, request_id, out),
            finished,
        ),
    ensures
        ({
            let known = state@.knows(process_key@, generation);
            let init = state@.process_of(process_key@, generation).init;
            &&& finished <==> !known || init is Complete || init is Failed
            &&& !finished ==> final(out)@ == old(out)@
        }),
{
}

/// The end of an agent is told to its channel as `agent_exit`, and ends the channel.
pub proof fn lemma_agent_exited_call(
    state: &AcpChannelState,
    channel_id: &str,
    event: &AgentExitEvent,
    out: &mut Vec<Effect>,
    r: InitResult,
)
    requires
        call_ensures(AcpChannelState::agent_exited, (state, channel_id, event, out), r),
    ensures
        r@ == InitView::Shutdown("agent_exit"@),
        state@.senders.contains_key(channel_id@) ==> proxy::effects_view(final(out)@) == proxy::effects_view(
            old(out)@,
        ).push(
            routing::push_on(state@.senders, channel_id@, "agent_exit"@, acp_session::exit_json(event@)),
        ),
        !state@.senders.contains_key(channel_id@) ==> proxy::effects_view(final(out)@)
            == proxy::effects_view(old(out)@),
{
    let earlier = proxy::effects_view(old(out)@);
    let told = routing::push_on(state@.senders, channel_id@, "agent_exit"@, acp_session::exit_json(event@));
    assert(earlier + seq![told] =~= earlier.push(told));
    assert(earlier + Seq::<EffectView>::empty() =~= earlier);
}

/// A process that nobody has come back to is stopped if it can restore its sessions and nobody has joined
/// it since; its key is free then. Otherwise nothing happens.
pub proof fn lemma_inactivity_call(
    state: &mut AcpChannelState,
    process_key: &str,
    generation: u64,
    epoch: u64,
    out: &mut Vec<Effect>,
    r: bool,
)
    requires
        call_ensures(
            AcpChannelState::stop_after_inactivity,
            (state, process_key, generation, epoch, out),
            r,
        ),
    ensures
        ({
            let before = old(state)@;
            let process = before.process_of(process_key@, generation);
            let earlier = proxy::effects_view(old(out)@);
            &&& r <==> before.knows(process_key@, generation) && process.epoch == epoch && process.init
                is Complete && process.init->Complete_0.capabilities.supports_resuming
            &&& r ==> proxy::effects_view(final(out)@) == earlier.push(EffectView::Stop { generation })
                && !final(state)@.processes.contains_key(process_key@)
            &&& !r ==> proxy::effects_view(final(out)@) == earlier && final(state)@ == before
        }),
{
    let earlier = proxy::effects_view(old(out)@);
    let stop = EffectView::Stop { generation };
    assert(earlier + seq![stop] =~= earlier.push(stop));
    assert(earlier + Seq::<EffectView>::empty() =~= earlier);
}

/// What a process prints on its standard output is handled as a message if it is one. Everything else is
/// kept as a line, and tells nobody anything.
pub proof fn lemma_line_call(
    state: &mut AcpChannelState,
    process_key: &str,
    generation: u64,
    stream: OutputStream,
    line: String,
    message: Option<JsonRpcMessage>,
    out: &mut Vec<Effect>,
)
    requires
        call_ensures(
            AcpChannelState::handle_process_line,
            (state, process_key, generation, stream, line, message, out),
            (),
        ),
    ensures
        ({
            let before = old(state)@;
            &&& stream == OutputStream::Stdout && message is Some ==> final(state)@ == channel::spoken(
                before,
                process_key@,
                generation,
                message->0@,
            ).0 && proxy::effects_view(final(out)@) == proxy::effects_view(old(out)@) + channel::spoken(
                before,
                process_key@,
                generation,
                message->0@,
            ).1
            &&& stream == OutputStream::Stderr || message is None ==> final(out)@ == old(out)@
                && final(state)@ == before.with_process_of(
                process_key@,
                generation,
                channel::with_line(before.process_of(process_key@, generation), stream, line@),
            )
        }),
{
}

/// A process whose input is closed cannot be written to, and is as before otherwise.
pub proof fn lemma_stdin_call(state: &mut AcpChannelState, process_key: &str, generation: u64)
    requires
        call_ensures(AcpChannelState::stdin_closed, (state, process_key, generation), ()),
        old(state)@.processes.contains_key(process_key@),
        old(state)@.processes[process_key@].generation == generation,
    ensures
        final(state)@.processes == old(state)@.processes.insert(
            process_key@,
            ProcessView { stdin: Stdin::Closed, ..old(state)@.processes[process_key@] },
        ),
        final(state)@.senders == old(state)@.senders,
        final(state)@.retired == old(state)@.retired,
{
}

/// The end of a process is told to all its channels, with the reason and what is known of its output.
pub proof fn lemma_process_exited_call(
    state: &mut AcpChannelState,
    process_key: &str,
    generation: u64,
    reason: &ExitReason,
    r: Option<(AgentExitEvent, Vec<String>)>,
)
    requires
        call_ensures(AcpChannelState::process_exited, (state, process_key, generation, reason), r),
    ensures
        ({
            let before = old(state)@;
            let process = before.process_of(process_key@, generation);
            &&& r is Some <==> before.knows(process_key@, generation)
            &&& r is Some ==> (r->0).0@ == channel::exit_view(process, *reason)
            &&& r is Some ==> text::texts((r->0).1@) == process.channels
            &&& final(state)@.senders == before.senders
        }),
{
}

/// A channel that leaves cannot be reached, and the timer for its process is that of the state without
/// it.
pub proof fn lemma_leave_call(
    state: &mut AcpChannelState,
    channel_id: &str,
    process_key: &str,
    generation: u64,
    r: Leave,
)
    requires
        call_ensures(AcpChannelState::leave, (state, channel_id, process_key, generation), r),
    ensures
        !final(state)@.senders.contains_key(channel_id@),
        r.timer == channel::timer_for(final(state)@, process_key@),
        !old(state)@.knows(process_key@, generation) ==> r.sessions@.len() == 0,
{
    if !old(state)@.knows(process_key@, generation) {
        assert(crate::ws::acp::process::counters_view(r.sessions@).len() == r.sessions@.len());
    }
}

/// Stopping a session concerns the process that it lives in; one that is not known is left alone.
pub proof fn lemma_stop_session_call(
    state: &mut AcpChannelState,
    process_key: &str,
    generation: u64,
    session_id: &str,
    counter: u64,
    out: &mut Vec<Effect>,
)
    requires
        call_ensures(
            AcpChannelState::stop_session,
            (state, process_key, generation, session_id, counter, out),
            (),
        ),
    ensures
        ({
            let before = old(state)@;
            let known = before.knows(process_key@, generation);
            let process = before.process_of(process_key@, generation);
            &&& known ==> final(state)@ == before.with_process_of(
                process_key@,
                generation,
                proxy::stopped(process, session_id@, counter).0,
            ) && proxy::effects_view(final(out)@) == proxy::effects_view(old(out)@) + proxy::stopped(
                process,
                session_id@,
                counter,
            ).1
            &&& !known ==> final(state)@ == before && final(out)@ == old(out)@
        }),
{
}

/// The key of a process is its command and its directory, with a colon between them.
pub proof fn lemma_key_call(options: &TidewaveSpawnOptions, r: String)
    requires
        call_ensures(TidewaveSpawnOptions::process_key, (options,), r),
    ensures
        r@ == options.command@ + seq![':'] + options.cwd@,
{
    reveal_strlit(":");
    assert(":"@ =~= seq![':']);
}

/// The first who wants to initialize an agent starts, and the others wait, take the answer or give up,
/// according to how far it has come.
pub proof fn lemma_begin_call(init: &mut InitState, request_id: Json, r: BeginInit)
    requires
        call_ensures(InitState::begin, (init, request_id), r),
    ensures
        r is Start <==> old(init)@ is NotStarted,
        r is Wait <==> old(init)@ is InFlight,
        r is Complete <==> old(init)@ is Complete,
        r is Failed <==> old(init)@ is Failed,
        r is Start ==> final(init)@ == InitStateView::InFlight(request_id@),
        !(r is Start) ==> final(init)@ == old(init)@,
        r is Complete ==> r->Complete_0@ == old(init)@->Complete_0,
{
}

/// The answer that the state waits for completes it; no other answer changes it.
pub proof fn lemma_complete_call(
    init: &mut InitState,
    request_id: &Json,
    response: JsonRpcResponse,
    capabilities: AgentCapabilities,
    r: bool,
)
    requires
        call_ensures(InitState::complete_if_current, (init, request_id, response, capabilities), r),
    ensures
        r <==> old(init)@ is InFlight && json::id_text(old(init)@->InFlight_0) == json::id_text(request_id@),
        r ==> final(init)@ == InitStateView::Complete(CompleteView { response: response@, capabilities }),
        !r ==> final(init)@ == old(init)@,
{
}

/// What a state says of itself.
pub proof fn lemma_state_calls(
    init: &InitState,
    waited: Option<Option<InitComplete>>,
    in_flight: bool,
    complete: bool,
    capabilities: Option<AgentCapabilities>,
)
    requires
        call_ensures(InitState::wait_for_completion, (init,), waited),
        call_ensures(InitState::is_in_flight, (init,), in_flight),
        call_ensures(InitState::is_complete, (init,), complete),
        call_ensures(InitState::capabilities, (init,), capabilities),
    ensures
        waited is None <==> init@ is NotStarted || init@ is InFlight,
        waited is Some && waited->0 is None <==> init@ is Failed,
        waited is Some && waited->0 is Some ==> init@ is Complete && waited->0->0@ == init@->Complete_0,
        in_flight == (init@ is InFlight),
        complete == (init@ is Complete),
        capabilities is Some <==> init@ is Complete,
        capabilities is Some ==> capabilities->0 == init@->Complete_0.capabilities,
{
}

/// The capabilities of an agent are those that its answer to `initialize` shows.
pub proof fn lemma_capability_calls(
    response: &JsonRpcResponse,
    resuming: bool,
    closing: bool,
    both: AgentCapabilities,
)
    requires
        call_ensures(acp::check_supports_resuming, (response,), resuming),
        call_ensures(acp::check_supports_session_close, (response,), closing),
        call_ensures(AgentCapabilities::from_response, (response,), both),
    ensures
        both.supports_resuming == resuming,
        both.supports_session_close == closing,
        resuming == acp::supports_resuming(response@.result),
        closing == acp::supports_session_close(response@.result),
{
}

} // verus!
