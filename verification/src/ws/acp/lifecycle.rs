//! How channels and agent processes come and go.

use vstd::prelude::*;

use crate::jsonrpc::MessageView;
use crate::registry;
use crate::text;
use crate::ws::acp;
use crate::ws::acp::channel;
use crate::ws::acp::channel::{AcpView, ExitReason, InactivityTimer, OutputStream};
use crate::ws::acp::process;
use crate::ws::acp::process::{ProcessView, Stdin};
use crate::ws::acp::proxy;
use crate::ws::acp::routing;
use crate::ws::acp::{EntryView, SpawnView};

verus! {

// ---------------------------------------------------------------------------
// Channels
// ---------------------------------------------------------------------------

/// A channel that joins is connected afterwards, and every other channel is as it was. Joining
/// again adds nothing. The sessions, the requests and the agent stay as they are.
pub proof fn lemma_joining(process: ProcessView, channel_id: Seq<char>)
    requires
        process.epoch < u64::MAX,
    ensures
        ({
            let after = channel::connected(process, channel_id);
            &&& forall|other: Seq<char>| #[trigger]
                after.channels.contains(other) <==> other == channel_id || process.channels.contains(other)
            &&& process.channels.contains(channel_id) ==> after.channels == process.channels
            &&& !process.channels.contains(channel_id) ==> after.channels.len() == process.channels.len()
                + 1
            &&& after.epoch == process.epoch + 1
            &&& after.sessions == process.sessions
            &&& after.inflight == process.inflight
            &&& after.next_proxy_id == process.next_proxy_id
            &&& routing::same_otherwise(
                process,
                ProcessView { epoch: process.epoch, channels: process.channels, ..after },
            )
        }),
{
    let after = channel::connected(process, channel_id);
    assert forall|other: Seq<char>| #[trigger] after.channels.contains(other) <==> other == channel_id
        || process.channels.contains(other) by {
        if !process.channels.contains(channel_id) {
            assert(after.channels == process.channels.push(channel_id));
            if process.channels.contains(other) {
                let at = process.channels.index_of(other);
                assert(after.channels[at] == other);
            }
            if other == channel_id {
                assert(after.channels[process.channels.len() as int] == other);
            }
        }
    }
}

/// A channel that leaves is not connected afterwards, and every other channel is. The sessions that
/// it had stay, with what they hold, and nobody has them; those of others keep their client.
pub proof fn lemma_leaving(process: ProcessView, channel_id: Seq<char>, session_id: Seq<char>)
    requires
        process.channels.no_duplicates(),
    ensures
        ({
            let after = channel::disconnected(process, channel_id);
            let before = process.sessions[session_id];
            &&& forall|other: Seq<char>| #[trigger]
                after.channels.contains(other) <==> other != channel_id && process.channels.contains(other)
            &&& after.sessions.dom() == process.sessions.dom()
            &&& process.sessions.contains_key(session_id) ==> after.sessions[session_id] == (EntryView {
                state: before.state,
                channel_id: if before.channel_id == Some(channel_id) {
                    None
                } else {
                    before.channel_id
                },
            })
            &&& after.inflight == process.inflight
            &&& after.next_proxy_id == process.next_proxy_id
            &&& routing::same_otherwise(process, ProcessView { channels: process.channels, ..after })
        }),
{
    let after = channel::disconnected(process, channel_id);
    assert(after.sessions.dom() =~= process.sessions.dom());
    registry::lemma_keys_without(process.channels, channel_id);
}

/// A join ends in the process that runs under the key. Without one, the channel is forgotten.
pub proof fn lemma_join(state: AcpView, channel_id: Seq<char>, process_key: Seq<char>)
    ensures
        ({
            let after = channel::joined(state, channel_id, process_key);
            &&& state.processes.contains_key(process_key) ==> after.processes.contains_key(process_key)
                && after.processes[process_key] == channel::connected(
                state.processes[process_key],
                channel_id,
            ) && after.senders == state.senders
            &&& !state.processes.contains_key(process_key) ==> after.processes == state.processes
                && !after.senders.contains_key(channel_id)
            &&& forall|other: Seq<char>|
                other != process_key ==> (#[trigger] after.processes.contains_key(other)
                    == state.processes.contains_key(other)) && (state.processes.contains_key(other)
                    ==> after.processes[other] == state.processes[other])
            &&& forall|other: Seq<char>|
                other != channel_id ==> (#[trigger] after.senders.contains_key(other)
                    == state.senders.contains_key(other)) && (state.senders.contains_key(other)
                    ==> after.senders[other] == state.senders[other])
            &&& after.retired == state.retired
            &&& after.next_generation == state.next_generation
        }),
{
}

/// A channel that leaves cannot be reached any more, and it leaves the process that it had joined,
/// though the process may have been given up since.
pub proof fn lemma_leave(state: AcpView, channel_id: Seq<char>, process_key: Seq<char>, generation: u64)
    ensures
        ({
            let after = channel::left(state, channel_id, process_key, generation);
            let number = text::decimal(generation as nat);
            let current = state.processes.contains_key(process_key)
                && state.processes[process_key].generation == generation;
            &&& !after.senders.contains_key(channel_id)
            &&& forall|other: Seq<char>|
                other != channel_id ==> (#[trigger] after.senders.contains_key(other)
                    == state.senders.contains_key(other)) && (state.senders.contains_key(other)
                    ==> after.senders[other] == state.senders[other])
            &&& current ==> after.processes == state.processes.insert(
                process_key,
                channel::disconnected(state.processes[process_key], channel_id),
            ) && after.retired == state.retired
            &&& !current && state.retired.contains_key(number) ==> after.retired == state.retired.insert(
                number,
                channel::disconnected(state.retired[number], channel_id),
            ) && after.processes == state.processes
            &&& !current && !state.retired.contains_key(number) ==> after.processes == state.processes
                && after.retired == state.retired
            &&& after.next_generation == state.next_generation
        }),
{
}

// ---------------------------------------------------------------------------
// Processes
// ---------------------------------------------------------------------------

/// A process that has started can be written to, has no session, no request in flight and no
/// channel, and has not been initialized. Its first request gets the number one. Its generation is
/// new, and so is that of the next one.
pub proof fn lemma_start(state: AcpView, process_key: Seq<char>, spawn: SpawnView)
    requires
        state.next_generation < u64::MAX,
    ensures
        ({
            let after = channel::started(state, process_key, spawn);
            let process = after.processes[process_key];
            &&& after.processes.contains_key(process_key)
            &&& process.key == process_key
            &&& process.spawn == spawn
            &&& process.generation == state.next_generation
            &&& process.stdin == Stdin::Open
            &&& process.next_proxy_id == 1
            &&& process.inflight.dom() == Set::<Seq<char>>::empty()
            &&& process.sessions.dom() == Set::<Seq<char>>::empty()
            &&& process.init is NotStarted
            &&& process.stdout.len() == 0
            &&& process.stderr.len() == 0
            &&& process.channels.len() == 0
            &&& process.epoch == 0
            &&& after.next_generation == state.next_generation + 1
            &&& after.senders == state.senders
            &&& after.retired == state.retired
            &&& forall|other: Seq<char>|
                other != process_key ==> (#[trigger] after.processes.contains_key(other)
                    == state.processes.contains_key(other)) && (state.processes.contains_key(other)
                    ==> after.processes[other] == state.processes[other])
        }),
{
    let process = channel::started(state, process_key, spawn).processes[process_key];
    assert(process.inflight.dom() =~= Set::<Seq<char>>::empty());
    assert(process.sessions.dom() =~= Set::<Seq<char>>::empty());
}

/// A process that is given up keeps its state under its generation, and its key is free.
pub proof fn lemma_retire(state: AcpView, process_key: Seq<char>)
    requires
        state.processes.contains_key(process_key),
    ensures
        ({
            let after = state.retire(process_key);
            let process = state.processes[process_key];
            &&& after.processes == state.processes.remove(process_key)
            &&& after.retired == state.retired.insert(text::decimal(process.generation as nat), process)
            &&& after.senders == state.senders
            &&& after.next_generation == state.next_generation
            &&& after.knows(process_key, process.generation)
            &&& after.process_of(process_key, process.generation) == process
        }),
{
}

/// A process that has ended has no session and cannot be initialized, and no new channel finds it.
/// What it still has in flight stays with it.
pub proof fn lemma_exit(state: AcpView, process_key: Seq<char>, generation: u64)
    requires
        state.processes.contains_key(process_key),
        state.processes[process_key].generation == generation,
    ensures
        ({
            let after = channel::exited(state, process_key, generation);
            let before = state.processes[process_key];
            let number = text::decimal(generation as nat);
            let now = after.retired[number];
            &&& after.processes == state.processes.remove(process_key)
            &&& after.retired.contains_key(number)
            &&& now.init is Failed
            &&& now.sessions.dom() == Set::<Seq<char>>::empty()
            &&& now.inflight == before.inflight
            &&& now.channels == before.channels
            &&& now.generation == generation
            &&& after.senders == state.senders
            &&& after.next_generation == state.next_generation
        }),
{
    let after = channel::exited(state, process_key, generation);
    assert(after.processes =~= state.processes.remove(process_key));
    let now = after.retired[text::decimal(generation as nat)];
    assert(now.sessions.dom() =~= Set::<Seq<char>>::empty());
}

/// The process of a generation is the one that runs under the key, or one that was given up. A
/// generation that is neither is not known, and nothing can be kept for it.
pub proof fn lemma_generations(state: AcpView, process_key: Seq<char>, generation: u64, process: ProcessView)
    ensures
        ({
            let number = text::decimal(generation as nat);
            let current = state.processes.contains_key(process_key)
                && state.processes[process_key].generation == generation;
            let kept = state.with_process_of(process_key, generation, process);
            &&& state.is_current(process_key, generation) == current
            &&& state.knows(process_key, generation) == (current || state.retired.contains_key(number))
            &&& current ==> state.process_of(process_key, generation) == state.processes[process_key]
            &&& !current && state.retired.contains_key(number) ==> state.process_of(
                process_key,
                generation,
            ) == state.retired[number]
            &&& state.knows(process_key, generation) && process.generation == generation
                ==> kept.process_of(process_key, generation) == process
            &&& !state.knows(process_key, generation) ==> kept == state
            &&& kept.senders == state.senders
            &&& kept.next_generation == state.next_generation
            &&& current ==> kept.retired == state.retired
            &&& !current ==> kept.processes == state.processes
        }),
{
}

/// What a process says is handled in its own state. A process that is not known is not heard. What
/// one that was given up says of a session that it made is noted in the process that runs now.
pub proof fn lemma_speech(state: AcpView, process_key: Seq<char>, generation: u64, message: MessageView)
    ensures
        ({
            let (after, effects) = channel::spoken(state, process_key, generation, message);
            let number = text::decimal(generation as nat);
            let current = state.processes.contains_key(process_key)
                && state.processes[process_key].generation == generation;
            &&& after.senders == state.senders
            &&& after.next_generation == state.next_generation
            &&& current ==> {
                &&& effects == proxy::from_process(state.processes[process_key], state.senders, message).1
                &&& after.processes == state.processes.insert(
                    process_key,
                    proxy::from_process(state.processes[process_key], state.senders, message).0,
                )
                &&& after.retired == state.retired
            }
            &&& !current && !state.retired.contains_key(number) ==> effects.len() == 0 && after == state
            &&& !current && state.retired.contains_key(number) ==> {
                &&& effects == proxy::from_retired(state.retired[number], state.senders, message).1
                &&& after.retired == state.retired.insert(
                    number,
                    proxy::from_retired(state.retired[number], state.senders, message).0,
                )
                &&& match proxy::made_elsewhere(state.retired[number], message) {
                    Some((session_id, channel_id)) => if state.processes.contains_key(process_key) {
                        after.processes == state.processes.insert(
                            process_key,
                            proxy::session_created(
                                state.processes[process_key],
                                state.senders,
                                session_id,
                                channel_id,
                            ),
                        )
                    } else {
                        after.processes == state.processes
                    },
                    None => after.processes == state.processes,
                }
            }
        }),
{
}

// ---------------------------------------------------------------------------
// Output and exit
// ---------------------------------------------------------------------------

/// A line that an agent prints before it is initialized is kept at the end of the stream that it came
/// on, and only there. Later lines are not kept.
pub proof fn lemma_line_is_kept(process: ProcessView, line: Seq<char>)
    ensures
        ({
            let out = channel::with_line(process, OutputStream::Stdout, line);
            let err = channel::with_line(process, OutputStream::Stderr, line);
            &&& process.init is Complete ==> out == process && err == process
            &&& !(process.init is Complete) ==> {
                &&& out == (ProcessView { stdout: process.stdout.push(line), ..process })
                &&& err == (ProcessView { stderr: process.stderr.push(line), ..process })
            }
        }),
{
}

/// The text of an agent's output: nothing without a line, and otherwise the lines with a line break
/// between each two of them.
pub proof fn lemma_output_text(lines: Seq<Seq<char>>, line: Seq<char>)
    ensures
        channel::output_text(Seq::<Seq<char>>::empty()) is None,
        channel::output_text(seq![line]) == Some(line),
        lines.len() > 0 ==> channel::output_text(lines) is Some && channel::output_text(lines.push(line))
            == Some(channel::output_text(lines)->0 + seq!['\n'] + line),
{
    reveal_strlit("\n");
    assert("\n"@ =~= seq!['\n']);
    assert(lines.push(line).drop_last() =~= lines);
    assert(text::join_views(seq![line], "\n"@) =~= line);
}

/// Why an agent has ended, as clients are told: by its exit code, by the error that came up, or at a
/// client's request. A process that a signal ended has no code: it counts as -1, or as 0 if it
/// succeeded.
pub proof fn lemma_exit_reason(success: bool, code: Option<i32>, error: String)
    ensures
        channel::exit_reason_view(ExitReason::Exited { success, code }).0 == "process_exit"@,
        code is Some ==> channel::exit_reason_view(ExitReason::Exited { success, code }).1
            == "ACP process exited with code "@ + text::signed_decimal(code->0 as int),
        code is None && success ==> channel::exit_reason_view(ExitReason::Exited { success, code }).1
            == "ACP process exited with code 0"@,
        code is None && !success ==> channel::exit_reason_view(ExitReason::Exited { success, code }).1
            == "ACP process exited with code -1"@,
        channel::exit_reason_view(ExitReason::WaitFailed { error }) == (
            "process_exit"@,
            "ACP process failed: "@ + error@,
        ),
        channel::exit_reason_view(ExitReason::Requested) == (
            "exit_requested"@,
            "ACP process was stopped by exit request"@,
        ),
{
    reveal_strlit("ACP process exited with code ");
    reveal_strlit("ACP process exited with code 0");
    reveal_strlit("ACP process exited with code -1");
    assert(text::signed_decimal(0) =~= seq!['0']);
    assert(text::signed_decimal(-1) =~= seq!['-', '1']);
    assert("ACP process exited with code "@ + seq!['0'] =~= "ACP process exited with code 0"@);
    assert("ACP process exited with code "@ + seq!['-', '1'] =~= "ACP process exited with code -1"@);
}

/// A client is told why its agent has ended. What the agent printed goes with it only if the agent
/// never came to answer `initialize`.
pub proof fn lemma_exit_output(process: ProcessView, reason: ExitReason)
    ensures
        ({
            let exit = channel::exit_view(process, reason);
            &&& exit.error == channel::exit_reason_view(reason).0
            &&& exit.message == channel::exit_reason_view(reason).1
            &&& process.init is Complete ==> exit.stdout is None && exit.stderr is None
            &&& !(process.init is Complete) ==> exit.stdout == channel::output_text(process.stdout)
                && exit.stderr == channel::output_text(process.stderr)
        }),
{
}

// ---------------------------------------------------------------------------
// Timers
// ---------------------------------------------------------------------------

/// A timer stops a process that nobody is connected to and that can restore its sessions later. While
/// the agent is being initialized the timer waits; in every other case there is none. It is bound to
/// the generation and to the joins so far.
pub proof fn lemma_inactivity(state: AcpView, process_key: Seq<char>)
    ensures
        ({
            let process = state.processes[process_key];
            let timer = channel::timer_for(state, process_key);
            let runs = state.processes.contains_key(process_key);
            let idle = runs && process.channels.len() == 0;
            let restores = process.init is Complete
                && process.init->Complete_0.capabilities.supports_resuming;
            &&& !idle ==> timer == InactivityTimer::No
            &&& idle && process.init is InFlight ==> timer == (InactivityTimer::AfterInit {
                generation: process.generation,
                epoch: process.epoch,
            })
            &&& idle && restores ==> timer == (InactivityTimer::Start {
                generation: process.generation,
                epoch: process.epoch,
            })
            &&& idle && !restores && !(process.init is InFlight) ==> timer == InactivityTimer::No
            &&& channel::can_restore(process) == restores
        }),
{
}

// ---------------------------------------------------------------------------
// Sessions and their clients
// ---------------------------------------------------------------------------

/// Giving a session to a client, and taking it from one, changes who has that session and nothing
/// else. A session is only taken from the client that has it.
pub proof fn lemma_ownership(
    sessions: Map<Seq<char>, EntryView>,
    session_id: Seq<char>,
    channel_id: Seq<char>,
    new_owner: Option<Seq<char>>,
)
    requires
        sessions.contains_key(session_id),
    ensures
        ({
            let given = process::with_owner(sessions, session_id, new_owner);
            let taken = process::released_one(sessions, session_id, channel_id);
            let before = sessions[session_id];
            &&& given == sessions.insert(
                session_id,
                EntryView { state: before.state, channel_id: new_owner },
            )
            &&& process::owner(given, session_id) == new_owner
            &&& before.channel_id == Some(channel_id) ==> taken == sessions.insert(
                session_id,
                EntryView { state: before.state, channel_id: None },
            )
            &&& before.channel_id != Some(channel_id) ==> taken == sessions
            &&& process::owner(sessions, session_id) == before.channel_id
        }),
{
}

/// Nobody has a session that is not known.
pub proof fn lemma_no_owner(sessions: Map<Seq<char>, EntryView>, session_id: Seq<char>, new_owner: Option<Seq<char>>)
    requires
        !sessions.contains_key(session_id),
    ensures
        process::owner(sessions, session_id) is None,
        process::with_owner(sessions, session_id, new_owner) == sessions,
{
}

/// An answer is the one that the agent is being initialized with if its identity has the text of the
/// one that was sent.
pub proof fn lemma_current_answer(process: ProcessView, id: crate::json::JsonView)
    ensures
        acp::is_current(process.init, id) == (process.init is InFlight && crate::json::id_text(
            process.init->InFlight_0,
        ) == crate::json::id_text(id)),
        acp::known_capabilities(process.init) is Some == (process.init is Complete),
        process.init is Complete ==> acp::known_capabilities(process.init) == Some(
            process.init->Complete_0.capabilities,
        ),
{
}

} // verus!
