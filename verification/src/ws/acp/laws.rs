//! What holds of the proxy as a whole.

use vstd::prelude::*;

use crate::acp_session;
use crate::acp_session::BufferedView;
use crate::json;
use crate::jsonrpc;
use crate::jsonrpc::{MessageView, RequestView, ResponseView};
use crate::registry;
use crate::text;
use crate::ws::acp;
use crate::ws::acp::channel;
use crate::ws::acp::channel::{AcpView, OutputStream};
use crate::ws::acp::process;
use crate::ws::acp::process::{ProcessView, Stdin};
use crate::ws::acp::proxy;
use crate::ws::acp::proxy::{EffectView, Senders};
use crate::ws::acp::{EntryView, InflightView, PendingView, SpawnView};
use crate::ws::SenderView;

verus! {

// ---------------------------------------------------------------------------
// Identities of requests
// ---------------------------------------------------------------------------

/// Every request in flight has an identity that was given out before.
pub open spec fn ids_given_out(process: ProcessView) -> bool {
    forall|key: Seq<char>| #[trigger]
        process.inflight.contains_key(key) ==> exists|n: u64|
            n < process.next_proxy_id && key == #[trigger] text::decimal(n as nat)
}

/// A request that is forwarded gets an identity that no request in flight has, so that two clients
/// never share one.
pub proof fn lemma_fresh_identity(
    process: ProcessView,
    channel_id: Seq<char>,
    request: RequestView,
    pending: Option<PendingView>,
)
    requires
        ids_given_out(process),
        process.next_proxy_id < u64::MAX,
    ensures
        !process.inflight.contains_key(text::decimal(process.next_proxy_id as nat)),
        ids_given_out(proxy::forwarded(process, channel_id, request, pending).0),
        forall|key: Seq<char>| #[trigger]
            process.inflight.contains_key(key) ==> {
                let after = proxy::forwarded(process, channel_id, request, pending).0.inflight;
                after.contains_key(key) && after[key] == process.inflight[key]
            },
{
    let n = process.next_proxy_id;
    let fresh = text::decimal(n as nat);
    if process.inflight.contains_key(fresh) {
        let m = choose|m: u64| m < n && fresh == #[trigger] text::decimal(m as nat);
        text::lemma_decimal_injective(m as nat, n as nat);
    }
    let after = proxy::forwarded(process, channel_id, request, pending).0;
    assert forall|key: Seq<char>| #[trigger] after.inflight.contains_key(key) implies exists|m: u64|
        m < after.next_proxy_id && key == #[trigger] text::decimal(m as nat) by {
        if key == fresh {
            assert(n < after.next_proxy_id);
        } else {
            assert(process.inflight.contains_key(key));
            let m = choose|m: u64| m < n && key == #[trigger] text::decimal(m as nat);
            assert(m < after.next_proxy_id);
        }
    }
}

/// No message of a client breaks the rule that identities in flight were given out before.
pub proof fn lemma_client_keeps_identities(
    process: ProcessView,
    senders: Senders,
    channel_id: Seq<char>,
    message: MessageView,
)
    requires
        ids_given_out(process),
        process.next_proxy_id < u64::MAX,
    ensures
        ids_given_out(proxy::from_client(process, senders, channel_id, message).0),
{
    let after = proxy::from_client(process, senders, channel_id, message).0;
    match message {
        MessageView::Request(request) => {
            lemma_fresh_identity(process, channel_id, request, None);
            lemma_fresh_identity(process, channel_id, request, proxy::pending_of(request));
            if request.method == "initialize"@ {
                lemma_more_given_out(process, after);
            } else if request.method == "session/load"@ || request.method == "session/resume"@ {
                match acp_session::session_id_of(request.params) {
                    Some(session_id) => {
                        if process::owner(process.sessions, session_id) is None {
                            let created_session = !process.sessions.contains_key(session_id);
                            let claimed = ProcessView { sessions: after.sessions, ..process };
                            assert(ids_given_out(claimed));
                            let pending = if request.method == "session/load"@ {
                                Some(PendingView::SessionLoad { session_id, created_session })
                            } else {
                                Some(PendingView::SessionResume { session_id, created_session })
                            };
                            lemma_fresh_identity(claimed, channel_id, request, pending);
                        }
                    },
                    None => {},
                }
            }
        },
        _ => {},
    }
}

/// A process whose requests in flight are those of another, or that and a fresh one, and that has
/// given out one identity more.
proof fn lemma_more_given_out(before: ProcessView, after: ProcessView)
    requires
        ids_given_out(before),
        before.next_proxy_id < u64::MAX,
        after.next_proxy_id == before.next_proxy_id + 1,
        forall|key: Seq<char>| #[trigger]
            after.inflight.contains_key(key) ==> before.inflight.contains_key(key) || key == text::decimal(
                before.next_proxy_id as nat,
            ),
    ensures
        ids_given_out(after),
{
    assert forall|key: Seq<char>| #[trigger] after.inflight.contains_key(key) implies exists|m: u64|
        m < after.next_proxy_id && key == #[trigger] text::decimal(m as nat) by {
        if before.inflight.contains_key(key) {
            let m = choose|m: u64| m < before.next_proxy_id && key == #[trigger] text::decimal(m as nat);
            assert(m < after.next_proxy_id);
        } else {
            assert(before.next_proxy_id < after.next_proxy_id);
        }
    }
}

/// No message of an agent breaks the rule that identities in flight were given out before.
pub proof fn lemma_agent_keeps_identities(process: ProcessView, senders: Senders, message: MessageView)
    requires
        ids_given_out(process),
    ensures
        ids_given_out(proxy::from_process(process, senders, message).0),
{
    let after = proxy::from_process(process, senders, message).0;
    assert(after.next_proxy_id == process.next_proxy_id);
    assert forall|key: Seq<char>| #[trigger] after.inflight.contains_key(key) implies exists|m: u64|
        m < after.next_proxy_id && key == #[trigger] text::decimal(m as nat) by {
        assert(process.inflight.contains_key(key));
    }
}

/// The response to a request goes to the client that made it, under the client's own identity,
/// as long as the client is connected. `process` is any later state of the process in which the
/// request is still in flight.
pub proof fn lemma_response_returns(
    first: ProcessView,
    channel_id: Seq<char>,
    request: RequestView,
    pending: Option<PendingView>,
    process: ProcessView,
    senders: Senders,
    response: ResponseView,
)
    requires
        ({
            let key = text::decimal(first.next_proxy_id as nat);
            let noted = proxy::forwarded(first, channel_id, request, pending).0;
            &&& process.inflight.contains_key(key)
            &&& process.inflight[key] == noted.inflight[key]
            &&& json::id_text(response.id) == key
        }),
        senders.contains_key(channel_id),
    ensures
        proxy::answered(process, senders, response).1 == proxy::jsonrpc_to(
            senders,
            channel_id,
            MessageView::Response(proxy::client_answer(process, response, request.id)),
        ),
        !acp::is_current(process.init, response.id) ==> proxy::client_answer(process, response, request.id)
            == (ResponseView { id: request.id, ..response }),
{
}

/// A response whose client has left follows the session: the client that has the session now gets
/// it, under the identity that the request came with. Where nobody who is connected has the
/// session, the response waits in the session's buffer for the client that loads it next.
pub proof fn lemma_response_follows_session(
    process: ProcessView,
    senders: Senders,
    session_id: Seq<char>,
    response: ResponseView,
)
    requires
        ({
            let key = json::id_text(response.id);
            &&& process.inflight.contains_key(key)
            &&& process.inflight[key].pending is None
            &&& process.inflight[key].session_id == Some(session_id)
            &&& !senders.contains_key(process.inflight[key].channel_id)
        }),
        process.sessions.contains_key(session_id),
    ensures
        ({
            let asked = process.inflight[json::id_text(response.id)];
            let answer = proxy::client_answer(process, response, asked.client_id);
            let (after, effects) = proxy::answered(process, senders, response);
            match proxy::reachable_owner(process, senders, session_id) {
                Some(channel_id) => {
                    &&& effects == proxy::jsonrpc_to(senders, channel_id, MessageView::Response(answer))
                    &&& after.sessions == process.sessions
                },
                None => {
                    &&& effects == Seq::<EffectView>::empty()
                    &&& after.sessions[session_id].state == acp_session::session_with(
                        process.sessions[session_id].state,
                        MessageView::Response(answer),
                        json::json_text(answer.id),
                    )
                },
            }
        }),
{
}

/// A request is answered once: a second response with the same identity does nothing.
pub proof fn lemma_answered_once(process: ProcessView, senders: Senders, response: ResponseView)
    ensures
        ({
            let after = proxy::answered(process, senders, response).0;
            proxy::answered(after, senders, response) == (after, Seq::<EffectView>::empty())
        }),
{
    let after = proxy::answered(process, senders, response).0;
    assert(!after.inflight.contains_key(json::id_text(response.id)));
}

// ---------------------------------------------------------------------------
// Ownership of sessions
// ---------------------------------------------------------------------------

/// A client cannot take a session from another client: whatever it sends, a session that belongs
/// to another channel stays with that channel.
pub proof fn lemma_session_is_not_taken(
    process: ProcessView,
    senders: Senders,
    channel_id: Seq<char>,
    message: MessageView,
    session_id: Seq<char>,
    holder: Seq<char>,
)
    requires
        process::owner(process.sessions, session_id) == Some(holder),
        holder != channel_id,
    ensures
        process::owner(
            proxy::from_client(process, senders, channel_id, message).0.sessions,
            session_id,
        ) == Some(holder),
{
}

/// A load of a session that belongs to a channel is refused: the client is told so, nothing goes to
/// the agent, and the session stays where it is.
pub proof fn lemma_load_of_active_session_is_refused(
    process: ProcessView,
    senders: Senders,
    channel_id: Seq<char>,
    request: RequestView,
    session_id: Seq<char>,
)
    requires
        process::owner(process.sessions, session_id) is Some,
        request.method == "session/load"@ || request.method == "session/resume"@ || request.method
            == "_tidewave.ai/session/load"@,
        if request.method == "_tidewave.ai/session/load"@ {
            acp_session::session_and_latest(request.params) matches Some((named, _)) && named == session_id
        } else {
            acp_session::session_id_of(request.params) == Some(session_id)
        },
    ensures
        ({
            let (after, effects) = proxy::from_client(
                process,
                senders,
                channel_id,
                MessageView::Request(request),
            );
            &&& effects == proxy::jsonrpc_to(
                senders,
                channel_id,
                proxy::error_response(
                    request.id,
                    proxy::SESSION_ALREADY_ACTIVE,
                    "Session already has an active connection"@,
                ),
            )
            &&& process::owner(after.sessions, session_id) == process::owner(process.sessions, session_id)
        }),
{
    proxy::lemma_methods_differ();
}

/// A load that the agent refuses leaves the sessions as they were before it.
pub proof fn lemma_failed_load_is_undone(
    process: ProcessView,
    senders: Senders,
    channel_id: Seq<char>,
    request: RequestView,
    session_id: Seq<char>,
    response: ResponseView,
)
    requires
        request.method == "session/load"@ || request.method == "session/resume"@,
        acp_session::session_id_of(request.params) == Some(session_id),
        process::owner(process.sessions, session_id) is None,
        senders.contains_key(channel_id),
        response.error is Some,
        json::id_text(response.id) == text::decimal(process.next_proxy_id as nat),
    ensures
        ({
            let claimed = proxy::from_client(
                process,
                senders,
                channel_id,
                MessageView::Request(request),
            ).0;
            &&& process::owner(claimed.sessions, session_id) == Some(channel_id)
            &&& proxy::answered(claimed, senders, response).0.sessions == process.sessions
        }),
{
    proxy::lemma_methods_differ();
    let claimed = proxy::from_client(process, senders, channel_id, MessageView::Request(request)).0;
    let after = proxy::answered(claimed, senders, response).0;
    assert(after.sessions =~= process.sessions);
}

/// A channel that has left owns no session.
pub proof fn lemma_leaving_releases_sessions(
    process: ProcessView,
    channel_id: Seq<char>,
    session_id: Seq<char>,
)
    ensures
        process::owner(channel::disconnected(process, channel_id).sessions, session_id) != Some(channel_id),
        process::owner(process.sessions, session_id) != Some(channel_id) ==> process::owner(
            channel::disconnected(process, channel_id).sessions,
            session_id,
        ) == process::owner(process.sessions, session_id),
{
}

/// The sessions that are listed for a channel that leaves are exactly its own.
pub proof fn lemma_owned_by(
    order: Seq<Seq<char>>,
    sessions: Map<Seq<char>, EntryView>,
    channel_id: Seq<char>,
    session_id: Seq<char>,
)
    requires
        order.contains(session_id) <==> sessions.contains_key(session_id),
    ensures
        (exists|counter: u64| process::owned_by(order, sessions, channel_id).contains((session_id, counter)))
            <==> process::owner(sessions, session_id) == Some(channel_id),
{
    lemma_owned_members(order, sessions, channel_id, session_id);
    if process::owner(sessions, session_id) == Some(channel_id) {
        let counter = sessions[session_id].state.cancel_counter;
        assert(process::owned_by(order, sessions, channel_id).contains((session_id, counter)));
    }
}

proof fn lemma_owned_members(
    order: Seq<Seq<char>>,
    sessions: Map<Seq<char>, EntryView>,
    channel_id: Seq<char>,
    session_id: Seq<char>,
)
    ensures
        forall|counter: u64| #[trigger]
            process::owned_by(order, sessions, channel_id).contains((session_id, counter)) ==> order.contains(
                session_id,
            ) && process::owner(sessions, session_id) == Some(channel_id),
        order.contains(session_id) && process::owner(sessions, session_id) == Some(channel_id)
            ==> process::owned_by(order, sessions, channel_id).contains(
            (session_id, sessions[session_id].state.cancel_counter),
        ),
    decreases order.len(),
{
    if order.len() > 0 {
        let rest = order.drop_last();
        lemma_owned_members(rest, sessions, channel_id, session_id);
        let listed = process::owned_by(rest, sessions, channel_id);
        let all = process::owned_by(order, sessions, channel_id);
        let last = (order.last(), sessions[order.last()].state.cancel_counter);
        assert forall|counter: u64| #[trigger] all.contains((session_id, counter)) implies order.contains(
            session_id,
        ) && process::owner(sessions, session_id) == Some(channel_id) by {
            let i = all.index_of((session_id, counter));
            if i < listed.len() {
                assert(listed[i] == (session_id, counter));
                assert(listed.contains((session_id, counter)));
                let j = rest.index_of(session_id);
                assert(order[j] == session_id);
            } else {
                assert(order[order.len() - 1] == session_id);
            }
        }
        if order.contains(session_id) && process::owner(sessions, session_id) == Some(channel_id) {
            let entry = (session_id, sessions[session_id].state.cancel_counter);
            if session_id == order.last() {
                assert(all[all.len() - 1] == entry);
            } else {
                let j = order.index_of(session_id);
                assert(rest[j] == session_id);
                assert(listed.contains(entry));
                let i = listed.index_of(entry);
                assert(all[i] == entry);
            }
        }
    }
}

/// A client that tries to load a session, even in vain, calls off a stop of the session that was
/// planned before.
pub proof fn lemma_load_calls_off_stop(
    process: ProcessView,
    senders: Senders,
    channel_id: Seq<char>,
    request: RequestView,
    session_id: Seq<char>,
    latest_id: Seq<char>,
)
    requires
        process.sessions.contains_key(session_id),
    ensures
        ({
            let counter = process.sessions[session_id].state.cancel_counter;
            let after = proxy::reconnected(process, senders, channel_id, request, session_id, latest_id).0;
            proxy::stopped(after, session_id, counter) == (after, Seq::<EffectView>::empty())
        }),
{
}

// ---------------------------------------------------------------------------
// What is left of a channel
// ---------------------------------------------------------------------------

/// One step of the state.
pub enum Step {
    /// A channel asks to join.
    Asked { channel_id: Seq<char>, sender: SenderView },
    /// The process that a join needs was started.
    Started { process_key: Seq<char>, spawn: SpawnView },
    /// The process that a join needs could not be started.
    NotStarted { channel_id: Seq<char> },
    /// The join comes to its end.
    Joined { channel_id: Seq<char>, process_key: Seq<char> },
    /// A client sends a message.
    Said { channel_id: Seq<char>, process_key: Seq<char>, message: MessageView },
    /// An agent sends a message.
    Answered { process_key: Seq<char>, generation: u64, message: MessageView },
    /// An agent writes a line that is no message.
    Wrote { process_key: Seq<char>, generation: u64, stream: OutputStream, line: Seq<char> },
    /// Nothing can be written to an agent any more.
    Closed { process_key: Seq<char>, generation: u64 },
    /// A session that nobody came back to is stopped.
    Stopped { process_key: Seq<char>, generation: u64, session_id: Seq<char>, counter: u64 },
    /// A process is stopped after inactivity.
    Unused { process_key: Seq<char> },
    /// A process has ended.
    Ended { process_key: Seq<char>, generation: u64 },
    /// A process that has ended will write nothing more.
    Forgotten { generation: u64 },
    /// A channel leaves.
    Left { channel_id: Seq<char>, process_key: Seq<char>, generation: u64 },
}

/// The state after a step. A step of a process that is not known changes nothing.
pub open spec fn stepped(state: AcpView, step: Step) -> AcpView {
    match step {
        Step::Asked { channel_id, sender } => AcpView {
            senders: state.senders.insert(channel_id, sender),
            ..state
        },
        Step::Started { process_key, spawn } => channel::started(state, process_key, spawn),
        Step::NotStarted { channel_id } => state.without_sender(channel_id),
        Step::Joined { channel_id, process_key } => channel::joined(state, channel_id, process_key),
        Step::Said { channel_id, process_key, message } => if state.processes.contains_key(process_key) {
            state.with_process(
                process_key,
                proxy::from_client(state.processes[process_key], state.senders, channel_id, message).0,
            )
        } else {
            state
        },
        Step::Answered { process_key, generation, message } => channel::spoken(
            state,
            process_key,
            generation,
            message,
        ).0,
        Step::Wrote { process_key, generation, stream, line } => state.with_process_of(
            process_key,
            generation,
            channel::with_line(state.process_of(process_key, generation), stream, line),
        ),
        Step::Closed { process_key, generation } => state.with_process_of(
            process_key,
            generation,
            ProcessView { stdin: Stdin::Closed, ..state.process_of(process_key, generation) },
        ),
        Step::Stopped { process_key, generation, session_id, counter } => state.with_process_of(
            process_key,
            generation,
            proxy::stopped(state.process_of(process_key, generation), session_id, counter).0,
        ),
        Step::Unused { process_key } => state.retire(process_key),
        Step::Ended { process_key, generation } => channel::exited(state, process_key, generation),
        Step::Forgotten { generation } => AcpView {
            retired: state.retired.remove(text::decimal(generation as nat)),
            ..state
        },
        Step::Left { channel_id, process_key, generation } => channel::left(
            state,
            channel_id,
            process_key,
            generation,
        ),
    }
}

/// The state after steps.
pub open spec fn ran(state: AcpView, steps: Seq<Step>) -> AcpView
    decreases steps.len(),
{
    if steps.len() == 0 {
        state
    } else {
        stepped(ran(state, steps.drop_last()), steps.last())
    }
}

/// Whether clients reach no other process under this key than the one of this generation.
pub open spec fn undisturbed(state: AcpView, process_key: Seq<char>, generation: u64) -> bool {
    state.processes.contains_key(process_key) ==> state.processes[process_key].generation == generation
}

/// Whether a step that a channel takes at a process is taken at the process of this generation, and
/// whether that process makes sessions only where clients reach no other under its key.
pub open spec fn is_at(
    state: AcpView,
    step: Step,
    channel_id: Seq<char>,
    process_key: Seq<char>,
    generation: u64,
) -> bool {
    match step {
        Step::Joined { channel_id: who, process_key: place } => who == channel_id ==> place == process_key
            && undisturbed(state, process_key, generation),
        Step::Said { channel_id: who, process_key: place, .. } => who == channel_id ==> place == process_key
            && undisturbed(state, process_key, generation),
        Step::Answered { process_key: place, generation: which, .. } => which == generation ==> place
            == process_key && undisturbed(state, process_key, generation),
        _ => true,
    }
}

/// Whether a channel takes this step.
pub open spec fn is_of(step: Step, channel_id: Seq<char>) -> bool {
    match step {
        Step::Asked { channel_id: who, .. } => who == channel_id,
        Step::Joined { channel_id: who, .. } => who == channel_id,
        Step::Said { channel_id: who, .. } => who == channel_id,
        _ => false,
    }
}

/// Whether no two processes have the same generation, and none has one that is still to be given.
pub open spec fn generations_differ(state: AcpView) -> bool {
    &&& forall|key: Seq<char>| #[trigger]
        state.processes.contains_key(key) ==> state.processes[key].generation < state.next_generation
            && !state.retired.contains_key(text::decimal(state.processes[key].generation as nat))
    &&& forall|key: Seq<char>, other: Seq<char>|
        #![trigger state.processes.contains_key(key), state.processes.contains_key(other)]
        state.processes.contains_key(key) && state.processes.contains_key(other) && key != other
            ==> state.processes[key].generation != state.processes[other].generation
    &&& forall|place: Seq<char>| #[trigger]
        state.retired.contains_key(place) ==> state.retired[place].generation < state.next_generation
            && place == text::decimal(state.retired[place].generation as nat)
}

/// Whether a process lists a channel nowhere, and none of its sessions belongs to it.
pub open spec fn is_unknown_to(channel_id: Seq<char>, process: ProcessView) -> bool {
    &&& !process.channels.contains(channel_id)
    &&& forall|session_id: Seq<char>| #[trigger]
        process::owner(process.sessions, session_id) != Some(channel_id)
}

/// Whether a process waits for no answer to a request of a channel.
pub open spec fn awaits_nothing_for(process: ProcessView, channel_id: Seq<char>) -> bool {
    forall|key: Seq<char>| #[trigger]
        process.inflight.contains_key(key) ==> process.inflight[key].channel_id != channel_id
}

/// Whether a channel is known to no process.
pub open spec fn unknown_everywhere(state: AcpView, channel_id: Seq<char>) -> bool {
    &&& forall|key: Seq<char>| #[trigger]
        state.processes.contains_key(key) ==> is_unknown_to(channel_id, state.processes[key])
    &&& forall|place: Seq<char>| #[trigger]
        state.retired.contains_key(place) ==> is_unknown_to(channel_id, state.retired[place])
}

/// Whether no process waits for an answer to a request of a channel.
pub open spec fn awaited_nowhere(state: AcpView, channel_id: Seq<char>) -> bool {
    &&& forall|key: Seq<char>| #[trigger]
        state.processes.contains_key(key) ==> awaits_nothing_for(state.processes[key], channel_id)
    &&& forall|place: Seq<char>| #[trigger]
        state.retired.contains_key(place) ==> awaits_nothing_for(state.retired[place], channel_id)
}

/// Whether a channel is known to no other process than the one of this generation.
pub open spec fn lives_at(state: AcpView, channel_id: Seq<char>, generation: u64) -> bool {
    &&& forall|key: Seq<char>| #[trigger]
        state.processes.contains_key(key) && state.processes[key].generation != generation
            ==> is_unknown_to(channel_id, state.processes[key]) && awaits_nothing_for(
            state.processes[key],
            channel_id,
        )
    &&& forall|place: Seq<char>| #[trigger]
        state.retired.contains_key(place) && place != text::decimal(generation as nat) ==> is_unknown_to(
            channel_id,
            state.retired[place],
        ) && awaits_nothing_for(state.retired[place], channel_id)
}

/// Whether nothing is left of a channel: nothing is sent to it, no process lists it, and no session
/// belongs to it.
pub open spec fn is_gone(state: AcpView, channel_id: Seq<char>) -> bool {
    !state.senders.contains_key(channel_id) && unknown_everywhere(state, channel_id)
}

/// What another client says makes a channel known to no process.
proof fn lemma_other_client(
    process: ProcessView,
    senders: Senders,
    other: Seq<char>,
    message: MessageView,
    channel_id: Seq<char>,
)
    requires
        other != channel_id,
        is_unknown_to(channel_id, process),
    ensures
        is_unknown_to(channel_id, proxy::from_client(process, senders, other, message).0),
        awaits_nothing_for(process, channel_id) ==> awaits_nothing_for(
            proxy::from_client(process, senders, other, message).0,
            channel_id,
        ),
{
    let after = proxy::from_client(process, senders, other, message).0;
    assert(after.channels == process.channels);
    assert forall|session_id: Seq<char>| #[trigger]
        process::owner(after.sessions, session_id) != Some(channel_id) by {
        assert(process::owner(process.sessions, session_id) != Some(channel_id));
    }
}

/// What an agent says makes a channel known to no process where nothing is awaited for it, or where
/// nothing can be sent to it.
proof fn lemma_agent_and_channel(
    process: ProcessView,
    senders: Senders,
    message: MessageView,
    channel_id: Seq<char>,
)
    requires
        is_unknown_to(channel_id, process),
        awaits_nothing_for(process, channel_id) || !senders.contains_key(channel_id),
    ensures
        is_unknown_to(channel_id, proxy::from_process(process, senders, message).0),
        awaits_nothing_for(process, channel_id) ==> awaits_nothing_for(
            proxy::from_process(process, senders, message).0,
            channel_id,
        ),
{
    let after = proxy::from_process(process, senders, message).0;
    assert(after.channels == process.channels);
    assert forall|session_id: Seq<char>| #[trigger]
        process::owner(after.sessions, session_id) != Some(channel_id) by {
        assert(process::owner(process.sessions, session_id) != Some(channel_id));
    }
}

proof fn lemma_stop_and_channel(
    process: ProcessView,
    session_id: Seq<char>,
    counter: u64,
    channel_id: Seq<char>,
)
    requires
        is_unknown_to(channel_id, process),
    ensures
        is_unknown_to(channel_id, proxy::stopped(process, session_id, counter).0),
        proxy::stopped(process, session_id, counter).0.inflight == process.inflight,
{
    let after = proxy::stopped(process, session_id, counter).0;
    assert forall|id: Seq<char>| #[trigger] process::owner(after.sessions, id) != Some(channel_id) by {
        assert(process::owner(process.sessions, id) != Some(channel_id));
    }
}

proof fn lemma_channels_without(channels: Seq<Seq<char>>, channel_id: Seq<char>)
    ensures
        !registry::keys_without(channels, channel_id).contains(channel_id),
        forall|other: Seq<char>| #[trigger]
            registry::keys_without(channels, channel_id).contains(other) ==> channels.contains(other),
    decreases channels.len(),
{
    reveal(Seq::filter);
    let rest = registry::keys_without(channels, channel_id);
    if channels.len() > 0 {
        let shorter = channels.drop_last();
        lemma_channels_without(shorter, channel_id);
        let left = registry::keys_without(shorter, channel_id);
        assert forall|other: Seq<char>| #[trigger] rest.contains(other) implies channels.contains(other)
            && other != channel_id by {
            if other == channels.last() {
                assert(channels[channels.len() - 1] == other);
                if other == channel_id {
                    assert(left.contains(other));
                }
            } else {
                let i = rest.index_of(other);
                assert(left[i] == other);
                assert(left.contains(other));
                let j = shorter.index_of(other);
                assert(channels[j] == other);
            }
        }
    }
}

proof fn lemma_connection_of_other(process: ProcessView, other: Seq<char>, channel_id: Seq<char>)
    requires
        other != channel_id,
        is_unknown_to(channel_id, process),
    ensures
        is_unknown_to(channel_id, channel::connected(process, other)),
        is_unknown_to(channel_id, channel::disconnected(process, other)),
{
    assert(!process.channels.push(other).contains(channel_id)) by {
        if process.channels.push(other).contains(channel_id) {
            let i = process.channels.push(other).index_of(channel_id);
            assert(process.channels[i] == channel_id);
        }
    }
    lemma_channels_without(process.channels, other);
    let after = channel::disconnected(process, other);
    assert forall|id: Seq<char>| #[trigger] process::owner(after.sessions, id) != Some(channel_id) by {
        assert(process::owner(process.sessions, id) != Some(channel_id));
    }
}

proof fn lemma_disconnected_is_unknown(process: ProcessView, channel_id: Seq<char>)
    ensures
        is_unknown_to(channel_id, channel::disconnected(process, channel_id)),
{
    lemma_channels_without(process.channels, channel_id);
}

proof fn lemma_session_of_other(
    process: ProcessView,
    senders: Senders,
    session_id: Seq<char>,
    other: Seq<char>,
    channel_id: Seq<char>,
)
    requires
        is_unknown_to(channel_id, process),
        other != channel_id || !senders.contains_key(channel_id),
    ensures
        is_unknown_to(channel_id, proxy::session_created(process, senders, session_id, other)),
        proxy::session_created(process, senders, session_id, other).inflight == process.inflight,
        proxy::session_created(process, senders, session_id, other).generation == process.generation,
{
    let after = proxy::session_created(process, senders, session_id, other);
    assert forall|id: Seq<char>| #[trigger] process::owner(after.sessions, id) != Some(channel_id) by {
        assert(process::owner(process.sessions, id) != Some(channel_id));
    }
}

/// What the agent of a retired process says makes a channel known to no process either.
proof fn lemma_retired_and_channel(
    process: ProcessView,
    senders: Senders,
    message: MessageView,
    channel_id: Seq<char>,
)
    requires
        is_unknown_to(channel_id, process),
        awaits_nothing_for(process, channel_id) || !senders.contains_key(channel_id),
    ensures
        is_unknown_to(channel_id, proxy::from_retired(process, senders, message).0),
        awaits_nothing_for(process, channel_id) ==> awaits_nothing_for(
            proxy::from_retired(process, senders, message).0,
            channel_id,
        ),
        awaits_nothing_for(process, channel_id) ==> (proxy::made_elsewhere(process, message) matches Some(
            (_, who),
        ) ==> who != channel_id),
{
    match proxy::made_elsewhere(process, message) {
        Some((session_id, who)) => {
            let key = json::id_text(message->Response_0.id);
            let request = InflightView { session_id: Some(session_id), pending: None, ..process.inflight[key] };
            let noted = ProcessView { inflight: process.inflight.insert(key, request), ..process };
            assert(process.inflight.contains_key(key));
            assert(is_unknown_to(channel_id, noted));
            if awaits_nothing_for(process, channel_id) {
                assert(awaits_nothing_for(noted, channel_id));
            }
            lemma_agent_and_channel(noted, senders, message, channel_id);
        },
        None => {
            lemma_agent_and_channel(process, senders, message, channel_id);
        },
    }
}

/// The generations of processes stay as they are, whatever is said.
proof fn lemma_generation_stays(process: ProcessView, senders: Senders, who: Seq<char>, message: MessageView)
    ensures
        proxy::from_client(process, senders, who, message).0.generation == process.generation,
        proxy::from_process(process, senders, message).0.generation == process.generation,
        proxy::from_retired(process, senders, message).0.generation == process.generation,
{
}

/// No two processes get the same generation, as long as the counter of generations does not go round.
pub proof fn lemma_generations_differ(state: AcpView, step: Step)
    requires
        generations_differ(state),
        state.next_generation < u64::MAX,
        match step {
            Step::Started { process_key, .. } => !state.processes.contains_key(process_key),
            _ => true,
        },
    ensures
        generations_differ(stepped(state, step)),
        state.next_generation <= stepped(state, step).next_generation <= state.next_generation + 1,
{
    let after = stepped(state, step);
    match step {
        Step::Started { process_key, .. } => {
            let fresh = state.next_generation;
            assert forall|place: Seq<char>| #[trigger] state.retired.contains_key(place) implies place
                != text::decimal(fresh as nat) by {
                if place == text::decimal(fresh as nat) {
                    text::lemma_decimal_injective(
                        state.retired[place].generation as nat,
                        fresh as nat,
                    );
                }
            }
        },
        Step::Said { channel_id, process_key, message } => {
            lemma_generation_stays(state.processes[process_key], state.senders, channel_id, message);
        },
        Step::Answered { process_key, generation, message } => {
            lemma_generation_stays(state.processes[process_key], state.senders, seq![], message);
            lemma_generation_stays(
                state.retired[text::decimal(generation as nat)],
                state.senders,
                seq![],
                message,
            );
        },
        Step::Unused { process_key } => {
            lemma_retiring_keeps_generations(state, process_key);
        },
        Step::Ended { process_key, generation } => {
            let noted = state.with_process_of(
                process_key,
                generation,
                channel::ended(state.process_of(process_key, generation)),
            );
            assert(generations_differ(noted));
            lemma_retiring_keeps_generations(noted, process_key);
        },
        _ => {},
    }
}

proof fn lemma_retiring_keeps_generations(state: AcpView, process_key: Seq<char>)
    requires
        generations_differ(state),
    ensures
        generations_differ(state.retire(process_key)),
{
    if state.processes.contains_key(process_key) {
        let retired = state.processes[process_key].generation;
        assert forall|key: Seq<char>| #[trigger]
            state.processes.contains_key(key) && key != process_key implies text::decimal(
            state.processes[key].generation as nat,
        ) != text::decimal(retired as nat) by {
            if text::decimal(state.processes[key].generation as nat) == text::decimal(retired as nat) {
                text::lemma_decimal_injective(state.processes[key].generation as nat, retired as nat);
            }
        }
    }
}

/// A channel that takes its steps at the process that it has joined is known to no other. That fails
/// only where clients reach another process under the key meanwhile: then the channel's messages go
/// to that one.
pub proof fn lemma_channel_has_one_home(
    state: AcpView,
    steps: Seq<Step>,
    channel_id: Seq<char>,
    process_key: Seq<char>,
    generation: u64,
)
    requires
        lives_at(state, channel_id, generation),
        forall|i: int|
            0 <= i < steps.len() ==> is_at(
                ran(state, #[trigger] steps.take(i)),
                steps[i],
                channel_id,
                process_key,
                generation,
            ),
    ensures
        lives_at(ran(state, steps), channel_id, generation),
    decreases steps.len(),
{
    if steps.len() > 0 {
        let rest = steps.drop_last();
        assert forall|i: int| 0 <= i < rest.len() implies is_at(
            ran(state, #[trigger] rest.take(i)),
            rest[i],
            channel_id,
            process_key,
            generation,
        ) by {
            assert(rest.take(i) =~= steps.take(i));
            assert(rest[i] == steps[i]);
        }
        lemma_channel_has_one_home(state, rest, channel_id, process_key, generation);
        assert(steps.take(steps.len() - 1) =~= rest);
        lemma_step_at_home(ran(state, rest), steps.last(), channel_id, process_key, generation);
    }
}

proof fn lemma_step_at_home(
    state: AcpView,
    step: Step,
    channel_id: Seq<char>,
    process_key: Seq<char>,
    generation: u64,
)
    requires
        lives_at(state, channel_id, generation),
        is_at(state, step, channel_id, process_key, generation),
    ensures
        lives_at(stepped(state, step), channel_id, generation),
{
    match step {
        Step::Joined { channel_id: who, process_key: place } => {
            let process = state.processes[place];
            if state.processes.contains_key(place) && process.generation != generation {
                lemma_connection_of_other(process, who, channel_id);
            }
        },
        Step::Said { channel_id: who, process_key: place, message } => {
            let process = state.processes[place];
            lemma_generation_stays(process, state.senders, who, message);
            if state.processes.contains_key(place) && process.generation != generation {
                lemma_other_client(process, state.senders, who, message, channel_id);
            }
        },
        Step::Answered { process_key: place, generation: which, message } => {
            lemma_answer_at_home(state, place, which, message, channel_id, generation);
        },
        Step::Stopped { process_key: place, generation: which, session_id, counter } => {
            let process = state.process_of(place, which);
            if state.knows(place, which) && which != generation {
                lemma_other_generation(state, place, which, channel_id, generation);
                lemma_stop_and_channel(process, session_id, counter, channel_id);
            }
        },
        Step::Left { channel_id: who, process_key: place, generation: which } => {
            let process = state.process_of(place, which);
            if state.knows(place, which) && which != generation {
                lemma_other_generation(state, place, which, channel_id, generation);
                if who == channel_id {
                    lemma_disconnected_is_unknown(process, channel_id);
                } else {
                    lemma_connection_of_other(process, who, channel_id);
                }
            }
        },
        _ => {},
    }
}

proof fn lemma_other_generation(
    state: AcpView,
    place: Seq<char>,
    which: u64,
    channel_id: Seq<char>,
    generation: u64,
)
    requires
        lives_at(state, channel_id, generation),
        state.knows(place, which),
        which != generation,
    ensures
        is_unknown_to(channel_id, state.process_of(place, which)),
        awaits_nothing_for(state.process_of(place, which), channel_id),
{
    if text::decimal(which as nat) == text::decimal(generation as nat) {
        text::lemma_decimal_injective(which as nat, generation as nat);
    }
}

proof fn lemma_answer_at_home(
    state: AcpView,
    place: Seq<char>,
    which: u64,
    message: MessageView,
    channel_id: Seq<char>,
    generation: u64,
)
    requires
        lives_at(state, channel_id, generation),
        which == generation ==> undisturbed(state, place, generation),
    ensures
        lives_at(channel::spoken(state, place, which, message).0, channel_id, generation),
{
    let current = state.processes[place];
    let retired = state.retired[text::decimal(which as nat)];
    lemma_generation_stays(current, state.senders, seq![], message);
    lemma_generation_stays(retired, state.senders, seq![], message);
    if state.is_current(place, which) {
        if current.generation != generation {
            lemma_agent_and_channel(current, state.senders, message, channel_id);
        }
    } else if state.retired.contains_key(text::decimal(which as nat)) {
        if which != generation {
            lemma_other_generation(state, place, which, channel_id, generation);
            lemma_retired_and_channel(retired, state.senders, message, channel_id);
        }
        match proxy::made_elsewhere(retired, message) {
            Some((session_id, who)) => {
                if state.processes.contains_key(place) && current.generation != generation {
                    lemma_session_of_other(current, state.senders, session_id, who, channel_id);
                }
            },
            None => {},
        }
    }
}

/// Nothing is left of a channel that leaves the process at which it has taken its steps.
pub proof fn lemma_nothing_is_left(
    state: AcpView,
    steps: Seq<Step>,
    channel_id: Seq<char>,
    process_key: Seq<char>,
    generation: u64,
)
    requires
        lives_at(state, channel_id, generation),
        forall|i: int|
            0 <= i < steps.len() ==> is_at(
                ran(state, #[trigger] steps.take(i)),
                steps[i],
                channel_id,
                process_key,
                generation,
            ),
        generations_differ(ran(state, steps)),
        forall|key: Seq<char>| #[trigger]
            ran(state, steps).processes.contains_key(key) && key != process_key ==> ran(
                state,
                steps,
            ).processes[key].generation != generation,
    ensures
        is_gone(channel::left(ran(state, steps), channel_id, process_key, generation), channel_id),
{
    lemma_channel_has_one_home(state, steps, channel_id, process_key, generation);
    let last = ran(state, steps);
    let after = channel::left(last, channel_id, process_key, generation);
    lemma_disconnected_is_unknown(last.process_of(process_key, generation), channel_id);
}

/// A channel that has gone does not come back by itself: whatever happens next, nothing is left of
/// it until it asks to join again.
pub proof fn lemma_gone_stays_gone(state: AcpView, steps: Seq<Step>, channel_id: Seq<char>)
    requires
        is_gone(state, channel_id),
        forall|i: int| 0 <= i < steps.len() ==> !is_of(#[trigger] steps[i], channel_id),
    ensures
        is_gone(ran(state, steps), channel_id),
    decreases steps.len(),
{
    if steps.len() > 0 {
        let rest = steps.drop_last();
        assert forall|i: int| 0 <= i < rest.len() implies !is_of(#[trigger] rest[i], channel_id) by {
            assert(rest[i] == steps[i]);
        }
        lemma_gone_stays_gone(state, rest, channel_id);
        assert(!is_of(steps[steps.len() - 1], channel_id));
        lemma_unknown_after(ran(state, rest), steps.last(), channel_id);
    }
}

/// Nothing is left of a channel whose join fails: its process could not be started, or has ended
/// before the join did. `steps` are those between its asking to join and the end of the join.
pub proof fn lemma_refused_join_leaves_nothing(
    state: AcpView,
    sender: SenderView,
    steps: Seq<Step>,
    channel_id: Seq<char>,
    process_key: Seq<char>,
)
    requires
        is_gone(state, channel_id),
        awaited_nowhere(state, channel_id),
        forall|i: int| 0 <= i < steps.len() ==> !is_of(#[trigger] steps[i], channel_id),
    ensures
        ({
            let last = ran(stepped(state, Step::Asked { channel_id, sender }), steps);
            &&& is_gone(stepped(last, Step::NotStarted { channel_id }), channel_id)
            &&& !last.processes.contains_key(process_key) ==> is_gone(
                channel::joined(last, channel_id, process_key),
                channel_id,
            )
        }),
{
    lemma_nobody_knows(stepped(state, Step::Asked { channel_id, sender }), steps, channel_id);
}

proof fn lemma_nobody_knows(state: AcpView, steps: Seq<Step>, channel_id: Seq<char>)
    requires
        unknown_everywhere(state, channel_id),
        awaited_nowhere(state, channel_id),
        forall|i: int| 0 <= i < steps.len() ==> !is_of(#[trigger] steps[i], channel_id),
    ensures
        unknown_everywhere(ran(state, steps), channel_id),
        awaited_nowhere(ran(state, steps), channel_id),
    decreases steps.len(),
{
    if steps.len() > 0 {
        let rest = steps.drop_last();
        assert forall|i: int| 0 <= i < rest.len() implies !is_of(#[trigger] rest[i], channel_id) by {
            assert(rest[i] == steps[i]);
        }
        lemma_nobody_knows(state, rest, channel_id);
        assert(!is_of(steps[steps.len() - 1], channel_id));
        lemma_unknown_after(ran(state, rest), steps.last(), channel_id);
    }
}

/// A step that a channel does not take makes it known to no process, where nothing is awaited for it
/// or where nothing can be sent to it.
proof fn lemma_unknown_after(state: AcpView, step: Step, channel_id: Seq<char>)
    requires
        !is_of(step, channel_id),
        unknown_everywhere(state, channel_id),
        awaited_nowhere(state, channel_id) || !state.senders.contains_key(channel_id),
    ensures
        unknown_everywhere(stepped(state, step), channel_id),
        awaited_nowhere(state, channel_id) ==> awaited_nowhere(stepped(state, step), channel_id),
        !state.senders.contains_key(channel_id) ==> !stepped(state, step).senders.contains_key(channel_id),
{
    match step {
        Step::Joined { channel_id: who, process_key: place } => {
            if state.processes.contains_key(place) {
                lemma_connection_of_other(state.processes[place], who, channel_id);
            }
        },
        Step::Said { channel_id: who, process_key: place, message } => {
            if state.processes.contains_key(place) {
                lemma_other_client(state.processes[place], state.senders, who, message, channel_id);
            }
        },
        Step::Answered { process_key: place, generation: which, message } => {
            let current = state.processes[place];
            let retired = state.retired[text::decimal(which as nat)];
            if state.is_current(place, which) {
                lemma_agent_and_channel(current, state.senders, message, channel_id);
            } else if state.retired.contains_key(text::decimal(which as nat)) {
                lemma_retired_and_channel(retired, state.senders, message, channel_id);
                match proxy::made_elsewhere(retired, message) {
                    Some((session_id, who)) => {
                        if state.processes.contains_key(place) {
                            lemma_session_of_other(current, state.senders, session_id, who, channel_id);
                        }
                    },
                    None => {},
                }
            }
        },
        Step::Stopped { process_key: place, generation: which, session_id, counter } => {
            if state.knows(place, which) {
                lemma_stop_and_channel(state.process_of(place, which), session_id, counter, channel_id);
            }
        },
        Step::Left { channel_id: who, process_key: place, generation: which } => {
            if state.knows(place, which) {
                if who == channel_id {
                    lemma_disconnected_is_unknown(state.process_of(place, which), channel_id);
                } else {
                    lemma_connection_of_other(state.process_of(place, which), who, channel_id);
                }
            }
        },
        _ => {},
    }
}

// ---------------------------------------------------------------------------
// Messages of sessions
// ---------------------------------------------------------------------------

/// A message of a session that nobody is connected to is not lost: a client that comes back gets it
/// last among the messages after the one it names, and then the response. The message may not be
/// the one it names itself.
pub proof fn lemma_missed_message_is_replayed(
    process: ProcessView,
    senders: Senders,
    message: MessageView,
    session_id: Seq<char>,
    channel_id: Seq<char>,
    request: RequestView,
    latest_id: Seq<char>,
)
    requires
        acp_session::session_id_of(acp_session::scope_of(message)) == Some(session_id),
        process.sessions.contains_key(session_id),
        process.sessions[session_id].channel_id is None,
        senders.contains_key(channel_id),
        ({
            let session = process.sessions[session_id].state;
            acp_session::is_buffered(session.buffer, latest_id) || proxy::routed(session, message).1
                != latest_id
        }),
    ensures
        ({
            let session = process.sessions[session_id].state;
            let (out, id) = proxy::routed(session, message);
            let after = proxy::from_agent(process, senders, message).0;
            let (connected, effects) = proxy::reconnected(
                after,
                senders,
                channel_id,
                request,
                session_id,
                latest_id,
            );
            &&& process::owner(connected.sessions, session_id) == Some(channel_id)
            &&& effects == proxy::replayed(
                senders[channel_id],
                channel_id,
                acp_session::messages_after(session.buffer, latest_id).push(
                    BufferedView { id, message: out },
                ),
            ) + proxy::jsonrpc_to(
                senders,
                channel_id,
                MessageView::Response(
                    ResponseView {
                        jsonrpc: jsonrpc::JSONRPC_VERSION@,
                        id: request.id,
                        result: Some(acp_session::load_result_json(session.cancelled)),
                        error: None,
                    },
                ),
            )
        }),
{
    let session = process.sessions[session_id].state;
    let (out, id) = proxy::routed(session, message);
    acp_session::lemma_later_message_is_replayed(
        session.buffer,
        BufferedView { id, message: out },
        latest_id,
    );
}

/// Only the owner of a session can drop messages from its buffer by acknowledging them, whether it
/// names a session or not.
pub proof fn lemma_only_owner_acknowledges(
    process: ProcessView,
    channel_id: Seq<char>,
    named: Option<Seq<char>>,
    latest_id: Seq<char>,
    session_id: Seq<char>,
)
    requires
        process::owner(process.sessions, session_id) != Some(channel_id),
    ensures
        ({
            let after = proxy::acknowledged(process, channel_id, named, latest_id).sessions;
            &&& after.contains_key(session_id) == process.sessions.contains_key(session_id)
            &&& after.contains_key(session_id) ==> after[session_id] == process.sessions[session_id]
        }),
{
}

/// An acknowledgement that names no session does what one does that names the session of the sender
/// which holds the message, where it is the only one.
pub proof fn lemma_ack_finds_session(
    process: ProcessView,
    channel_id: Seq<char>,
    session_id: Seq<char>,
    latest_id: Seq<char>,
)
    requires
        process::owner(process.sessions, session_id) == Some(channel_id),
        forall|other: Seq<char>|
            other != session_id && process::owner(process.sessions, other) == Some(channel_id)
                ==> !acp_session::is_buffered(
                (#[trigger] process.sessions[other]).state.buffer,
                latest_id,
            ),
    ensures
        proxy::acknowledged(process, channel_id, None, latest_id) == proxy::acknowledged(
            process,
            channel_id,
            Some(session_id),
            latest_id,
        ),
        proxy::acknowledged(process, channel_id, None, latest_id).sessions[session_id].state
            == acp_session::pruned(process.sessions[session_id].state, latest_id),
{
    let all = proxy::acknowledged(process, channel_id, None, latest_id).sessions;
    let one = proxy::acknowledged(process, channel_id, Some(session_id), latest_id).sessions;
    assert forall|id: Seq<char>| process.sessions.contains_key(id) implies all[id] == one[id] by {
        if id != session_id {
            assert(process.sessions[id] == one[id]);
            if process::owner(process.sessions, id) == Some(channel_id) {
                assert(!acp_session::is_buffered(process.sessions[id].state.buffer, latest_id));
            }
        }
    }
    assert(all =~= one);
}

/// A message of an agent that names no session reaches exactly the connected channels of the
/// process.
pub proof fn lemma_broadcast_reaches(
    senders: Senders,
    channels: Seq<Seq<char>>,
    message: MessageView,
    effect: EffectView,
)
    ensures
        proxy::broadcast_to(senders, channels, message).contains(effect) <==> exists|i: int|
            0 <= i < channels.len() && proxy::jsonrpc_to(senders, #[trigger] channels[i], message).contains(
                effect,
            ),
    decreases channels.len(),
{
    if channels.len() > 0 {
        let rest = channels.drop_last();
        let head = proxy::broadcast_to(senders, rest, message);
        let tail = proxy::jsonrpc_to(senders, channels.last(), message);
        let all = proxy::broadcast_to(senders, channels, message);
        lemma_broadcast_reaches(senders, rest, message, effect);
        if all.contains(effect) {
            let k = all.index_of(effect);
            if k < head.len() {
                assert(head[k] == effect);
                let i = choose|i: int|
                    0 <= i < rest.len() && proxy::jsonrpc_to(
                        senders,
                        #[trigger] rest[i],
                        message,
                    ).contains(effect);
                assert(channels[i] == rest[i]);
            } else {
                assert(tail[k - head.len()] == effect);
                assert(channels[channels.len() - 1] == channels.last());
            }
        }
        if exists|i: int|
            0 <= i < channels.len() && proxy::jsonrpc_to(
                senders,
                #[trigger] channels[i],
                message,
            ).contains(effect) {
            let i = choose|i: int|
                0 <= i < channels.len() && proxy::jsonrpc_to(
                    senders,
                    #[trigger] channels[i],
                    message,
                ).contains(effect);
            if i == channels.len() - 1 {
                let k = tail.index_of(effect);
                assert(all[head.len() + k] == effect);
            } else {
                assert(rest[i] == channels[i]);
                assert(head.contains(effect));
                let k = head.index_of(effect);
                assert(all[k] == effect);
            }
        }
    }
}

/// A message of an agent that names no session is pushed once to each connected channel of the
/// process and to no other channel, and changes nothing else.
pub proof fn lemma_broadcast_once(process: ProcessView, senders: Senders, message: MessageView, channel_id: Seq<char>)
    requires
        process.channels.no_duplicates(),
        !(message is Response),
        acp_session::session_id_of(acp_session::scope_of(message)) is None,
    ensures
        ({
            let (after, effects) = proxy::from_process(process, senders, message);
            &&& after == process
            &&& pushes_to(effects, channel_id) == (if process.channels.contains(channel_id) {
                proxy::jsonrpc_to(senders, channel_id, message)
            } else {
                seq![]
            })
        }),
{
    lemma_pushes_of_broadcast(senders, process.channels, message, channel_id);
}

/// The pushes to one channel among the effects, in their order.
pub open spec fn pushes_to(effects: Seq<EffectView>, channel_id: Seq<char>) -> Seq<EffectView> {
    effects.filter(|e: EffectView| e is Push && e->channel_id == channel_id)
}

proof fn lemma_pushes_add(first: Seq<EffectView>, second: Seq<EffectView>, channel_id: Seq<char>)
    ensures
        pushes_to(first + second, channel_id) == pushes_to(first, channel_id) + pushes_to(second, channel_id),
    decreases second.len(),
{
    reveal(Seq::filter);
    if second.len() == 0 {
        assert(first + second =~= first);
        assert(pushes_to(second, channel_id) =~= seq![]);
        assert(pushes_to(first, channel_id) + seq![] =~= pushes_to(first, channel_id));
    } else {
        lemma_pushes_add(first, second.drop_last(), channel_id);
        assert((first + second).drop_last() =~= first + second.drop_last());
        assert((first + second).last() == second.last());
        assert(pushes_to(first + second, channel_id) =~= pushes_to(first, channel_id) + pushes_to(
            second,
            channel_id,
        ));
    }
}

proof fn lemma_pushes_of_broadcast(
    senders: Senders,
    channels: Seq<Seq<char>>,
    message: MessageView,
    channel_id: Seq<char>,
)
    requires
        channels.no_duplicates(),
    ensures
        pushes_to(proxy::broadcast_to(senders, channels, message), channel_id) == (if channels.contains(
            channel_id,
        ) {
            proxy::jsonrpc_to(senders, channel_id, message)
        } else {
            seq![]
        }),
    decreases channels.len(),
{
    reveal(Seq::filter);
    if channels.len() == 0 {
        assert(pushes_to(proxy::broadcast_to(senders, channels, message), channel_id) =~= seq![]);
    } else {
        let rest = channels.drop_last();
        let tail = proxy::jsonrpc_to(senders, channels.last(), message);
        lemma_pushes_of_broadcast(senders, rest, message, channel_id);
        lemma_pushes_add(proxy::broadcast_to(senders, rest, message), tail, channel_id);
        if senders.contains_key(channels.last()) {
            assert(tail.drop_last() =~= seq![]);
            assert(tail.len() == 1);
            assert(pushes_to(tail.drop_last(), channel_id) =~= seq![]);
        }
        assert(pushes_to(tail, channel_id) =~= (if channels.last() == channel_id {
            tail
        } else {
            seq![]
        }));
        assert(channels[channels.len() - 1] == channels.last());
        if rest.contains(channel_id) {
            let i = rest.index_of(channel_id);
            assert(channels[i] == channel_id);
            assert(channels.contains(channel_id));
        }
        if channels.contains(channel_id) && channels.last() != channel_id {
            let i = channels.index_of(channel_id);
            assert(rest[i] == channel_id);
        }
        assert(pushes_to(proxy::broadcast_to(senders, channels, message), channel_id) =~= (if channels.contains(
            channel_id,
        ) {
            proxy::jsonrpc_to(senders, channel_id, message)
        } else {
            seq![]
        }));
    }
}

// ---------------------------------------------------------------------------
// Initialization
// ---------------------------------------------------------------------------

/// Once an agent has been asked to initialize, no message brings it back to the state in which it
/// would be asked again.
pub proof fn lemma_initialized_once(
    process: ProcessView,
    senders: Senders,
    channel_id: Seq<char>,
    message: MessageView,
)
    requires
        !(process.init is NotStarted),
    ensures
        !(proxy::from_client(process, senders, channel_id, message).0.init is NotStarted),
        !(proxy::from_process(process, senders, message).0.init is NotStarted),
{
}

/// Every client gets the agent's answer to `initialize`, the one whose request went to the agent as
/// well as those that ask later or wait, each under its own identity.
pub proof fn lemma_every_client_is_initialized(
    process: ProcessView,
    senders: Senders,
    response: ResponseView,
    channel_id: Seq<char>,
    request: RequestView,
)
    requires
        acp::is_current(process.init, response.id),
        process.inflight.contains_key(json::id_text(response.id)),
    ensures
        ({
            let after = proxy::answered(process, senders, response).0;
            let answer = proxy::jsonrpc_to(
                senders,
                channel_id,
                MessageView::Response(proxy::client_answer(process, response, request.id)),
            );
            &&& proxy::initialized(after, senders, channel_id, request).1 == answer
            &&& proxy::wait_finished(after.init, senders, channel_id, request.id) == Some(answer)
        }),
{
}

/// An agent process that a channel has joined since a timer was started is not stopped by the
/// timer.
pub proof fn lemma_joining_calls_off_timer(process: ProcessView, channel_id: Seq<char>)
    ensures
        channel::connected(process, channel_id).epoch != process.epoch,
{
}

} // verus!
