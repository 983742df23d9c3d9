//! What holds of the relay, whatever clients and agents do.

use vstd::prelude::*;

use crate::acp_relay;
use crate::acp_relay::{EffectView, Problem, ProcessView, RelayView, Step, Style};
use crate::acp_session;
use crate::acp_session::{BufferedView, ExitView};
use crate::json;
use crate::json::JsonView;
use crate::jsonrpc::{MessageView, RequestView, ResponseView};
use crate::text;
use crate::ws::acp::process::Stdin;
use crate::ws::acp::proxy;

verus! {

// ---------------------------------------------------------------------------
// Identities
// ---------------------------------------------------------------------------

/// Two requests that an agent gets one after the other have different identities.
pub proof fn lemma_fresh_identity(process: ProcessView, channel_id: Seq<char>, client_id: JsonView, session_id: Option<Seq<char>>)
    ensures
        acp_relay::next_id(acp_relay::mapped(process, channel_id, client_id, session_id))
            != acp_relay::next_id(process),
{
}

/// Noting a request leaves those in flight alone, unless the counter of identities has gone round.
pub proof fn lemma_identities_apart(
    process: ProcessView,
    channel_id: Seq<char>,
    client_id: JsonView,
    session_id: Option<Seq<char>>,
    n: u64,
)
    requires
        n != process.next_proxy_id,
        process.clients.contains_key(text::decimal(n as nat)),
    ensures
        ({
            let noted = acp_relay::mapped(process, channel_id, client_id, session_id);
            &&& noted.clients.contains_key(text::decimal(n as nat))
            &&& noted.clients[text::decimal(n as nat)] == process.clients[text::decimal(n as nat)]
        }),
{
    if text::decimal(n as nat) == text::decimal(process.next_proxy_id as nat) {
        text::lemma_decimal_injective(n as nat, process.next_proxy_id as nat);
    }
}

/// Whatever stands under an identity was noted under one that was given out before.
pub open spec fn ids_given_out(process: ProcessView) -> bool {
    forall|key: Seq<char>|
        #![trigger process.clients.contains_key(key)]
        #![trigger process.sessions.contains_key(key)]
        #![trigger process.pending.contains_key(key)]
        process.clients.contains_key(key) || process.sessions.contains_key(key)
            || process.pending.contains_key(key) ==> given_out(process, key)
}

/// Whether an identity was given out before.
pub open spec fn given_out(process: ProcessView, key: Seq<char>) -> bool {
    exists|n: u64| n < process.next_proxy_id && key == #[trigger] text::decimal(n as nat)
}

/// Nothing stands under the identity that is given out next.
pub proof fn lemma_next_identity_is_free(process: ProcessView)
    requires
        ids_given_out(process),
    ensures
        ({
            let key = text::decimal(process.next_proxy_id as nat);
            &&& !process.clients.contains_key(key)
            &&& !process.sessions.contains_key(key)
            &&& !process.pending.contains_key(key)
        }),
{
    let key = text::decimal(process.next_proxy_id as nat);
    if given_out(process, key) {
        let n = choose|n: u64| n < process.next_proxy_id && key == #[trigger] text::decimal(n as nat);
        text::lemma_decimal_injective(n as nat, process.next_proxy_id as nat);
    }
}

/// Cleaning up after a request that was noted leaves the tables as they were before it. `proxy_id` is
/// the identity that the request was given.
pub proof fn lemma_cleanup_restores(
    process: ProcessView,
    channel_id: Seq<char>,
    client_id: JsonView,
    session_id: Option<Seq<char>>,
    proxy_id: JsonView,
)
    requires
        ids_given_out(process),
        json::id_text(proxy_id) == text::decimal(process.next_proxy_id as nat),
    ensures
        ({
            let noted = acp_relay::mapped(process, channel_id, client_id, session_id);
            let after = acp_relay::unmapped(noted, proxy_id);
            &&& noted.clients.contains_key(json::id_text(proxy_id))
            &&& !after.clients.contains_key(json::id_text(proxy_id))
            &&& !after.sessions.contains_key(json::id_text(proxy_id))
            &&& after == (ProcessView { next_proxy_id: noted.next_proxy_id, ..process })
        }),
{
    lemma_next_identity_is_free(process);
    let noted = acp_relay::mapped(process, channel_id, client_id, session_id);
    let after = acp_relay::unmapped(noted, proxy_id);
    assert(after.clients =~= process.clients);
    assert(after.sessions =~= process.sessions);
}

/// Whether what stands under an identity was noted under one that was given out, for every agent.
pub open spec fn all_given_out(state: RelayView) -> bool {
    forall|key: Seq<char>| #[trigger]
        state.processes.contains_key(key) ==> ids_given_out(state.processes[key])
}

proof fn lemma_mapped_given_out(
    process: ProcessView,
    channel_id: Seq<char>,
    client_id: JsonView,
    session_id: Option<Seq<char>>,
    after: ProcessView,
)
    requires
        ids_given_out(process),
        process.next_proxy_id < u64::MAX,
        ({
            let noted = acp_relay::mapped(process, channel_id, client_id, session_id);
            &&& after.next_proxy_id == noted.next_proxy_id
            &&& after.clients == noted.clients
            &&& after.sessions == noted.sessions
            &&& forall|key: Seq<char>| #[trigger]
                after.pending.contains_key(key) ==> process.pending.contains_key(key) || key
                    == text::decimal(process.next_proxy_id as nat)
        }),
    ensures
        ids_given_out(after),
{
    let fresh = text::decimal(process.next_proxy_id as nat);
    assert forall|key: Seq<char>|
        #![trigger after.clients.contains_key(key)]
        #![trigger after.sessions.contains_key(key)]
        #![trigger after.pending.contains_key(key)]
        after.clients.contains_key(key) || after.sessions.contains_key(key) || after.pending.contains_key(
            key,
        ) implies given_out(after, key) by {
        if key == fresh {
            assert(process.next_proxy_id < after.next_proxy_id && key == text::decimal(
                process.next_proxy_id as nat,
            ));
        } else {
            assert(process.clients.contains_key(key) || process.sessions.contains_key(key)
                || process.pending.contains_key(key));
            assert(given_out(process, key));
            let n = choose|n: u64| n < process.next_proxy_id && key == #[trigger] text::decimal(n as nat);
            assert(n < after.next_proxy_id && key == text::decimal(n as nat));
        }
    }
}

/// A message of a client keeps it so that nothing stands under an identity not yet given out, as long
/// as the counter of identities does not go round.
pub proof fn lemma_client_keeps_identities(state: RelayView, channel_id: Seq<char>, message: MessageView)
    requires
        all_given_out(state),
        forall|key: Seq<char>| #[trigger]
            state.processes.contains_key(key) ==> state.processes[key].next_proxy_id < u64::MAX,
    ensures
        all_given_out(acp_relay::from_client(state, channel_id, message).state),
{
    match message {
        MessageView::Request(request) => {
            lemma_regular_keeps_identities(state, channel_id, request);
            match acp_session::session_id_of(request.params) {
                Some(session_id) => {
                    let known = if state.sessions.contains_key(session_id) {
                        state.sessions[session_id].process_key
                    } else {
                        state.homes[channel_id]
                    };
                    let opened = if state.sessions.contains_key(session_id) {
                        state
                    } else {
                        state.with_session(session_id, acp_session::new_session(known))
                    };
                    let claimed = opened.with_owner(session_id, channel_id).with_home(channel_id, known);
                    assert(claimed.processes == state.processes);
                    lemma_regular_keeps_identities(claimed, channel_id, request);
                },
                None => {},
            }
            lemma_initialize_keeps_identities(state, channel_id, request);
        },
        _ => {},
    }
}

proof fn lemma_regular_keeps_identities(state: RelayView, channel_id: Seq<char>, request: RequestView)
    requires
        all_given_out(state),
        forall|key: Seq<char>| #[trigger]
            state.processes.contains_key(key) ==> state.processes[key].next_proxy_id < u64::MAX,
    ensures
        all_given_out(acp_relay::regular(state, channel_id, request).state),
{
    match state.process_of(channel_id) {
        Ok(key) => {
            let process = state.processes[key];
            let after = acp_relay::regular(state, channel_id, request).state.processes[key];
            lemma_mapped_given_out(
                process,
                channel_id,
                request.id,
                acp_session::session_id_of(request.params),
                after,
            );
        },
        Err(_) => {},
    }
}

/// Asking an agent to initialize keeps it so that nothing stands under an identity not yet given out.
pub proof fn lemma_initialize_keeps_identities(state: RelayView, channel_id: Seq<char>, request: RequestView)
    requires
        all_given_out(state),
        forall|key: Seq<char>| #[trigger]
            state.processes.contains_key(key) ==> state.processes[key].next_proxy_id < u64::MAX,
    ensures
        all_given_out(acp_relay::initialize(state, channel_id, request).state),
{
    match state.process_of(channel_id) {
        Ok(key) => {
            let process = state.processes[key];
            if process.cached is None {
                let after = acp_relay::initialize(state, channel_id, request).state.processes[key];
                lemma_mapped_given_out(
                    process,
                    channel_id,
                    request.id,
                    acp_session::session_id_of(request.params),
                    after,
                );
            }
        },
        Err(_) => {},
    }
}

/// A message of an agent keeps it so that nothing stands under an identity not yet given out, and so
/// does a new agent, of which nothing has been noted.
pub proof fn lemma_agent_keeps_identities(state: RelayView, key: Seq<char>, message: MessageView)
    requires
        all_given_out(state),
    ensures
        all_given_out(acp_relay::from_process(state, key, message).state),
        ids_given_out(acp_relay::new_process(key, Stdin::Open)),
{
    if state.processes.contains_key(key) {
        let process = state.processes[key];
        let after = acp_relay::from_process(state, key, message).state;
        assert(ids_given_out(process));
        assert(ids_given_out(after.processes[key])) by {
            let now = after.processes[key];
            assert(now.next_proxy_id == process.next_proxy_id);
            assert forall|id: Seq<char>|
                #![trigger now.clients.contains_key(id)]
                #![trigger now.sessions.contains_key(id)]
                #![trigger now.pending.contains_key(id)]
                now.clients.contains_key(id) || now.sessions.contains_key(id) || now.pending.contains_key(
                    id,
                ) implies given_out(now, id) by {
                assert(process.clients.contains_key(id) || process.sessions.contains_key(id)
                    || process.pending.contains_key(id));
                assert(given_out(process, id));
                let n = choose|n: u64| n < process.next_proxy_id && id == #[trigger] text::decimal(n as nat);
                assert(n < now.next_proxy_id && id == text::decimal(n as nat));
            }
        }
        assert forall|other: Seq<char>| #[trigger] after.processes.contains_key(other) implies ids_given_out(
            after.processes[other],
        ) by {
            if other != key {
                assert(state.processes.contains_key(other));
                assert(after.processes[other] == state.processes[other]);
            }
        }
    }
}

/// The response to a request goes to the client that made it, under the identity that the client
/// chose, as long as the request is in flight and the client is connected.
pub proof fn lemma_response_returns(
    first: RelayView,
    key: Seq<char>,
    channel_id: Seq<char>,
    request: RequestView,
    state: RelayView,
    response: ResponseView,
)
    requires
        first.process_of(channel_id) == Ok::<Seq<char>, Problem>(key),
        ({
            let id = text::decimal(first.processes[key].next_proxy_id as nat);
            let noted = acp_relay::regular(first, channel_id, request).state.processes[key];
            &&& state.processes.contains_key(key)
            &&& state.processes[key].clients.contains_key(id)
            &&& state.processes[key].clients[id] == noted.clients[id]
            &&& json::id_text(response.id) == id
        }),
        state.channels.contains_key(channel_id),
    ensures
        acp_relay::answered(state, key, response).effects == seq![
            EffectView::Deliver {
                channel_id,
                message: MessageView::Response(
                    acp_relay::client_answer(state.processes[key], response, request.id),
                ),
            },
        ],
        !acp_relay::answers_init(state.processes[key], response) ==> acp_relay::client_answer(
            state.processes[key],
            response,
            request.id,
        ) == (ResponseView { id: request.id, ..response }),
{
}

/// A response whose client has left follows the session: the client that has the session now gets
/// it, under the identity that the request came with. Where nobody has the session, the response
/// waits in the session's buffer, if clients are channels.
pub proof fn lemma_response_follows_session(state: RelayView, key: Seq<char>, response: ResponseView)
    requires
        ({
            let id = json::id_text(response.id);
            let process = state.processes[key];
            &&& process.clients.contains_key(id)
            &&& !process.pending.contains_key(id)
            &&& process.sessions.contains_key(id)
            &&& !state.channels.contains_key(process.clients[id].by)
        }),
    ensures
        ({
            let asked = state.processes[key].sessions[json::id_text(response.id)];
            let answer = MessageView::Response(ResponseView { id: asked.client_id, ..response });
            let step = acp_relay::answered(state, key, response);
            &&& state.owners.contains_key(asked.by) ==> {
                &&& step.effects == state.deliver(state.owners[asked.by], answer)
                &&& step.state.sessions == state.sessions
            }
            &&& !state.owners.contains_key(asked.by) && state.style == Style::Channel
                && state.sessions.contains_key(asked.by) ==> {
                &&& step.effects == Seq::<EffectView>::empty()
                &&& step.state.sessions == state.sessions.insert(
                    asked.by,
                    acp_session::session_with(
                        state.sessions[asked.by],
                        answer,
                        json::json_text(asked.client_id),
                    ),
                )
            }
        }),
{
}

/// A request is answered once: a second response with the same identity does nothing, unless the
/// first said that a session could not be opened.
pub proof fn lemma_answered_once(state: RelayView, key: Seq<char>, response: ResponseView)
    requires
        state.processes.contains_key(key),
        acp_relay::answered(state, key, response).problem is None,
    ensures
        ({
            let after = acp_relay::answered(state, key, response).state;
            acp_relay::answered(after, key, response) == acp_relay::nothing(after)
        }),
{
    let after = acp_relay::answered(state, key, response).state;
    assert(!after.processes[key].clients.contains_key(json::id_text(response.id)));
}

/// Once an agent has answered `initialize`, every client that asks again gets that answer, and the
/// agent is not asked.
pub proof fn lemma_initialized_once(
    state: RelayView,
    key: Seq<char>,
    response: ResponseView,
    channel_id: Seq<char>,
    request: RequestView,
)
    requires
        state.processes.contains_key(key),
        acp_relay::answers_init(state.processes[key], response),
        state.processes[key].clients.contains_key(json::id_text(response.id)),
    ensures
        ({
            let answered = acp_relay::answered(state, key, response).state;
            let asked_by = state.processes[key].clients[json::id_text(response.id)];
            let kept = acp_relay::client_answer(state.processes[key], response, asked_by.client_id);
            answered.process_of(channel_id) == Ok::<Seq<char>, Problem>(key) ==> acp_relay::initialize(
                answered,
                channel_id,
                request,
            ) == (Step {
                state: answered,
                effects: answered.deliver(
                    channel_id,
                    MessageView::Response(ResponseView { id: request.id, ..kept }),
                ),
                problem: None,
            })
        }),
{
}

// ---------------------------------------------------------------------------
// Ownership of sessions
// ---------------------------------------------------------------------------

/// No message of a client takes a session from the client that has it.
pub proof fn lemma_session_is_not_taken(
    state: RelayView,
    session_id: Seq<char>,
    channel_id: Seq<char>,
    message: MessageView,
)
    requires
        state.owners.contains_key(session_id),
    ensures
        ({
            let after = acp_relay::from_client(state, channel_id, message).state;
            &&& after.owners.contains_key(session_id)
            &&& after.owners[session_id] == state.owners[session_id]
        }),
{
}

/// A client that asks for a session that another has is told so, and changes nothing but the count
/// of attempts.
pub proof fn lemma_load_of_active_session_is_refused(
    state: RelayView,
    channel_id: Seq<char>,
    request: RequestView,
    session_id: Seq<char>,
    latest: Seq<char>,
)
    requires
        acp_session::session_and_latest(request.params) == Some((session_id, latest)),
        state.sessions.contains_key(session_id),
        state.owners.contains_key(session_id),
        state.channels.contains_key(channel_id),
    ensures
        ({
            let step = acp_relay::tidewave_load(state, channel_id, request);
            &&& step.effects == seq![
                EffectView::Deliver {
                    channel_id,
                    message: acp_relay::error_response(
                        request.id,
                        proxy::SESSION_ALREADY_ACTIVE,
                        "Session already has an active connection"@,
                    ),
                },
            ]
            &&& step.state.owners == state.owners
            &&& step.state.homes == state.homes
            &&& step.state.sessions[session_id].buffer == state.sessions[session_id].buffer
        }),
{
}

/// A session that an agent could not open is not kept.
pub proof fn lemma_failed_load_is_undone(state: RelayView, key: Seq<char>, response: ResponseView)
    requires
        state.processes.contains_key(key),
        acp_relay::answered(state, key, response).problem == Some(Problem::LoadFailed),
    ensures
        ({
            let session_id = state.processes[key].pending[json::id_text(response.id)]->session_id;
            let after = acp_relay::answered(state, key, response).state;
            &&& !after.sessions.contains_key(session_id)
            &&& !after.owners.contains_key(session_id)
        }),
{
}

/// An acknowledgement that names no session drops the messages up to the one it names from the
/// session of the sender that holds that message, and leaves the sessions alone that do not.
pub proof fn lemma_ack_finds_session(
    state: RelayView,
    channel_id: Seq<char>,
    params: Option<JsonView>,
    latest: Seq<char>,
    session_id: Seq<char>,
)
    requires
        acp_session::ack_of(params) == Some((None::<Seq<char>>, latest)),
        state.sessions.contains_key(session_id),
        state.owners.contains_key(session_id),
        state.owners[session_id] == channel_id,
    ensures
        ({
            let step = acp_relay::acknowledged(state, channel_id, params);
            &&& step.problem is None
            &&& step.effects == Seq::<EffectView>::empty()
            &&& step.state.sessions.dom() =~= state.sessions.dom()
            &&& step.state.sessions[session_id] == acp_session::pruned(state.sessions[session_id], latest)
            &&& !acp_session::is_buffered(state.sessions[session_id].buffer, latest)
                ==> step.state.sessions[session_id] == state.sessions[session_id]
            &&& step.state == (RelayView { sessions: step.state.sessions, ..state })
        }),
{
}

/// Only the client of a session can have its buffer pruned.
pub proof fn lemma_only_owner_acknowledges(
    state: RelayView,
    channel_id: Seq<char>,
    params: Option<JsonView>,
    session_id: Seq<char>,
)
    requires
        state.sessions.contains_key(session_id),
        !(state.owners.contains_key(session_id) && state.owners[session_id] == channel_id),
    ensures
        ({
            let after = acp_relay::acknowledged(state, channel_id, params).state;
            &&& after.sessions.contains_key(session_id)
            &&& after.sessions[session_id] == state.sessions[session_id]
        }),
{
}

/// A client that goes lets its sessions go and keeps no agent; the sessions of other clients stay
/// with them.
pub proof fn lemma_leaving_releases_sessions(state: RelayView, channel_id: Seq<char>, session_id: Seq<char>)
    requires
        state.owners.contains_key(session_id),
        state.sessions.contains_key(session_id),
    ensures
        ({
            let after = acp_relay::disconnected(state, channel_id);
            &&& after.owners.contains_key(session_id) == (state.owners[session_id] != channel_id)
            &&& after.owners.contains_key(session_id) ==> after.owners[session_id]
                == state.owners[session_id]
            &&& after.sessions == state.sessions
            &&& !after.homes.contains_key(channel_id)
        }),
{
}

/// A client that comes back to a session calls off the cancellation that was to follow its going.
pub proof fn lemma_load_calls_off_cancel(
    state: RelayView,
    channel_id: Seq<char>,
    request: RequestView,
    session_id: Seq<char>,
    latest: Seq<char>,
    later: RelayView,
)
    requires
        acp_session::session_and_latest(request.params) == Some((session_id, latest)),
        state.sessions.contains_key(session_id),
        later.sessions.contains_key(session_id),
        later.sessions[session_id].cancel_counter == acp_relay::tidewave_load(
            state,
            channel_id,
            request,
        ).state.sessions[session_id].cancel_counter,
    ensures
        acp_relay::cancelled(later, session_id, state.sessions[session_id].cancel_counter)
            == acp_relay::nothing(later),
{
}

// ---------------------------------------------------------------------------
// Messages for clients that are away
// ---------------------------------------------------------------------------

proof fn lemma_replayed_contains(state: RelayView, channel_id: Seq<char>, buffer: Seq<BufferedView>, i: int)
    requires
        state.channels.contains_key(channel_id),
        0 <= i < buffer.len(),
    ensures
        acp_relay::replayed(state, channel_id, buffer).contains(
            EffectView::Deliver { channel_id, message: buffer[i].message },
        ),
    decreases buffer.len(),
{
    let effect = EffectView::Deliver { channel_id, message: buffer[i].message };
    let rest = acp_relay::replayed(state, channel_id, buffer.drop_last());
    let all = acp_relay::replayed(state, channel_id, buffer);
    if i == buffer.len() - 1 {
        assert(all[rest.len() as int] == effect);
    } else {
        lemma_replayed_contains(state, channel_id, buffer.drop_last(), i);
        let k = rest.index_of(effect);
        assert(all[k] == effect);
    }
}

/// What an agent sends for a session while its client is away reaches the client that loads the
/// session, if that client has not seen it.
pub proof fn lemma_missed_message_is_replayed(
    state: RelayView,
    message: MessageView,
    session_id: Seq<char>,
    channel_id: Seq<char>,
    request: RequestView,
    latest: Seq<char>,
)
    requires
        !(message is Response),
        acp_session::session_id_of(acp_session::scope_of(message)) == Some(session_id),
        state.sessions.contains_key(session_id),
        !state.owners.contains_key(session_id),
        state.channels.contains_key(channel_id),
        acp_session::session_and_latest(request.params) == Some((session_id, latest)),
        acp_relay::routed(state.sessions[session_id], message).1 != latest,
    ensures
        ({
            let sent = acp_relay::from_agent(state, message).state;
            acp_relay::tidewave_load(sent, channel_id, request).effects.contains(
                EffectView::Deliver {
                    channel_id,
                    message: acp_relay::routed(state.sessions[session_id], message).0,
                },
            )
        }),
{
    let sent = acp_relay::from_agent(state, message).state;
    let before = state.sessions[session_id].buffer;
    let (routed_message, id) = acp_relay::routed(state.sessions[session_id], message);
    let added = BufferedView { id, message: routed_message };
    let after = sent.sessions[session_id].buffer;
    assert(after == before.push(added));
    acp_session::lemma_later_message_is_replayed(before, added, latest);
    let missed = acp_session::messages_after(after, latest);
    let i = missed.index_of(added);
    lemma_replayed_contains(sent, channel_id, missed, i);
    let replayed = acp_relay::replayed(sent, channel_id, missed);
    let effect = EffectView::Deliver { channel_id, message: routed_message };
    let k = replayed.index_of(effect);
    assert(acp_relay::tidewave_load(sent, channel_id, request).effects[k] == effect);
}

// ---------------------------------------------------------------------------
// Agents that end
// ---------------------------------------------------------------------------

/// Every connected client of an agent is told when the agent ends.
pub proof fn lemma_exit_is_told(
    state: RelayView,
    order: Seq<Seq<char>>,
    key: Seq<char>,
    exit: ExitView,
    channel_id: Seq<char>,
)
    requires
        state.homes.contains_key(channel_id),
        state.homes[channel_id] == key,
        state.channels.contains_key(channel_id),
        order.contains(channel_id),
    ensures
        acp_relay::exits_told(state, order, key, exit).contains(
            if state.style == Style::Socket {
                EffectView::Deliver { channel_id, message: acp_relay::exit_notification(exit) }
            } else {
                EffectView::Exit { channel_id, exit }
            },
        ),
    decreases order.len(),
{
    let effect = if state.style == Style::Socket {
        EffectView::Deliver { channel_id, message: acp_relay::exit_notification(exit) }
    } else {
        EffectView::Exit { channel_id, exit }
    };
    let rest = acp_relay::exits_told(state, order.drop_last(), key, exit);
    let all = acp_relay::exits_told(state, order, key, exit);
    if order.last() == channel_id {
        assert(all[rest.len() as int] == effect);
    } else {
        let i = order.index_of(channel_id);
        assert(order.drop_last()[i] == channel_id);
        lemma_exit_is_told(state, order.drop_last(), key, exit, channel_id);
        let k = rest.index_of(effect);
        assert(all[k] == effect);
    }
}

/// An agent that has ended leaves no session behind, and takes none of another agent with it.
pub proof fn lemma_exit_forgets_sessions(state: RelayView, key: Seq<char>, session_id: Seq<char>)
    requires
        state.sessions.contains_key(session_id),
    ensures
        ({
            let after = acp_relay::ended(state, key);
            &&& after.sessions.contains_key(session_id) == (state.sessions[session_id].process_key != key)
            &&& after.sessions.contains_key(session_id) ==> after.sessions[session_id]
                == state.sessions[session_id]
            &&& !after.processes.contains_key(key)
        }),
{
}

/// Parameters that differ in more than the options for starting the agent give different keys.
pub proof fn lemma_keys_differ(command: Seq<char>, cwd: Seq<char>, params: JsonView, others: JsonView)
    requires
        json::only_text_of(
            json::json_text(acp_relay::without_spawn(params)),
            acp_relay::without_spawn(params),
        ),
        acp_relay::without_spawn(params) != acp_relay::without_spawn(others),
    ensures
        acp_relay::process_key(command, cwd, params) != acp_relay::process_key(command, cwd, others),
{
    reveal(json::only_text_of);
    let head = command + ":"@ + cwd + ":"@;
    let first = json::json_text(acp_relay::without_spawn(params));
    let second = json::json_text(acp_relay::without_spawn(others));
    let a = acp_relay::process_key(command, cwd, params);
    let b = acp_relay::process_key(command, cwd, others);
    assert(a =~= head + first);
    assert(b =~= head + second);
    if a == b {
        assert(a.skip(head.len() as int) =~= first);
        assert(b.skip(head.len() as int) =~= second);
    }
}

/// The options for starting an agent that are in its parameters do not matter for its key: the
/// command and the directory stand there already.
pub proof fn lemma_key_ignores_spawn_options(
    command: Seq<char>,
    cwd: Seq<char>,
    params: JsonView,
    meta: JsonView,
    options: JsonView,
)
    requires
        params is Obj,
        meta is Obj,
    ensures
        acp_relay::process_key(
            command,
            cwd,
            params.with("_meta"@, meta.with("tidewave.ai/spawn"@, options)),
        ) == acp_relay::process_key(
            command,
            cwd,
            params.with("_meta"@, meta.without("tidewave.ai/spawn"@)),
        ),
{
    let m = meta->Obj_0;
    let key = "tidewave.ai/spawn"@;
    assert(m.insert(key, options).remove(key) =~= m.remove(key));
    assert(m.remove(key).remove(key) =~= m.remove(key));
    let p = params->Obj_0;
    let a = JsonView::Obj(m.insert(key, options));
    let b = JsonView::Obj(m.remove(key));
    assert(p.insert("_meta"@, a).remove("_meta"@) =~= p.insert("_meta"@, b).remove("_meta"@));
    assert(p.insert("_meta"@, a).insert("_meta"@, b) =~= p.insert("_meta"@, b).insert("_meta"@, b));
}

} // verus!
