//! Where the relay sends what clients and agents say, and what it changes on the way.

use vstd::prelude::*;

use crate::acp_relay;
use crate::acp_relay::{
    AskedView, EffectView, InitStep, PendingView, Problem, ProcessView, Relay, RelayEffect, RelayView, Style,
    TidewaveSpawnOptions,
};
use crate::acp_session;
use crate::acp_session::{BufferedView, ChannelId, ExitView, ProcessKey, SessionId, SessionView};
use crate::json;
use crate::json::{JsonView, NumberView};
use crate::jsonrpc::{
    ErrorView, JsonRpcMessage, JsonRpcRequest, MessageView, NotificationView, RequestView, ResponseView,
};
use crate::text;
use crate::ws::acp::channel;
use crate::ws::acp::channel::{ExitReason, OutputStream};
use crate::ws::acp::process::Stdin;

verus! {

/// The client speaks with the agent under this key, and the agent runs.
pub open spec fn speaks_with(state: RelayView, channel_id: Seq<char>, key: Seq<char>) -> bool {
    &&& state.homes.contains_key(channel_id)
    &&& state.homes[channel_id] == key
    &&& state.processes.contains_key(key)
}

/// The effects write one message to the agent, or nothing where it cannot be written to.
pub open spec fn only_send(effects: Seq<EffectView>, process: ProcessView, message: MessageView) -> bool {
    if process.stdin == Stdin::Open {
        effects == seq![EffectView::Send { process_key: process.key, message }]
    } else {
        effects.len() == 0
    }
}

/// The effects tell one client a message, or nothing where it is not connected.
pub open spec fn only_deliver(
    effects: Seq<EffectView>,
    state: RelayView,
    channel_id: Seq<char>,
    message: MessageView,
) -> bool {
    if state.channels.contains_key(channel_id) {
        effects == seq![EffectView::Deliver { channel_id, message }]
    } else {
        effects.len() == 0
    }
}

/// The effects refuse a request with a code and a text.
pub open spec fn only_refusal(
    effects: Seq<EffectView>,
    state: RelayView,
    channel_id: Seq<char>,
    id: JsonView,
    code: int,
    text: Seq<char>,
) -> bool {
    only_deliver(
        effects,
        state,
        channel_id,
        MessageView::Response(
            ResponseView {
                jsonrpc: "2.0"@,
                id,
                result: None,
                error: Some(ErrorView { code: code as i32, message: text, data: None }),
            },
        ),
    )
}

/// The effects tell one client that the agent cannot be used: on a channel with an event of its own,
/// on a socket with a notification.
pub open spec fn only_exit(
    effects: Seq<EffectView>,
    state: RelayView,
    channel_id: Seq<char>,
    exit: ExitView,
) -> bool {
    if !state.channels.contains_key(channel_id) {
        effects.len() == 0
    } else if state.style == Style::Socket {
        effects == seq![
            EffectView::Deliver {
                channel_id,
                message: MessageView::Notification(
                    NotificationView {
                        jsonrpc: "2.0"@,
                        method: "_tidewave.ai/exit"@,
                        params: Some(acp_session::exit_json(exit)),
                    },
                ),
            },
        ]
    } else {
        effects == seq![EffectView::Exit { channel_id, exit }]
    }
}

/// The request with another identity.
pub open spec fn renamed(request: RequestView, number: u64) -> MessageView {
    MessageView::Request(
        RequestView {
            jsonrpc: request.jsonrpc,
            id: JsonView::Number(NumberView::PosInt(number)),
            method: request.method,
            params: request.params,
        },
    )
}

/// The methods that the relay knows are different texts.
pub proof fn lemma_methods_differ()
    ensures
        "initialize"@ != "_tidewave.ai/session/load"@,
        "initialize"@ != "session/load"@,
        "initialize"@ != "_tidewave.ai/exit"@,
        "_tidewave.ai/session/load"@ != "session/load"@,
        "_tidewave.ai/session/load"@ != "_tidewave.ai/exit"@,
        "session/load"@ != "_tidewave.ai/exit"@,
        "session/new"@ != "session/load"@,
        "session/new"@ != "session/resume"@,
        "session/new"@ != "session/fork"@,
        "session/load"@ != "session/resume"@,
        "session/load"@ != "session/fork"@,
        "session/resume"@ != "session/fork"@,
{
    reveal_strlit("initialize");
    reveal_strlit("_tidewave.ai/session/load");
    reveal_strlit("_tidewave.ai/exit");
    reveal_strlit("session/load");
    reveal_strlit("session/new");
    reveal_strlit("session/resume");
    reveal_strlit("session/fork");
    assert("initialize"@.len() == 10);
    assert("_tidewave.ai/session/load"@.len() == 25);
    assert("_tidewave.ai/exit"@.len() == 17);
    assert("session/load"@.len() == 12);
    assert("session/new"@.len() == 11);
    assert("session/resume"@.len() == 14);
    assert("session/fork"@.len() == 12);
    assert("session/load"@[8] == 'l');
    assert("session/fork"@[8] == 'f');
}

// ---------------------------------------------------------------------------
// From the client to the agent
// ---------------------------------------------------------------------------

/// The agent of a client: a client without one, and one whose agent does not run, are told apart.
pub proof fn lemma_agent_of_client(state: RelayView, channel_id: Seq<char>)
    ensures
        !state.homes.contains_key(channel_id) ==> state.process_of(channel_id) == Err::<Seq<char>, Problem>(
            Problem::NoProcessMapping,
        ),
        state.homes.contains_key(channel_id) && !state.processes.contains_key(state.homes[channel_id])
            ==> state.process_of(channel_id) == Err::<Seq<char>, Problem>(Problem::ProcessNotFound),
        state.homes.contains_key(channel_id) && state.processes.contains_key(state.homes[channel_id])
            ==> state.process_of(channel_id) == Ok::<Seq<char>, Problem>(state.homes[channel_id]),
{
}

/// A request that the relay does not take itself goes to the client's agent once. It keeps its
/// version, its method and its parameters: only the identity is another. The relay notes who asked,
/// under which identity and for which session.
pub proof fn lemma_request_is_forwarded(
    state: RelayView,
    channel_id: Seq<char>,
    request: RequestView,
    key: Seq<char>,
)
    requires
        speaks_with(state, channel_id, key),
        request.method != "initialize"@,
        request.method != "_tidewave.ai/session/load"@,
        request.method != "session/load"@ || acp_session::session_id_of(request.params) is None,
        request.method != "_tidewave.ai/exit"@ || state.style == Style::Channel,
        state.processes[key].next_proxy_id < u64::MAX,
    ensures
        ({
            let step = acp_relay::from_client(state, channel_id, MessageView::Request(request));
            let before = state.processes[key];
            let now = step.state.processes[key];
            let number = text::decimal(before.next_proxy_id as nat);
            &&& only_send(step.effects, before, renamed(request, before.next_proxy_id))
            &&& step.problem is None
            &&& now.next_proxy_id == before.next_proxy_id + 1
            &&& now.clients == before.clients.insert(
                number,
                AskedView { by: channel_id, client_id: request.id },
            )
            &&& now.sessions == (match acp_session::session_id_of(request.params) {
                Some(session_id) => before.sessions.insert(
                    number,
                    AskedView { by: session_id, client_id: request.id },
                ),
                None => before.sessions,
            })
            &&& now.cached == before.cached
            &&& now.init_request == before.init_request
            &&& now.stdin == before.stdin
            &&& now.key == before.key
            &&& now.stdout == before.stdout
            &&& now.stderr == before.stderr
            &&& step.state == (RelayView { processes: state.processes.insert(key, now), ..state })
        }),
{
}

/// The same holds of a request that is sent to an agent directly.
pub proof fn lemma_regular_request(state: RelayView, channel_id: Seq<char>, request: RequestView, key: Seq<char>)
    requires
        speaks_with(state, channel_id, key),
    ensures
        ({
            let step = acp_relay::regular(state, channel_id, request);
            &&& only_send(
                step.effects,
                state.processes[key],
                renamed(request, state.processes[key].next_proxy_id),
            )
            &&& step.problem is None
        }),
{
}

/// What the answer to a request is looked at for: the session that it makes, or the session that it
/// opens. Forks and resumptions are only known to clients on channels.
pub proof fn lemma_pending_by_method(
    state: RelayView,
    channel_id: Seq<char>,
    request: RequestView,
    key: Seq<char>,
)
    requires
        speaks_with(state, channel_id, key),
    ensures
        ({
            let before = state.processes[key].pending;
            let now = acp_relay::regular(state, channel_id, request).state.processes[key].pending;
            let number = text::decimal(state.processes[key].next_proxy_id as nat);
            let session_id = acp_session::session_id_of(request.params);
            let on_channel = state.style == Style::Channel;
            let makes = request.method == "session/new"@ || on_channel && request.method == "session/fork"@;
            let opens = session_id is Some && (request.method == "session/load"@ || on_channel
                && request.method == "session/resume"@);
            &&& makes ==> now == before.insert(number, PendingView::Made)
            &&& opens ==> now == before.insert(
                number,
                PendingView::Opened { session_id: session_id->0 },
            )
            &&& !makes && !opens ==> now == before
        }),
{
    lemma_methods_differ();
}

/// A client's response to the agent, and a notification that is no acknowledgement, go to the agent
/// as they are. Nothing else changes.
pub proof fn lemma_message_is_passed_on(
    state: RelayView,
    channel_id: Seq<char>,
    message: MessageView,
    key: Seq<char>,
)
    requires
        speaks_with(state, channel_id, key),
        match message {
            MessageView::Response(_) => true,
            MessageView::Notification(notification) => notification.method != "_tidewave.ai/ack"@,
            MessageView::Request(_) => false,
        },
    ensures
        ({
            let step = acp_relay::from_client(state, channel_id, message);
            let process = state.processes[key];
            &&& step.state == state
            &&& process.stdin == Stdin::Open ==> step.effects == seq![
                EffectView::Send { process_key: process.key, message },
            ] && step.problem is None
            &&& process.stdin == Stdin::Missing ==> step.effects.len() == 0 && step.problem == Some(
                Problem::StdinUnavailable,
            )
            &&& process.stdin == Stdin::Closed ==> step.effects.len() == 0 && step.problem == Some(
                Problem::StdinClosed,
            )
        }),
{
}

/// What a client without an agent sends reaches nobody, and the client's mistake is reported.
pub proof fn lemma_client_without_agent(state: RelayView, channel_id: Seq<char>, message: MessageView)
    requires
        !state.homes.contains_key(channel_id) || !state.processes.contains_key(state.homes[channel_id]),
        match message {
            MessageView::Response(_) => true,
            MessageView::Notification(notification) => notification.method != "_tidewave.ai/ack"@,
            MessageView::Request(request) => request.method != "initialize"@ && request.method
                != "_tidewave.ai/session/load"@ && request.method != "session/load"@ && request.method
                != "_tidewave.ai/exit"@,
        },
    ensures
        ({
            let step = acp_relay::from_client(state, channel_id, message);
            &&& step.state == state
            &&& step.effects.len() == 0
            &&& step.problem == (if state.homes.contains_key(channel_id) {
                Some(Problem::ProcessNotFound)
            } else {
                Some(Problem::NoProcessMapping)
            })
        }),
{
}

/// An acknowledgement never reaches the agent. It prunes the buffer of the session that it names, or
/// of all sessions where it names none, as far as they belong to the client.
pub proof fn lemma_acknowledgement(
    state: RelayView,
    channel_id: Seq<char>,
    notification: NotificationView,
    session_id: Seq<char>,
)
    requires
        notification.method == "_tidewave.ai/ack"@,
        state.sessions.contains_key(session_id),
    ensures
        ({
            let step = acp_relay::from_client(state, channel_id, MessageView::Notification(notification));
            let owned = state.owners.contains_key(session_id) && state.owners[session_id] == channel_id;
            &&& step.effects.len() == 0
            &&& match acp_session::ack_of(notification.params) {
                Some((named, latest)) => {
                    &&& step.problem is None
                    &&& step.state.sessions.dom() == state.sessions.dom()
                    &&& step.state.sessions[session_id] == (if owned && (named is None || named == Some(
                        session_id,
                    )) {
                        acp_session::pruned(state.sessions[session_id], latest)
                    } else {
                        state.sessions[session_id]
                    })
                },
                None => step.problem == Some(Problem::InvalidParams) && step.state == state,
            }
            &&& step.state == (RelayView { sessions: step.state.sessions, ..state })
        }),
{
    let step = acp_relay::from_client(state, channel_id, MessageView::Notification(notification));
    assert(step.state.sessions.dom() =~= state.sessions.dom());
}

/// A client on a socket that asks its agent to end has the agent stopped. Without an agent nothing
/// happens. Nobody gets a message.
pub proof fn lemma_exit_request(state: RelayView, channel_id: Seq<char>, request: RequestView)
    requires
        request.method == "_tidewave.ai/exit"@,
        state.style == Style::Socket,
    ensures
        ({
            let step = acp_relay::from_client(state, channel_id, MessageView::Request(request));
            let runs = state.homes.contains_key(channel_id) && state.processes.contains_key(
                state.homes[channel_id],
            );
            &&& step.state == state
            &&& step.problem is None
            &&& runs ==> step.effects == seq![EffectView::Stop { process_key: state.homes[channel_id] }]
            &&& !runs ==> step.effects.len() == 0
        }),
{
    lemma_methods_differ();
}

// ---------------------------------------------------------------------------
// Initialization
// ---------------------------------------------------------------------------

/// An `initialize` gets the answer that the agent gave before, under its own identity. Where there is
/// none yet, it goes to the agent with only the identity changed, and the relay waits for the answer
/// to that identity. Where the agent cannot be written to, the client is told so.
pub proof fn lemma_initialize(state: RelayView, channel_id: Seq<char>, request: RequestView, key: Seq<char>)
    requires
        speaks_with(state, channel_id, key),
        state.processes[key].next_proxy_id < u64::MAX,
    ensures
        ({
            let step = acp_relay::initialize(state, channel_id, request);
            let before = state.processes[key];
            let now = step.state.processes[key];
            &&& step.problem is None
            &&& match before.cached {
                Some(cached) => {
                    &&& step.state == state
                    &&& only_deliver(
                        step.effects,
                        state,
                        channel_id,
                        MessageView::Response(
                            ResponseView {
                                jsonrpc: cached.jsonrpc,
                                id: request.id,
                                result: cached.result,
                                error: cached.error,
                            },
                        ),
                    )
                },
                None => {
                    &&& before.stdin == Stdin::Open ==> step.effects == seq![
                        EffectView::Send {
                            process_key: before.key,
                            message: renamed(request, before.next_proxy_id),
                        },
                    ]
                    &&& before.stdin != Stdin::Open ==> only_exit(
                        step.effects,
                        state,
                        channel_id,
                        ExitView {
                            error: "communication_error"@,
                            message: "Failed to communicate with process"@,
                            stdout: None,
                            stderr: None,
                        },
                    )
                    &&& now.init_request == Some(
                        JsonView::Number(NumberView::PosInt(before.next_proxy_id)),
                    )
                    &&& now.next_proxy_id == before.next_proxy_id + 1
                    &&& now.clients == before.clients.insert(
                        text::decimal(before.next_proxy_id as nat),
                        AskedView { by: channel_id, client_id: request.id },
                    )
                    &&& now.cached is None
                    &&& step.state == (RelayView { processes: state.processes.insert(key, now), ..state })
                },
            }
        }),
{
}

/// A client on a channel initializes its agent through the relay. On a socket the request comes with
/// the connection, and the relay does nothing more.
pub proof fn lemma_initialize_by_style(state: RelayView, channel_id: Seq<char>, request: RequestView)
    requires
        request.method == "initialize"@,
    ensures
        ({
            let step = acp_relay::from_client(state, channel_id, MessageView::Request(request));
            &&& state.style == Style::Channel ==> step == acp_relay::initialize(state, channel_id, request)
            &&& state.style == Style::Socket ==> step.state == state && step.effects.len() == 0
                && step.problem is None
        }),
{
}

/// A client whose agent runs already gets the agent's answer to `initialize` under its own identity,
/// and speaks with that agent from then on. An agent without an answer is reported with an error.
pub proof fn lemma_rejoining(state: RelayView, key: Seq<char>, channel_id: Seq<char>, request: RequestView)
    ensures
        ({
            let step = acp_relay::rejoined(state, key, channel_id, request);
            &&& step.problem is None
            &&& match state.processes[key].cached {
                Some(cached) => {
                    &&& step.state == (RelayView { homes: state.homes.insert(channel_id, key), ..state })
                    &&& only_deliver(
                        step.effects,
                        state,
                        channel_id,
                        MessageView::Response(
                            ResponseView {
                                jsonrpc: cached.jsonrpc,
                                id: request.id,
                                result: cached.result,
                                error: cached.error,
                            },
                        ),
                    )
                },
                None => {
                    &&& step.state == state
                    &&& only_refusal(
                        step.effects,
                        state,
                        channel_id,
                        request.id,
                        -32004,
                        "Process alive, but no init response."@,
                    )
                },
            }
        }),
{
}

/// An agent that could not be started is reported with the reason, and nothing is kept of it. One
/// that has started is initialized with the client's request, and the client speaks with it.
pub proof fn lemma_starting(
    state: RelayView,
    key: Seq<char>,
    channel_id: Seq<char>,
    request: RequestView,
    outcome: Result<(), Seq<char>>,
)
    ensures
        ({
            let step = acp_relay::started(state, key, channel_id, request, outcome);
            &&& step.problem is None
            &&& match outcome {
                Err(reason) => {
                    &&& step.state == state
                    &&& only_exit(
                        step.effects,
                        state,
                        channel_id,
                        ExitView {
                            error: "process_start_failed"@,
                            message: reason,
                            stdout: None,
                            stderr: None,
                        },
                    )
                },
                Ok(_) => {
                    &&& step.effects == seq![
                        EffectView::Send { process_key: key, message: renamed(request, 1) },
                    ]
                    &&& step.state.homes == state.homes.insert(channel_id, key)
                    &&& step.state.processes.contains_key(key)
                    &&& step.state.processes[key].key == key
                    &&& step.state.processes[key].next_proxy_id == 2
                    &&& step.state.processes[key].init_request == Some(
                        JsonView::Number(NumberView::PosInt(1)),
                    )
                    &&& step.state.processes[key].clients == Map::<Seq<char>, AskedView>::empty().insert(
                        seq!['1'],
                        AskedView { by: channel_id, client_id: request.id },
                    )
                    &&& step.state.sessions == state.sessions
                    &&& step.state.owners == state.owners
                    &&& step.state.channels == state.channels
                },
            }
        }),
{
    assert(text::decimal(1) =~= seq!['1']);
}

// ---------------------------------------------------------------------------
// Sessions
// ---------------------------------------------------------------------------

/// Reconnecting to a session: one that the relay does not know is refused as not found, one that a
/// client has is refused as in use, and one that nobody has goes to the client.
pub proof fn lemma_reconnection(
    state: RelayView,
    channel_id: Seq<char>,
    request: RequestView,
    session_id: Seq<char>,
    latest: Seq<char>,
)
    requires
        request.method == "_tidewave.ai/session/load"@,
        acp_session::session_and_latest(request.params) == Some((session_id, latest)),
        state.sessions.contains_key(session_id) ==> state.sessions[session_id].cancel_counter < u64::MAX,
    ensures
        ({
            let step = acp_relay::from_client(state, channel_id, MessageView::Request(request));
            let known = state.sessions.contains_key(session_id);
            let before = state.sessions[session_id];
            let now = step.state.sessions[session_id];
            let here = state.style == Style::Socket || state.channels.contains_key(channel_id);
            &&& !known ==> {
                &&& step.state == state
                &&& only_refusal(
                    step.effects,
                    state,
                    channel_id,
                    request.id,
                    -32002,
                    "Session not found"@,
                )
                &&& step.problem == (if state.style == Style::Socket {
                    Some(Problem::SessionNotFound)
                } else {
                    None
                })
            }
            &&& known ==> {
                &&& step.state.sessions == state.sessions.insert(session_id, now)
                &&& now.cancel_counter == before.cancel_counter + 1
                &&& now.buffer == before.buffer
                &&& now.next_notification == before.next_notification
                &&& now.process_key == before.process_key
                &&& step.state.processes == state.processes
                &&& step.state.channels == state.channels
                &&& step.state.style == state.style
            }
            &&& known && state.owners.contains_key(session_id) ==> {
                &&& now.cancelled == before.cancelled
                &&& step.state.owners == state.owners
                &&& step.state.homes == state.homes
                &&& only_refusal(
                    step.effects,
                    state,
                    channel_id,
                    request.id,
                    -32003,
                    "Session already has an active connection"@,
                )
                &&& step.problem == (if state.style == Style::Socket {
                    Some(Problem::SessionActive)
                } else {
                    None
                })
            }
            &&& known && !state.owners.contains_key(session_id) ==> {
                &&& !now.cancelled
                &&& step.problem is None
                &&& here ==> step.state.owners == state.owners.insert(session_id, channel_id)
                &&& here ==> step.state.homes == state.homes.insert(channel_id, before.process_key)
                &&& !here ==> step.state.owners == state.owners && step.state.homes == state.homes
                &&& !here ==> step.effects.len() == 0
            }
        }),
{
    lemma_methods_differ();
    let step = acp_relay::from_client(state, channel_id, MessageView::Request(request));
    if state.sessions.contains_key(session_id) {
        let now = step.state.sessions[session_id];
        assert(step.state.sessions =~= state.sessions.insert(session_id, now));
    }
}

proof fn lemma_replayed(state: RelayView, channel_id: Seq<char>, buffer: Seq<BufferedView>)
    requires
        state.channels.contains_key(channel_id),
    ensures
        acp_relay::replayed(state, channel_id, buffer).len() == buffer.len(),
        forall|i: int|
            0 <= i < buffer.len() ==> #[trigger] acp_relay::replayed(state, channel_id, buffer)[i] == (
            EffectView::Deliver { channel_id, message: buffer[i].message }),
    decreases buffer.len(),
{
    if buffer.len() > 0 {
        lemma_replayed(state, channel_id, buffer.drop_last());
    }
}

/// A client that reconnects gets the messages that it has missed, in their order, each as it was
/// when it was kept. The answer to its request comes last and says whether the session was cancelled.
pub proof fn lemma_reconnection_replays(
    state: RelayView,
    channel_id: Seq<char>,
    request: RequestView,
    session_id: Seq<char>,
    latest: Seq<char>,
)
    requires
        request.method == "_tidewave.ai/session/load"@,
        acp_session::session_and_latest(request.params) == Some((session_id, latest)),
        state.sessions.contains_key(session_id),
        !state.owners.contains_key(session_id),
        state.channels.contains_key(channel_id),
    ensures
        ({
            let effects = acp_relay::from_client(
                state,
                channel_id,
                MessageView::Request(request),
            ).effects;
            let before = state.sessions[session_id];
            let missed = acp_session::messages_after(before.buffer, latest);
            &&& effects.len() == missed.len() + 1
            &&& forall|i: int|
                0 <= i < missed.len() ==> #[trigger] effects[i] == (EffectView::Deliver {
                    channel_id,
                    message: missed[i].message,
                })
            &&& effects.last() == (EffectView::Deliver {
                channel_id,
                message: MessageView::Response(
                    ResponseView {
                        jsonrpc: "2.0"@,
                        id: request.id,
                        result: Some(acp_session::load_result_json(before.cancelled)),
                        error: None,
                    },
                ),
            })
        }),
{
    lemma_methods_differ();
    let before = state.sessions[session_id];
    let missed = acp_session::messages_after(before.buffer, latest);
    lemma_replayed(state, channel_id, missed);
    let effects = acp_relay::from_client(state, channel_id, MessageView::Request(request)).effects;
    let replayed = acp_relay::replayed(state, channel_id, missed);
    assert forall|i: int| 0 <= i < missed.len() implies #[trigger] effects[i] == (EffectView::Deliver {
        channel_id,
        message: missed[i].message,
    }) by {
        assert(effects[i] == replayed[i]);
    }
}

/// A request to reconnect whose parameters cannot be read is reported, and does nothing.
pub proof fn lemma_unread_reconnection(state: RelayView, channel_id: Seq<char>, request: RequestView)
    requires
        request.method == "_tidewave.ai/session/load"@,
        acp_session::session_and_latest(request.params) is None,
    ensures
        ({
            let step = acp_relay::from_client(state, channel_id, MessageView::Request(request));
            &&& step.state == state
            &&& step.effects.len() == 0
            &&& step.problem == Some(Problem::InvalidParams)
        }),
{
    lemma_methods_differ();
}

/// A load of a session that nobody has goes to the agent of that session, with only the identity
/// changed, and gives the session to the client. A session that the relay does not know yet starts
/// afresh with the client's agent.
pub proof fn lemma_session_is_claimed(
    state: RelayView,
    channel_id: Seq<char>,
    request: RequestView,
    session_id: Seq<char>,
    key: Seq<char>,
)
    requires
        request.method == "session/load"@,
        acp_session::session_id_of(request.params) == Some(session_id),
        !state.owners.contains_key(session_id),
        if state.sessions.contains_key(session_id) {
            key == state.sessions[session_id].process_key
        } else {
            state.homes.contains_key(channel_id) && key == state.homes[channel_id]
        },
        state.processes.contains_key(key),
    ensures
        ({
            let step = acp_relay::from_client(state, channel_id, MessageView::Request(request));
            let process = state.processes[key];
            let number = text::decimal(process.next_proxy_id as nat);
            &&& only_send(step.effects, process, renamed(request, process.next_proxy_id))
            &&& step.problem is None
            &&& step.state.owners == state.owners.insert(session_id, channel_id)
            &&& step.state.homes == state.homes.insert(channel_id, key)
            &&& state.sessions.contains_key(session_id) ==> step.state.sessions == state.sessions
            &&& !state.sessions.contains_key(session_id) ==> step.state.sessions
                == state.sessions.insert(
                session_id,
                SessionView {
                    process_key: key,
                    buffer: seq![],
                    next_notification: 1,
                    cancelled: false,
                    cancel_counter: 0,
                },
            )
            &&& step.state.processes[key].pending == process.pending.insert(
                number,
                PendingView::Opened { session_id },
            )
            &&& step.state.processes[key].clients == process.clients.insert(
                number,
                AskedView { by: channel_id, client_id: request.id },
            )
            &&& step.state.processes[key].sessions == process.sessions.insert(
                number,
                AskedView { by: session_id, client_id: request.id },
            )
        }),
{
    lemma_methods_differ();
}

/// A load of a session that a client has is refused with the code for a session in use, and nothing
/// changes.
pub proof fn lemma_claim_is_refused(
    state: RelayView,
    channel_id: Seq<char>,
    request: RequestView,
    session_id: Seq<char>,
)
    requires
        request.method == "session/load"@,
        acp_session::session_id_of(request.params) == Some(session_id),
        state.owners.contains_key(session_id),
    ensures
        ({
            let step = acp_relay::from_client(state, channel_id, MessageView::Request(request));
            &&& step.state == state
            &&& only_refusal(
                step.effects,
                state,
                channel_id,
                request.id,
                -32003,
                "Session already has an active connection"@,
            )
            &&& step.problem == (if state.style == Style::Socket {
                Some(Problem::SessionActive)
            } else {
                None
            })
        }),
{
    lemma_methods_differ();
}

// ---------------------------------------------------------------------------
// From the agent to the client
// ---------------------------------------------------------------------------

/// The answer to a request goes to the client that asked, with the result and the error of the agent
/// and the identity of the client. The answer to `initialize` carries the relay's version and
/// capabilities besides, and is kept for later clients.
pub proof fn lemma_answer_is_told(state: RelayView, key: Seq<char>, response: ResponseView)
    requires
        state.processes.contains_key(key),
        state.processes[key].clients.contains_key(json::id_text(response.id)),
    ensures
        ({
            let step = acp_relay::from_process(state, key, MessageView::Response(response));
            let before = state.processes[key];
            let asked = before.clients[json::id_text(response.id)];
            let now = step.state.processes[key];
            let current = before.init_request is Some && json::id_text(before.init_request->0)
                == json::id_text(response.id);
            let answer = ResponseView {
                jsonrpc: response.jsonrpc,
                id: asked.client_id,
                result: if current {
                    acp_session::with_capabilities(
                        acp_session::with_version(response.result, acp_relay::VERSION@),
                    )
                } else {
                    response.result
                },
                error: response.error,
            };
            &&& state.channels.contains_key(asked.by) ==> step.effects == seq![
                EffectView::Deliver { channel_id: asked.by, message: MessageView::Response(answer) },
            ]
            &&& current ==> now.cached == Some(answer) && now.stdout.len() == 0 && now.stderr.len() == 0
            &&& !current ==> now.cached == before.cached && now.stdout == before.stdout && now.stderr
                == before.stderr
            &&& now.pending == before.pending.remove(json::id_text(response.id))
            &&& now.next_proxy_id == before.next_proxy_id
            &&& now.init_request == before.init_request
            &&& now.stdin == before.stdin
        }),
{
}

/// A request that has been answered is forgotten; the others stay. After a load that failed the
/// request is kept until the client leaves.
pub proof fn lemma_answered_request_is_forgotten(state: RelayView, key: Seq<char>, response: ResponseView)
    requires
        state.processes.contains_key(key),
        state.processes[key].clients.contains_key(json::id_text(response.id)),
    ensures
        ({
            let step = acp_relay::from_process(state, key, MessageView::Response(response));
            let before = state.processes[key];
            let id = json::id_text(response.id);
            let now = step.state.processes[key];
            let failed = response.error is Some && before.pending.contains_key(id) && before.pending[id]
                is Opened;
            &&& !failed ==> now.clients == before.clients.remove(id) && now.sessions
                == before.sessions.remove(id) && step.problem is None
            &&& failed ==> step.problem == Some(Problem::LoadFailed)
            &&& failed ==> step.state.sessions == state.sessions.remove(before.pending[id]->session_id)
            &&& failed ==> step.state.owners == state.owners.remove(before.pending[id]->session_id)
        }),
{
}

/// A session that the agent made, or opened for a client on a channel, belongs to the client that
/// asked and lives in the client's agent. One that is known already is kept.
pub proof fn lemma_session_is_made(
    state: RelayView,
    key: Seq<char>,
    response: ResponseView,
    session_id: Seq<char>,
)
    requires
        state.processes.contains_key(key),
        ({
            let id = json::id_text(response.id);
            let process = state.processes[key];
            &&& process.clients.contains_key(id)
            &&& process.pending.contains_key(id)
            &&& process.pending[id] is Made ==> response.result is Some && acp_session::new_session_of(
                response.result->0,
            ) == Some(session_id)
            &&& process.pending[id] is Opened ==> state.style == Style::Channel && response.error is None
                && process.pending[id]->session_id == session_id
            &&& state.channels.contains_key(process.clients[id].by)
            &&& state.homes.contains_key(process.clients[id].by)
            &&& !acp_relay::answers_init(process, response)
        }),
    ensures
        ({
            let step = acp_relay::from_process(state, key, MessageView::Response(response));
            let asked = state.processes[key].clients[json::id_text(response.id)];
            if state.sessions.contains_key(session_id) {
                step.state.sessions == state.sessions && step.state.owners == state.owners
            } else {
                &&& step.state.sessions == state.sessions.insert(
                    session_id,
                    SessionView {
                        process_key: state.homes[asked.by],
                        buffer: seq![],
                        next_notification: 1,
                        cancelled: false,
                        cancel_counter: 0,
                    },
                )
                &&& step.state.owners == state.owners.insert(session_id, asked.by)
            }
        }),
{
}

/// A response that answers no request, and whatever an agent says that is not known, go nowhere.
pub proof fn lemma_stray_messages(state: RelayView, key: Seq<char>, message: MessageView)
    requires
        !state.processes.contains_key(key) || (message matches MessageView::Response(response)
            && !state.processes[key].clients.contains_key(json::id_text(response.id))),
    ensures
        ({
            let step = acp_relay::from_process(state, key, message);
            step.state == state && step.effects.len() == 0 && step.problem is None
        }),
{
}

/// What the agent says of a session goes to the client that has the session. A request goes as it is;
/// a notification gets the identity by which the client acknowledges it. Either is kept at the end of
/// the session's buffer. What names no session that is known goes nowhere.
pub proof fn lemma_session_message(
    state: RelayView,
    key: Seq<char>,
    message: MessageView,
    session_id: Seq<char>,
)
    requires
        state.processes.contains_key(key),
        !(message is Response),
        acp_session::session_id_of(acp_session::scope_of(message)) == Some(session_id),
        state.sessions.contains_key(session_id) ==> state.sessions[session_id].next_notification < u64::MAX,
    ensures
        ({
            let step = acp_relay::from_process(state, key, message);
            let before = state.sessions[session_id];
            let now = step.state.sessions[session_id];
            let number = "notif_"@ + text::decimal(before.next_notification as nat);
            let told = match message {
                MessageView::Notification(n) => MessageView::Notification(
                    NotificationView {
                        jsonrpc: n.jsonrpc,
                        method: n.method,
                        params: acp_session::with_notification_id(n.params, number),
                    },
                ),
                _ => message,
            };
            let id = match message {
                MessageView::Request(r) => json::json_text(r.id),
                _ => number,
            };
            &&& step.problem is None
            &&& !state.sessions.contains_key(session_id) ==> step.state == state && step.effects.len() == 0
            &&& state.sessions.contains_key(session_id) ==> {
                &&& state.owners.contains_key(session_id) ==> only_deliver(
                    step.effects,
                    state,
                    state.owners[session_id],
                    told,
                )
                &&& !state.owners.contains_key(session_id) ==> step.effects.len() == 0
                &&& now.buffer == before.buffer.push(BufferedView { id, message: told })
                &&& now.next_notification == before.next_notification + (if message is Notification {
                    1int
                } else {
                    0
                })
                &&& now.cancelled == before.cancelled
                &&& now.cancel_counter == before.cancel_counter
                &&& now.process_key == before.process_key
                &&& step.state == (RelayView { sessions: state.sessions.insert(session_id, now), ..state })
            }
        }),
{
}

/// What an agent says that names no session goes nowhere.
pub proof fn lemma_message_without_session(state: RelayView, key: Seq<char>, message: MessageView)
    requires
        !(message is Response),
        acp_session::session_id_of(acp_session::scope_of(message)) is None,
    ensures
        ({
            let step = acp_relay::from_process(state, key, message);
            step.state == state && step.effects.len() == 0 && step.problem is None
        }),
{
}

// ---------------------------------------------------------------------------
// Clients that leave and agents that end
// ---------------------------------------------------------------------------

/// A client that leaves is not connected, has no agent, and gives up its sessions, which stay with
/// what they hold. Nothing of other clients changes.
pub proof fn lemma_leaving(state: RelayView, channel_id: Seq<char>, session_id: Seq<char>, other: Seq<char>)
    requires
        other != channel_id,
    ensures
        ({
            let after = acp_relay::disconnected(state, channel_id);
            let gives_up = state.owners.contains_key(session_id) && state.owners[session_id] == channel_id
                && (state.style == Style::Channel || state.sessions.contains_key(session_id));
            &&& !after.channels.contains_key(channel_id)
            &&& !after.homes.contains_key(channel_id)
            &&& after.channels.contains_key(other) == state.channels.contains_key(other)
            &&& after.homes.contains_key(other) == state.homes.contains_key(other)
            &&& after.homes.contains_key(other) ==> after.homes[other] == state.homes[other]
            &&& after.owners.contains_key(session_id) == (state.owners.contains_key(session_id)
                && !gives_up)
            &&& after.owners.contains_key(session_id) ==> after.owners[session_id]
                == state.owners[session_id]
            &&& after.sessions == state.sessions
            &&& after.processes == state.processes
            &&& after.style == state.style
        }),
{
}

/// The sessions that a client leaves behind are those that it had, each with the count by which a
/// later load is noticed.
pub proof fn lemma_left_behind(
    state: RelayView,
    order: Seq<Seq<char>>,
    channel_id: Seq<char>,
    session_id: Seq<char>,
    counter: u64,
)
    ensures
        acp_relay::left_behind(state, order, channel_id).contains((session_id, counter)) <==> {
            &&& order.contains(session_id)
            &&& state.owners.contains_key(session_id)
            &&& state.owners[session_id] == channel_id
            &&& state.sessions.contains_key(session_id)
            &&& state.sessions[session_id].cancel_counter == counter
        },
    decreases order.len(),
{
    let all = acp_relay::left_behind(state, order, channel_id);
    if order.len() > 0 {
        let shorter = order.drop_last();
        let rest = acp_relay::left_behind(state, shorter, channel_id);
        lemma_left_behind(state, shorter, channel_id, session_id, counter);
        if rest.contains((session_id, counter)) {
            let i = rest.index_of((session_id, counter));
            assert(all[i] == rest[i]);
        }
        if shorter.contains(session_id) {
            let i = shorter.index_of(session_id);
            assert(order[i] == session_id);
        }
        if order.contains(session_id) && !shorter.contains(session_id) {
            let i = order.index_of(session_id);
            if i < shorter.len() {
                assert(shorter[i] == session_id);
            }
            assert(order.last() == session_id);
        }
        assert(order[order.len() - 1] == order.last());
        if all.len() > rest.len() {
            assert(all.last() == (order.last(), state.sessions[order.last()].cancel_counter));
            assert(all[rest.len() as int] == all.last());
        }
        if all.contains((session_id, counter)) {
            let i = all.index_of((session_id, counter));
            if i < rest.len() {
                assert(rest[i] == (session_id, counter));
            }
        }
    }
}

/// A session that nobody has loaded again is cancelled: its agent is told so, and the session is
/// marked. A session that is in use, that was loaded since, or whose agent is gone, is left alone.
pub proof fn lemma_cancellation(state: RelayView, session_id: Seq<char>, counter: u64)
    ensures
        ({
            let step = acp_relay::cancelled(state, session_id, counter);
            let session = state.sessions[session_id];
            let waits = !state.owners.contains_key(session_id) && state.sessions.contains_key(session_id)
                && session.cancel_counter == counter && state.processes.contains_key(session.process_key);
            &&& step.problem is None
            &&& !waits ==> step.state == state && step.effects.len() == 0
            &&& waits ==> {
                &&& only_send(
                    step.effects,
                    state.processes[session.process_key],
                    MessageView::Notification(
                        NotificationView {
                            jsonrpc: "2.0"@,
                            method: "session/cancel"@,
                            params: Some(
                                JsonView::Obj(
                                    Map::<Seq<char>, JsonView>::empty().insert(
                                        "sessionId"@,
                                        JsonView::Str(session_id),
                                    ),
                                ),
                            ),
                        },
                    ),
                )
                &&& step.state == (RelayView {
                    sessions: state.sessions.insert(session_id, SessionView { cancelled: true, ..session }),
                    ..state
                })
            }
        }),
{
}

/// A client is told of the end of its agent in the form of its connection, and nobody else is.
pub proof fn lemma_told_exit(state: RelayView, channel_id: Seq<char>, exit: ExitView)
    ensures
        only_exit(state.tell_exit(channel_id, exit), state, channel_id, exit),
{
}

/// Only clients of the agent that ended are told.
pub proof fn lemma_only_clients_are_told(
    state: RelayView,
    order: Seq<Seq<char>>,
    key: Seq<char>,
    exit: ExitView,
    i: int,
)
    requires
        0 <= i < acp_relay::exits_told(state, order, key, exit).len(),
    ensures
        ({
            let effect = acp_relay::exits_told(state, order, key, exit)[i];
            let told = match effect {
                EffectView::Deliver { channel_id, .. } => channel_id,
                EffectView::Exit { channel_id, .. } => channel_id,
                _ => seq![],
            };
            &&& effect is Deliver || effect is Exit
            &&& state.homes.contains_key(told)
            &&& state.homes[told] == key
            &&& state.channels.contains_key(told)
            &&& only_exit(seq![effect], state, told, exit)
        }),
    decreases order.len(),
{
    let rest = acp_relay::exits_told(state, order.drop_last(), key, exit);
    let all = acp_relay::exits_told(state, order, key, exit);
    if i < rest.len() {
        assert(all[i] == rest[i]);
        lemma_only_clients_are_told(state, order.drop_last(), key, exit, i);
    } else {
        let last = state.tell_exit(order.last(), exit);
        assert(all == rest + last);
        assert(last.len() == 1);
        assert(all[i] == last[0]);
        assert(seq![all[i]] =~= last);
    }
}

/// What an agent printed goes to its clients with the news of its end only if the agent never came to
/// answer `initialize`. Until then each line is kept on the stream that it came on.
pub proof fn lemma_output(process: ProcessView, reason: ExitReason, line: Seq<char>)
    ensures
        ({
            let exit = acp_relay::exit_view(process, reason);
            &&& exit.error == channel::exit_reason_view(reason).0
            &&& exit.message == channel::exit_reason_view(reason).1
            &&& process.cached is Some ==> exit.stdout is None && exit.stderr is None
            &&& process.cached is None ==> exit.stdout == channel::output_text(process.stdout)
                && exit.stderr == channel::output_text(process.stderr)
        }),
        process.cached is Some ==> acp_relay::lined(process, OutputStream::Stdout, line) == process
            && acp_relay::lined(process, OutputStream::Stderr, line) == process,
        process.cached is None ==> acp_relay::lined(process, OutputStream::Stdout, line) == (ProcessView {
            stdout: process.stdout.push(line),
            ..process
        }) && acp_relay::lined(process, OutputStream::Stderr, line) == (ProcessView {
            stderr: process.stderr.push(line),
            ..process
        }),
{
}

/// The end of an agent takes the agent and its sessions. The clients, their agents and who has which
/// session are settled when the clients leave.
pub proof fn lemma_end(state: RelayView, key: Seq<char>)
    ensures
        ({
            let after = acp_relay::ended(state, key);
            &&& after.processes == state.processes.remove(key)
            &&& after.channels == state.channels
            &&& after.homes == state.homes
            &&& after.owners == state.owners
            &&& after.style == state.style
        }),
{
}

// ---------------------------------------------------------------------------
// The key of an agent
// ---------------------------------------------------------------------------

/// Parameters without options for starting the agent are used as they are. The options alone do not
/// leave an empty `_meta` behind, and whatever else is in `_meta` or beside it stays.
pub proof fn lemma_without_spawn(params: Map<Seq<char>, JsonView>, meta: Map<Seq<char>, JsonView>)
    ensures
        !params.contains_key("_meta"@) ==> acp_relay::without_spawn(JsonView::Obj(params)) == JsonView::Obj(
            params,
        ),
        ({
            let given = params.insert("_meta"@, JsonView::Obj(meta));
            let kept = acp_relay::without_spawn(JsonView::Obj(given));
            let rest = meta.remove("tidewave.ai/spawn"@);
            &&& rest == Map::<Seq<char>, JsonView>::empty() ==> kept == JsonView::Obj(
                params.remove("_meta"@),
            )
            &&& rest != Map::<Seq<char>, JsonView>::empty() ==> kept == JsonView::Obj(
                params.insert("_meta"@, JsonView::Obj(rest)),
            )
        }),
{
    let given = params.insert("_meta"@, JsonView::Obj(meta));
    let rest = meta.remove("tidewave.ai/spawn"@);
    assert(given.remove("_meta"@) =~= params.remove("_meta"@));
    assert(given.insert("_meta"@, JsonView::Obj(rest)) =~= params.insert("_meta"@, JsonView::Obj(rest)));
}

/// The key names the command, the directory and the parameters, with a colon between each two.
pub proof fn lemma_key(command: Seq<char>, cwd: Seq<char>, params: JsonView)
    ensures
        acp_relay::process_key(command, cwd, params) == command + seq![':'] + cwd + seq![':']
            + json::json_text(acp_relay::without_spawn(params)),
{
    reveal_strlit(":");
    assert(":"@ =~= seq![':']);
}

/// The options for starting an agent stand under `tidewave.ai/spawn` in `_meta`.
pub proof fn lemma_spawn_options(params: JsonView, meta: JsonView)
    ensures
        params.get("_meta"@) == Some(meta) ==> acp_relay::spawn_meta_of(Some(params)) == meta.get(
            "tidewave.ai/spawn"@,
        ),
        params.get("_meta"@) is None ==> acp_relay::spawn_meta_of(Some(params)) is None,
        acp_relay::spawn_meta_of(None) is None,
        acp_relay::params_or_null(Some(params)) == params,
        acp_relay::params_or_null(None) == JsonView::Null,
{
}

/// Numbering a request, and forgetting it, changes what is noted of that request and nothing else.
pub proof fn lemma_notes(
    process: ProcessView,
    channel_id: Seq<char>,
    client_id: JsonView,
    session_id: Option<Seq<char>>,
    proxy_id: JsonView,
)
    requires
        process.next_proxy_id < u64::MAX,
    ensures
        ({
            let number = text::decimal(process.next_proxy_id as nat);
            let noted = acp_relay::mapped(process, channel_id, client_id, session_id);
            &&& noted.next_proxy_id == process.next_proxy_id + 1
            &&& noted.clients == process.clients.insert(number, AskedView { by: channel_id, client_id })
            &&& session_id is None ==> noted.sessions == process.sessions
            &&& session_id is Some ==> noted.sessions == process.sessions.insert(
                number,
                AskedView { by: session_id->0, client_id },
            )
            &&& noted.pending == process.pending
            &&& noted.cached == process.cached
            &&& noted.init_request == process.init_request
        }),
        ({
            let forgotten = acp_relay::unmapped(process, proxy_id);
            let id = json::id_text(proxy_id);
            &&& forgotten.clients == process.clients.remove(id)
            &&& forgotten.sessions == process.sessions.remove(id)
            &&& forgotten.pending == process.pending
            &&& forgotten.next_proxy_id == process.next_proxy_id
            &&& forgotten.cached == process.cached
        }),
{
}

/// A response that comes when its client has left follows the session: the client that has the session
/// now gets it, under the identity that the request came with. Where nobody has it, a session of
/// clients on channels keeps it.
pub proof fn lemma_late_answer(state: RelayView, asked: AskedView, response: ResponseView)
    ensures
        ({
            let (after, effects) = acp_relay::answered_late(state, Some(asked), response);
            let answer = MessageView::Response(
                ResponseView {
                    jsonrpc: response.jsonrpc,
                    id: asked.client_id,
                    result: response.result,
                    error: response.error,
                },
            );
            let owned = state.owners.contains_key(asked.by);
            let kept = !owned && state.style == Style::Channel && state.sessions.contains_key(asked.by);
            &&& owned ==> after == state && only_deliver(effects, state, state.owners[asked.by], answer)
            &&& !owned ==> effects.len() == 0
            &&& kept ==> after == (RelayView {
                sessions: state.sessions.insert(
                    asked.by,
                    SessionView {
                        buffer: state.sessions[asked.by].buffer.push(
                            BufferedView { id: json::json_text(asked.client_id), message: answer },
                        ),
                        ..state.sessions[asked.by]
                    },
                ),
                ..state
            })
            &&& !owned && !kept ==> after == state
        }),
        acp_relay::answered_late(state, None, response).0 == state,
        acp_relay::answered_late(state, None, response).1.len() == 0,
{
}

// ---------------------------------------------------------------------------
// What the calls do
// ---------------------------------------------------------------------------

/// Handing in a request for a client's agent writes exactly one message to that agent, which has the
/// request's version, method and parameters and differs from it in the identity only.
pub proof fn lemma_regular_request_call(
    relay: &mut Relay,
    channel_id: &str,
    request: &JsonRpcRequest,
    out: &mut Vec<RelayEffect>,
    r: Option<Problem>,
    key: Seq<char>,
)
    requires
        call_ensures(Relay::handle_regular_request, (relay, channel_id, request, out), r),
        speaks_with(old(relay)@, channel_id@, key),
        old(relay)@.processes[key].stdin == Stdin::Open,
    ensures
        ({
            let process = old(relay)@.processes[key];
            acp_relay::effects_view(final(out)@) == acp_relay::effects_view(old(out)@).push(
                EffectView::Send {
                    process_key: process.key,
                    message: MessageView::Request(
                        RequestView {
                            jsonrpc: request@.jsonrpc,
                            id: JsonView::Number(NumberView::PosInt(process.next_proxy_id)),
                            method: request@.method,
                            params: request@.params,
                        },
                    ),
                },
            )
        }),
        r is None,
{
    let process = old(relay)@.processes[key];
    let earlier = acp_relay::effects_view(old(out)@);
    let effect = EffectView::Send {
        process_key: process.key,
        message: renamed(request@, process.next_proxy_id),
    };
    assert(earlier + seq![effect] =~= earlier.push(effect));
}

/// Handing in a client's message: a response, or a notification that is no acknowledgement, is written
/// to the client's agent as it is, and a request that the relay does not take itself with another
/// identity only.
pub proof fn lemma_client_message_call(
    relay: &mut Relay,
    channel_id: &str,
    message: &JsonRpcMessage,
    out: &mut Vec<RelayEffect>,
    r: Option<Problem>,
    key: Seq<char>,
)
    requires
        call_ensures(Relay::handle_client_message, (relay, channel_id, message, out), r),
        speaks_with(old(relay)@, channel_id@, key),
        old(relay)@.processes[key].stdin == Stdin::Open,
    ensures
        ({
            let process = old(relay)@.processes[key];
            let written = acp_relay::effects_view(final(out)@);
            let earlier = acp_relay::effects_view(old(out)@);
            match message@ {
                MessageView::Response(_) => {
                    &&& written == earlier.push(
                        EffectView::Send { process_key: process.key, message: message@ },
                    )
                    &&& final(relay)@ == old(relay)@
                    &&& r is None
                },
                MessageView::Notification(notification) => notification.method != "_tidewave.ai/ack"@ ==> {
                    &&& written == earlier.push(
                        EffectView::Send { process_key: process.key, message: message@ },
                    )
                    &&& final(relay)@ == old(relay)@
                    &&& r is None
                },
                MessageView::Request(request) => request.method != "initialize"@ && request.method
                    != "_tidewave.ai/session/load"@ && request.method != "session/load"@
                    && request.method != "_tidewave.ai/exit"@ ==> {
                    &&& written == earlier.push(
                        EffectView::Send {
                            process_key: process.key,
                            message: MessageView::Request(
                                RequestView {
                                    jsonrpc: request.jsonrpc,
                                    id: JsonView::Number(NumberView::PosInt(process.next_proxy_id)),
                                    method: request.method,
                                    params: request.params,
                                },
                            ),
                        },
                    )
                    &&& r is None
                },
            }
        }),
{
    let process = old(relay)@.processes[key];
    let earlier = acp_relay::effects_view(old(out)@);
    let same = EffectView::Send { process_key: process.key, message: message@ };
    assert(earlier + seq![same] =~= earlier.push(same));
    if message@ is Request {
        let effect = EffectView::Send {
            process_key: process.key,
            message: renamed(message@->Request_0, process.next_proxy_id),
        };
        assert(earlier + seq![effect] =~= earlier.push(effect));
    }
}

/// A client whose agent runs already is answered from what is known of the agent. Otherwise the agent is
/// to be started with the client's options, under the key of its command, directory and parameters, and
/// nothing changes until then.
pub proof fn lemma_begin_call(
    relay: &mut Relay,
    channel_id: &str,
    request: &JsonRpcRequest,
    spawn_opts: TidewaveSpawnOptions,
    out: &mut Vec<RelayEffect>,
    r: InitStep,
)
    requires
        call_ensures(Relay::begin_initialize, (relay, channel_id, request, spawn_opts, out), r),
    ensures
        ({
            let params = match request@.params {
                Some(params) => params,
                None => JsonView::Null,
            };
            let key = acp_relay::process_key(spawn_opts.command@, spawn_opts.cwd@, params);
            let runs = old(relay)@.processes.contains_key(key);
            &&& r is Done <==> runs
            &&& runs ==> final(relay)@ == acp_relay::rejoined(old(relay)@, key, channel_id@, request@).state
            &&& runs ==> acp_relay::effects_view(final(out)@) == acp_relay::effects_view(old(out)@)
                + acp_relay::rejoined(old(relay)@, key, channel_id@, request@).effects
            &&& !runs ==> r->process_key@ == key && r->spawn_opts == spawn_opts
            &&& !runs ==> final(relay)@ == old(relay)@ && final(out)@ == old(out)@
        }),
{
}

/// An agent that has started gets the client's `initialize`; one that has not is told to the client with
/// the reason.
pub proof fn lemma_started_call(
    relay: &mut Relay,
    process_key: ProcessKey,
    channel_id: &str,
    request: &JsonRpcRequest,
    outcome: Result<(), String>,
    out: &mut Vec<RelayEffect>,
    r: Option<Problem>,
)
    requires
        call_ensures(Relay::process_started, (relay, process_key, channel_id, request, outcome, out), r),
    ensures
        r is None,
        outcome is Ok ==> acp_relay::effects_view(final(out)@) == acp_relay::effects_view(old(out)@).push(
            EffectView::Send { process_key: process_key@, message: renamed(request@, 1) },
        ),
        outcome is Ok ==> final(relay)@.homes == old(relay)@.homes.insert(channel_id@, process_key@),
        outcome is Err ==> final(relay)@ == old(relay)@,
{
    let reason = if outcome is Err {
        Err::<(), Seq<char>>(outcome->Err_0@)
    } else {
        Ok::<(), Seq<char>>(())
    };
    lemma_starting(old(relay)@, process_key@, channel_id@, request@, reason);
    let earlier = acp_relay::effects_view(old(out)@);
    let effect = EffectView::Send { process_key: process_key@, message: renamed(request@, 1) };
    assert(earlier + seq![effect] =~= earlier.push(effect));
}

/// What an agent prints on its standard output is handled as a message if it is one. Everything else is
/// kept as a line, and tells nobody anything.
pub proof fn lemma_output_call(
    relay: &mut Relay,
    process_key: &str,
    stream: OutputStream,
    line: String,
    message: Option<JsonRpcMessage>,
    out: &mut Vec<RelayEffect>,
    r: Option<Problem>,
)
    requires
        call_ensures(Relay::handle_process_output, (relay, process_key, stream, line, message, out), r),
    ensures
        ({
            let spoken = stream == OutputStream::Stdout && message is Some;
            let before = old(relay)@;
            &&& spoken ==> final(relay)@ == acp_relay::from_process(before, process_key@, message->0@).state
            &&& spoken ==> acp_relay::effects_view(final(out)@) == acp_relay::effects_view(old(out)@)
                + acp_relay::from_process(before, process_key@, message->0@).effects
            &&& !spoken ==> r is None && final(out)@ == old(out)@
            &&& !spoken && before.processes.contains_key(process_key@) ==> final(relay)@ == (RelayView {
                processes: before.processes.insert(
                    process_key@,
                    acp_relay::lined(before.processes[process_key@], stream, line@),
                ),
                ..before
            })
            &&& !spoken && !before.processes.contains_key(process_key@) ==> final(relay)@ == before
        }),
{
}

/// A client that connects can be told something; nothing else changes. An agent whose input is closed
/// cannot be written to any more.
pub proof fn lemma_connect_call(relay: &mut Relay, channel_id: ChannelId)
    requires
        call_ensures(Relay::connect, (relay, channel_id), ()),
    ensures
        final(relay)@ == (RelayView {
            channels: old(relay)@.channels.insert(channel_id@, ()),
            ..old(relay)@
        }),
{
}

/// An agent whose input is closed cannot be written to any more, and is as before otherwise.
pub proof fn lemma_stdin_call(relay: &mut Relay, process_key: &str)
    requires
        call_ensures(Relay::stdin_closed, (relay, process_key), ()),
    ensures
        old(relay)@.processes.contains_key(process_key@) ==> final(relay)@ == (RelayView {
            processes: old(relay)@.processes.insert(
                process_key@,
                ProcessView { stdin: Stdin::Closed, ..old(relay)@.processes[process_key@] },
            ),
            ..old(relay)@
        }),
        !old(relay)@.processes.contains_key(process_key@) ==> final(relay)@ == old(relay)@,
{
}

/// A client that leaves is not connected and gives up its sessions, which the call lists with their
/// counts.
pub proof fn lemma_disconnect_call(relay: &mut Relay, channel_id: &str, r: Vec<(SessionId, u64)>)
    requires
        call_ensures(Relay::disconnect, (relay, channel_id), r),
    ensures
        !final(relay)@.channels.contains_key(channel_id@),
        !final(relay)@.homes.contains_key(channel_id@),
        final(relay)@.sessions == old(relay)@.sessions,
        final(relay)@.processes == old(relay)@.processes,
        acp_relay::counters_view(r@) == acp_relay::left_behind(
            old(relay)@,
            old(relay).session_to_channel.order(),
            channel_id@,
        ),
{
}

/// Cancelling a session that nobody has loaded again writes the cancellation to its agent and marks the
/// session.
pub proof fn lemma_cancel_call(relay: &mut Relay, session_id: &str, counter: u64, out: &mut Vec<RelayEffect>)
    requires
        call_ensures(Relay::cancel_session, (relay, session_id, counter, out), ()),
    ensures
        ({
            let step = acp_relay::cancelled(old(relay)@, session_id@, counter);
            &&& final(relay)@ == step.state
            &&& acp_relay::effects_view(final(out)@) == acp_relay::effects_view(old(out)@) + step.effects
        }),
{
}

/// The end of an agent is told to its clients with the reason, and takes the agent and its sessions. The
/// end of one that is not known does nothing.
pub proof fn lemma_exited_call(relay: &mut Relay, process_key: &str, reason: &ExitReason, out: &mut Vec<RelayEffect>)
    requires
        call_ensures(Relay::process_exited, (relay, process_key, reason, out), ()),
    ensures
        ({
            let before = old(relay)@;
            let known = before.processes.contains_key(process_key@);
            &&& known ==> final(relay)@ == acp_relay::ended(before, process_key@)
            &&& known ==> acp_relay::effects_view(final(out)@) == acp_relay::effects_view(old(out)@)
                + acp_relay::exits_told(
                before,
                old(relay).channel_to_process.order(),
                process_key@,
                acp_relay::exit_view(before.processes[process_key@], *reason),
            )
            &&& !known ==> final(relay)@ == before && final(out)@ == old(out)@
        }),
{
}

/// The effects of a call are what they say: a message for a client, the end of a client's agent, a
/// message for an agent, and an agent that is to be stopped.
pub proof fn lemma_effects(channel_id: ChannelId, process_key: ProcessKey, message: JsonRpcMessage)
    ensures
        (RelayEffect::Deliver { channel_id, message })@ == (EffectView::Deliver {
            channel_id: channel_id@,
            message: message@,
        }),
        (RelayEffect::Send { process_key, message })@ == (EffectView::Send {
            process_key: process_key@,
            message: message@,
        }),
        (RelayEffect::Stop { process_key })@ == (EffectView::Stop { process_key: process_key@ }),
{
}

} // verus!
