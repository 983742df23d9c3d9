//! Where the proxy sends what clients and agents say, and what it changes on the way.

use vstd::prelude::*;

use crate::acp_session;
use crate::acp_session::{BufferedView, ExitView, SessionView};
use crate::json;
use crate::json::{JsonView, NumberView};
use crate::jsonrpc;
use crate::jsonrpc::{
    ErrorView, JsonRpcMessage, MessageView, NotificationView, RequestView, ResponseView,
};
use crate::phoenix::{PayloadView, PhxView};
use crate::registry;
use crate::registry::Registry;
use crate::text;
use crate::ws::acp;
use crate::ws::acp::process::{ProcessState, ProcessView, Stdin};
use crate::ws::acp::proxy;
use crate::ws::acp::proxy::{AcpError, Effect, EffectView, Handled, Senders};
use crate::ws::acp::{EntryView, InflightView, InitStateView, PendingView};
use crate::ws::ChannelSender;

verus! {

/// The push of an event on a channel that is connected.
pub open spec fn push_on(senders: Senders, channel_id: Seq<char>, event: Seq<char>, payload: JsonView) -> EffectView {
    EffectView::Push {
        channel_id,
        phx: PhxView {
            join_ref: senders[channel_id].join_ref,
            ref_: None,
            topic: senders[channel_id].topic,
            event,
            payload: PayloadView::Json(payload),
        },
    }
}

/// The effects are the push of one event on a channel, or nothing where the channel is not
/// connected.
pub open spec fn only_push(
    effects: Seq<EffectView>,
    senders: Senders,
    channel_id: Seq<char>,
    event: Seq<char>,
    payload: JsonView,
) -> bool {
    if senders.contains_key(channel_id) {
        effects == seq![push_on(senders, channel_id, event, payload)]
    } else {
        effects.len() == 0
    }
}

/// The effects tell one client the response to its request, or nothing where it is not connected.
pub open spec fn only_answer(
    effects: Seq<EffectView>,
    senders: Senders,
    channel_id: Seq<char>,
    answer: ResponseView,
) -> bool {
    only_push(effects, senders, channel_id, "jsonrpc"@, jsonrpc::message_json(MessageView::Response(answer)))
}

/// The effects refuse a request with a code and a text.
pub open spec fn only_refusal(
    effects: Seq<EffectView>,
    senders: Senders,
    channel_id: Seq<char>,
    id: JsonView,
    code: i32,
    text: Seq<char>,
) -> bool {
    only_answer(
        effects,
        senders,
        channel_id,
        ResponseView {
            jsonrpc: "2.0"@,
            id,
            result: None,
            error: Some(ErrorView { code, message: text, data: None }),
        },
    )
}

/// The effects tell one client that the agent cannot be used.
pub open spec fn only_exit(
    effects: Seq<EffectView>,
    senders: Senders,
    channel_id: Seq<char>,
    error: Seq<char>,
    text: Seq<char>,
) -> bool {
    only_push(
        effects,
        senders,
        channel_id,
        "agent_exit"@,
        acp_session::exit_json(ExitView { error, message: text, stdout: None, stderr: None }),
    )
}

/// The effects write one message to the agent, or nothing where it cannot be written to.
pub open spec fn only_send(effects: Seq<EffectView>, process: ProcessView, message: MessageView) -> bool {
    if process.stdin == Stdin::Open {
        effects == seq![EffectView::Send { generation: process.generation, message }]
    } else {
        effects.len() == 0
    }
}

/// Nothing but the requests in flight, the number of the next request and the sessions differs.
pub open spec fn same_otherwise(before: ProcessView, after: ProcessView) -> bool {
    &&& after.key == before.key
    &&& after.spawn == before.spawn
    &&& after.generation == before.generation
    &&& after.stdin == before.stdin
    &&& after.init == before.init
    &&& after.stdout == before.stdout
    &&& after.stderr == before.stderr
    &&& after.epoch == before.epoch
    &&& after.channels == before.channels
}

/// The methods that the proxy knows are different texts.
pub proof fn lemma_known_methods_differ()
    ensures
        "session/new"@ != "session/fork"@,
        "session/new"@ != "session/load"@,
        "session/new"@ != "session/resume"@,
        "session/new"@ != "session/close"@,
        "session/fork"@ != "session/load"@,
        "session/fork"@ != "session/resume"@,
        "session/fork"@ != "session/close"@,
        "session/load"@ != "session/resume"@,
        "session/load"@ != "session/close"@,
        "session/resume"@ != "session/close"@,
        "initialize"@ != "session/new"@,
        "initialize"@ != "session/fork"@,
        "initialize"@ != "session/close"@,
        "_tidewave.ai/session/load"@ != "session/new"@,
        "_tidewave.ai/session/load"@ != "session/fork"@,
        "_tidewave.ai/session/load"@ != "session/close"@,
{
    reveal_strlit("session/new");
    reveal_strlit("session/fork");
    reveal_strlit("session/load");
    reveal_strlit("session/resume");
    reveal_strlit("session/close");
    reveal_strlit("initialize");
    reveal_strlit("_tidewave.ai/session/load");
    assert("session/new"@.len() == 11);
    assert("session/fork"@.len() == 12);
    assert("session/load"@.len() == 12);
    assert("session/resume"@.len() == 14);
    assert("session/close"@.len() == 13);
    assert("initialize"@.len() == 10);
    assert("_tidewave.ai/session/load"@.len() == 25);
    assert("session/fork"@[8] == 'f');
    assert("session/load"@[8] == 'l');
}

// ---------------------------------------------------------------------------
// From the client to the agent
// ---------------------------------------------------------------------------

/// A client's response to the agent goes to the agent as it is: one message is written, to the
/// process that the client speaks with, and nothing else changes.
pub proof fn lemma_client_response_is_written(
    process: ProcessView,
    senders: Senders,
    channel_id: Seq<char>,
    response: ResponseView,
)
    ensures
        ({
            let message = MessageView::Response(response);
            let (after, effects) = proxy::from_client(process, senders, channel_id, message);
            &&& after == process
            &&& process.stdin == Stdin::Open ==> effects == seq![
                EffectView::Send { generation: process.generation, message },
            ]
            &&& process.stdin != Stdin::Open ==> effects.len() == 0
            &&& proxy::is_passed_on(message)
            &&& proxy::has_valid_params(message)
        }),
{
}

/// A client's notification goes to the agent as it is, unless it is an acknowledgement, which the
/// agent never sees.
pub proof fn lemma_client_notification_is_written(
    process: ProcessView,
    senders: Senders,
    channel_id: Seq<char>,
    notification: NotificationView,
)
    ensures
        ({
            let message = MessageView::Notification(notification);
            let (after, effects) = proxy::from_client(process, senders, channel_id, message);
            let is_ack = notification.method == "_tidewave.ai/ack"@;
            &&& !is_ack ==> after == process
            &&& !is_ack && process.stdin == Stdin::Open ==> effects == seq![
                EffectView::Send { generation: process.generation, message },
            ]
            &&& !is_ack && process.stdin != Stdin::Open ==> effects.len() == 0
            &&& is_ack ==> effects.len() == 0
            &&& proxy::is_passed_on(message) == !is_ack
            &&& proxy::has_valid_params(message) == (is_ack ==> acp_session::ack_of(notification.params)
                is Some)
        }),
{
}

/// An acknowledgement prunes the buffer of the session that it names, or of all sessions where it
/// names none, as far as they belong to the client. It changes nothing else.
pub proof fn lemma_acknowledgement(
    process: ProcessView,
    senders: Senders,
    channel_id: Seq<char>,
    notification: NotificationView,
    session_id: Seq<char>,
)
    requires
        notification.method == "_tidewave.ai/ack"@,
        process.sessions.contains_key(session_id),
    ensures
        ({
            let message = MessageView::Notification(notification);
            let after = proxy::from_client(process, senders, channel_id, message).0;
            let before = process.sessions[session_id];
            &&& same_otherwise(process, after)
            &&& after.inflight == process.inflight
            &&& after.next_proxy_id == process.next_proxy_id
            &&& after.sessions.dom() == process.sessions.dom()
            &&& match acp_session::ack_of(notification.params) {
                Some((named, latest_id)) => if before.channel_id == Some(channel_id) && (named is None
                    || named == Some(session_id)) {
                    after.sessions[session_id] == (EntryView {
                        state: acp_session::pruned(before.state, latest_id),
                        channel_id: Some(channel_id),
                    })
                } else {
                    after.sessions[session_id] == before
                },
                None => after == process,
            }
        }),
{
    let message = MessageView::Notification(notification);
    let after = proxy::from_client(process, senders, channel_id, message).0;
    assert(after.sessions.dom() =~= process.sessions.dom());
}

/// A request that the proxy does not take itself goes to the agent once. It keeps its version, its
/// method and its parameters: only the identity is another. The proxy notes who asked, under which
/// identity and for which session, and leaves the sessions as they are.
pub proof fn lemma_request_is_forwarded(
    process: ProcessView,
    senders: Senders,
    channel_id: Seq<char>,
    request: RequestView,
)
    requires
        request.method != "initialize"@,
        request.method != "_tidewave.ai/session/load"@,
        request.method != "session/load"@ && request.method != "session/resume"@
            || acp_session::session_id_of(request.params) is None,
        process.next_proxy_id < u64::MAX,
    ensures
        ({
            let message = MessageView::Request(request);
            let (after, effects) = proxy::from_client(process, senders, channel_id, message);
            let key = text::decimal(process.next_proxy_id as nat);
            let asked = after.inflight[key];
            &&& only_send(
                effects,
                process,
                MessageView::Request(
                    RequestView {
                        jsonrpc: request.jsonrpc,
                        id: JsonView::Number(NumberView::PosInt(process.next_proxy_id)),
                        method: request.method,
                        params: request.params,
                    },
                ),
            )
            &&& after.next_proxy_id == process.next_proxy_id + 1
            &&& after.inflight.dom() == process.inflight.dom().insert(key)
            &&& forall|other: Seq<char>|
                other != key && process.inflight.contains_key(other) ==> #[trigger] after.inflight[other]
                    == process.inflight[other]
            &&& asked.channel_id == channel_id
            &&& asked.client_id == request.id
            &&& asked.session_id == acp_session::session_id_of(request.params)
            &&& after.sessions == process.sessions
            &&& same_otherwise(process, after)
            &&& !proxy::is_passed_on(message)
            &&& proxy::has_valid_params(message)
        }),
{
    let after = proxy::from_client(process, senders, channel_id, MessageView::Request(request)).0;
    let key = text::decimal(process.next_proxy_id as nat);
    assert(after.inflight.dom() =~= process.inflight.dom().insert(key));
}

/// What the answer to a forwarded request is looked at for: a new session, a session that is forked,
/// and a session that ends.
pub proof fn lemma_pending_by_method(
    process: ProcessView,
    senders: Senders,
    channel_id: Seq<char>,
    request: RequestView,
)
    requires
        request.method != "initialize"@,
        request.method != "_tidewave.ai/session/load"@,
        request.method != "session/load"@,
        request.method != "session/resume"@,
    ensures
        ({
            let after = proxy::from_client(process, senders, channel_id, MessageView::Request(request)).0;
            let asked = after.inflight[text::decimal(process.next_proxy_id as nat)];
            let session_id = acp_session::session_id_of(request.params);
            &&& asked.pending == Some(PendingView::SessionNew) <==> request.method == "session/new"@
            &&& asked.pending == Some(PendingView::SessionFork) <==> request.method == "session/fork"@
            &&& asked.pending is Some && asked.pending->0 is SessionClose <==> request.method
                == "session/close"@ && session_id is Some
            &&& request.method == "session/close"@ && session_id is Some ==> asked.pending == Some(
                PendingView::SessionClose { session_id: session_id->0 },
            )
            &&& asked.pending is Some ==> !(asked.pending->0 is SessionLoad)
            &&& asked.pending is Some ==> !(asked.pending->0 is SessionResume)
        }),
{
    lemma_known_methods_differ();
}

/// A load or a resumption of a session that nobody has gives the session to the client and goes to
/// the agent, with only the identity changed. A session that the proxy does not know yet starts
/// afresh; one that it knows keeps what it holds.
pub proof fn lemma_session_is_claimed(
    process: ProcessView,
    senders: Senders,
    channel_id: Seq<char>,
    request: RequestView,
    session_id: Seq<char>,
)
    requires
        request.method == "session/load"@ || request.method == "session/resume"@,
        acp_session::session_id_of(request.params) == Some(session_id),
        process.sessions.contains_key(session_id) ==> process.sessions[session_id].channel_id is None,
        process.next_proxy_id < u64::MAX,
    ensures
        ({
            let message = MessageView::Request(request);
            let (after, effects) = proxy::from_client(process, senders, channel_id, message);
            let key = text::decimal(process.next_proxy_id as nat);
            let created_session = !process.sessions.contains_key(session_id);
            &&& only_send(
                effects,
                process,
                MessageView::Request(
                    RequestView {
                        jsonrpc: request.jsonrpc,
                        id: JsonView::Number(NumberView::PosInt(process.next_proxy_id)),
                        method: request.method,
                        params: request.params,
                    },
                ),
            )
            &&& after.next_proxy_id == process.next_proxy_id + 1
            &&& after.inflight == process.inflight.insert(
                key,
                InflightView {
                    channel_id,
                    client_id: request.id,
                    session_id: Some(session_id),
                    pending: if request.method == "session/load"@ {
                        Some(PendingView::SessionLoad { session_id, created_session })
                    } else {
                        Some(PendingView::SessionResume { session_id, created_session })
                    },
                },
            )
            &&& after.sessions.dom() == process.sessions.dom().insert(session_id)
            &&& after.sessions[session_id].channel_id == Some(channel_id)
            &&& !created_session ==> after.sessions[session_id].state == process.sessions[session_id].state
            &&& created_session ==> after.sessions[session_id].state == (SessionView {
                process_key: process.key,
                buffer: seq![],
                next_notification: 1,
                cancelled: false,
                cancel_counter: 0,
            })
            &&& forall|other: Seq<char>|
                other != session_id && process.sessions.contains_key(other)
                    ==> #[trigger] after.sessions[other] == process.sessions[other]
            &&& same_otherwise(process, after)
        }),
{
    proxy::lemma_methods_differ();
    lemma_known_methods_differ();
    let after = proxy::from_client(process, senders, channel_id, MessageView::Request(request)).0;
    assert(after.sessions.dom() =~= process.sessions.dom().insert(session_id));
}

/// A load or a resumption of a session that a channel has is refused with the code for a session in
/// use, and nothing changes.
pub proof fn lemma_claim_is_refused(
    process: ProcessView,
    senders: Senders,
    channel_id: Seq<char>,
    request: RequestView,
    session_id: Seq<char>,
)
    requires
        request.method == "session/load"@ || request.method == "session/resume"@,
        acp_session::session_id_of(request.params) == Some(session_id),
        process.sessions.contains_key(session_id),
        process.sessions[session_id].channel_id is Some,
    ensures
        ({
            let (after, effects) = proxy::from_client(
                process,
                senders,
                channel_id,
                MessageView::Request(request),
            );
            &&& after == process
            &&& only_refusal(
                effects,
                senders,
                channel_id,
                request.id,
                (-32003) as i32,
                "Session already has an active connection"@,
            )
        }),
{
    proxy::lemma_methods_differ();
}

/// Reconnecting to a session: one that the proxy does not know is refused as not found, one that a
/// channel has is refused as in use, and one that nobody has is given to the client.
pub proof fn lemma_reconnection(
    process: ProcessView,
    senders: Senders,
    channel_id: Seq<char>,
    request: RequestView,
    session_id: Seq<char>,
    latest_id: Seq<char>,
)
    requires
        request.method == "_tidewave.ai/session/load"@,
        acp_session::session_and_latest(request.params) == Some((session_id, latest_id)),
        process.sessions.contains_key(session_id) ==> process.sessions[session_id].state.cancel_counter
            < u64::MAX,
    ensures
        ({
            let (after, effects) = proxy::from_client(
                process,
                senders,
                channel_id,
                MessageView::Request(request),
            );
            let known = process.sessions.contains_key(session_id);
            let before = process.sessions[session_id];
            let now = after.sessions[session_id];
            &&& same_otherwise(process, after)
            &&& after.inflight == process.inflight
            &&& after.next_proxy_id == process.next_proxy_id
            &&& after.sessions.dom() == process.sessions.dom()
            &&& forall|other: Seq<char>|
                other != session_id && process.sessions.contains_key(other)
                    ==> #[trigger] after.sessions[other] == process.sessions[other]
            &&& !known ==> after == process && only_refusal(
                effects,
                senders,
                channel_id,
                request.id,
                (-32002) as i32,
                "Session not found"@,
            )
            &&& known ==> now.state.cancel_counter == before.state.cancel_counter + 1 && now.state.buffer
                == before.state.buffer && now.state.next_notification == before.state.next_notification
                && now.state.process_key == before.state.process_key
            &&& known && before.channel_id is Some ==> now.channel_id == before.channel_id
                && now.state.cancelled == before.state.cancelled && only_refusal(
                effects,
                senders,
                channel_id,
                request.id,
                (-32003) as i32,
                "Session already has an active connection"@,
            )
            &&& known && before.channel_id is None ==> !now.state.cancelled && now.channel_id == (
            if senders.contains_key(channel_id) {
                Some(channel_id)
            } else {
                None
            })
        }),
{
    proxy::lemma_methods_differ();
    let after = proxy::from_client(process, senders, channel_id, MessageView::Request(request)).0;
    assert(after.sessions.dom() =~= process.sessions.dom());
}

/// A client that reconnects gets the messages that it has missed, in their order, each as it was
/// when it was kept. The answer to its request comes last and says whether the session was cancelled.
pub proof fn lemma_reconnection_replays(
    process: ProcessView,
    senders: Senders,
    channel_id: Seq<char>,
    request: RequestView,
    session_id: Seq<char>,
    latest_id: Seq<char>,
)
    requires
        request.method == "_tidewave.ai/session/load"@,
        acp_session::session_and_latest(request.params) == Some((session_id, latest_id)),
        process.sessions.contains_key(session_id),
        process.sessions[session_id].channel_id is None,
    ensures
        ({
            let effects = proxy::from_client(
                process,
                senders,
                channel_id,
                MessageView::Request(request),
            ).1;
            let before = process.sessions[session_id].state;
            let missed = acp_session::messages_after(before.buffer, latest_id);
            &&& !senders.contains_key(channel_id) ==> effects.len() == 0
            &&& senders.contains_key(channel_id) ==> {
                &&& effects.len() == missed.len() + 1
                &&& forall|i: int|
                    0 <= i < missed.len() ==> #[trigger] effects[i] == push_on(
                        senders,
                        channel_id,
                        "jsonrpc"@,
                        jsonrpc::message_json(missed[i].message),
                    )
                &&& effects.last() == push_on(
                    senders,
                    channel_id,
                    "jsonrpc"@,
                    jsonrpc::message_json(
                        MessageView::Response(
                            ResponseView {
                                jsonrpc: "2.0"@,
                                id: request.id,
                                result: Some(acp_session::load_result_json(before.cancelled)),
                                error: None,
                            },
                        ),
                    ),
                )
            }
        }),
{
    proxy::lemma_methods_differ();
}

/// A request to reconnect whose parameters cannot be read does nothing.
pub proof fn lemma_unread_reconnection(
    process: ProcessView,
    senders: Senders,
    channel_id: Seq<char>,
    request: RequestView,
)
    requires
        request.method == "_tidewave.ai/session/load"@,
    ensures
        proxy::has_valid_params(MessageView::Request(request)) == (acp_session::session_and_latest(
            request.params,
        ) is Some),
        acp_session::session_and_latest(request.params) is None ==> ({
            let (after, effects) = proxy::from_client(
                process,
                senders,
                channel_id,
                MessageView::Request(request),
            );
            after == process && effects.len() == 0
        }),
{
    proxy::lemma_methods_differ();
}

// ---------------------------------------------------------------------------
// Initialization
// ---------------------------------------------------------------------------

/// The first `initialize` goes to the agent with only its identity changed, and the proxy waits for
/// the answer. Where the agent cannot be written to, the client is told so and nobody tries again.
pub proof fn lemma_first_initialize(
    process: ProcessView,
    senders: Senders,
    channel_id: Seq<char>,
    request: RequestView,
)
    requires
        request.method == "initialize"@,
        process.init is NotStarted,
        process.next_proxy_id < u64::MAX,
    ensures
        ({
            let (after, effects) = proxy::from_client(
                process,
                senders,
                channel_id,
                MessageView::Request(request),
            );
            &&& after.next_proxy_id == process.next_proxy_id + 1
            &&& after.inflight == process.inflight.insert(
                text::decimal(process.next_proxy_id as nat),
                InflightView {
                    channel_id,
                    client_id: request.id,
                    session_id: acp_session::session_id_of(request.params),
                    pending: None,
                },
            )
            &&& same_otherwise(process, ProcessView { init: process.init, ..after })
            &&& after.sessions == process.sessions
            &&& process.stdin == Stdin::Open ==> {
                &&& effects == seq![
                    EffectView::Send {
                        generation: process.generation,
                        message: MessageView::Request(
                            RequestView {
                                jsonrpc: request.jsonrpc,
                                id: JsonView::Number(NumberView::PosInt(process.next_proxy_id)),
                                method: "initialize"@,
                                params: request.params,
                            },
                        ),
                    },
                ]
                &&& after.init == InitStateView::InFlight(JsonView::Number(NumberView::PosInt(process.next_proxy_id)))
            }
            &&& process.stdin != Stdin::Open ==> {
                &&& only_exit(
                    effects,
                    senders,
                    channel_id,
                    "communication_error"@,
                    "Failed to communicate with process"@,
                )
                &&& after.init is Failed
            }
        }),
{
}

/// A later `initialize` never reaches the agent. It gets the answer that the agent gave before, under
/// its own identity, or it is told that the agent failed, or it waits.
pub proof fn lemma_later_initialize(
    process: ProcessView,
    senders: Senders,
    channel_id: Seq<char>,
    request: RequestView,
)
    requires
        request.method == "initialize"@,
        !(process.init is NotStarted),
        process.next_proxy_id < u64::MAX,
    ensures
        ({
            let (after, effects) = proxy::from_client(
                process,
                senders,
                channel_id,
                MessageView::Request(request),
            );
            let waited = proxy::wait_finished(process.init, senders, channel_id, request.id);
            &&& after.next_proxy_id == process.next_proxy_id + 1
            &&& after.inflight == process.inflight
            &&& after.sessions == process.sessions
            &&& same_otherwise(process, after)
            &&& match process.init {
                InitStateView::Complete(init) => {
                    &&& only_answer(
                        effects,
                        senders,
                        channel_id,
                        ResponseView {
                            jsonrpc: init.response.jsonrpc,
                            id: request.id,
                            result: init.response.result,
                            error: init.response.error,
                        },
                    )
                    &&& waited == Some(effects)
                },
                InitStateView::Failed => {
                    &&& only_exit(effects, senders, channel_id, "init_error"@, "Process init failed"@)
                    &&& waited == Some(effects)
                },
                _ => effects.len() == 0 && waited is None,
            }
        }),
{
}

/// The answer to `initialize` completes the initialization. What the agent printed before is dropped,
/// its capabilities are those of its own answer, and the answer that is kept for others is the one
/// that the client gets. No other answer changes how far the initialization has come.
pub proof fn lemma_initialization_completes(process: ProcessView, senders: Senders, response: ResponseView)
    requires
        process.inflight.contains_key(json::id_text(response.id)),
    ensures
        ({
            let after = proxy::answered(process, senders, response).0;
            let asked = process.inflight[json::id_text(response.id)];
            let current = process.init is InFlight && json::id_text(process.init->InFlight_0)
                == json::id_text(response.id);
            &&& current ==> {
                &&& after.init is Complete
                &&& after.init->Complete_0.capabilities.supports_resuming == acp::supports_resuming(
                    response.result,
                )
                &&& after.init->Complete_0.capabilities.supports_session_close
                    == acp::supports_session_close(response.result)
                &&& after.init->Complete_0.response.id == asked.client_id
                &&& after.init->Complete_0.response.error == response.error
                &&& after.init->Complete_0.response.jsonrpc == response.jsonrpc
                &&& after.stdout.len() == 0
                &&& after.stderr.len() == 0
            }
            &&& !current ==> after.init == process.init && after.stdout == process.stdout && after.stderr
                == process.stderr
        }),
{
}

/// An agent can restore sessions if it says `loadSession: true`, or has `fork` or `resume` among its
/// session capabilities; it can close them if it has `close`. One that says nothing can do neither.
pub proof fn lemma_capabilities(result: JsonView, capabilities: JsonView, session: JsonView)
    requires
        result.get("agentCapabilities"@) == Some(capabilities),
    ensures
        capabilities.get("loadSession"@) == Some(JsonView::Bool(true)) ==> acp::supports_resuming(
            Some(result),
        ),
        capabilities.get("session"@) == Some(session) ==> {
            &&& session.get("fork"@) is Some ==> acp::supports_resuming(Some(result))
            &&& session.get("resume"@) is Some ==> acp::supports_resuming(Some(result))
            &&& acp::supports_session_close(Some(result)) == (session.get("close"@) is Some)
            &&& session.get("fork"@) is None && session.get("resume"@) is None && capabilities.get(
                "loadSession"@,
            ) != Some(JsonView::Bool(true)) ==> !acp::supports_resuming(Some(result))
        },
        capabilities.get("session"@) is None ==> !acp::supports_session_close(Some(result)) && (
        acp::supports_resuming(Some(result)) == (capabilities.get("loadSession"@) == Some(
            JsonView::Bool(true),
        ))),
        !acp::supports_resuming(None),
        !acp::supports_session_close(None),
{
}

/// Without `agentCapabilities` an answer shows no capability.
pub proof fn lemma_no_capabilities(result: JsonView)
    requires
        result.get("agentCapabilities"@) is None,
    ensures
        !acp::supports_resuming(Some(result)),
        !acp::supports_session_close(Some(result)),
{
}

// ---------------------------------------------------------------------------
// From the agent to the client
// ---------------------------------------------------------------------------

/// The answer to a request goes to the client that asked, with the result and the error of the agent
/// and the identity of the client. The request is no longer in flight; the others are.
pub proof fn lemma_answer_is_told(process: ProcessView, senders: Senders, response: ResponseView)
    requires
        process.inflight.contains_key(json::id_text(response.id)),
        !acp::is_current(process.init, response.id),
    ensures
        ({
            let (after, effects) = proxy::answered(process, senders, response);
            let key = json::id_text(response.id);
            let asked = process.inflight[key];
            &&& senders.contains_key(asked.channel_id) ==> effects == seq![
                push_on(
                    senders,
                    asked.channel_id,
                    "jsonrpc"@,
                    jsonrpc::message_json(
                        MessageView::Response(
                            ResponseView {
                                jsonrpc: response.jsonrpc,
                                id: asked.client_id,
                                result: response.result,
                                error: response.error,
                            },
                        ),
                    ),
                ),
            ]
            &&& after.inflight.dom() == process.inflight.dom().remove(key)
            &&& forall|other: Seq<char>|
                other != key && process.inflight.contains_key(other) ==> #[trigger] after.inflight[other]
                    == process.inflight[other]
            &&& after.next_proxy_id == process.next_proxy_id
            &&& same_otherwise(process, after)
        }),
{
    let after = proxy::answered(process, senders, response).0;
    let key = json::id_text(response.id);
    assert(after.inflight.dom() =~= process.inflight.dom().remove(key));
}

/// The answer to `initialize` goes to the client that asked. It carries the agent's result with the
/// proxy's version and capabilities added.
pub proof fn lemma_initialize_answer_is_told(process: ProcessView, senders: Senders, response: ResponseView)
    requires
        process.inflight.contains_key(json::id_text(response.id)),
        acp::is_current(process.init, response.id),
        senders.contains_key(process.inflight[json::id_text(response.id)].channel_id),
    ensures
        ({
            let effects = proxy::answered(process, senders, response).1;
            let asked = process.inflight[json::id_text(response.id)];
            effects == seq![
                push_on(
                    senders,
                    asked.channel_id,
                    "jsonrpc"@,
                    jsonrpc::message_json(
                        MessageView::Response(
                            ResponseView {
                                jsonrpc: response.jsonrpc,
                                id: asked.client_id,
                                result: acp_session::with_own_capabilities(
                                    acp_session::with_version(response.result, crate::acp_relay::VERSION@),
                                    acp_session::session_load_capability(),
                                ),
                                error: response.error,
                            },
                        ),
                    ),
                ),
            ]
        }),
{
}

/// A response that answers no request in flight goes nowhere.
pub proof fn lemma_stray_response(process: ProcessView, senders: Senders, response: ResponseView)
    requires
        !process.inflight.contains_key(json::id_text(response.id)),
    ensures
        ({
            let (after, effects) = proxy::from_process(process, senders, MessageView::Response(response));
            after == process && effects.len() == 0
        }),
{
}

/// A session that the agent made belongs to the client that asked for it: with `session/new` and
/// `session/fork` alike. Where the client has left, nobody has it. A session that is known already is
/// kept.
pub proof fn lemma_session_is_made(
    process: ProcessView,
    senders: Senders,
    response: ResponseView,
    session_id: Seq<char>,
)
    requires
        ({
            let key = json::id_text(response.id);
            &&& process.inflight.contains_key(key)
            &&& process.inflight[key].pending == Some(PendingView::SessionNew)
                || process.inflight[key].pending == Some(PendingView::SessionFork)
        }),
        response.result is Some,
        acp_session::new_session_of(response.result->0) == Some(session_id),
        !acp::is_current(process.init, response.id),
        !process.sessions.contains_key(session_id),
    ensures
        ({
            let after = proxy::answered(process, senders, response).0;
            let asked = process.inflight[json::id_text(response.id)];
            let here = senders.contains_key(asked.channel_id);
            &&& after.sessions.contains_key(session_id)
            &&& here ==> after.sessions == process.sessions.insert(
                session_id,
                EntryView {
                    state: SessionView {
                        process_key: process.key,
                        buffer: seq![],
                        next_notification: 1,
                        cancelled: false,
                        cancel_counter: 0,
                    },
                    channel_id: Some(asked.channel_id),
                },
            )
            &&& !here ==> after.sessions[session_id].channel_id is None
            &&& !here ==> after.sessions[session_id].state.buffer == seq![
                BufferedView {
                    message: MessageView::Response(ResponseView { id: asked.client_id, ..response }),
                    id: json::json_text(asked.client_id),
                },
            ]
        }),
{
    let after = proxy::answered(process, senders, response).0;
    let asked = process.inflight[json::id_text(response.id)];
    if !senders.contains_key(asked.channel_id) {
        assert(after.sessions[session_id].state.buffer =~= seq![
            BufferedView {
                message: MessageView::Response(ResponseView { id: asked.client_id, ..response }),
                id: json::json_text(asked.client_id),
            },
        ]);
    }
}

/// The answer to a load that succeeds leaves the session with its client. One that fails takes back
/// what the load did: a session that it made is dropped, and one that it took is given up.
pub proof fn lemma_load_is_settled(
    process: ProcessView,
    senders: Senders,
    response: ResponseView,
    session_id: Seq<char>,
    created_session: bool,
)
    requires
        ({
            let key = json::id_text(response.id);
            &&& process.inflight.contains_key(key)
            &&& process.inflight[key].pending == Some(
                PendingView::SessionLoad { session_id, created_session },
            ) || process.inflight[key].pending == Some(
                PendingView::SessionResume { session_id, created_session },
            )
            &&& senders.contains_key(process.inflight[key].channel_id)
            &&& process.sessions.contains_key(session_id)
            &&& process.sessions[session_id].channel_id == Some(process.inflight[key].channel_id)
        }),
    ensures
        ({
            let after = proxy::answered(process, senders, response).0;
            let before = process.sessions[session_id];
            &&& response.error is None ==> after.sessions == process.sessions
            &&& response.error is Some && created_session ==> !after.sessions.contains_key(session_id)
            &&& response.error is Some && !created_session ==> after.sessions.contains_key(session_id)
                && after.sessions[session_id].channel_id is None && after.sessions[session_id].state
                == before.state
            &&& forall|other: Seq<char>|
                other != session_id ==> (#[trigger] after.sessions.contains_key(other)
                    == process.sessions.contains_key(other)) && (process.sessions.contains_key(other)
                    ==> after.sessions[other] == process.sessions[other])
        }),
{
}

/// A session whose end the agent confirms is dropped; the others stay.
pub proof fn lemma_closed_session_is_dropped(
    process: ProcessView,
    senders: Senders,
    response: ResponseView,
    session_id: Seq<char>,
)
    requires
        ({
            let key = json::id_text(response.id);
            &&& process.inflight.contains_key(key)
            &&& process.inflight[key].pending == Some(PendingView::SessionClose { session_id })
            &&& senders.contains_key(process.inflight[key].channel_id)
        }),
    ensures
        proxy::answered(process, senders, response).0.sessions == process.sessions.remove(session_id),
{
}

/// What the agent says of a session goes to the client that has the session, and to nobody else. A
/// request goes as it is; a notification gets the identity by which the client acknowledges it. Either
/// is kept at the end of the session's buffer, whether a client has the session or not.
pub proof fn lemma_session_message(
    process: ProcessView,
    senders: Senders,
    message: MessageView,
    session_id: Seq<char>,
)
    requires
        !(message is Response),
        acp_session::session_id_of(acp_session::scope_of(message)) == Some(session_id),
        process.sessions.contains_key(session_id),
        process.sessions[session_id].state.next_notification < u64::MAX,
    ensures
        ({
            let (after, effects) = proxy::from_process(process, senders, message);
            let before = process.sessions[session_id];
            let now = after.sessions[session_id];
            let number = before.state.next_notification;
            let told = match message {
                MessageView::Notification(n) => MessageView::Notification(
                    NotificationView {
                        jsonrpc: n.jsonrpc,
                        method: n.method,
                        params: acp_session::with_notification_id(
                            n.params,
                            "notif_"@ + text::decimal(number as nat),
                        ),
                    },
                ),
                _ => message,
            };
            let id = match message {
                MessageView::Request(r) => json::json_text(r.id),
                _ => "notif_"@ + text::decimal(number as nat),
            };
            &&& match before.channel_id {
                Some(channel_id) => only_push(
                    effects,
                    senders,
                    channel_id,
                    "jsonrpc"@,
                    jsonrpc::message_json(told),
                ),
                None => effects.len() == 0,
            }
            &&& now.channel_id == before.channel_id
            &&& now.state.buffer == before.state.buffer.push(BufferedView { message: told, id })
            &&& now.state.next_notification == number + (if message is Notification {
                1int
            } else {
                0
            })
            &&& now.state.cancelled == before.state.cancelled
            &&& now.state.cancel_counter == before.state.cancel_counter
            &&& now.state.process_key == before.state.process_key
            &&& after.sessions == process.sessions.insert(session_id, now)
            &&& after.inflight == process.inflight
            &&& after.next_proxy_id == process.next_proxy_id
            &&& same_otherwise(process, after)
        }),
{
    let after = proxy::from_process(process, senders, message).0;
    let now = after.sessions[session_id];
    assert(after.sessions =~= process.sessions.insert(session_id, now));
}

/// The effect tells one of the channels that is connected a message.
pub open spec fn is_broadcast(
    senders: Senders,
    channels: Seq<Seq<char>>,
    message: MessageView,
    effect: EffectView,
) -> bool {
    exists|channel_id: Seq<char>|
        #![trigger channels.contains(channel_id)]
        channels.contains(channel_id) && senders.contains_key(channel_id) && effect == push_on(
            senders,
            channel_id,
            "jsonrpc"@,
            jsonrpc::message_json(message),
        )
}

/// What the agent says of a session that the proxy does not know goes nowhere. What names no session
/// goes to every client of the process, as it is.
pub proof fn lemma_other_message(process: ProcessView, senders: Senders, message: MessageView)
    requires
        !(message is Response),
    ensures
        ({
            let (after, effects) = proxy::from_process(process, senders, message);
            match acp_session::session_id_of(acp_session::scope_of(message)) {
                Some(session_id) => !process.sessions.contains_key(session_id) ==> after == process
                    && effects.len() == 0,
                None => {
                    &&& after == process
                    &&& forall|effect: EffectView| #[trigger]
                        effects.contains(effect) <==> is_broadcast(
                            senders,
                            process.channels,
                            message,
                            effect,
                        )
                },
            }
        }),
{
    if acp_session::session_id_of(acp_session::scope_of(message)) is None {
        lemma_broadcast(senders, process.channels, message);
    }
}

proof fn lemma_broadcast(senders: Senders, channels: Seq<Seq<char>>, message: MessageView)
    ensures
        forall|effect: EffectView| #[trigger]
            proxy::broadcast_to(senders, channels, message).contains(effect) <==> is_broadcast(
                senders,
                channels,
                message,
                effect,
            ),
    decreases channels.len(),
{
    let effects = proxy::broadcast_to(senders, channels, message);
    if channels.len() != 0 {
        let first = channels.drop_last();
        let before = proxy::broadcast_to(senders, first, message);
        let told = proxy::jsonrpc_to(senders, channels.last(), message);
        lemma_broadcast(senders, first, message);
        assert(effects == before + told);
        assert forall|effect: EffectView| #[trigger] effects.contains(effect) <==> is_broadcast(
            senders,
            channels,
            message,
            effect,
        ) by {
            if effects.contains(effect) {
                let i = effects.index_of(effect);
                if i < before.len() {
                    assert(before[i] == effect);
                    assert(before.contains(effect));
                    let channel_id = choose|channel_id: Seq<char>|
                        #![trigger first.contains(channel_id)]
                        first.contains(channel_id) && senders.contains_key(channel_id) && effect
                            == push_on(senders, channel_id, "jsonrpc"@, jsonrpc::message_json(message));
                    let at = first.index_of(channel_id);
                    assert(channels[at] == channel_id);
                    assert(channels.contains(channel_id));
                } else {
                    assert(effect == told[i - before.len()]);
                    assert(channels[channels.len() - 1] == channels.last());
                    assert(channels.contains(channels.last()));
                }
            }
            if is_broadcast(senders, channels, message, effect) {
                let channel_id = choose|channel_id: Seq<char>|
                    #![trigger channels.contains(channel_id)]
                    channels.contains(channel_id) && senders.contains_key(channel_id) && effect == push_on(
                        senders,
                        channel_id,
                        "jsonrpc"@,
                        jsonrpc::message_json(message),
                    );
                let at = channels.index_of(channel_id);
                if at < first.len() {
                    assert(first[at] == channel_id);
                    assert(first.contains(channel_id));
                    assert(is_broadcast(senders, first, message, effect));
                    assert(before.contains(effect));
                    let i = before.index_of(effect);
                    assert(effects[i] == before[i]);
                } else {
                    assert(told[0] == effect);
                    assert(effects[before.len() as int] == effect);
                }
            }
        }
    } else {
        assert(effects.len() == 0);
    }
}

/// A session that nobody has taken up again is stopped: an agent that can close sessions is asked to,
/// and the session is dropped; another is told that it is cancelled, and the session is marked.
pub proof fn lemma_session_is_stopped(process: ProcessView, session_id: Seq<char>, counter: u64)
    requires
        process.next_proxy_id < u64::MAX,
    ensures
        ({
            let (after, effects) = proxy::stopped(process, session_id, counter);
            let entry = process.sessions[session_id];
            let waits = process.sessions.contains_key(session_id) && entry.channel_id is None
                && entry.state.cancel_counter == counter;
            let closes = process.init is Complete
                && process.init->Complete_0.capabilities.supports_session_close;
            let params = Some(
                JsonView::Obj(
                    Map::<Seq<char>, JsonView>::empty().insert("sessionId"@, JsonView::Str(session_id)),
                ),
            );
            &&& !waits ==> after == process && effects.len() == 0
            &&& waits && closes ==> {
                &&& only_send(
                    effects,
                    process,
                    MessageView::Request(
                        RequestView {
                            jsonrpc: "2.0"@,
                            id: JsonView::Number(NumberView::PosInt(process.next_proxy_id)),
                            method: "session/close"@,
                            params,
                        },
                    ),
                )
                &&& after.sessions == process.sessions.remove(session_id)
                &&& after.next_proxy_id == process.next_proxy_id + 1
            }
            &&& waits && !closes ==> {
                &&& only_send(
                    effects,
                    process,
                    MessageView::Notification(
                        NotificationView { jsonrpc: "2.0"@, method: "session/cancel"@, params },
                    ),
                )
                &&& after.sessions == process.sessions.insert(
                    session_id,
                    EntryView {
                        state: SessionView { cancelled: true, ..entry.state },
                        channel_id: None,
                    },
                )
                &&& after.next_proxy_id == process.next_proxy_id
            }
            &&& same_otherwise(process, after)
            &&& after.inflight == process.inflight
        }),
{
}

/// A session that an agent made after its process was given up: the answer goes to the client that
/// asked, and the process that runs now keeps the session.
pub proof fn lemma_made_elsewhere(process: ProcessView, senders: Senders, response: ResponseView, session_id: Seq<char>)
    requires
        ({
            let key = json::id_text(response.id);
            &&& process.inflight.contains_key(key)
            &&& process.inflight[key].pending == Some(PendingView::SessionNew)
                || process.inflight[key].pending == Some(PendingView::SessionFork)
        }),
        response.result is Some,
        acp_session::new_session_of(response.result->0) == Some(session_id),
        !acp::is_current(process.init, response.id),
    ensures
        ({
            let key = json::id_text(response.id);
            let asked = process.inflight[key];
            let message = MessageView::Response(response);
            let (after, effects) = proxy::from_retired(process, senders, message);
            &&& proxy::made_elsewhere(process, message) == Some((session_id, asked.channel_id))
            &&& senders.contains_key(asked.channel_id) ==> after.sessions == process.sessions && effects
                == seq![
                push_on(
                    senders,
                    asked.channel_id,
                    "jsonrpc"@,
                    jsonrpc::message_json(
                        MessageView::Response(
                            ResponseView {
                                jsonrpc: response.jsonrpc,
                                id: asked.client_id,
                                result: response.result,
                                error: response.error,
                            },
                        ),
                    ),
                ),
            ]
        }),
{
}

/// Everything else that a process says after it was given up is handled as before.
pub proof fn lemma_retired_speaks_as_before(process: ProcessView, senders: Senders, message: MessageView)
    requires
        match message {
            MessageView::Response(response) => {
                let key = json::id_text(response.id);
                ||| !process.inflight.contains_key(key)
                ||| process.inflight[key].pending != Some(PendingView::SessionNew)
                    && process.inflight[key].pending != Some(PendingView::SessionFork)
                ||| response.result is None
                ||| acp_session::new_session_of(response.result->0) is None
            },
            _ => true,
        },
    ensures
        proxy::made_elsewhere(process, message) is None,
        proxy::from_retired(process, senders, message) == proxy::from_process(process, senders, message),
{
}

// ---------------------------------------------------------------------------
// What the calls do
// ---------------------------------------------------------------------------

/// Handing in a client's response, or a notification that is no acknowledgement, writes exactly that
/// message to the agent and leaves the state as it was. Where the agent cannot be written to, nothing
/// is written and the error says why.
pub proof fn lemma_client_message_call(
    process: &mut ProcessState,
    senders: &Registry<ChannelSender>,
    channel_id: &str,
    message: JsonRpcMessage,
    out: &mut Vec<Effect>,
    r: Result<Handled, AcpError>,
)
    requires
        call_ensures(proxy::handle_client_message, (process, senders, channel_id, message, out), r),
    ensures
        ({
            let before = old(process)@;
            let written = proxy::effects_view(final(out)@);
            let earlier = proxy::effects_view(old(out)@);
            let as_it_is = match message@ {
                MessageView::Response(_) => true,
                MessageView::Notification(notification) => notification.method != "_tidewave.ai/ack"@,
                MessageView::Request(_) => false,
            };
            as_it_is ==> {
                &&& final(process)@ == before
                &&& before.stdin == Stdin::Open ==> written == earlier.push(
                    EffectView::Send { generation: before.generation, message: message@ },
                ) && r is Ok && r->Ok_0 is Done
                &&& before.stdin == Stdin::Missing ==> written == earlier && r is Err && r->Err_0
                    is StdinUnavailable
                &&& before.stdin == Stdin::Closed ==> written == earlier && r is Err && r->Err_0
                    is StdinClosed
            }
        }),
{
    let before = old(process)@;
    let written = proxy::effects_view(final(out)@);
    let earlier = proxy::effects_view(old(out)@);
    let effect = EffectView::Send { generation: before.generation, message: message@ };
    assert(earlier + seq![effect] =~= earlier.push(effect));
    assert(earlier + Seq::<EffectView>::empty() =~= earlier);
}

/// Handing in a client's request writes at most one message, to the client's own agent. A request that
/// the proxy does not take itself is written with its version, its method and its parameters, under the
/// next number, and succeeds.
pub proof fn lemma_client_request_call(
    process: &mut ProcessState,
    senders: &Registry<ChannelSender>,
    channel_id: &str,
    message: JsonRpcMessage,
    out: &mut Vec<Effect>,
    r: Result<Handled, AcpError>,
)
    requires
        call_ensures(proxy::handle_client_message, (process, senders, channel_id, message, out), r),
        message@ is Request,
    ensures
        ({
            let before = old(process)@;
            let request = message@->Request_0;
            let written = proxy::effects_view(final(out)@);
            let earlier = proxy::effects_view(old(out)@);
            let taken = request.method == "initialize"@ || request.method == "_tidewave.ai/session/load"@
                || request.method == "session/load"@ || request.method == "session/resume"@;
            &&& !taken && before.stdin == Stdin::Open ==> written == earlier.push(
                EffectView::Send {
                    generation: before.generation,
                    message: MessageView::Request(
                        RequestView {
                            jsonrpc: request.jsonrpc,
                            id: JsonView::Number(NumberView::PosInt(before.next_proxy_id)),
                            method: request.method,
                            params: request.params,
                        },
                    ),
                },
            )
            &&& !taken ==> r is Ok && r->Ok_0 is Done
            &&& r is Ok && r->Ok_0 is AwaitInit <==> request.method == "initialize"@ && before.init
                is InFlight
            &&& r is Err <==> request.method == "_tidewave.ai/session/load"@
                && acp_session::session_and_latest(request.params) is None
            &&& r is Err ==> r->Err_0 is InvalidParams
        }),
{
    proxy::lemma_methods_differ();
    let before = old(process)@;
    let earlier = proxy::effects_view(old(out)@);
    let request = message@->Request_0;
    let effect = EffectView::Send {
        generation: before.generation,
        message: MessageView::Request(
            RequestView {
                jsonrpc: request.jsonrpc,
                id: JsonView::Number(NumberView::PosInt(before.next_proxy_id)),
                method: request.method,
                params: request.params,
            },
        ),
    };
    assert(earlier + seq![effect] =~= earlier.push(effect));
}

/// Handing in a message of an agent does what the laws of messages from agents say, whatever it is.
pub proof fn lemma_agent_message_call(
    process: &mut ProcessState,
    senders: &Registry<ChannelSender>,
    message: JsonRpcMessage,
    out: &mut Vec<Effect>,
)
    requires
        call_ensures(proxy::handle_process_message, (process, senders, message, out), ()),
    ensures
        final(process)@ == proxy::from_process(
            old(process)@,
            registry::viewed(senders@),
            message@,
        ).0,
        proxy::effects_view(final(out)@) == proxy::effects_view(old(out)@) + proxy::from_process(
            old(process)@,
            registry::viewed(senders@),
            message@,
        ).1,
{
}

/// The effects of a call are what they say: a push on a channel, a message for an agent, and an agent
/// that is to be stopped.
pub proof fn lemma_effects(
    channel_id: String,
    phx: crate::phoenix::PhxMessage,
    generation: u64,
    message: JsonRpcMessage,
)
    ensures
        (Effect::Push { channel_id, phx })@ == (EffectView::Push { channel_id: channel_id@, phx: phx@ }),
        (Effect::Send { generation, message })@ == (EffectView::Send { generation, message: message@ }),
        (Effect::Stop { generation })@ == (EffectView::Stop { generation }),
{
}

} // verus!
