//! What the proxy does with the messages of clients and agents.
//!
//! For each kind of message a spec function gives the next state of the agent process and the
//! effects; the executable function beside it does the same.

use vstd::prelude::*;

use crate::acp_relay;
use crate::acp_session;
use crate::acp_session::{
    BufferedView, ChannelId, ExitView, NewSessionResponse, ProcessKey, SessionState, SessionView,
    TidewaveAckNotification, TidewaveExitParams, TidewaveSessionLoadRequest,
    TidewaveSessionLoadResponse,
};
use crate::json;
use crate::json::{Json, JsonView};
use crate::jsonrpc;
use crate::jsonrpc::{
    ErrorView, JsonRpcError, JsonRpcMessage, JsonRpcNotification, JsonRpcRequest, JsonRpcResponse,
    MessageView, NotificationView, RequestView, ResponseView,
};
use crate::phoenix::{PhxMessage, PhxView};
use crate::registry;
use crate::registry::Registry;
use crate::text;
use crate::ws::acp;
use crate::ws::acp::process;
use crate::ws::acp::process::{ProcessState, ProcessView, Stdin};
use crate::ws::acp::{
    AgentCapabilities, BeginInit, CompleteView, EntryView, InflightView, InitState, InitStateView,
    PendingRequest, PendingView,
};
use crate::ws::{ChannelSender, SenderView};

verus! {

broadcast use crate::registry::group_viewed;

/// Something to be done.
#[derive(Debug)]
pub enum Effect {
    /// Push a message to the client of a channel.
    Push { channel_id: ChannelId, phx: PhxMessage },
    /// Send a message to the agent of this generation.
    Send { generation: u64, message: JsonRpcMessage },
    /// Stop the agent of this generation.
    Stop { generation: u64 },
}

/// The model of an [`Effect`].
pub enum EffectView {
    Push { channel_id: Seq<char>, phx: PhxView },
    Send { generation: u64, message: MessageView },
    Stop { generation: u64 },
}

impl View for Effect {
    type V = EffectView;

    open spec fn view(&self) -> EffectView {
        match self {
            Effect::Push { channel_id, phx } => EffectView::Push { channel_id: channel_id@, phx: phx@ },
            Effect::Send { generation, message } => EffectView::Send {
                generation: *generation,
                message: message@,
            },
            Effect::Stop { generation } => EffectView::Stop { generation: *generation },
        }
    }
}

/// The models of a list of effects.
pub open spec fn effects_view(effects: Seq<Effect>) -> Seq<EffectView> {
    effects.map_values(|e: Effect| e@)
}

/// The error code for a session that nobody has heard of.
pub const SESSION_NOT_FOUND: i32 = -32002;

/// The error code for a session that belongs to a channel already.
pub const SESSION_ALREADY_ACTIVE: i32 = -32003;

/// Why a message was not handled.
#[derive(Debug)]
pub enum AcpError {
    /// No process runs under this key.
    ProcessNotFound { process_key: ProcessKey },
    /// The parameters are not those of the method.
    InvalidParams,
    /// The process was not started.
    StdinUnavailable,
    /// Writing to the process has failed.
    StdinClosed,
}

/// The clients that are connected, by channel.
pub type Senders = Map<Seq<char>, SenderView>;

// ---------------------------------------------------------------------------
// Pushing and sending
// ---------------------------------------------------------------------------

/// The effect of pushing an event to a channel: none where the channel is not connected.
pub open spec fn push_to(senders: Senders, channel_id: Seq<char>, event: Seq<char>, payload: JsonView) -> Seq<
    EffectView,
> {
    if senders.contains_key(channel_id) {
        seq![EffectView::Push { channel_id, phx: senders[channel_id].push(event, payload) }]
    } else {
        seq![]
    }
}

/// The effect of pushing a JSON-RPC message to a channel.
pub open spec fn jsonrpc_to(senders: Senders, channel_id: Seq<char>, message: MessageView) -> Seq<EffectView> {
    push_to(senders, channel_id, "jsonrpc"@, jsonrpc::message_json(message))
}

/// The effect of telling a channel that its agent has ended.
pub open spec fn exit_to(senders: Senders, channel_id: Seq<char>, exit: ExitView) -> Seq<EffectView> {
    push_to(senders, channel_id, "agent_exit"@, acp_session::exit_json(exit))
}

/// An exit without output.
pub open spec fn bare_exit(error: Seq<char>, message: Seq<char>) -> ExitView {
    ExitView { error, message, stdout: None, stderr: None }
}

/// The response that reports an error.
pub open spec fn error_response(id: JsonView, code: i32, message: Seq<char>) -> MessageView {
    MessageView::Response(
        ResponseView {
            jsonrpc: jsonrpc::JSONRPC_VERSION@,
            id,
            result: None,
            error: Some(ErrorView { code, message, data: None }),
        },
    )
}

/// The effect of sending a message to an agent: none where it cannot be written to.
pub open spec fn sent(process: ProcessView, message: MessageView) -> Seq<EffectView> {
    if process.stdin == Stdin::Open {
        seq![EffectView::Send { generation: process.generation, message }]
    } else {
        seq![]
    }
}

fn push_event(
    senders: &Registry<ChannelSender>,
    channel_id: &str,
    event: &str,
    payload: Json,
    out: &mut Vec<Effect>,
) -> (r: bool)
    requires
        senders.wf(),
    ensures
        r == registry::viewed(senders@).contains_key(channel_id@),
        effects_view(final(out)@) == effects_view(old(out)@) + push_to(
            registry::viewed(senders@),
            channel_id@,
            event@,
            payload@,
        ),
{
    match senders.get(channel_id) {
        Some(sender) => {
            out.push(
                Effect::Push { channel_id: channel_id.to_owned(), phx: sender.push(event, payload) },
            );
            assert(effects_view(out@) =~= effects_view(old(out)@) + push_to(
                registry::viewed(senders@),
                channel_id@,
                event@,
                payload@,
            ));
            true
        },
        None => {
            assert(effects_view(out@) =~= effects_view(old(out)@) + push_to(
                registry::viewed(senders@),
                channel_id@,
                event@,
                payload@,
            ));
            false
        },
    }
}

/// Pushes a JSON-RPC message to a channel, where it is connected.
pub fn send_to_channel(
    senders: &Registry<ChannelSender>,
    channel_id: &str,
    message: &JsonRpcMessage,
    out: &mut Vec<Effect>,
) -> (r: bool)
    requires
        senders.wf(),
    ensures
        r == registry::viewed(senders@).contains_key(channel_id@),
        effects_view(final(out)@) == effects_view(old(out)@) + jsonrpc_to(
            registry::viewed(senders@),
            channel_id@,
            message@,
        ),
{
    push_event(senders, channel_id, "jsonrpc", message.to_json(), out)
}

/// Answers a request with an error.
pub fn send_error_response(
    senders: &Registry<ChannelSender>,
    channel_id: &str,
    request_id: &Json,
    code: i32,
    message: &str,
    out: &mut Vec<Effect>,
)
    requires
        senders.wf(),
    ensures
        effects_view(final(out)@) == effects_view(old(out)@) + jsonrpc_to(
            registry::viewed(senders@),
            channel_id@,
            error_response(request_id@, code, message@),
        ),
{
    let response = JsonRpcResponse {
        jsonrpc: jsonrpc::JSONRPC_VERSION.to_owned(),
        id: request_id.clone(),
        result: None,
        error: Some(JsonRpcError { code, message: message.to_owned(), data: None }),
    };
    let _ = send_to_channel(senders, channel_id, &JsonRpcMessage::Response(response), out);
}

/// Tells a channel that its agent has ended.
pub fn send_agent_exit(
    senders: &Registry<ChannelSender>,
    channel_id: &str,
    exit: &TidewaveExitParams,
    out: &mut Vec<Effect>,
)
    requires
        senders.wf(),
    ensures
        effects_view(final(out)@) == effects_view(old(out)@) + exit_to(
            registry::viewed(senders@),
            channel_id@,
            exit@,
        ),
{
    let _ = push_event(senders, channel_id, "agent_exit", exit.to_json(), out);
}

fn exit_without_output(error: &str, message: &str) -> (r: TidewaveExitParams)
    ensures
        r@ == bare_exit(error@, message@),
{
    TidewaveExitParams {
        error: error.to_owned(),
        message: message.to_owned(),
        stdout: None,
        stderr: None,
    }
}

/// Sends a message to an agent.
pub fn send_to_process(process: &ProcessState, message: JsonRpcMessage, out: &mut Vec<Effect>) -> (r: Result<
    (),
    AcpError,
>)
    ensures
        r is Ok == (process@.stdin == Stdin::Open),
        process@.stdin == Stdin::Missing ==> r is Err && r->Err_0 is StdinUnavailable,
        process@.stdin == Stdin::Closed ==> r is Err && r->Err_0 is StdinClosed,
        effects_view(final(out)@) == effects_view(old(out)@) + sent(process@, message@),
{
    match process.stdin {
        Stdin::Open => {
            out.push(Effect::Send { generation: process.generation, message });
            assert(effects_view(out@) =~= effects_view(old(out)@) + sent(process@, message@));
            Ok(())
        },
        Stdin::Missing => {
            assert(effects_view(out@) =~= effects_view(old(out)@) + sent(process@, message@));
            Err(AcpError::StdinUnavailable)
        },
        Stdin::Closed => {
            assert(effects_view(out@) =~= effects_view(old(out)@) + sent(process@, message@));
            Err(AcpError::StdinClosed)
        },
    }
}

// ---------------------------------------------------------------------------
// Requests of clients
// ---------------------------------------------------------------------------

/// The identity that the next request gets.
pub open spec fn next_id(process: ProcessView) -> JsonView {
    json::uint_json(process.next_proxy_id)
}

/// Forwarding a request: it is noted under a fresh identity, which it carries to the agent.
pub open spec fn forwarded(
    process: ProcessView,
    channel_id: Seq<char>,
    request: RequestView,
    pending: Option<PendingView>,
) -> (ProcessView, Seq<EffectView>) {
    let after = ProcessView {
        next_proxy_id: acp_session::next_count(process.next_proxy_id),
        inflight: process.inflight.insert(
            text::decimal(process.next_proxy_id as nat),
            InflightView {
                channel_id,
                client_id: request.id,
                session_id: acp_session::session_id_of(request.params),
                pending,
            },
        ),
        ..process
    };
    (after, sent(process, MessageView::Request(RequestView { id: next_id(process), ..request })))
}

/// Forwards a request to the agent.
pub fn forward_request_to_process(
    process: &mut ProcessState,
    channel_id: &str,
    request: &JsonRpcRequest,
    pending: Option<PendingRequest>,
    out: &mut Vec<Effect>,
)
    requires
        old(process).wf(),
    ensures
        final(process).wf(),
        final(process)@ == forwarded(old(process)@, channel_id@, request@, acp::opt_pending(pending)).0,
        effects_view(final(out)@) == effects_view(old(out)@) + forwarded(
            old(process)@,
            channel_id@,
            request@,
            acp::opt_pending(pending),
        ).1,
{
    let session_id = acp_session::extract_session_id_from_request(request);
    let proxy_id = process.map_client_id_to_proxy(
        channel_id.to_owned(),
        request.id.clone(),
        session_id,
        pending,
    );
    let mut proxy_request = request.clone();
    proxy_request.id = proxy_id;
    let _ = send_to_process(process, JsonRpcMessage::Request(proxy_request), out);
}

/// What a request that is forwarded as it is changes once it is answered.
pub open spec fn pending_of(request: RequestView) -> Option<PendingView> {
    let session_id = acp_session::session_id_of(request.params);
    if request.method == "session/new"@ {
        Some(PendingView::SessionNew)
    } else if request.method == "session/fork"@ {
        Some(PendingView::SessionFork)
    } else {
        match session_id {
            Some(session_id) => if request.method == "session/load"@ {
                Some(PendingView::SessionLoad { session_id, created_session: false })
            } else if request.method == "session/resume"@ {
                Some(PendingView::SessionResume { session_id, created_session: false })
            } else if request.method == "session/close"@ {
                Some(PendingView::SessionClose { session_id })
            } else {
                None
            },
            None => None,
        }
    }
}

/// Forwards a request that needs no more than a fresh identity.
pub fn handle_regular_request(
    process: &mut ProcessState,
    channel_id: &str,
    request: &JsonRpcRequest,
    out: &mut Vec<Effect>,
)
    requires
        old(process).wf(),
    ensures
        final(process).wf(),
        final(process)@ == forwarded(old(process)@, channel_id@, request@, pending_of(request@)).0,
        effects_view(final(out)@) == effects_view(old(out)@) + forwarded(
            old(process)@,
            channel_id@,
            request@,
            pending_of(request@),
        ).1,
{
    let method = request.method.as_str();
    let session_id = acp_session::extract_session_id_from_request(request);
    let pending = if text::same_text(method, "session/new") {
        Some(PendingRequest::SessionNew)
    } else if text::same_text(method, "session/fork") {
        Some(PendingRequest::SessionFork)
    } else {
        match session_id {
            Some(session_id) => if text::same_text(method, "session/load") {
                Some(PendingRequest::SessionLoad { session_id, created_session: false })
            } else if text::same_text(method, "session/resume") {
                Some(PendingRequest::SessionResume { session_id, created_session: false })
            } else if text::same_text(method, "session/close") {
                Some(PendingRequest::SessionClose { session_id })
            } else {
                None
            },
            None => None,
        }
    };
    forward_request_to_process(process, channel_id, request, pending, out);
}

/// `initialize`: the first client's request goes to the agent, later clients get the cached
/// answer, and those in between have to wait.
pub open spec fn initialized(
    process: ProcessView,
    senders: Senders,
    channel_id: Seq<char>,
    request: RequestView,
) -> (ProcessView, Seq<EffectView>) {
    let taken = ProcessView { next_proxy_id: acp_session::next_count(process.next_proxy_id), ..process };
    match process.init {
        InitStateView::Complete(init) => (
            taken,
            jsonrpc_to(
                senders,
                channel_id,
                MessageView::Response(ResponseView { id: request.id, ..init.response }),
            ),
        ),
        InitStateView::Failed => (
            taken,
            exit_to(senders, channel_id, bare_exit("init_error"@, "Process init failed"@)),
        ),
        InitStateView::InFlight(_) => (taken, seq![]),
        InitStateView::NotStarted => {
            let (noted, effects) = forwarded(process, channel_id, request, None);
            if process.stdin == Stdin::Open {
                (ProcessView { init: InitStateView::InFlight(next_id(process)), ..noted }, effects)
            } else {
                (
                    ProcessView { init: InitStateView::Failed, ..noted },
                    exit_to(
                        senders,
                        channel_id,
                        bare_exit("communication_error"@, "Failed to communicate with process"@),
                    ),
                )
            }
        },
    }
}

/// Handles `initialize`. The result says whether the client has to wait for the answer to another
/// client's request (see [`finish_initialize`]).
pub fn handle_initialize_request(
    process: &mut ProcessState,
    senders: &Registry<ChannelSender>,
    channel_id: &str,
    request: &JsonRpcRequest,
    out: &mut Vec<Effect>,
) -> (waits: bool)
    requires
        old(process).wf(),
        senders.wf(),
    ensures
        final(process).wf(),
        waits == (old(process)@.init is InFlight),
        final(process)@ == initialized(
            old(process)@,
            registry::viewed(senders@),
            channel_id@,
            request@,
        ).0,
        effects_view(final(out)@) == effects_view(old(out)@) + initialized(
            old(process)@,
            registry::viewed(senders@),
            channel_id@,
            request@,
        ).1,
{
    let proxy_id = process.generate_proxy_id();
    match process.init_state.begin(proxy_id.clone()) {
        BeginInit::Complete(cached) => {
            let mut response = cached.response;
            response.id = request.id.clone();
            let _ = send_to_channel(senders, channel_id, &JsonRpcMessage::Response(response), out);
            false
        },
        BeginInit::Failed => {
            send_agent_exit(
                senders,
                channel_id,
                &exit_without_output("init_error", "Process init failed"),
                out,
            );
            false
        },
        BeginInit::Start => {
            let session_id = acp_session::extract_session_id_from_request(request);
            process.register_inflight_request(
                proxy_id.clone(),
                channel_id.to_owned(),
                request.id.clone(),
                session_id,
                None,
            );
            let mut proxy_request = request.clone();
            proxy_request.id = proxy_id;
            match send_to_process(process, JsonRpcMessage::Request(proxy_request), out) {
                Ok(()) => {},
                Err(_) => {
                    process.init_state.fail();
                    assert(effects_view(out@) =~= effects_view(old(out)@));
                    send_agent_exit(
                        senders,
                        channel_id,
                        &exit_without_output("communication_error", "Failed to communicate with process"),
                        out,
                    );
                },
            }
            false
        },
        BeginInit::Wait => {
            assert(effects_view(out@) =~= effects_view(old(out)@) + seq![]);
            true
        },
    }
}

/// The end of a wait for the answer to `initialize`: the cached answer, or the news that the
/// initialization failed. `None` while the wait goes on.
pub open spec fn wait_finished(
    init: InitStateView,
    senders: Senders,
    channel_id: Seq<char>,
    request_id: JsonView,
) -> Option<Seq<EffectView>> {
    match init {
        InitStateView::Complete(init) => Some(
            jsonrpc_to(
                senders,
                channel_id,
                MessageView::Response(ResponseView { id: request_id, ..init.response }),
            ),
        ),
        InitStateView::Failed => Some(
            exit_to(senders, channel_id, bare_exit("init_error"@, "Process init failed"@)),
        ),
        _ => None,
    }
}

/// Ends a wait for the answer to `initialize`, where it is over. The result says whether it is.
pub fn finish_initialize(
    init: &InitState,
    senders: &Registry<ChannelSender>,
    channel_id: &str,
    request_id: &Json,
    out: &mut Vec<Effect>,
) -> (finished: bool)
    requires
        senders.wf(),
    ensures
        match wait_finished(init@, registry::viewed(senders@), channel_id@, request_id@) {
            Some(effects) => finished && effects_view(final(out)@) == effects_view(old(out)@) + effects,
            None => !finished && final(out)@ == old(out)@,
        },
{
    match init.wait_for_completion() {
        Some(Some(cached)) => {
            let mut response = cached.response;
            response.id = request_id.clone();
            let _ = send_to_channel(senders, channel_id, &JsonRpcMessage::Response(response), out);
            true
        },
        Some(None) => {
            send_agent_exit(
                senders,
                channel_id,
                &exit_without_output("init_error", "Process init failed"),
                out,
            );
            true
        },
        None => false,
    }
}

/// The answer to a request for a session that nobody has heard of.
pub open spec fn not_found(senders: Senders, channel_id: Seq<char>, id: JsonView) -> Seq<EffectView> {
    jsonrpc_to(senders, channel_id, error_response(id, SESSION_NOT_FOUND, "Session not found"@))
}

/// The answer to a request for a session that belongs to a channel already.
pub open spec fn already_active(senders: Senders, channel_id: Seq<char>, id: JsonView) -> Seq<EffectView> {
    jsonrpc_to(
        senders,
        channel_id,
        error_response(id, SESSION_ALREADY_ACTIVE, "Session already has an active connection"@),
    )
}

/// The pushes of buffered messages to a channel, in their order.
pub open spec fn replayed(sender: SenderView, channel_id: Seq<char>, buffer: Seq<BufferedView>) -> Seq<
    EffectView,
> {
    buffer.map_values(
        |m: BufferedView|
            EffectView::Push {
                channel_id,
                phx: sender.push("jsonrpc"@, jsonrpc::message_json(m.message)),
            },
    )
}

/// `_tidewave.ai/session/load` of a session with the client's latest message: the session becomes
/// the channel's, which gets the messages after that one and then the response. The load counts
/// even where it is refused, so that a pending stop of the session is called off.
pub open spec fn reconnected(
    process: ProcessView,
    senders: Senders,
    channel_id: Seq<char>,
    request: RequestView,
    session_id: Seq<char>,
    latest_id: Seq<char>,
) -> (ProcessView, Seq<EffectView>) {
    if !process.sessions.contains_key(session_id) {
        (process, not_found(senders, channel_id, request.id))
    } else {
        let entry = process.sessions[session_id];
        let counted = SessionView {
            cancel_counter: acp_session::next_count(entry.state.cancel_counter),
            ..entry.state
        };
        if entry.channel_id is Some {
            (
                ProcessView {
                    sessions: process.sessions.insert(session_id, EntryView { state: counted, ..entry }),
                    ..process
                },
                already_active(senders, channel_id, request.id),
            )
        } else {
            let revived = SessionView { cancelled: false, ..counted };
            let new_owner = if senders.contains_key(channel_id) {
                Some(channel_id)
            } else {
                None
            };
            let after = ProcessView {
                sessions: process.sessions.insert(
                    session_id,
                    EntryView { state: revived, channel_id: new_owner },
                ),
                ..process
            };
            if senders.contains_key(channel_id) {
                (
                    after,
                    replayed(
                        senders[channel_id],
                        channel_id,
                        acp_session::messages_after(entry.state.buffer, latest_id),
                    ) + jsonrpc_to(
                        senders,
                        channel_id,
                        MessageView::Response(
                            ResponseView {
                                jsonrpc: jsonrpc::JSONRPC_VERSION@,
                                id: request.id,
                                result: Some(acp_session::load_result_json(entry.state.cancelled)),
                                error: None,
                            },
                        ),
                    ),
                )
            } else {
                (after, seq![])
            }
        }
    }
}

fn replay(
    senders: &Registry<ChannelSender>,
    channel_id: &str,
    messages: Vec<acp_session::BufferedMessage>,
    out: &mut Vec<Effect>,
)
    requires
        senders.wf(),
        registry::viewed(senders@).contains_key(channel_id@),
    ensures
        effects_view(final(out)@) == effects_view(old(out)@) + replayed(
            registry::viewed(senders@)[channel_id@],
            channel_id@,
            acp_session::buffer_view(messages@),
        ),
{
    let ghost sender = registry::viewed(senders@)[channel_id@];
    let ghost all = acp_session::buffer_view(messages@);
    let mut i: usize = 0;
    assert(effects_view(out@) =~= effects_view(old(out)@) + replayed(sender, channel_id@, all.take(0)));
    while i < messages.len()
        invariant
            senders.wf(),
            registry::viewed(senders@).contains_key(channel_id@),
            sender == registry::viewed(senders@)[channel_id@],
            all == acp_session::buffer_view(messages@),
            i <= messages.len(),
            effects_view(out@) == effects_view(old(out)@) + replayed(
                sender,
                channel_id@,
                all.take(i as int),
            ),
        decreases messages.len() - i,
    {
        let ghost before = effects_view(out@);
        let _ = send_to_channel(senders, channel_id, &messages[i].message, out);
        proof {
            assert(all.take(i + 1) =~= all.take(i as int).push(messages@[i as int]@));
            assert(effects_view(out@) =~= effects_view(old(out)@) + replayed(
                sender,
                channel_id@,
                all.take(i + 1),
            ));
        }
        i = i + 1;
    }
    assert(all.take(all.len() as int) =~= all);
}

/// Handles `_tidewave.ai/session/load`.
pub fn handle_tidewave_session_load(
    process: &mut ProcessState,
    senders: &Registry<ChannelSender>,
    channel_id: &str,
    request: &JsonRpcRequest,
    out: &mut Vec<Effect>,
) -> (r: Result<(), AcpError>)
    requires
        old(process).wf(),
        senders.wf(),
    ensures
        final(process).wf(),
        match acp_session::session_and_latest(request@.params) {
            Some((session_id, latest_id)) => {
                let (after, effects) = reconnected(
                    old(process)@,
                    registry::viewed(senders@),
                    channel_id@,
                    request@,
                    session_id,
                    latest_id,
                );
                &&& r is Ok
                &&& final(process)@ == after
                &&& effects_view(final(out)@) == effects_view(old(out)@) + effects
            },
            None => {
                &&& r is Err && r->Err_0 is InvalidParams
                &&& final(process)@ == old(process)@
                &&& final(out)@ == old(out)@
            },
        },
{
    let params = match TidewaveSessionLoadRequest::from_params(&request.params) {
        Some(p) => p,
        None => {
            return Err(AcpError::InvalidParams);
        },
    };
    let ghost before = process@;
    let connected = senders.contains_key(channel_id);
    match process.sessions.get_mut(params.session_id.as_str()) {
        None => {
            send_error_response(senders, channel_id, &request.id, SESSION_NOT_FOUND, "Session not found", out);
        },
        Some(entry) => {
            let ghost old_entry = entry@;
            entry.state.cancel_counter = entry.state.cancel_counter.wrapping_add(1);
            if entry.channel_id.is_some() {
                send_error_response(
                    senders,
                    channel_id,
                    &request.id,
                    SESSION_ALREADY_ACTIVE,
                    "Session already has an active connection",
                    out,
                );
            } else {
                let was_cancelled = entry.state.cancelled;
                entry.state.cancelled = false;
                if connected {
                    let missed = SessionState::get_buffered_messages_after(
                        entry.state.message_buffer.as_slice(),
                        params.latest_id.as_str(),
                    );
                    entry.channel_id = Some(channel_id.to_owned());
                    replay(senders, channel_id, missed, out);
                    let response = JsonRpcResponse {
                        jsonrpc: jsonrpc::JSONRPC_VERSION.to_owned(),
                        id: request.id.clone(),
                        result: Some(TidewaveSessionLoadResponse { cancelled: was_cancelled }.to_json()),
                        error: None,
                    };
                    let ghost caught_up = effects_view(out@);
                    let _ = send_to_channel(
                        senders,
                        channel_id,
                        &JsonRpcMessage::Response(response),
                        out,
                    );
                    assert(effects_view(out@) =~= effects_view(old(out)@) + reconnected(
                        before,
                        registry::viewed(senders@),
                        channel_id@,
                        request@,
                        params.session_id@,
                        params.latest_id@,
                    ).1);
                } else {
                    assert(effects_view(out@) =~= effects_view(old(out)@) + seq![]);
                }
            }
        },
    }
    Ok(())
}

/// `session/load` and `session/resume`: the session becomes the channel's before the request goes
/// to the agent, so that messages that the agent sends meanwhile find their way.
pub open spec fn claimed(
    process: ProcessView,
    senders: Senders,
    channel_id: Seq<char>,
    request: RequestView,
) -> (ProcessView, Seq<EffectView>) {
    match acp_session::session_id_of(request.params) {
        Some(session_id) => {
            if process::owner(process.sessions, session_id) is Some {
                (process, already_active(senders, channel_id, request.id))
            } else {
                let created_session = !process.sessions.contains_key(session_id);
                let sessions = if created_session {
                    process.sessions.insert(
                        session_id,
                        EntryView {
                            state: acp_session::new_session(process.key),
                            channel_id: Some(channel_id),
                        },
                    )
                } else {
                    process::with_owner(process.sessions, session_id, Some(channel_id))
                };
                let pending = if request.method == "session/load"@ {
                    Some(PendingView::SessionLoad { session_id, created_session })
                } else if request.method == "session/resume"@ {
                    Some(PendingView::SessionResume { session_id, created_session })
                } else {
                    None
                };
                forwarded(ProcessView { sessions, ..process }, channel_id, request, pending)
            }
        },
        None => forwarded(process, channel_id, request, pending_of(request)),
    }
}

/// Handles `session/load` and `session/resume`.
pub fn handle_acp_session_load_or_resume(
    process: &mut ProcessState,
    senders: &Registry<ChannelSender>,
    channel_id: &str,
    request: &JsonRpcRequest,
    out: &mut Vec<Effect>,
)
    requires
        old(process).wf(),
        senders.wf(),
    ensures
        final(process).wf(),
        final(process)@ == claimed(
            old(process)@,
            registry::viewed(senders@),
            channel_id@,
            request@,
        ).0,
        effects_view(final(out)@) == effects_view(old(out)@) + claimed(
            old(process)@,
            registry::viewed(senders@),
            channel_id@,
            request@,
        ).1,
{
    match acp_session::extract_session_id_from_request(request) {
        Some(session_id) => {
            let key = process.key.clone();
            match process.claim_or_insert_session_channel(session_id.clone(), channel_id.to_owned(), &key) {
                Ok(created_session) => {
                    let pending = if text::same_text(request.method.as_str(), "session/load") {
                        Some(PendingRequest::SessionLoad { session_id, created_session })
                    } else if text::same_text(request.method.as_str(), "session/resume") {
                        Some(PendingRequest::SessionResume { session_id, created_session })
                    } else {
                        None
                    };
                    forward_request_to_process(process, channel_id, request, pending, out);
                },
                Err(()) => {
                    send_error_response(
                        senders,
                        channel_id,
                        &request.id,
                        SESSION_ALREADY_ACTIVE,
                        "Session already has an active connection",
                        out,
                    );
                },
            }
        },
        None => {
            handle_regular_request(process, channel_id, request, out);
        },
    }
}

// ---------------------------------------------------------------------------
// Notifications and responses of clients
// ---------------------------------------------------------------------------

/// An entry whose owner has processed the messages up to one. Another channel's entry stays as it
/// is, and so does one that does not hold that message.
pub open spec fn acknowledged_entry(entry: EntryView, channel_id: Seq<char>, latest_id: Seq<char>) -> EntryView {
    if entry.channel_id == Some(channel_id) {
        EntryView { state: acp_session::pruned(entry.state, latest_id), ..entry }
    } else {
        entry
    }
}

/// `_tidewave.ai/ack`: messages that the owner of a session has processed are dropped. Where no
/// session is named, that goes for each session of the channel that holds the message.
pub open spec fn acknowledged(
    process: ProcessView,
    channel_id: Seq<char>,
    session_id: Option<Seq<char>>,
    latest_id: Seq<char>,
) -> ProcessView {
    let sessions = match session_id {
        Some(session_id) => if process.sessions.contains_key(session_id) {
            process.sessions.insert(
                session_id,
                acknowledged_entry(process.sessions[session_id], channel_id, latest_id),
            )
        } else {
            process.sessions
        },
        None => Map::new(
            |id: Seq<char>| process.sessions.contains_key(id),
            |id: Seq<char>| acknowledged_entry(process.sessions[id], channel_id, latest_id),
        ),
    };
    ProcessView { sessions, ..process }
}

fn acknowledge(entry: &mut acp::SessionEntry, channel_id: &str, latest_id: &str)
    ensures
        final(entry)@ == acknowledged_entry(old(entry)@, channel_id@, latest_id@),
{
    let owned = match &entry.channel_id {
        Some(c) => text::same_text(c.as_str(), channel_id),
        None => false,
    };
    if owned {
        entry.state.prune_buffer(latest_id);
    }
}

/// Drops the messages up to one from each session of a channel that holds it.
fn acknowledge_all(process: &mut ProcessState, channel_id: &str, latest_id: &str)
    requires
        old(process).wf(),
    ensures
        final(process).wf(),
        final(process)@ == acknowledged(old(process)@, channel_id@, None, latest_id@),
{
    let ghost before = process@;
    let ghost order = process.sessions.order();
    let mut i: usize = 0;
    proof {
        process.sessions.lemma_order();
    }
    while i < process.sessions.len()
        invariant
            process.wf(),
            before == old(process)@,
            process.sessions.order() == order,
            order.no_duplicates(),
            forall|key: Seq<char>| #[trigger] order.contains(key) <==> before.sessions.contains_key(key),
            process@ == (ProcessView { sessions: process@.sessions, ..before }),
            process@.sessions.dom() =~= before.sessions.dom(),
            forall|k: int|
                0 <= k < i ==> process@.sessions[#[trigger] order[k]] == acknowledged_entry(
                    before.sessions[order[k]],
                    channel_id@,
                    latest_id@,
                ),
            forall|k: int|
                i <= k < order.len() ==> process@.sessions[#[trigger] order[k]] == before.sessions[order[k]],
            i <= order.len(),
        decreases order.len() - i,
    {
        assert(order.contains(order[i as int]));
        let key = process.sessions.key_at(i).clone();
        match process.sessions.get_mut(key.as_str()) {
            Some(entry) => acknowledge(entry, channel_id, latest_id),
            None => {},
        }
        i = i + 1;
    }
    proof {
        let expected = acknowledged(before, channel_id@, None, latest_id@).sessions;
        assert forall|key: Seq<char>| before.sessions.contains_key(key) implies process@.sessions[key]
            == expected[key] by {
            assert(order.contains(key));
            let k = order.index_of(key);
            assert(order[k] == key);
        }
        assert(process@.sessions =~= expected);
    }
}

/// Handles `_tidewave.ai/ack`.
pub fn handle_ack_notification(
    process: &mut ProcessState,
    channel_id: &str,
    notification: &JsonRpcNotification,
) -> (r: Result<(), AcpError>)
    requires
        old(process).wf(),
    ensures
        final(process).wf(),
        match acp_session::ack_of(notification@.params) {
            Some((session_id, latest_id)) => r is Ok && final(process)@ == acknowledged(
                old(process)@,
                channel_id@,
                session_id,
                latest_id,
            ),
            None => r is Err && r->Err_0 is InvalidParams && final(process)@ == old(process)@,
        },
{
    let params = match TidewaveAckNotification::from_params(&notification.params) {
        Some(p) => p,
        None => {
            return Err(AcpError::InvalidParams);
        },
    };
    match params.session_id {
        Some(session_id) => match process.sessions.get_mut(session_id.as_str()) {
            Some(entry) => acknowledge(entry, channel_id, params.latest_id.as_str()),
            None => {},
        },
        None => acknowledge_all(process, channel_id, params.latest_id.as_str()),
    }
    Ok(())
}

/// What a client's message does.
pub open spec fn from_client(
    process: ProcessView,
    senders: Senders,
    channel_id: Seq<char>,
    message: MessageView,
) -> (ProcessView, Seq<EffectView>) {
    match message {
        MessageView::Request(request) => if request.method == "initialize"@ {
            initialized(process, senders, channel_id, request)
        } else if request.method == "_tidewave.ai/session/load"@ {
            match acp_session::session_and_latest(request.params) {
                Some((session_id, latest_id)) => reconnected(
                    process,
                    senders,
                    channel_id,
                    request,
                    session_id,
                    latest_id,
                ),
                None => (process, seq![]),
            }
        } else if request.method == "session/load"@ || request.method == "session/resume"@ {
            claimed(process, senders, channel_id, request)
        } else {
            forwarded(process, channel_id, request, pending_of(request))
        },
        MessageView::Notification(notification) => if notification.method == "_tidewave.ai/ack"@ {
            match acp_session::ack_of(notification.params) {
                Some((session_id, latest_id)) => (
                    acknowledged(process, channel_id, session_id, latest_id),
                    seq![],
                ),
                None => (process, seq![]),
            }
        } else {
            (process, sent(process, message))
        },
        MessageView::Response(_) => (process, sent(process, message)),
    }
}

/// Whether a client's message says which session and which latest message it means, where it has to.
pub open spec fn has_valid_params(message: MessageView) -> bool {
    match message {
        MessageView::Request(request) => request.method == "_tidewave.ai/session/load"@
            ==> acp_session::session_and_latest(request.params) is Some,
        MessageView::Notification(notification) => notification.method == "_tidewave.ai/ack"@
            ==> acp_session::ack_of(notification.params) is Some,
        MessageView::Response(_) => true,
    }
}

/// Whether a client's message goes to the agent as it is.
pub open spec fn is_passed_on(message: MessageView) -> bool {
    match message {
        MessageView::Request(_) => false,
        MessageView::Notification(notification) => notification.method != "_tidewave.ai/ack"@,
        MessageView::Response(_) => true,
    }
}

/// What is left to do after a client's message.
#[derive(Debug, Clone, Copy, PartialEq, Eq, Structural)]
pub enum Handled {
    Done,
    /// The client waits for the answer to another client's `initialize`, which the agent of this
    /// generation gives.
    AwaitInit { generation: u64 },
}

fn handle_client_request(
    process: &mut ProcessState,
    senders: &Registry<ChannelSender>,
    channel_id: &str,
    request: &JsonRpcRequest,
    out: &mut Vec<Effect>,
) -> (r: Result<Handled, AcpError>)
    requires
        old(process).wf(),
        senders.wf(),
    ensures
        final(process).wf(),
        final(process)@ == from_client(
            old(process)@,
            registry::viewed(senders@),
            channel_id@,
            MessageView::Request(request@),
        ).0,
        effects_view(final(out)@) == effects_view(old(out)@) + from_client(
            old(process)@,
            registry::viewed(senders@),
            channel_id@,
            MessageView::Request(request@),
        ).1,
        match r {
            Ok(handled) => {
                &&& has_valid_params(MessageView::Request(request@))
                &&& handled is AwaitInit == (request@.method == "initialize"@
                    && old(process)@.init is InFlight)
                &&& handled is AwaitInit ==> handled->generation == old(process)@.generation
            },
            Err(e) => !has_valid_params(MessageView::Request(request@)) && e is InvalidParams,
        },
{
    proof {
        lemma_methods_differ();
    }
    let method = request.method.as_str();
    if text::same_text(method, "initialize") {
        if handle_initialize_request(process, senders, channel_id, request, out) {
            Ok(Handled::AwaitInit { generation: process.generation })
        } else {
            Ok(Handled::Done)
        }
    } else if text::same_text(method, "_tidewave.ai/session/load") {
        match handle_tidewave_session_load(process, senders, channel_id, request, out) {
            Ok(()) => Ok(Handled::Done),
            Err(e) => {
                assert(effects_view(out@) =~= effects_view(old(out)@) + seq![]);
                Err(e)
            },
        }
    } else if text::same_text(method, "session/load") || text::same_text(method, "session/resume") {
        handle_acp_session_load_or_resume(process, senders, channel_id, request, out);
        Ok(Handled::Done)
    } else {
        handle_regular_request(process, channel_id, request, out);
        Ok(Handled::Done)
    }
}

/// The methods that the proxy intercepts are different texts.
pub proof fn lemma_methods_differ()
    ensures
        "initialize"@ != "_tidewave.ai/session/load"@,
        "initialize"@ != "session/load"@,
        "initialize"@ != "session/resume"@,
        "_tidewave.ai/session/load"@ != "session/load"@,
        "_tidewave.ai/session/load"@ != "session/resume"@,
{
    reveal_strlit("initialize");
    reveal_strlit("_tidewave.ai/session/load");
    reveal_strlit("session/load");
    reveal_strlit("session/resume");
    assert("initialize"@.len() == 10);
    assert("_tidewave.ai/session/load"@.len() == 25);
    assert("session/load"@.len() == 12);
    assert("session/resume"@.len() == 14);
}

/// Handles a message of a client.
pub fn handle_client_message(
    process: &mut ProcessState,
    senders: &Registry<ChannelSender>,
    channel_id: &str,
    message: JsonRpcMessage,
    out: &mut Vec<Effect>,
) -> (r: Result<Handled, AcpError>)
    requires
        old(process).wf(),
        senders.wf(),
    ensures
        final(process).wf(),
        final(process)@ == from_client(
            old(process)@,
            registry::viewed(senders@),
            channel_id@,
            message@,
        ).0,
        effects_view(final(out)@) == effects_view(old(out)@) + from_client(
            old(process)@,
            registry::viewed(senders@),
            channel_id@,
            message@,
        ).1,
        match r {
            Ok(handled) => {
                &&& has_valid_params(message@)
                &&& is_passed_on(message@) ==> old(process)@.stdin == Stdin::Open
                &&& handled is AwaitInit == (message@ is Request
                    && message@->Request_0.method == "initialize"@ && old(process)@.init is InFlight)
                &&& handled is AwaitInit ==> handled->generation == old(process)@.generation
            },
            Err(AcpError::InvalidParams) => !has_valid_params(message@),
            Err(AcpError::StdinUnavailable) => is_passed_on(message@) && old(process)@.stdin
                == Stdin::Missing,
            Err(AcpError::StdinClosed) => is_passed_on(message@) && old(process)@.stdin == Stdin::Closed,
            Err(AcpError::ProcessNotFound { .. }) => false,
        },
{
    match message {
        JsonRpcMessage::Request(request) => handle_client_request(
            process,
            senders,
            channel_id,
            &request,
            out,
        ),
        JsonRpcMessage::Notification(notification) => {
            if text::same_text(notification.method.as_str(), "_tidewave.ai/ack") {
                assert(effects_view(out@) =~= effects_view(old(out)@) + seq![]);
                match handle_ack_notification(process, channel_id, &notification) {
                    Ok(()) => Ok(Handled::Done),
                    Err(e) => Err(e),
                }
            } else {
                match send_to_process(process, JsonRpcMessage::Notification(notification), out) {
                    Ok(()) => Ok(Handled::Done),
                    Err(e) => Err(e),
                }
            }
        },
        JsonRpcMessage::Response(response) => {
            match send_to_process(process, JsonRpcMessage::Response(response), out) {
                Ok(()) => Ok(Handled::Done),
                Err(e) => Err(e),
            }
        },
    }
}

// ---------------------------------------------------------------------------
// Messages of agents
// ---------------------------------------------------------------------------

/// A response to `initialize` that the process waits for completes the initialization and clears
/// the buffered output.
pub open spec fn after_init_response(
    process: ProcessView,
    response: ResponseView,
    client_response: ResponseView,
) -> ProcessView {
    if acp::is_current(process.init, response.id) {
        ProcessView {
            init: InitStateView::Complete(
                CompleteView {
                    response: client_response,
                    capabilities: acp::capabilities_of(response),
                },
            ),
            stdout: seq![],
            stderr: seq![],
            ..process
        }
    } else {
        process
    }
}

/// A session that the agent has made for a channel. It belongs to nobody where the channel has
/// gone meanwhile.
pub open spec fn session_created(
    process: ProcessView,
    senders: Senders,
    session_id: Seq<char>,
    channel_id: Seq<char>,
) -> ProcessView {
    let sessions = if process.sessions.contains_key(session_id) {
        process.sessions
    } else {
        process.sessions.insert(
            session_id,
            EntryView { state: acp_session::new_session(process.key), channel_id: Some(channel_id) },
        )
    };
    ProcessView {
        sessions: (if senders.contains_key(channel_id) {
            sessions
        } else {
            process::released_one(sessions, session_id, channel_id)
        }),
        ..process
    }
}

/// The sessions after a load or a resume was answered. Where it failed, a session that was made for
/// it is forgotten and a session that was claimed for it is given up. Where it succeeded, the
/// session stays with its channel as long as the channel is connected.
pub open spec fn load_answered(
    sessions: Map<Seq<char>, EntryView>,
    senders: Senders,
    channel_id: Seq<char>,
    session_id: Seq<char>,
    created_session: bool,
    failed: bool,
) -> Map<Seq<char>, EntryView> {
    if failed && created_session {
        let owner = process::owner(sessions, session_id);
        if owner is None || owner == Some(channel_id) {
            sessions.remove(session_id)
        } else {
            sessions
        }
    } else if failed || !senders.contains_key(channel_id) {
        process::released_one(sessions, session_id, channel_id)
    } else {
        sessions
    }
}

/// What the response to a request changes, and the session that it names.
pub open spec fn pending_answered(
    process: ProcessView,
    senders: Senders,
    channel_id: Seq<char>,
    pending: Option<PendingView>,
    response: ResponseView,
) -> (ProcessView, Option<Seq<char>>) {
    match pending {
        Some(PendingView::SessionNew) | Some(PendingView::SessionFork) => {
            let made = match response.result {
                Some(result) => acp_session::new_session_of(result),
                None => None,
            };
            match made {
                Some(session_id) => (
                    session_created(process, senders, session_id, channel_id),
                    Some(session_id),
                ),
                None => (process, None),
            }
        },
        Some(PendingView::SessionLoad { session_id, created_session })
        | Some(PendingView::SessionResume { session_id, created_session }) => (
            ProcessView {
                sessions: load_answered(
                    process.sessions,
                    senders,
                    channel_id,
                    session_id,
                    created_session,
                    response.error is Some,
                ),
                ..process
            },
            None,
        ),
        _ => (process, None),
    }
}

/// The channel that gets the messages of a session: its owner, where it is connected.
pub open spec fn reachable_owner(process: ProcessView, senders: Senders, session_id: Seq<char>) -> Option<
    Seq<char>,
> {
    match process::owner(process.sessions, session_id) {
        Some(channel_id) => if senders.contains_key(channel_id) {
            Some(channel_id)
        } else {
            None
        },
        None => None,
    }
}

/// A message of a session goes into the session's buffer.
pub open spec fn buffered(
    process: ProcessView,
    session_id: Seq<char>,
    message: MessageView,
    id: Seq<char>,
) -> ProcessView {
    let entry = process.sessions[session_id];
    ProcessView {
        sessions: process.sessions.insert(
            session_id,
            EntryView { state: acp_session::session_with(entry.state, message, id), ..entry },
        ),
        ..process
    }
}

/// A response whose client has gone: it goes to the channel that has the session now, or into the
/// session's buffer.
pub open spec fn answered_late(
    process: ProcessView,
    senders: Senders,
    response: ResponseView,
    session_id: Option<Seq<char>>,
) -> (ProcessView, Seq<EffectView>) {
    match session_id {
        Some(session_id) => match reachable_owner(process, senders, session_id) {
            Some(channel_id) => (
                process,
                jsonrpc_to(senders, channel_id, MessageView::Response(response)),
            ),
            None => if process.sessions.contains_key(session_id) {
                (
                    buffered(
                        process,
                        session_id,
                        MessageView::Response(response),
                        json::json_text(response.id),
                    ),
                    seq![],
                )
            } else {
                (process, seq![])
            },
        },
        None => (process, seq![]),
    }
}

/// A response as the client that asked gets it: under its own identity. The response to
/// `initialize` tells it besides the version of the proxy and that sessions can be loaded.
pub open spec fn client_answer(process: ProcessView, response: ResponseView, client_id: JsonView) -> ResponseView {
    ResponseView {
        id: client_id,
        result: if acp::is_current(process.init, response.id) {
            acp_session::with_own_capabilities(
                acp_session::with_version(response.result, acp_relay::VERSION@),
                acp_session::session_load_capability(),
            )
        } else {
            response.result
        },
        ..response
    }
}

/// A response of the agent: the client that asked gets it under its own identity. A response to no
/// request in flight is ignored.
pub open spec fn answered(process: ProcessView, senders: Senders, response: ResponseView) -> (
    ProcessView,
    Seq<EffectView>,
) {
    let key = json::id_text(response.id);
    if process.inflight.contains_key(key) {
        let request = process.inflight[key];
        let client_response = client_answer(process, response, request.client_id);
        let taken = ProcessView { inflight: process.inflight.remove(key), ..process };
        let initialized = after_init_response(taken, response, client_response);
        let (settled, named) = pending_answered(
            initialized,
            senders,
            request.channel_id,
            request.pending,
            client_response,
        );
        let session_id = if named is Some {
            named
        } else {
            request.session_id
        };
        let (delivered, effects) = if senders.contains_key(request.channel_id) {
            (
                settled,
                jsonrpc_to(senders, request.channel_id, MessageView::Response(client_response)),
            )
        } else {
            answered_late(settled, senders, client_response, session_id)
        };
        let after = match request.pending {
            Some(PendingView::SessionClose { session_id }) => ProcessView {
                sessions: delivered.sessions.remove(session_id),
                ..delivered
            },
            _ => delivered,
        };
        (after, effects)
    } else {
        (process, seq![])
    }
}

/// Notes a session that the agent has made for a channel.
pub fn create_session_from_agent_response(
    process: &mut ProcessState,
    senders: &Registry<ChannelSender>,
    session_id: &str,
    channel_id: &str,
)
    requires
        old(process).wf(),
        senders.wf(),
    ensures
        final(process).wf(),
        final(process)@ == session_created(
            old(process)@,
            registry::viewed(senders@),
            session_id@,
            channel_id@,
        ),
{
    let key = process.key.clone();
    let _ = process.insert_session(
        session_id.to_owned(),
        SessionState::new(key),
        Some(channel_id.to_owned()),
    );
    if !senders.contains_key(channel_id) {
        let _ = process.unmap_session_if_owned_by(session_id, channel_id);
    }
}

fn settle_load(
    process: &mut ProcessState,
    senders: &Registry<ChannelSender>,
    channel_id: &str,
    session_id: &str,
    created_session: bool,
    failed: bool,
)
    requires
        old(process).wf(),
        senders.wf(),
    ensures
        final(process).wf(),
        final(process)@ == (ProcessView {
            sessions: load_answered(
                old(process)@.sessions,
                registry::viewed(senders@),
                channel_id@,
                session_id@,
                created_session,
                failed,
            ),
            ..old(process)@
        }),
{
    if failed {
        if created_session {
            let removed = process.remove_session_if_unowned_or_owned_by(session_id, channel_id);
            proof {
                if !removed && !old(process)@.sessions.contains_key(session_id@) {
                    assert(old(process)@.sessions.remove(session_id@) =~= old(process)@.sessions);
                }
            }
        } else {
            let _ = process.unmap_session_if_owned_by(session_id, channel_id);
        }
    } else if !senders.contains_key(channel_id) {
        let _ = process.unmap_session_if_owned_by(session_id, channel_id);
    }
}

fn maybe_handle_pending_request(
    process: &mut ProcessState,
    senders: &Registry<ChannelSender>,
    channel_id: &str,
    pending: &Option<PendingRequest>,
    response: &JsonRpcResponse,
) -> (r: Option<String>)
    requires
        old(process).wf(),
        senders.wf(),
    ensures
        final(process).wf(),
        final(process)@ == pending_answered(
            old(process)@,
            registry::viewed(senders@),
            channel_id@,
            acp::opt_pending(*pending),
            response@,
        ).0,
        json::opt_text(r) == pending_answered(
            old(process)@,
            registry::viewed(senders@),
            channel_id@,
            acp::opt_pending(*pending),
            response@,
        ).1,
{
    match pending {
        Some(PendingRequest::SessionNew) | Some(PendingRequest::SessionFork) => {
            match &response.result {
                Some(result) => match NewSessionResponse::from_result(result) {
                    Some(made) => {
                        create_session_from_agent_response(
                            process,
                            senders,
                            made.session_id.as_str(),
                            channel_id,
                        );
                        Some(made.session_id)
                    },
                    None => None,
                },
                None => None,
            }
        },
        Some(PendingRequest::SessionLoad { session_id, created_session }) => {
            settle_load(
                process,
                senders,
                channel_id,
                session_id.as_str(),
                *created_session,
                response.error.is_some(),
            );
            None
        },
        Some(PendingRequest::SessionResume { session_id, created_session }) => {
            settle_load(
                process,
                senders,
                channel_id,
                session_id.as_str(),
                *created_session,
                response.error.is_some(),
            );
            None
        },
        _ => None,
    }
}

fn maybe_handle_init_response(
    process: &mut ProcessState,
    response: &JsonRpcResponse,
    client_response: &JsonRpcResponse,
)
    requires
        old(process).wf(),
    ensures
        final(process).wf(),
        final(process)@ == after_init_response(old(process)@, response@, client_response@),
{
    if process.init_state.complete_if_current(
        &response.id,
        client_response.clone(),
        AgentCapabilities::from_response(response),
    ) {
        process.stderr_buffer = Vec::new();
        process.stdout_buffer = Vec::new();
        assert(text::texts(process.stdout_buffer@) =~= seq![]);
        assert(text::texts(process.stderr_buffer@) =~= seq![]);
    }
}

fn find_reachable_owner(process: &ProcessState, senders: &Registry<ChannelSender>, session_id: &str) -> (r:
    Option<ChannelId>)
    requires
        process.wf(),
        senders.wf(),
    ensures
        json::opt_text(r) == reachable_owner(process@, registry::viewed(senders@), session_id@),
{
    match process.session_channel(session_id) {
        Some(channel_id) => if senders.contains_key(channel_id.as_str()) {
            Some(channel_id)
        } else {
            None
        },
        None => None,
    }
}

fn add_to_session_buffer(process: &mut ProcessState, session_id: &str, message: JsonRpcMessage, id: String)
    requires
        old(process).wf(),
        old(process)@.sessions.contains_key(session_id@),
    ensures
        final(process).wf(),
        final(process)@ == buffered(old(process)@, session_id@, message@, id@),
{
    match process.sessions.get_mut(session_id) {
        Some(entry) => {
            let _ = entry.state.add_to_buffer(message, id);
        },
        None => {},
    }
}

fn handle_disconnected_client_response(
    process: &mut ProcessState,
    senders: &Registry<ChannelSender>,
    client_response: JsonRpcResponse,
    session_id: &Option<String>,
    out: &mut Vec<Effect>,
)
    requires
        old(process).wf(),
        senders.wf(),
    ensures
        final(process).wf(),
        final(process)@ == answered_late(
            old(process)@,
            registry::viewed(senders@),
            client_response@,
            json::opt_text(*session_id),
        ).0,
        effects_view(final(out)@) == effects_view(old(out)@) + answered_late(
            old(process)@,
            registry::viewed(senders@),
            client_response@,
            json::opt_text(*session_id),
        ).1,
{
    assert(effects_view(out@) =~= effects_view(old(out)@) + seq![]);
    match session_id {
        Some(session_id) => {
            match find_reachable_owner(process, senders, session_id.as_str()) {
                Some(channel_id) => {
                    let _ = send_to_channel(
                        senders,
                        channel_id.as_str(),
                        &JsonRpcMessage::Response(client_response),
                        out,
                    );
                },
                None => {
                    if process.sessions.contains_key(session_id.as_str()) {
                        let id = client_response.id.to_text();
                        add_to_session_buffer(
                            process,
                            session_id.as_str(),
                            JsonRpcMessage::Response(client_response),
                            id,
                        );
                    }
                },
            }
        },
        None => {},
    }
}

/// Handles a response of the agent.
pub fn handle_process_response(
    process: &mut ProcessState,
    senders: &Registry<ChannelSender>,
    response: &JsonRpcResponse,
    out: &mut Vec<Effect>,
)
    requires
        old(process).wf(),
        senders.wf(),
    ensures
        final(process).wf(),
        final(process)@ == answered(old(process)@, registry::viewed(senders@), response@).0,
        effects_view(final(out)@) == effects_view(old(out)@) + answered(
            old(process)@,
            registry::viewed(senders@),
            response@,
        ).1,
{
    match process.remove_inflight_request(&response.id) {
        Some(request) => {
            let mut client_response = response.clone();
            client_response.id = request.client_id.clone();
            if process.init_state.is_current_request(&response.id) {
                acp_session::inject_tidewave_version(&mut client_response, acp_relay::VERSION);
                acp_session::inject_capabilities(
                    &mut client_response,
                    Json::object().with("session/load", Json::Bool(true)),
                );
            }
            maybe_handle_init_response(process, response, &client_response);
            let named = maybe_handle_pending_request(
                process,
                senders,
                request.channel_id.as_str(),
                &request.pending,
                &client_response,
            );
            let session_id = match named {
                Some(s) => Some(s),
                None => crate::phoenix::clone_text(&request.session_id),
            };
            if senders.contains_key(request.channel_id.as_str()) {
                let _ = send_to_channel(
                    senders,
                    request.channel_id.as_str(),
                    &JsonRpcMessage::Response(client_response),
                    out,
                );
            } else {
                handle_disconnected_client_response(process, senders, client_response, &session_id, out);
            }
            match &request.pending {
                Some(PendingRequest::SessionClose { session_id }) => {
                    process.remove_session(session_id.as_str());
                },
                _ => {},
            }
        },
        None => {
            assert(old(process)@.inflight.remove(json::id_text(response@.id)) =~= old(process)@.inflight);
            assert(effects_view(out@) =~= effects_view(old(out)@) + seq![]);
        },
    }
}

/// The pushes of one message to each of the channels that are connected.
pub open spec fn broadcast_to(senders: Senders, channels: Seq<Seq<char>>, message: MessageView) -> Seq<
    EffectView,
>
    decreases channels.len(),
{
    if channels.len() == 0 {
        seq![]
    } else {
        broadcast_to(senders, channels.drop_last(), message) + jsonrpc_to(
            senders,
            channels.last(),
            message,
        )
    }
}

/// A message of the agent as it is buffered and pushed, with its identity in the buffer.
pub open spec fn routed(session: SessionView, message: MessageView) -> (MessageView, Seq<char>) {
    match message {
        MessageView::Notification(n) => {
            let id = acp_session::notification_id(session.next_notification);
            (
                MessageView::Notification(
                    NotificationView { params: acp_session::with_notification_id(n.params, id), ..n },
                ),
                id,
            )
        },
        MessageView::Request(r) => (message, json::json_text(r.id)),
        MessageView::Response(r) => (message, json::json_text(r.id)),
    }
}

/// The session after its agent has sent a message: a notification uses an identity up.
pub open spec fn counted(session: SessionView, message: MessageView) -> SessionView {
    match message {
        MessageView::Notification(_) => SessionView {
            next_notification: acp_session::next_count(session.next_notification),
            ..session
        },
        _ => session,
    }
}

/// A request or notification of the agent. One that names a session is buffered and pushed to the
/// session's owner. One that names none goes to every client of the process.
pub open spec fn from_agent(process: ProcessView, senders: Senders, message: MessageView) -> (
    ProcessView,
    Seq<EffectView>,
) {
    match acp_session::session_id_of(acp_session::scope_of(message)) {
        Some(session_id) => if process.sessions.contains_key(session_id) {
            let entry = process.sessions[session_id];
            let (out, id) = routed(entry.state, message);
            let state = acp_session::session_with(counted(entry.state, message), out, id);
            let after = ProcessView {
                sessions: process.sessions.insert(session_id, EntryView { state, ..entry }),
                ..process
            };
            let effects = match entry.channel_id {
                Some(channel_id) => jsonrpc_to(senders, channel_id, out),
                None => seq![],
            };
            (after, effects)
        } else {
            (process, seq![])
        },
        None => (process, broadcast_to(senders, process.channels, message)),
    }
}

fn push_to_all(
    senders: &Registry<ChannelSender>,
    channels: &Vec<ChannelId>,
    message: &JsonRpcMessage,
    out: &mut Vec<Effect>,
)
    requires
        senders.wf(),
    ensures
        effects_view(final(out)@) == effects_view(old(out)@) + broadcast_to(
            registry::viewed(senders@),
            text::texts(channels@),
            message@,
        ),
{
    let ghost all = text::texts(channels@);
    let mut i: usize = 0;
    assert(effects_view(out@) =~= effects_view(old(out)@) + broadcast_to(
        registry::viewed(senders@),
        all.take(0),
        message@,
    ));
    while i < channels.len()
        invariant
            senders.wf(),
            all == text::texts(channels@),
            i <= channels.len(),
            effects_view(out@) == effects_view(old(out)@) + broadcast_to(
                registry::viewed(senders@),
                all.take(i as int),
                message@,
            ),
        decreases channels.len() - i,
    {
        let _ = send_to_channel(senders, channels[i].as_str(), message, out);
        proof {
            assert(all.take(i + 1).drop_last() =~= all.take(i as int));
            assert(all.take(i + 1).last() == channels@[i as int]@);
            assert(effects_view(out@) =~= effects_view(old(out)@) + broadcast_to(
                registry::viewed(senders@),
                all.take(i + 1),
                message@,
            ));
        }
        i = i + 1;
    }
    assert(all.take(all.len() as int) =~= all);
}

/// Handles a request or notification of the agent.
pub fn handle_process_notification_or_request(
    process: &mut ProcessState,
    senders: &Registry<ChannelSender>,
    message: JsonRpcMessage,
    out: &mut Vec<Effect>,
)
    requires
        old(process).wf(),
        senders.wf(),
    ensures
        final(process).wf(),
        final(process)@ == from_agent(old(process)@, registry::viewed(senders@), message@).0,
        effects_view(final(out)@) == effects_view(old(out)@) + from_agent(
            old(process)@,
            registry::viewed(senders@),
            message@,
        ).1,
{
    let ghost given = message@;
    match acp_session::extract_session_id_from_message(&message) {
        Some(session_id) => {
            match process.sessions.get_mut(session_id.as_str()) {
                Some(entry) => {
                    let (routed_message, id) = match message {
                        JsonRpcMessage::Notification(n) => {
                            let mut notification = n;
                            let id = entry.state.generate_notification_id();
                            acp_session::inject_notification_id(&mut notification, id.clone());
                            (JsonRpcMessage::Notification(notification), id)
                        },
                        JsonRpcMessage::Request(r) => {
                            let id = r.id.to_text();
                            (JsonRpcMessage::Request(r), id)
                        },
                        JsonRpcMessage::Response(r) => {
                            let id = r.id.to_text();
                            (JsonRpcMessage::Response(r), id)
                        },
                    };
                    let _ = entry.state.add_to_buffer(routed_message.clone(), id);
                    match &entry.channel_id {
                        Some(channel_id) => {
                            let _ = send_to_channel(senders, channel_id.as_str(), &routed_message, out);
                        },
                        None => {
                            assert(effects_view(out@) =~= effects_view(old(out)@) + seq![]);
                        },
                    }
                },
                None => {
                    assert(effects_view(out@) =~= effects_view(old(out)@) + seq![]);
                },
            }
        },
        None => {
            push_to_all(senders, &process.channels, &message, out);
        },
    }
}

/// What a message of the agent does.
pub open spec fn from_process(process: ProcessView, senders: Senders, message: MessageView) -> (
    ProcessView,
    Seq<EffectView>,
) {
    match message {
        MessageView::Response(response) => answered(process, senders, response),
        _ => from_agent(process, senders, message),
    }
}

/// The session that a response of an agent says was made, and the channel that asked for it.
pub open spec fn made_elsewhere(process: ProcessView, message: MessageView) -> Option<(Seq<char>, Seq<char>)> {
    match message {
        MessageView::Response(response) => {
            let key = json::id_text(response.id);
            if process.inflight.contains_key(key) && (process.inflight[key].pending == Some(
                PendingView::SessionNew,
            ) || process.inflight[key].pending == Some(PendingView::SessionFork)) {
                match response.result {
                    Some(result) => match acp_session::new_session_of(result) {
                        Some(session_id) => Some((session_id, process.inflight[key].channel_id)),
                        None => None,
                    },
                    None => None,
                }
            } else {
                None
            }
        },
        _ => None,
    }
}

/// What a message of the agent does to a process that clients do not reach any more. A session that
/// the message says was made is not added here.
pub open spec fn from_retired(process: ProcessView, senders: Senders, message: MessageView) -> (
    ProcessView,
    Seq<EffectView>,
) {
    match made_elsewhere(process, message) {
        Some((session_id, _)) => {
            let key = json::id_text(message->Response_0.id);
            let request = InflightView {
                session_id: Some(session_id),
                pending: None,
                ..process.inflight[key]
            };
            from_process(
                ProcessView { inflight: process.inflight.insert(key, request), ..process },
                senders,
                message,
            )
        },
        None => from_process(process, senders, message),
    }
}

/// Handles a message of an agent whose process clients do not reach any more. The result is the
/// session that was made, and the channel that asked for it.
pub fn handle_retired_message(
    process: &mut ProcessState,
    senders: &Registry<ChannelSender>,
    message: JsonRpcMessage,
    out: &mut Vec<Effect>,
) -> (r: Option<(String, ChannelId)>)
    requires
        old(process).wf(),
        senders.wf(),
    ensures
        final(process).wf(),
        final(process)@ == from_retired(old(process)@, registry::viewed(senders@), message@).0,
        effects_view(final(out)@) == effects_view(old(out)@) + from_retired(
            old(process)@,
            registry::viewed(senders@),
            message@,
        ).1,
        match r {
            Some((session_id, channel_id)) => made_elsewhere(old(process)@, message@) == Some(
                (session_id@, channel_id@),
            ),
            None => made_elsewhere(old(process)@, message@) is None,
        },
{
    let made = match &message {
        JsonRpcMessage::Response(response) => match process.inflight_request(&response.id) {
            Some(request) => {
                let session_id = match (&request.pending, &response.result) {
                    (Some(PendingRequest::SessionNew), Some(result))
                    | (Some(PendingRequest::SessionFork), Some(result)) => {
                        NewSessionResponse::from_result(result)
                    },
                    _ => None,
                };
                match session_id {
                    Some(made) => {
                        let channel_id = request.channel_id.clone();
                        process.register_inflight_request(
                            response.id.clone(),
                            request.channel_id,
                            request.client_id,
                            Some(made.session_id.clone()),
                            None,
                        );
                        Some((made.session_id, channel_id))
                    },
                    None => None,
                }
            },
            None => None,
        },
        _ => None,
    };
    handle_process_message(process, senders, message, out);
    made
}

/// Handles a message of the agent.
pub fn handle_process_message(
    process: &mut ProcessState,
    senders: &Registry<ChannelSender>,
    message: JsonRpcMessage,
    out: &mut Vec<Effect>,
)
    requires
        old(process).wf(),
        senders.wf(),
    ensures
        final(process).wf(),
        final(process)@ == from_process(old(process)@, registry::viewed(senders@), message@).0,
        effects_view(final(out)@) == effects_view(old(out)@) + from_process(
            old(process)@,
            registry::viewed(senders@),
            message@,
        ).1,
{
    match message {
        JsonRpcMessage::Response(response) => handle_process_response(process, senders, &response, out),
        other => handle_process_notification_or_request(process, senders, other, out),
    }
}

// ---------------------------------------------------------------------------
// Sessions that nobody came back to
// ---------------------------------------------------------------------------

/// The parameters `{"sessionId": session_id}`.
pub open spec fn session_params(session_id: Seq<char>) -> JsonView {
    json::empty_object().with("sessionId"@, JsonView::Str(session_id))
}

/// Whether a session is still without a channel and nobody has tried to load it since its cancel
/// counter was read.
pub open spec fn still_disconnected(process: ProcessView, session_id: Seq<char>, counter: u64) -> bool {
    &&& process.sessions.contains_key(session_id)
    &&& process.sessions[session_id].channel_id is None
    &&& process.sessions[session_id].state.cancel_counter == counter
}

/// Stopping a session that nobody came back to: an agent that can close it is asked to, and the
/// session is forgotten; another agent is told to cancel what it does, and the session is marked.
pub open spec fn stopped(process: ProcessView, session_id: Seq<char>, counter: u64) -> (
    ProcessView,
    Seq<EffectView>,
) {
    if still_disconnected(process, session_id, counter) {
        let closes = match acp::known_capabilities(process.init) {
            Some(capabilities) => capabilities.supports_session_close,
            None => false,
        };
        if closes {
            (
                ProcessView {
                    next_proxy_id: acp_session::next_count(process.next_proxy_id),
                    sessions: process.sessions.remove(session_id),
                    ..process
                },
                sent(
                    process,
                    MessageView::Request(
                        RequestView {
                            jsonrpc: jsonrpc::JSONRPC_VERSION@,
                            id: next_id(process),
                            method: "session/close"@,
                            params: Some(session_params(session_id)),
                        },
                    ),
                ),
            )
        } else {
            let entry = process.sessions[session_id];
            (
                ProcessView {
                    sessions: process.sessions.insert(
                        session_id,
                        EntryView { state: SessionView { cancelled: true, ..entry.state }, ..entry },
                    ),
                    ..process
                },
                sent(
                    process,
                    MessageView::Notification(
                        NotificationView {
                            jsonrpc: jsonrpc::JSONRPC_VERSION@,
                            method: "session/cancel"@,
                            params: Some(session_params(session_id)),
                        },
                    ),
                ),
            )
        }
    } else {
        (process, seq![])
    }
}

/// Stops a session, unless a client has come back to it since `counter` was read.
pub fn stop_unmapped_session_if_still_disconnected(
    process: &mut ProcessState,
    session_id: &str,
    counter: u64,
    out: &mut Vec<Effect>,
)
    requires
        old(process).wf(),
    ensures
        final(process).wf(),
        final(process)@ == stopped(old(process)@, session_id@, counter).0,
        effects_view(final(out)@) == effects_view(old(out)@) + stopped(
            old(process)@,
            session_id@,
            counter,
        ).1,
{
    assert(effects_view(out@) =~= effects_view(old(out)@) + seq![]);
    if process.has_session_channel(session_id) {
        return;
    }
    match process.session_state(session_id) {
        Some(state) => {
            if state.cancel_counter != counter {
                return;
            }
        },
        None => {
            return;
        },
    }
    let closes = match process.init_state.capabilities() {
        Some(capabilities) => capabilities.supports_session_close,
        None => false,
    };
    let params = Some(Json::object().with("sessionId", Json::string(session_id)));
    if closes {
        let proxy_id = process.generate_proxy_id();
        let request = JsonRpcRequest {
            jsonrpc: jsonrpc::JSONRPC_VERSION.to_owned(),
            id: proxy_id,
            method: "session/close".to_owned(),
            params,
        };
        let _ = send_to_process(process, JsonRpcMessage::Request(request), out);
        process.remove_session(session_id);
    } else {
        match process.sessions.get_mut(session_id) {
            Some(entry) => {
                entry.state.cancelled = true;
            },
            None => {},
        }
        let notification = JsonRpcNotification {
            jsonrpc: jsonrpc::JSONRPC_VERSION.to_owned(),
            method: "session/cancel".to_owned(),
            params,
        };
        let _ = send_to_process(process, JsonRpcMessage::Notification(notification), out);
    }
}

} // verus!
