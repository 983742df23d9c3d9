//! What clients of the server learn, and what becomes of what they say.

use vstd::prelude::*;

use crate::acp_server;
use crate::acp_server::{
    AcpServerState, AcpSessionView, ClientMessage, ClientStep, ClientStepView, ClientView, ConnectionInfo,
    ConnectionUpdate, ConnectionView, CreateConnectionRequest, CreateSessionRequest, CreateSessionResponse,
    CreatedView, PromptOutcome, ServerMessage, ServerStateView, ServerView, SessionOutcome, SessionStep,
    StatusView, Told, UpdateView,
};
use crate::json;
use crate::json::{Json, JsonView, NumberView};
use crate::text;

verus! {

// ---------------------------------------------------------------------------
// JSON
// ---------------------------------------------------------------------------

/// The state of a connection is a word, or an error with its message.
pub proof fn lemma_status_json(message: Seq<char>)
    ensures
        acp_server::status_json(StatusView::Loading) == JsonView::Str("loading"@),
        acp_server::status_json(StatusView::Connected) == JsonView::Str("connected"@),
        acp_server::status_json((StatusView::Error { message })) == JsonView::Obj(
            map!["error"@ => JsonView::Obj(map!["message"@ => JsonView::Str(message)])],
        ),
{
}

/// A connection is told with its identity, its name, its command, its state and its capabilities, which
/// are null until they are known. News of it leave out the name and the command.
pub proof fn lemma_connection_json(connection: ConnectionView, update: UpdateView)
    ensures
        acp_server::connection_json(connection) == JsonView::Obj(
            map![
                "id"@ => JsonView::Str(connection.id),
                "name"@ => JsonView::Str(connection.name),
                "command"@ => JsonView::Str(connection.command),
                "status"@ => acp_server::status_json(connection.status),
                "capabilities"@ => (match connection.capabilities {
                    Some(capabilities) => capabilities,
                    None => JsonView::Null,
                }),
            ],
        ),
        acp_server::update_json(update) == JsonView::Obj(
            map![
                "id"@ => JsonView::Str(update.id),
                "status"@ => acp_server::status_json(update.status),
                "capabilities"@ => (match update.capabilities {
                    Some(capabilities) => capabilities,
                    None => JsonView::Null,
                }),
            ],
        ),
{
}

/// The answer to a request for a session says how it went; the identity and the error are there only
/// where there is one.
pub proof fn lemma_created_json(status: Seq<char>, session_id: Seq<char>, error: Seq<char>)
    ensures
        acp_server::created_json((CreatedView { session_id: Some(session_id), status, error: None }))
            == JsonView::Obj(
            map!["status"@ => JsonView::Str(status), "sessionId"@ => JsonView::Str(session_id)],
        ),
        acp_server::created_json((CreatedView { session_id: None, status, error: Some(error) }))
            == JsonView::Obj(
            map!["status"@ => JsonView::Str(status), "error"@ => JsonView::Str(error)],
        ),
        acp_server::failed(status, error) == (CreatedView { session_id: None, status, error: Some(error) }),
{
}

/// The messages to a client name their type and carry their number. What they are about is in members of
/// its own; the answer to a prompt has the response or the error, as it went.
pub proof fn lemma_message_json(
    id: u64,
    params: JsonView,
    response_type: Seq<char>,
    response: JsonView,
    error: Seq<char>,
)
    ensures
        (ServerView::SessionNotification { id, params }).json() == JsonView::Obj(
            map![
                "type"@ => JsonView::Str("session-notification"@),
                "id"@ => JsonView::Number(NumberView::PosInt(id)),
                "params"@ => params,
            ],
        ),
        (ServerView::PermissionRequest { id, params }).json() == JsonView::Obj(
            map![
                "type"@ => JsonView::Str("permission-request"@),
                "id"@ => JsonView::Number(NumberView::PosInt(id)),
                "params"@ => params,
            ],
        ),
        (ServerView::PromptResponse { id, response_type, response: Some(response), error: None }).json()
            == JsonView::Obj(
            map![
                "type"@ => JsonView::Str("prompt-response"@),
                "id"@ => JsonView::Number(NumberView::PosInt(id)),
                "response-type"@ => JsonView::Str(response_type),
                "response"@ => response,
            ],
        ),
        (ServerView::PromptResponse { id, response_type, response: None, error: Some(error) }).json()
            == JsonView::Obj(
            map![
                "type"@ => JsonView::Str("prompt-response"@),
                "id"@ => JsonView::Number(NumberView::PosInt(id)),
                "response-type"@ => JsonView::Str(response_type),
                "error"@ => JsonView::Str(error),
            ],
        ),
        (ServerView::Exit { id }).json() == JsonView::Obj(
            map![
                "type"@ => JsonView::Str("exit"@),
                "id"@ => JsonView::Number(NumberView::PosInt(id)),
            ],
        ),
{
}

/// Every message carries its own number.
pub proof fn lemma_message_numbers(
    id: u64,
    params: JsonView,
    response_type: Seq<char>,
    response: Option<JsonView>,
    error: Option<Seq<char>>,
)
    ensures
        (ServerView::SessionNotification { id, params }).id() == id,
        (ServerView::PermissionRequest { id, params }).id() == id,
        (ServerView::PromptResponse { id, response_type, response, error }).id() == id,
        (ServerView::Exit { id }).id() == id,
{
}

/// What a client says is read by its type: a prompt with its number and its messages, the answer to a
/// permission request with its number, and an acknowledgement with the number up to which it goes.
pub proof fn lemma_client_messages(members: Map<Seq<char>, JsonView>)
    ensures
        ({
            let v = JsonView::Obj(members);
            let read = acp_server::client_message_of(v);
            let number = v.get("id"@);
            let numbered = number is Some && number->0.as_u64() is Some;
            let messages = v.get("messages"@);
            let response = v.get("response"@);
            let latest = v.get("latestId"@);
            &&& v.get("type"@) == Some(JsonView::Str("prompt"@)) ==> {
                &&& numbered && messages is Some && messages->0 is Arr ==> read == Some(
                    ClientView::Prompt { id: number->0.as_u64()->0, messages: messages->0 },
                )
                &&& !numbered || messages is None || !(messages->0 is Arr) ==> read is None
            }
            &&& v.get("type"@) == Some(JsonView::Str("permission-response"@)) ==> {
                &&& numbered && response is Some ==> read == Some(
                    ClientView::PermissionResponse {
                        id: number->0.as_u64()->0,
                        response: response->0,
                    },
                )
                &&& !numbered || response is None ==> read is None
            }
            &&& v.get("type"@) == Some(JsonView::Str("ack"@)) ==> {
                &&& latest is Some && latest->0.as_u64() is Some ==> read == Some(
                    ClientView::Ack { latest_id: latest->0.as_u64()->0 },
                )
                &&& latest is None || latest->0.as_u64() is None ==> read is None
            }
            &&& v.get("type"@) != Some(JsonView::Str("prompt"@)) && v.get("type"@) != Some(
                JsonView::Str("permission-response"@),
            ) && v.get("type"@) != Some(JsonView::Str("ack"@)) ==> read is None
        }),
{
    reveal_strlit("prompt");
    reveal_strlit("permission-response");
    reveal_strlit("ack");
    assert("prompt"@.len() == 6);
    assert("permission-response"@.len() == 19);
    assert("ack"@.len() == 3);
}

// ---------------------------------------------------------------------------
// Messages
// ---------------------------------------------------------------------------

/// Of the messages that are kept those with a higher number are given out, in their order and none left
/// out.
pub proof fn lemma_later_messages(messages: Seq<ServerView>, message: ServerView, id: u64)
    ensures
        acp_server::later_than(Seq::<ServerView>::empty(), id).len() == 0,
        message.id() > id ==> acp_server::later_than(messages.push(message), id) == acp_server::later_than(
            messages,
            id,
        ).push(message),
        message.id() <= id ==> acp_server::later_than(messages.push(message), id) == acp_server::later_than(
            messages,
            id,
        ),
{
    assert(messages.push(message).drop_last() =~= messages);
}

/// A client that comes back says after which number it wants to hear; one that says nothing, or no
/// number, hears everything.
pub proof fn lemma_start(said: Seq<char>)
    ensures
        acp_server::start_of(None) == 0,
        text::parsed_number(said) is Some ==> acp_server::start_of(Some(said)) == text::parsed_number(said)->0,
        text::parsed_number(said) is None ==> acp_server::start_of(Some(said)) == 0,
{
}

/// Telling a client something uses up a number. The message is kept for later only if the client is not
/// there.
pub proof fn lemma_told(session: AcpSessionView, message: ServerView, present: bool)
    requires
        session.next < u64::MAX,
    ensures
        ({
            let after = acp_server::told(session, message, present);
            &&& after.next == session.next + 1
            &&& present ==> after.buffer == session.buffer
            &&& !present ==> after.buffer == session.buffer.push(message)
            &&& after.id == session.id
            &&& after.acp_id == session.acp_id
            &&& after.pending == session.pending
            &&& after.serial == session.serial
        }),
{
}

/// How a prompt went: a response of the agent is a success, and everything else an error with its text.
pub proof fn lemma_prompt_answers(id: u64, response: Json, e: String)
    ensures
        acp_server::prompt_answer_view(id, PromptOutcome::Answered(response)) == (
        ServerView::PromptResponse {
            id,
            response_type: "success"@,
            response: Some(response@),
            error: None,
        }),
        acp_server::prompt_answer_view(id, PromptOutcome::SendFailed(e)) == (ServerView::PromptResponse {
            id,
            response_type: "error"@,
            response: None,
            error: Some("Failed to send request: "@ + e@),
        }),
        acp_server::prompt_answer_view(id, PromptOutcome::Failed(e)) == (ServerView::PromptResponse {
            id,
            response_type: "error"@,
            response: None,
            error: Some(e@),
        }),
        acp_server::prompt_answer_view(id, PromptOutcome::Closed) == (ServerView::PromptResponse {
            id,
            response_type: "error"@,
            response: None,
            error: Some("Response channel closed"@),
        }),
        acp_server::prompt_answer_view(id, PromptOutcome::TimedOut) == (ServerView::PromptResponse {
            id,
            response_type: "error"@,
            response: None,
            error: Some("Request timed out"@),
        }),
{
}

/// The words of a command; a command without a word is an error.
pub proof fn lemma_command_words(command: Seq<char>)
    ensures
        text::words(command).len() > 0 ==> acp_server::command_words(command) == Ok::<
            Seq<Seq<char>>,
            Seq<char>,
        >(text::words(command)),
        text::words(command).len() == 0 ==> acp_server::command_words(command) == Err::<
            Seq<Seq<char>>,
            Seq<char>,
        >("Empty command"@),
{
}

/// A session begins without messages and without requests, and its first message has the number one.
pub proof fn lemma_new_session(id: Seq<char>, acp_id: Seq<char>)
    ensures
        ({
            let session = acp_server::new_session(id, acp_id);
            &&& session.id == id
            &&& session.acp_id == acp_id
            &&& session.next == 1
            &&& session.buffer.len() == 0
            &&& session.pending.dom() == Set::<Seq<char>>::empty()
        }),
{
    assert(acp_server::new_session(id, acp_id).pending.dom() =~= Set::<Seq<char>>::empty());
}

// ---------------------------------------------------------------------------
// What clients say
// ---------------------------------------------------------------------------

/// A prompt goes to the agent of its session with its number and its messages as they are, if the agent
/// is connected. A client that is there is told if it is not; a connection that is gone is reported.
pub proof fn lemma_prompt(
    state: ServerStateView,
    session_id: Seq<char>,
    serial: u64,
    id: u64,
    messages: JsonView,
)
    requires
        state.sessions.contains_key(session_id),
        state.sessions[session_id].serial == serial,
    ensures
        ({
            let (after, step) = acp_server::client_step(
                state,
                session_id,
                serial,
                ClientView::Prompt { id, messages },
            );
            let acp_id = state.sessions[session_id].acp_id;
            let known = state.connections.contains_key(acp_id);
            let connected = known && state.connections[acp_id].status is Connected;
            &&& after == state
            &&& !known ==> step is ConnectionNotFound
            &&& connected ==> step == (ClientStepView::Prompt { acp_id, id, messages })
            &&& known && !connected && state.sockets.contains_key(session_id) ==> step
                == ClientStepView::Reply(
                ServerView::PromptResponse {
                    id,
                    response_type: "error"@,
                    response: None,
                    error: Some("Connection not ready"@),
                },
            )
            &&& known && !connected && !state.sockets.contains_key(session_id) ==> step is Nothing
        }),
{
}

/// The answer to a permission request goes to the one who asked, as it is, and the request is settled.
/// An answer that nobody waits for does nothing.
pub proof fn lemma_permission(
    state: ServerStateView,
    session_id: Seq<char>,
    serial: u64,
    id: u64,
    response: JsonView,
)
    requires
        state.sessions.contains_key(session_id),
        state.sessions[session_id].serial == serial,
    ensures
        ({
            let (after, step) = acp_server::client_step(
                state,
                session_id,
                serial,
                ClientView::PermissionResponse { id, response },
            );
            let session = state.sessions[session_id];
            let key = text::decimal(id as nat);
            &&& session.pending.contains_key(key) ==> {
                &&& step == (ClientStepView::Permission { id, response })
                &&& after == (ServerStateView {
                    sessions: state.sessions.insert(
                        session_id,
                        AcpSessionView { pending: session.pending.remove(key), ..session },
                    ),
                    ..state
                })
            }
            &&& !session.pending.contains_key(key) ==> step is Nothing && after == state
        }),
{
}

/// An acknowledgement drops the messages of its session up to its number, and nothing else.
pub proof fn lemma_acknowledgement(
    state: ServerStateView,
    session_id: Seq<char>,
    serial: u64,
    latest_id: u64,
)
    requires
        state.sessions.contains_key(session_id),
        state.sessions[session_id].serial == serial,
    ensures
        ({
            let (after, step) = acp_server::client_step(
                state,
                session_id,
                serial,
                ClientView::Ack { latest_id },
            );
            let session = state.sessions[session_id];
            &&& step is Nothing
            &&& after == (ServerStateView {
                sessions: state.sessions.insert(
                    session_id,
                    AcpSessionView {
                        buffer: acp_server::later_than(session.buffer, latest_id),
                        ..session
                    },
                ),
                ..state
            })
        }),
{
}

/// A client of a session that is gone altogether changes nothing and gets nothing.
pub proof fn lemma_unknown_session(
    state: ServerStateView,
    session_id: Seq<char>,
    serial: u64,
    message: ClientView,
)
    requires
        !state.sessions.contains_key(session_id) || state.sessions[session_id].serial != serial,
        !state.detached.contains_key(text::decimal(serial as nat)),
    ensures
        acp_server::client_step(state, session_id, serial, message) == (state, ClientStepView::Nothing),
{
}

/// A session that another has taken the place of is found by its number as long as its client is there.
pub proof fn lemma_detached_sessions(
    state: ServerStateView,
    session_id: Seq<char>,
    serial: u64,
    session: AcpSessionView,
)
    ensures
        ({
            let number = text::decimal(serial as nat);
            let current = state.sessions.contains_key(session_id) && state.sessions[session_id].serial
                == serial;
            &&& state.is_current(session_id, serial) == current
            &&& state.knows(session_id, serial) == (current || state.detached.contains_key(number))
            &&& current ==> state.session_of(session_id, serial) == state.sessions[session_id]
            &&& !current ==> state.session_of(session_id, serial) == state.detached[number]
            &&& current ==> state.with_session_of(session_id, serial, session) == (ServerStateView {
                sessions: state.sessions.insert(session_id, session),
                ..state
            })
            &&& !current ==> state.with_session_of(session_id, serial, session) == (ServerStateView {
                detached: state.detached.insert(number, session),
                ..state
            })
        }),
        state.sessions.contains_key(session_id) ==> state.detach(session_id) == (ServerStateView {
            sessions: state.sessions.remove(session_id),
            detached: state.detached.insert(
                text::decimal(state.sessions[session_id].serial as nat),
                state.sessions[session_id],
            ),
            ..state
        }),
        !state.sessions.contains_key(session_id) ==> state.detach(session_id) == state,
{
}

// ---------------------------------------------------------------------------
// Agents that end
// ---------------------------------------------------------------------------

/// The end of an agent concerns its own sessions, each once. The client of a session is told with the
/// next number, if it is there.
pub proof fn lemma_exits(state: ServerStateView, order: Seq<Seq<char>>, acp_id: Seq<char>, id: Seq<char>)
    ensures
        ({
            let before = acp_server::exits(state, order, acp_id);
            let all = acp_server::exits(state, order.push(id), acp_id);
            let own = state.sessions.contains_key(id) && state.sessions[id].acp_id == acp_id;
            &&& !own ==> all == before
            &&& own && state.sockets.contains_key(id) ==> all == before.push(
                (id, Some(ServerView::Exit { id: state.sessions[id].next })),
            )
            &&& own && !state.sockets.contains_key(id) ==> all == before.push((id, None::<ServerView>))
        }),
        acp_server::exits(state, Seq::<Seq<char>>::empty(), acp_id).len() == 0,
{
    assert(order.push(id).drop_last() =~= order);
}

/// A connection whose agent has ended stays, in error. Its sessions are gone and their clients are no
/// longer there; all others stay as they are.
pub proof fn lemma_exited(
    state: ServerStateView,
    order: Seq<Seq<char>>,
    acp_id: Seq<char>,
    session_id: Seq<char>,
    other: Seq<char>,
)
    requires
        other != acp_id,
    ensures
        ({
            let after = acp_server::exited(state, order, acp_id);
            let own = state.sessions.contains_key(session_id) && state.sessions[session_id].acp_id == acp_id;
            &&& state.connections.contains_key(acp_id) ==> after.connections[acp_id] == (ConnectionView {
                status: StatusView::Error { message: "Process exited"@ },
                ..state.connections[acp_id]
            })
            &&& after.connections.dom() == state.connections.dom()
            &&& state.connections.contains_key(other) ==> after.connections[other]
                == state.connections[other]
            &&& own ==> !after.sessions.contains_key(session_id) && !after.sockets.contains_key(session_id)
            &&& !own ==> after.sockets.contains_key(session_id) == state.sockets.contains_key(session_id)
            &&& !own ==> after.sessions.contains_key(session_id) == state.sessions.contains_key(session_id)
            &&& after.next_serial == state.next_serial
        }),
{
    let after = acp_server::exited(state, order, acp_id);
    assert(after.connections.dom() =~= state.connections.dom());
}

// ---------------------------------------------------------------------------
// What the calls do
// ---------------------------------------------------------------------------

/// A connection that starts is loading; one whose process could not be started is told with the error and
/// not kept.
pub proof fn lemma_create_connection_call(
    state: &mut AcpServerState,
    req: CreateConnectionRequest,
    outcome: Result<(), String>,
    r: ConnectionInfo,
)
    requires
        call_ensures(AcpServerState::create_connection, (state, req, outcome), r),
    ensures
        r@.id == req.id@,
        r@.name == req.name@,
        r@.command == req.command@,
        r@.capabilities is None,
        outcome is Ok ==> r@.status is Loading && final(state)@.connections == old(
            state,
        )@.connections.insert(req.id@, r@),
        outcome is Err ==> r@.status == (StatusView::Error { message: outcome->Err_0@ }) && final(state)@
            == old(state)@,
        final(state)@.sessions == old(state)@.sessions,
        final(state)@.sockets == old(state)@.sockets,
        final(state)@.detached == old(state)@.detached,
{
}

/// A connection whose agent has answered is connected and has the agent's capabilities. One whose agent
/// has failed is in error.
pub proof fn lemma_initialized_call(
    state: &mut AcpServerState,
    acp_id: &str,
    answer: Result<Json, String>,
    r: ConnectionUpdate,
)
    requires
        call_ensures(AcpServerState::connection_initialized, (state, acp_id, answer), r),
    ensures
        r@.id == acp_id@,
        answer is Ok ==> r@.status is Connected && r@.capabilities == Some(answer->Ok_0@),
        answer is Err ==> r@.status == (StatusView::Error {
            message: "Initialization failed: "@ + answer->Err_0@,
        }) && r@.capabilities is None,
        final(state)@.connections.dom() == old(state)@.connections.dom(),
        old(state)@.connections.contains_key(acp_id@) ==> final(state)@.connections[acp_id@].status
            == r@.status,
        old(state)@.connections.contains_key(acp_id@) && answer is Ok
            ==> final(state)@.connections[acp_id@].capabilities == Some(answer->Ok_0@),
        !old(state)@.connections.contains_key(acp_id@) ==> final(state)@ == old(state)@,
        final(state)@.sessions == old(state)@.sessions,
        final(state)@.sockets == old(state)@.sockets,
{
    assert(final(state)@.connections.dom() =~= old(state)@.connections.dom());
}

/// A session is asked for where the agent is connected. A connection that is not ready, or in error, says
/// so, and one that is not known is reported.
pub proof fn lemma_create_session_call(state: &AcpServerState, req: &CreateSessionRequest, r: SessionStep)
    requires
        call_ensures(AcpServerState::create_session, (state, req), r),
    ensures
        ({
            let known = state@.connections.contains_key(req.acp_id@);
            let status = state@.connections[req.acp_id@].status;
            &&& !known ==> r is NotFound
            &&& known && status is Connected ==> r is Ask
            &&& known && status is Loading ==> r is Answer && r->Answer_0@ == (CreatedView {
                session_id: None,
                status: "loading"@,
                error: Some("Connection not ready"@),
            })
            &&& known && status is Error ==> r is Answer && r->Answer_0@ == (CreatedView {
                session_id: None,
                status: "error"@,
                error: Some(status->Error_message),
            })
        }),
{
}

/// A session that the agent made is kept for its connection and told with its identity. What went wrong
/// is told with its text; an agent that asks to log in is told apart.
pub proof fn lemma_finish_session_call(
    state: &mut AcpServerState,
    acp_id: &str,
    outcome: SessionOutcome,
    r: CreateSessionResponse,
)
    requires
        call_ensures(AcpServerState::finish_session, (state, acp_id, outcome), r),
    ensures
        match outcome {
            SessionOutcome::Created(id) => {
                &&& r@.session_id == Some(id@)
                &&& r@.status == "created"@
                &&& r@.error is None
                &&& final(state)@.sessions.contains_key(id@)
                &&& final(state)@.sessions[id@].acp_id == acp_id@
                &&& final(state)@.sessions[id@].id == id@
                &&& final(state)@.sessions[id@].next == 1
                &&& final(state)@.sessions[id@].serial == old(state)@.next_serial
                &&& final(state)@.sessions[id@].buffer.len() == 0
            },
            SessionOutcome::SendFailed(e) => r@ == (CreatedView {
                session_id: None,
                status: "error"@,
                error: Some("Failed to send request: "@ + e@),
            }),
            SessionOutcome::Failed(e) => r@.session_id is None && r@.error == Some(e@) && r@.status == (
            if text::has_part(e@, "auth_required"@) {
                "auth_required"@
            } else {
                "error"@
            }),
            SessionOutcome::TimedOut => r@ == (CreatedView {
                session_id: None,
                status: "error"@,
                error: Some("Request timed out"@),
            }),
        },
        !(outcome is Created) ==> final(state)@ == old(state)@,
        final(state)@.connections == old(state)@.connections,
        final(state)@.sockets == old(state)@.sockets,
{
}

/// A permission request and a notification of an agent get the next number of their session. They go to
/// the client that is there with what the agent said as it is, and wait for the client that is not. A
/// permission request is noted until it is answered.
pub proof fn lemma_agent_calls(state: &mut AcpServerState, session_id: &str, params: Json, r: Option<Told>)
    requires
        call_ensures(AcpServerState::session_notification, (state, session_id, params), r),
    ensures
        ({
            let before = old(state)@.sessions[session_id@];
            let after = final(state)@.sessions[session_id@];
            let present = old(state)@.sockets.contains_key(session_id@);
            let message = ServerView::SessionNotification { id: before.next, params: params@ };
            &&& r is Some <==> old(state)@.sessions.contains_key(session_id@)
            &&& r is None ==> final(state)@ == old(state)@
            &&& r is Some ==> {
                &&& r->0.id == before.next
                &&& r->0.send is Some <==> present
                &&& present ==> (r->0.send)->0@ == message && after.buffer == before.buffer
                &&& !present ==> after.buffer == before.buffer.push(message)
                &&& after.pending == before.pending
            }
        }),
{
}

/// A permission request goes to the client like a notification, and is noted until it is answered.
pub proof fn lemma_permission_call(state: &mut AcpServerState, session_id: &str, params: Json, r: Option<Told>)
    requires
        call_ensures(AcpServerState::request_permission, (state, session_id, params), r),
    ensures
        ({
            let before = old(state)@.sessions[session_id@];
            let after = final(state)@.sessions[session_id@];
            let present = old(state)@.sockets.contains_key(session_id@);
            let message = ServerView::PermissionRequest { id: before.next, params: params@ };
            &&& r is Some <==> old(state)@.sessions.contains_key(session_id@)
            &&& r is None ==> final(state)@ == old(state)@
            &&& r is Some ==> {
                &&& r->0.id == before.next
                &&& r->0.send is Some <==> present
                &&& present ==> (r->0.send)->0@ == message && after.buffer == before.buffer
                &&& !present ==> after.buffer == before.buffer.push(message)
                &&& after.pending == before.pending.insert(text::decimal(before.next as nat), ())
            }
        }),
{
}

/// A client that connects is there from then on, and gets the messages of its session that it has not
/// seen. One that disconnects is there no longer.
pub proof fn lemma_connect_call(
    state: &mut AcpServerState,
    session_id: &str,
    serial: u64,
    from_id: &Option<String>,
    r: Vec<ServerMessage>,
)
    requires
        call_ensures(AcpServerState::connect, (state, session_id, serial, from_id), r),
        old(state)@.sessions.contains_key(session_id@),
        old(state)@.sessions[session_id@].serial == serial,
    ensures
        acp_server::messages_view(r@) == acp_server::later_than(
            old(state)@.sessions[session_id@].buffer,
            acp_server::start_of(json::opt_text(*from_id)),
        ),
        final(state)@.sockets == old(state)@.sockets.insert(session_id@, ()),
        final(state)@.sessions == old(state)@.sessions,
        final(state)@.connections == old(state)@.connections,
{
}

/// A client's message is handled for the session that the client joined.
pub proof fn lemma_client_message_call(
    state: &mut AcpServerState,
    session_id: &str,
    serial: u64,
    message: ClientMessage,
    r: ClientStep,
)
    requires
        call_ensures(AcpServerState::handle_client_message, (state, session_id, serial, message), r),
    ensures
        (final(state)@, r@) == acp_server::client_step(old(state)@, session_id@, serial, message@),
{
}

/// What is written to clients and read from them goes by the laws of the JSON forms.
pub proof fn lemma_json_calls(
    status: &acp_server::ConnectionStatus,
    connection: &ConnectionInfo,
    update: &ConnectionUpdate,
    created: &CreateSessionResponse,
    session: &acp_server::SessionInfo,
    message: &ServerMessage,
    v: &Json,
    status_json: Json,
    connection_json: Json,
    update_json: Json,
    created_json: Json,
    session_json: Json,
    message_json: Json,
    read: Option<ClientMessage>,
)
    requires
        call_ensures(acp_server::ConnectionStatus::to_json, (status,), status_json),
        call_ensures(ConnectionInfo::to_json, (connection,), connection_json),
        call_ensures(ConnectionUpdate::to_json, (update,), update_json),
        call_ensures(CreateSessionResponse::to_json, (created,), created_json),
        call_ensures(acp_server::SessionInfo::to_json, (session,), session_json),
        call_ensures(ServerMessage::to_json, (message,), message_json),
        call_ensures(ClientMessage::from_json, (v,), read),
    ensures
        status_json@ == acp_server::status_json(status@),
        connection_json@ == acp_server::connection_json(connection@),
        update_json@ == acp_server::update_json(update@),
        created_json@ == acp_server::created_json(created@),
        session_json@ == JsonView::Obj(
            map!["id"@ => JsonView::Str(session.id@), "acpId"@ => JsonView::Str(session.acp_id@)],
        ),
        message_json@ == message@.json(),
        acp_server::opt_client(read) == acp_server::client_message_of(v@),
{
}

/// All connections are listed, each as it is, and so is the news of each.
pub proof fn lemma_list_calls(
    state: &AcpServerState,
    connections: Vec<ConnectionInfo>,
    updates: Vec<ConnectionUpdate>,
    sessions: Vec<acp_server::SessionInfo>,
    key: Seq<char>,
)
    requires
        call_ensures(AcpServerState::list_connections, (state,), connections),
        call_ensures(AcpServerState::current_updates, (state,), updates),
        call_ensures(AcpServerState::list_sessions, (state,), sessions),
        state.wf(),
    ensures
        state@.connections.contains_key(key) ==> exists|i: int|
            #![trigger connections@[i]]
            0 <= i < connections@.len() && connections@[i]@ == state@.connections[key] && updates@[i]@ == (
            UpdateView {
                id: state@.connections[key].id,
                status: state@.connections[key].status,
                capabilities: state@.connections[key].capabilities,
            }),
        connections@.len() == updates@.len(),
        state@.sessions.contains_key(key) ==> exists|i: int|
            #![trigger sessions@[i]]
            0 <= i < sessions@.len() && sessions@[i].id@ == state@.sessions[key].id && sessions@[i].acp_id@
                == state@.sessions[key].acp_id,
{
    state.connections.lemma_order();
    state.sessions.lemma_order();
    if state@.connections.contains_key(key) {
        let i = state.connections.order().index_of(key);
        assert(state.connections.order()[i] == key);
        assert(connections@[i]@ == state@.connections[key]);
        assert(updates@[i]@ == updates@[i]@);
    }
    if state@.sessions.contains_key(key) {
        let i = state.sessions.order().index_of(key);
        assert(state.sessions.order()[i] == key);
        assert(sessions@[i].id@ == state@.sessions[key].id);
    }
}

/// A session is found by its identity, and what it was is told by its number.
pub proof fn lemma_find_call(state: &AcpServerState, session_id: &str, r: Option<u64>)
    requires
        call_ensures(AcpServerState::find_session, (state, session_id), r),
    ensures
        r is Some <==> state@.sessions.contains_key(session_id@),
        r is Some ==> r->0 == state@.sessions[session_id@].serial,
{
}

/// The end of an agent ends its sessions and is news of its connection.
pub proof fn lemma_exit_call(
    state: &mut AcpServerState,
    acp_id: &str,
    r: (Vec<(String, Option<ServerMessage>)>, Option<ConnectionUpdate>),
)
    requires
        call_ensures(AcpServerState::handle_process_exit, (state, acp_id), r),
    ensures
        acp_server::exits_view(r.0@) == acp_server::exits(
            old(state)@,
            old(state).sessions.order(),
            acp_id@,
        ),
        final(state)@ == acp_server::exited(old(state)@, old(state).sessions.order(), acp_id@),
        r.1 is Some <==> old(state)@.connections.contains_key(acp_id@),
        r.1 is Some ==> (r.1)->0@ == (UpdateView {
            id: acp_id@,
            status: StatusView::Error { message: "Process exited"@ },
            capabilities: None,
        }),
{
}

/// How a prompt went is told to its client, and what a client has missed is picked out, as their laws
/// say.
pub proof fn lemma_message_calls(
    id: u64,
    outcome: PromptOutcome,
    messages: &Vec<ServerMessage>,
    answer: ServerMessage,
    later: Vec<ServerMessage>,
)
    requires
        call_ensures(acp_server::prompt_answer, (id, outcome), answer),
        call_ensures(acp_server::messages_after, (messages, id), later),
    ensures
        answer@ == acp_server::prompt_answer_view(id, outcome),
        acp_server::messages_view(later@) == acp_server::later_than(
            acp_server::messages_view(messages@),
            id,
        ),
{
}

/// A counter that is full starts over.
pub proof fn lemma_numbers(n: u64)
    ensures
        n < u64::MAX ==> acp_server::next_number(n) == n + 1,
        acp_server::next_number(u64::MAX) == 0,
{
}

/// A client may write the fields of what it says as a list, in their order: the type comes first, then the
/// number, then what belongs to it. A list of another length says nothing.
pub proof fn lemma_client_message_lists(items: Seq<JsonView>)
    ensures
        ({
            let read = acp_server::client_message_of(JsonView::Arr(items));
            let number = items[1].as_u64();
            let prompt = items.len() == 3 && items[0] == JsonView::Str("prompt"@);
            let response = items.len() == 3 && items[0] == JsonView::Str("permission-response"@);
            let ack = items.len() == 2 && items[0] == JsonView::Str("ack"@);
            &&& prompt && number is Some && items[2] is Arr ==> read == Some(
                ClientView::Prompt { id: number->0, messages: items[2] },
            )
            &&& response && number is Some ==> read == Some(
                ClientView::PermissionResponse { id: number->0, response: items[2] },
            )
            &&& ack && number is Some ==> read == Some(ClientView::Ack { latest_id: number->0 })
            &&& number is None || !prompt && !response && !ack || prompt && !(items[2] is Arr) ==> read
                is None
        }),
{
    reveal_strlit("prompt");
    reveal_strlit("permission-response");
    reveal_strlit("ack");
    assert("prompt"@.len() == 6);
    assert("permission-response"@.len() == 19);
    assert("ack"@.len() == 3);
}

} // verus!
