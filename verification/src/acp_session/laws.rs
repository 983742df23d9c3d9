//! What holds of the parts of messages that the proxy reads and adds, and of the buffer of a session.

use vstd::prelude::*;

use crate::acp_session;
use crate::acp_session::{
    BufferedMessage, BufferedView, ExitView, NotificationId, SessionState, SessionView,
};
use crate::json;
use crate::json::JsonView;
use crate::jsonrpc::laws::has_text;
use crate::jsonrpc::{
    JsonRpcMessage, JsonRpcNotification, JsonRpcRequest, JsonRpcResponse, MessageView,
};
use crate::text;

verus! {

/// Parameters name a session exactly where they are an object with a text under `sessionId`.
pub proof fn lemma_session_named(params: Option<JsonView>, session_id: Seq<char>)
    ensures
        acp_session::session_id_of(params) == Some(session_id) <==> (params matches Some(JsonView::Obj(members))
            && members.contains_key("sessionId"@) && members["sessionId"@] == JsonView::Str(session_id)),
        acp_session::session_id_of(params) is None <==> !(params matches Some(JsonView::Obj(members))
            && has_text(members, "sessionId"@)),
{
}

/// A request and a notification name their session in the parameters, a response in the result.
pub proof fn lemma_scope(message: MessageView)
    ensures
        message matches MessageView::Request(m) ==> acp_session::scope_of(message) == m.params,
        message matches MessageView::Notification(m) ==> acp_session::scope_of(message) == m.params,
        message matches MessageView::Response(m) ==> acp_session::scope_of(message) == m.result,
{
}

/// The parameters of a load, as an object, are read exactly where they name a session and a latest
/// message, whatever else they hold.
pub proof fn lemma_load_params(members: Map<Seq<char>, JsonView>)
    ensures
        acp_session::session_and_latest(Some(JsonView::Obj(members))) is Some <==> has_text(
            members,
            "sessionId"@,
        ) && has_text(members, "latestId"@),
        acp_session::session_and_latest(Some(JsonView::Obj(members))) matches Some((session_id, latest_id))
            ==> members["sessionId"@] == JsonView::Str(session_id) && members["latestId"@] == JsonView::Str(
            latest_id,
        ),
        acp_session::session_and_latest(None) is None,
{
}

/// The parameters of an acknowledgement, as an object, are read exactly where they name a latest message,
/// and a session or none.
pub proof fn lemma_ack_params(members: Map<Seq<char>, JsonView>)
    ensures
        acp_session::ack_of(Some(JsonView::Obj(members))) is Some <==> has_text(members, "latestId"@) && (
        !members.contains_key("sessionId"@) || has_text(members, "sessionId"@)),
        acp_session::ack_of(Some(JsonView::Obj(members))) matches Some((session_id, latest_id)) ==> {
            &&& members["latestId"@] == JsonView::Str(latest_id)
            &&& match session_id {
                Some(s) => members.contains_key("sessionId"@) && members["sessionId"@] == JsonView::Str(s),
                None => !members.contains_key("sessionId"@),
            }
        },
        acp_session::ack_of(None) is None,
{
}

/// A result names the session that was made exactly where it has a text under `sessionId`.
pub proof fn lemma_new_session_named(members: Map<Seq<char>, JsonView>)
    ensures
        acp_session::new_session_of(JsonView::Obj(members)) is Some <==> has_text(members, "sessionId"@),
        acp_session::new_session_of(JsonView::Obj(members)) matches Some(session_id)
            ==> members["sessionId"@] == JsonView::Str(session_id),
{
}

/// Setting a member of `_meta` leaves the other members of the value, and those of its `_meta` object,
/// as they are.
pub proof fn lemma_meta(members: Map<Seq<char>, JsonView>, key: Seq<char>, meta: JsonView)
    ensures
        acp_session::with_meta(JsonView::Obj(members), key, meta) matches JsonView::Obj(after) && {
            &&& after.dom() =~= members.dom().insert("_meta"@)
            &&& forall|other: Seq<char>|
                other != "_meta"@ && members.contains_key(other) ==> #[trigger] after[other] == members[other]
            &&& after["_meta"@] matches JsonView::Obj(inner) && {
                &&& inner.contains_key(key)
                &&& inner[key] == meta
                &&& forall|other: Seq<char>|
                    other != key ==> (#[trigger] inner.contains_key(other) <==> (members.contains_key(
                        "_meta"@,
                    ) && (members["_meta"@] matches JsonView::Obj(before) && before.contains_key(other))))
                &&& forall|other: Seq<char>|
                    other != key && #[trigger] inner.contains_key(other) ==> (members["_meta"@] matches JsonView::Obj(before)
                        && inner[other] == before[other])
            }
        },
{
}

/// The answer to `initialize` tells the version and keeps everything else.
pub proof fn lemma_version_is_told(members: Map<Seq<char>, JsonView>, version: Seq<char>)
    ensures
        acp_session::with_version(Some(JsonView::Obj(members)), version) matches Some(JsonView::Obj(after)) && {
            &&& forall|other: Seq<char>|
                other != "_meta"@ ==> (#[trigger] after.contains_key(other) <==> members.contains_key(other))
            &&& forall|other: Seq<char>|
                other != "_meta"@ && #[trigger] after.contains_key(other) ==> after[other] == members[other]
            &&& after.contains_key("_meta"@)
            &&& after["_meta"@].get("tidewave.ai"@) matches Some(told) && told.get("version"@) == Some(
                JsonView::Str(version),
            )
        },
        acp_session::with_version(None, version) is None,
{
}

/// The agent's capabilities are passed on with those of the proxy beside them, and the rest of the
/// answer stays as it is. An answer without capabilities gets none.
pub proof fn lemma_capabilities_are_added(
    members: Map<Seq<char>, JsonView>,
    capabilities: Map<Seq<char>, JsonView>,
    own: JsonView,
)
    ensures
        members.contains_key("agentCapabilities"@) && members["agentCapabilities"@] == JsonView::Obj(
            capabilities,
        ) ==> (acp_session::with_own_capabilities(Some(JsonView::Obj(members)), own) matches Some(
            JsonView::Obj(after),
        ) && {
            &&& after.dom() =~= members.dom()
            &&& forall|other: Seq<char>|
                other != "agentCapabilities"@ && #[trigger] members.contains_key(other) ==> after[other]
                    == members[other]
            &&& after["agentCapabilities"@] matches JsonView::Obj(told) && {
                &&& forall|other: Seq<char>|
                    other != "_meta"@ ==> (#[trigger] told.contains_key(other) <==> capabilities.contains_key(
                        other,
                    ))
                &&& forall|other: Seq<char>|
                    other != "_meta"@ && #[trigger] told.contains_key(other) ==> told[other]
                        == capabilities[other]
                &&& told.contains_key("_meta"@)
                &&& told["_meta"@].get("tidewave.ai"@) == Some(own)
            }
        }),
        !members.contains_key("agentCapabilities"@) ==> acp_session::with_own_capabilities(
            Some(JsonView::Obj(members)),
            own,
        ) == Some(JsonView::Obj(members)),
        acp_session::with_own_capabilities(None, own) is None,
{
}

/// The proxy can load sessions, and, where it is asked to say so, end the agent.
pub proof fn lemma_own_capabilities(result: JsonView)
    ensures
        acp_session::session_load_capability().get("session/load"@) == Some(JsonView::Bool(true)),
        acp_session::session_load_capability().get("exit"@) is None,
        acp_session::with_capabilities(Some(result)) matches Some(after) && (result.get("agentCapabilities"@)
            matches Some(JsonView::Obj(capabilities)) ==> (after.get("agentCapabilities"@) matches Some(told)
            && (told.get("_meta"@) matches Some(meta) && (meta.get("tidewave.ai"@) matches Some(own)
            && own.get("session/load"@) == Some(JsonView::Bool(true)) && own.get("exit"@) == Some(
            JsonView::Bool(true),
        ))))),
{
    reveal_strlit("exit");
    reveal_strlit("session/load");
    assert("exit"@.len() == 4);
    assert("session/load"@.len() == 12);
}

/// What a client is told of the end of an agent: why, in words, and of the output what there is.
pub proof fn lemma_exit_members(exit: ExitView)
    ensures
        acp_session::exit_json(exit) matches JsonView::Obj(members) && {
            &&& forall|key: Seq<char>| #[trigger]
                members.contains_key(key) <==> key == "error"@ || key == "message"@ || (key == "stdout"@
                    && exit.stdout is Some) || (key == "stderr"@ && exit.stderr is Some)
            &&& members["error"@] == JsonView::Str(exit.error)
            &&& members["message"@] == JsonView::Str(exit.message)
            &&& exit.stdout is Some ==> members["stdout"@] == JsonView::Str(exit.stdout->0)
            &&& exit.stderr is Some ==> members["stderr"@] == JsonView::Str(exit.stderr->0)
        },
{
    reveal_strlit("error");
    reveal_strlit("message");
    reveal_strlit("stdout");
    reveal_strlit("stderr");
    assert("error"@.len() == 5);
    assert("message"@.len() == 7);
    assert("stdout"@[3] == 'o');
    assert("stderr"@[3] == 'e');
}

/// The answer to a load says whether the session was cancelled, and nothing else.
pub proof fn lemma_load_result(cancelled: bool)
    ensures
        acp_session::load_result_json(cancelled) matches JsonView::Obj(members) && members.dom() =~= set![
            "cancelled"@,
        ] && members["cancelled"@] == JsonView::Bool(cancelled),
{
}

/// Of the buffer, exactly what follows the first message with an identity is asked for, and all of it
/// where no message has that identity.
pub proof fn lemma_messages_after(buffer: Seq<BufferedView>, id: Seq<char>)
    ensures
        (forall|k: int| 0 <= k < buffer.len() ==> (#[trigger] buffer[k]).id != id)
            ==> acp_session::messages_after(buffer, id) == buffer,
        forall|i: int|
            0 <= i < buffer.len() && (#[trigger] buffer[i]).id == id && (forall|k: int|
                0 <= k < i ==> (#[trigger] buffer[k]).id != id) ==> {
                let after = acp_session::messages_after(buffer, id);
                &&& after.len() == buffer.len() - i - 1
                &&& forall|k: int| 0 <= k < after.len() ==> #[trigger] after[k] == buffer[i + 1 + k]
            },
{
    if forall|k: int| 0 <= k < buffer.len() ==> (#[trigger] buffer[k]).id != id {
        assert(!acp_session::is_buffered(buffer, id));
    }
    assert forall|i: int|
        0 <= i < buffer.len() && (#[trigger] buffer[i]).id == id && (forall|k: int|
            0 <= k < i ==> (#[trigger] buffer[k]).id != id) implies {
        let after = acp_session::messages_after(buffer, id);
        &&& after.len() == buffer.len() - i - 1
        &&& forall|k: int| 0 <= k < after.len() ==> #[trigger] after[k] == buffer[i + 1 + k]
    } by {
        assert(acp_session::is_first(buffer, id, i));
        acp_session::lemma_after_at(buffer, id, i);
    }
}

/// A message that is buffered stands at the end, under its identity, and nothing else of the session
/// changes.
pub proof fn lemma_buffered_at_the_end(session: SessionView, message: MessageView, id: Seq<char>)
    ensures
        ({
            let after = acp_session::session_with(session, message, id);
            &&& after.buffer.len() == session.buffer.len() + 1
            &&& after.buffer.last().id == id
            &&& after.buffer.last().message == message
            &&& after.buffer.drop_last() =~= session.buffer
            &&& after.process_key == session.process_key
            &&& after.next_notification == session.next_notification
            &&& after.cancelled == session.cancelled
            &&& after.cancel_counter == session.cancel_counter
        }),
{
}

/// Acknowledging a message changes nothing but the buffer.
pub proof fn lemma_pruning_keeps_the_rest(session: SessionView, latest_id: Seq<char>)
    ensures
        ({
            let after = acp_session::pruned(session, latest_id);
            &&& after.buffer == acp_session::messages_after(session.buffer, latest_id)
            &&& after.process_key == session.process_key
            &&& after.next_notification == session.next_notification
            &&& after.cancelled == session.cancelled
            &&& after.cancel_counter == session.cancel_counter
        }),
{
}

/// A new session has an empty buffer, is not cancelled, and gives its first notification the number one.
pub proof fn lemma_new_session(process_key: Seq<char>)
    ensures
        ({
            let session = acp_session::new_session(process_key);
            &&& session.process_key == process_key
            &&& session.buffer.len() == 0
            &&& acp_session::notification_id(session.next_notification) == "notif_1"@
            &&& !session.cancelled
            &&& session.cancel_counter == 0
        }),
{
    reveal_strlit("notif_");
    reveal_strlit("notif_1");
    assert(acp_session::notification_id(1) =~= "notif_1"@);
}

/// The identity of a notification is its number after `notif_`.
pub proof fn lemma_notification_id_text(n: u64)
    ensures
        ({
            let id = acp_session::notification_id(n);
            &&& id.take(6) =~= seq!['n', 'o', 't', 'i', 'f', '_']
            &&& id.skip(6) =~= text::decimal(n as nat)
        }),
{
    reveal_strlit("notif_");
}

/// Counters go up by one, and a full counter starts over.
pub proof fn lemma_counts(n: u64)
    ensures
        n < u64::MAX ==> acp_session::next_count(n) == n + 1,
        acp_session::next_count(u64::MAX) == 0,
{
}

// ---------------------------------------------------------------------------
// What the calls do
// ---------------------------------------------------------------------------

/// A notification gets its identity and keeps its version and its method. A response gets the version and
/// the capabilities in its result, and keeps everything else.
pub proof fn lemma_injection_calls(
    notification: &mut JsonRpcNotification,
    notif_id: NotificationId,
    response: &mut JsonRpcResponse,
    version: &str,
)
    requires
        call_ensures(acp_session::inject_notification_id, (notification, notif_id), ()),
        call_ensures(acp_session::inject_tidewave_version, (response, version), ()),
    ensures
        final(notification)@.jsonrpc == old(notification)@.jsonrpc,
        final(notification)@.method == old(notification)@.method,
        final(notification)@.params == acp_session::with_notification_id(
            old(notification)@.params,
            notif_id@,
        ),
        final(response)@.id == old(response)@.id,
        final(response)@.error == old(response)@.error,
        final(response)@.jsonrpc == old(response)@.jsonrpc,
        final(response)@.result == acp_session::with_version(old(response)@.result, version@),
{
}

/// The session that a message or a request is about is the one that it names.
pub proof fn lemma_session_calls(
    message: &JsonRpcMessage,
    request: &JsonRpcRequest,
    of_message: Option<String>,
    of_request: Option<String>,
)
    requires
        call_ensures(acp_session::extract_session_id_from_message, (message,), of_message),
        call_ensures(acp_session::extract_session_id_from_request, (request,), of_request),
    ensures
        json::opt_text(of_message) == acp_session::session_id_of(acp_session::scope_of(message@)),
        json::opt_text(of_request) == acp_session::session_id_of(request@.params),
{
}

/// A message that is kept is the last of the buffer and has the identity that it is given. Notifications
/// are numbered one after the other.
pub proof fn lemma_buffer_call(session: &mut SessionState, message: JsonRpcMessage, id: NotificationId, r: NotificationId)
    requires
        call_ensures(SessionState::add_to_buffer, (session, message, id), r),
    ensures
        r@ == id@,
        final(session)@.buffer == old(session)@.buffer.push(BufferedView { id: id@, message: message@ }),
        final(session)@.next_notification == old(session)@.next_notification,
        final(session)@.cancelled == old(session)@.cancelled,
        final(session)@.cancel_counter == old(session)@.cancel_counter,
{
}

/// Notifications are numbered one after the other.
pub proof fn lemma_notification_call(session: &mut SessionState, r: NotificationId)
    requires
        call_ensures(SessionState::generate_notification_id, (session,), r),
        old(session)@.next_notification < u64::MAX,
    ensures
        r@ == "notif_"@ + text::decimal(old(session)@.next_notification as nat),
        final(session)@.next_notification == old(session)@.next_notification + 1,
        final(session)@.buffer == old(session)@.buffer,
{
}

/// Pruning a buffer, and reading what comes after a message, do what their laws say.
pub proof fn lemma_reading_calls(
    session: &mut SessionState,
    latest_id: &str,
    buffer: &[BufferedMessage],
    missed: Vec<BufferedMessage>,
)
    requires
        call_ensures(SessionState::prune_buffer, (session, latest_id), ()),
        call_ensures(SessionState::get_buffered_messages_after, (buffer, latest_id), missed),
    ensures
        final(session)@ == acp_session::pruned(old(session)@, latest_id@),
        acp_session::buffer_view(missed@) == acp_session::messages_after(
            acp_session::buffer_view(buffer@),
            latest_id@,
        ),
{
}

/// Parameters may be written as lists: the session first and then the latest message, both of them texts.
/// The result that names a new session may be a list with its identifier alone.
pub proof fn lemma_lists(items: Seq<JsonView>)
    ensures
        ({
            let params = Some(JsonView::Arr(items));
            let session = items[0].as_str();
            let latest = items[1].as_str();
            let both = items.len() == 2 && session is Some && latest is Some;
            &&& both ==> acp_session::session_and_latest(params) == Some((session->0, latest->0))
            &&& both ==> acp_session::ack_of(params) == Some((session, latest->0))
            &&& !both ==> acp_session::session_and_latest(params) is None && acp_session::ack_of(params)
                is None
            &&& items.len() == 1 ==> acp_session::new_session_of(JsonView::Arr(items)) == session
            &&& items.len() != 1 ==> acp_session::new_session_of(JsonView::Arr(items)) is None
        }),
{
}

} // verus!
