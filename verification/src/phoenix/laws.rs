//! What the messages of the Phoenix protocol hold.

use vstd::prelude::*;

use crate::channel_result;
use crate::channel_result::JoinView;
use crate::json;
use crate::json::{Json, JsonView};
use crate::phoenix;
use crate::phoenix::events;
use crate::phoenix::{PayloadView, PhxMessage, PhxView};
use crate::text;
use crate::ws::SenderView;

verus! {

/// The names of the events of the protocol itself.
pub proof fn lemma_event_names()
    ensures
        events::PHX_JOIN@ == "phx_join"@,
        events::PHX_LEAVE@ == "phx_leave"@,
        events::PHX_REPLY@ == "phx_reply"@,
        events::PHX_ERROR@ == "phx_error"@,
        events::PHX_CLOSE@ == "phx_close"@,
        events::HEARTBEAT@ == "heartbeat"@,
{
}

/// A reply goes to the topic and the join of its request and carries the reference of the request. Its
/// payload says how the request went, and what came of it.
pub proof fn lemma_reply(request: PhxView, status: Seq<char>, response: JsonView)
    ensures
        ({
            let reply = phoenix::reply_view(request, status, response);
            &&& reply.join_ref == request.join_ref
            &&& reply.ref_ == request.ref_
            &&& reply.topic == request.topic
            &&& reply.event == "phx_reply"@
            &&& reply.payload == PayloadView::Json(
                JsonView::Obj(map!["status"@ => JsonView::Str(status), "response"@ => response]),
            )
        }),
{
    lemma_reply_members(status, response);
}

/// The payload of a reply says how a request went, and what came of it.
pub proof fn lemma_reply_members(status: Seq<char>, response: JsonView)
    ensures
        phoenix::reply_json(status, response).get("status"@) == Some(JsonView::Str(status)),
        phoenix::reply_json(status, response).get("response"@) == Some(response),
        phoenix::reply_json(status, response) == JsonView::Obj(
            map!["status"@ => JsonView::Str(status), "response"@ => response],
        ),
{
    reveal_strlit("status");
    reveal_strlit("response");
    assert("status"@.len() == 6);
    assert("response"@.len() == 8);
}

/// A push answers no request: it has no reference. It carries its event and its payload to the topic
/// and the join of the channel.
pub proof fn lemma_push(sender: SenderView, event: Seq<char>, payload: JsonView)
    ensures
        sender.push(event, payload) == (PhxView {
            join_ref: sender.join_ref,
            ref_: None,
            topic: sender.topic,
            event,
            payload: PayloadView::Json(payload),
        }),
        phoenix::push_view(sender.join_ref, sender.topic, event, payload) == sender.push(event, payload),
{
}

/// The end of a channel is told with an error and its reason, or, where nothing went wrong, with an
/// empty close.
pub proof fn lemma_ends(topic: Seq<char>, join_ref: Option<Seq<char>>, reason: Seq<char>)
    ensures
        phoenix::error_view(topic, join_ref, reason) == (PhxView {
            join_ref,
            ref_: None,
            topic,
            event: "phx_error"@,
            payload: PayloadView::Json(JsonView::Obj(map!["reason"@ => JsonView::Str(reason)])),
        }),
        phoenix::close_view(topic, join_ref) == (PhxView {
            join_ref,
            ref_: None,
            topic,
            event: "phx_close"@,
            payload: PayloadView::Json(JsonView::Obj(Map::<Seq<char>, JsonView>::empty())),
        }),
        phoenix::reason_json(reason) == JsonView::Obj(map!["reason"@ => JsonView::Str(reason)]),
        channel_result::refused(reason) == JoinView::Refused(
            JsonView::Obj(map!["reason"@ => JsonView::Str(reason)]),
        ),
{
}

/// A heartbeat is answered on its own topic with the reference that it came with: all is well.
pub proof fn lemma_heartbeat(request: PhxView)
    ensures
        ({
            let reply = phoenix::heartbeat_view(request);
            &&& reply.join_ref is None
            &&& reply.ref_ == request.ref_
            &&& reply.topic == "phoenix"@
            &&& reply.event == "phx_reply"@
            &&& reply.payload == PayloadView::Json(
                JsonView::Obj(
                    map![
                        "status"@ => JsonView::Str("ok"@),
                        "response"@ => JsonView::Obj(Map::<Seq<char>, JsonView>::empty()),
                    ],
                ),
            )
        }),
{
    lemma_reply_members("ok"@, json::empty_object());
}

/// On the wire a message is a list of five: the reference of the join, its own reference, the topic, the
/// event and the payload. A reference that is missing is null.
pub proof fn lemma_wire(message: PhxView)
    requires
        message.payload is Json,
    ensures
        ({
            let items = phoenix::wire_items(message);
            &&& items.len() == 5
            &&& items[0] == (match message.join_ref {
                Some(reference) => JsonView::Str(reference),
                None => JsonView::Null,
            })
            &&& items[1] == (match message.ref_ {
                Some(reference) => JsonView::Str(reference),
                None => JsonView::Null,
            })
            &&& items[2] == JsonView::Str(message.topic)
            &&& items[3] == JsonView::Str(message.event)
            &&& items[4] == message.payload->Json_0
        }),
{
}

/// A list is read as a message exactly if it has five items of which the third and the fourth are texts.
/// References that are no texts are missing; the payload may be anything.
pub proof fn lemma_read(items: Seq<JsonView>)
    ensures
        phoenix::decoded_items(items) is Ok <==> items.len() == 5 && items[2] is Str && items[3] is Str,
        phoenix::decoded_items(items) is Ok ==> phoenix::decoded_items(items)->Ok_0 == (PhxView {
            join_ref: if items[0] is Str {
                Some(items[0]->Str_0)
            } else {
                None
            },
            ref_: if items[1] is Str {
                Some(items[1]->Str_0)
            } else {
                None
            },
            topic: items[2]->Str_0,
            event: items[3]->Str_0,
            payload: PayloadView::Json(items[4]),
        }),
        items.len() != 5 ==> phoenix::decoded_items(items) == Err::<PhxView, Seq<char>>(
            "Expected 5 elements, got "@ + text::decimal(items.len()),
        ),
        items.len() == 5 && !(items[3] is Str) ==> phoenix::decoded_items(items) == Err::<
            PhxView,
            Seq<char>,
        >("Invalid event"@),
        items.len() == 5 && items[3] is Str && !(items[2] is Str) ==> phoenix::decoded_items(items) == Err::<
            PhxView,
            Seq<char>,
        >("Invalid topic"@),
{
}

/// A text is read as the list that it holds, and one that holds no list is refused with the reason.
pub proof fn lemma_text_is_read(data: Seq<char>)
    ensures
        json::json_array_parsed(data) is Ok ==> phoenix::decoded(data) == phoenix::decoded_items(
            json::json_array_parsed(data)->Ok_0,
        ),
        json::json_array_parsed(data) is Err ==> phoenix::decoded(data) == Err::<PhxView, Seq<char>>(
            json::json_array_parsed(data)->Err_0,
        ),
{
}

/// What is wrong with a binary message that is not read: too short for its head, not a push, or shorter
/// than its head says.
pub proof fn lemma_binary_problems(buf: Seq<u8>)
    ensures
        buf.len() < 5 ==> phoenix::decoded_binary(buf) == Err::<PhxView, Seq<char>>(
            "binary message too short"@,
        ),
        buf.len() >= 5 && buf[0] != 0 ==> phoenix::decoded_binary(buf) == Err::<PhxView, Seq<char>>(
            "expected push (kind 0), got kind "@ + text::decimal(buf[0] as nat),
        ),
        buf.len() >= 5 && buf[0] == 0 && buf.len() < 5 + buf[1] + buf[2] + buf[3] + buf[4]
            ==> phoenix::decoded_binary(buf) == Err::<PhxView, Seq<char>>("binary message truncated"@),
{
}

/// A binary message that is read carries all the bytes behind its head as they are.
pub proof fn lemma_binary_payload(buf: Seq<u8>)
    requires
        phoenix::decoded_binary(buf) is Ok,
    ensures
        phoenix::decoded_binary(buf)->Ok_0.payload == PayloadView::Binary(
            buf.skip(5 + buf[1] + buf[2] + buf[3] + buf[4]),
        ),
        buf[0] == 0,
{
}

// ---------------------------------------------------------------------------
// What the calls do
// ---------------------------------------------------------------------------

/// A message begins without references, and gets those that it is given.
pub proof fn lemma_new_calls(
    topic: &str,
    event: &str,
    payload: Json,
    before: PhxMessage,
    reference: &str,
    made: PhxMessage,
    referred: PhxMessage,
    joined: PhxMessage,
)
    requires
        call_ensures(PhxMessage::new, (topic, event, payload), made),
        call_ensures(PhxMessage::with_ref, (before, reference), referred),
        call_ensures(PhxMessage::with_join_ref, (before, reference), joined),
    ensures
        made@ == (PhxView {
            join_ref: None,
            ref_: None,
            topic: topic@,
            event: event@,
            payload: PayloadView::Json(payload@),
        }),
        referred@ == (PhxView { ref_: Some(reference@), ..before@ }),
        joined@ == (PhxView { join_ref: Some(reference@), ..before@ }),
{
}

/// A request is answered with `ok` and what came of it, or with `error` and the reason.
pub proof fn lemma_reply_calls(
    request: &PhxMessage,
    status: &str,
    response: Json,
    reason: &str,
    ok: PhxMessage,
    error: PhxMessage,
    other: PhxMessage,
)
    requires
        call_ensures(PhxMessage::ok_reply, (request, response), ok),
        call_ensures(PhxMessage::error_reply, (request, reason), error),
        call_ensures(PhxMessage::reply, (request, status, response), other),
    ensures
        ok@ == (PhxView {
            event: "phx_reply"@,
            payload: PayloadView::Json(
                JsonView::Obj(map!["status"@ => JsonView::Str("ok"@), "response"@ => response@]),
            ),
            ..request@
        }),
        error@ == (PhxView {
            event: "phx_reply"@,
            payload: PayloadView::Json(
                JsonView::Obj(
                    map![
                        "status"@ => JsonView::Str("error"@),
                        "response"@ => JsonView::Obj(map!["reason"@ => JsonView::Str(reason@)]),
                    ],
                ),
            ),
            ..request@
        }),
        other@ == (PhxView {
            event: "phx_reply"@,
            payload: PayloadView::Json(
                JsonView::Obj(map!["status"@ => JsonView::Str(status@), "response"@ => response@]),
            ),
            ..request@
        }),
{
}

/// Errors, closes and answers to heartbeats carry what their laws say.
pub proof fn lemma_end_calls(
    topic: &str,
    join_ref: Option<String>,
    reason: &str,
    request: &PhxMessage,
    error: PhxMessage,
    close: PhxMessage,
    beat: PhxMessage,
)
    requires
        call_ensures(PhxMessage::error, (topic, join_ref, reason), error),
        call_ensures(PhxMessage::close, (topic, join_ref), close),
        call_ensures(PhxMessage::heartbeat_reply, (request,), beat),
    ensures
        error@ == phoenix::error_view(topic@, json::opt_text(join_ref), reason@),
        close@ == phoenix::close_view(topic@, json::opt_text(join_ref)),
        beat@ == phoenix::heartbeat_view(request@),
{
}

/// A message is written as its list of five, and read as the list or the bytes that it holds.
pub proof fn lemma_wire_calls(
    message: PhxMessage,
    data: &str,
    buf: &[u8],
    written: String,
    read: Result<PhxMessage, String>,
    read_binary: Result<PhxMessage, String>,
)
    requires
        call_ensures(PhxMessage::encode, (message,), written),
        call_ensures(PhxMessage::decode, (data,), read),
        call_ensures(PhxMessage::decode_binary, (buf,), read_binary),
    ensures
        written@ == json::json_text(JsonView::Arr(phoenix::wire_items(message@))),
        read is Ok <==> phoenix::decoded(data@) is Ok,
        read is Ok ==> read->Ok_0@ == phoenix::decoded(data@)->Ok_0,
        read is Err ==> read->Err_0@ == phoenix::decoded(data@)->Err_0,
        read_binary is Ok <==> phoenix::decoded_binary(buf@) is Ok,
        read_binary is Ok ==> read_binary->Ok_0@ == phoenix::decoded_binary(buf@)->Ok_0,
        read_binary is Err ==> read_binary->Err_0@ == phoenix::decoded_binary(buf@)->Err_0,
{
}

} // verus!
