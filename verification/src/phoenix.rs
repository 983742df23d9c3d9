//! The Phoenix V2 wire format: messages, their text form and their binary form.

use vstd::prelude::*;
use vstd::slice::slice_subrange;

use crate::json;
use crate::json::{Json, JsonView};
use crate::text;

pub mod events;
pub mod laws;

verus! {

/// How a channel ended.
///
/// - `Done`: the client left or disconnected.
/// - `Error(reason)`: the join was refused.
/// - `Shutdown(reason)`: the channel failed after the join (a watcher died, a watched path was
///   removed).
pub enum InitResult {
    Done,
    Error(String),
    Shutdown(String),
}

/// The model of an [`InitResult`].
pub enum InitView {
    Done,
    Error(Seq<char>),
    Shutdown(Seq<char>),
}

impl View for InitResult {
    type V = InitView;

    open spec fn view(&self) -> InitView {
        match self {
            InitResult::Done => InitView::Done,
            InitResult::Error(reason) => InitView::Error(reason@),
            InitResult::Shutdown(reason) => InitView::Shutdown(reason@),
        }
    }
}

/// What a message carries.
#[derive(Debug)]
pub enum Payload {
    Json(Json),
    Binary(Vec<u8>),
}

/// The model of a [`Payload`].
pub enum PayloadView {
    Json(JsonView),
    Binary(Seq<u8>),
}

impl View for Payload {
    type V = PayloadView;

    open spec fn view(&self) -> PayloadView {
        match self {
            Payload::Json(v) => PayloadView::Json(v@),
            Payload::Binary(data) => PayloadView::Binary(data@),
        }
    }
}

impl Payload {
    /// The JSON value of a payload that is one.
    pub fn as_json(&self) -> (r: &Json)
        requires
            self@ is Json,
        ensures
            PayloadView::Json(r@) == self@,
    {
        match self {
            Payload::Json(v) => v,
            Payload::Binary(_) => {
                proof {
                    assert(false);
                }
                &Json::Null
            },
        }
    }

    /// The JSON value of a payload that is one.
    pub fn into_json(self) -> (r: Json)
        requires
            self@ is Json,
        ensures
            PayloadView::Json(r@) == self@,
    {
        match self {
            Payload::Json(v) => v,
            Payload::Binary(_) => {
                proof {
                    assert(false);
                }
                Json::Null
            },
        }
    }
}

/// A message of the Phoenix protocol.
#[derive(Debug)]
pub struct PhxMessage {
    pub join_ref: Option<String>,
    pub ref_: Option<String>,
    pub topic: String,
    pub event: String,
    pub payload: Payload,
}

/// The model of a [`PhxMessage`].
pub struct PhxView {
    pub join_ref: Option<Seq<char>>,
    pub ref_: Option<Seq<char>>,
    pub topic: Seq<char>,
    pub event: Seq<char>,
    pub payload: PayloadView,
}

impl View for PhxMessage {
    type V = PhxView;

    open spec fn view(&self) -> PhxView {
        PhxView {
            join_ref: json::opt_text(self.join_ref),
            ref_: json::opt_text(self.ref_),
            topic: self.topic@,
            event: self.event@,
            payload: self.payload@,
        }
    }
}

/// A push: a message that answers none.
pub open spec fn push_view(
    join_ref: Option<Seq<char>>,
    topic: Seq<char>,
    event: Seq<char>,
    payload: JsonView,
) -> PhxView {
    PhxView { join_ref, ref_: None, topic, event, payload: PayloadView::Json(payload) }
}

/// The payload `{"reason": reason}`.
pub open spec fn reason_json(reason: Seq<char>) -> JsonView {
    json::empty_object().with("reason"@, JsonView::Str(reason))
}

/// The payload `{"status": status, "response": response}`.
pub open spec fn reply_json(status: Seq<char>, response: JsonView) -> JsonView {
    json::empty_object().with("status"@, JsonView::Str(status)).with("response"@, response)
}

/// The answer to a message.
pub open spec fn reply_view(request: PhxView, status: Seq<char>, response: JsonView) -> PhxView {
    PhxView {
        join_ref: request.join_ref,
        ref_: request.ref_,
        topic: request.topic,
        event: events::PHX_REPLY@,
        payload: PayloadView::Json(reply_json(status, response)),
    }
}

/// The message that tells the client that a channel failed.
pub open spec fn error_view(topic: Seq<char>, join_ref: Option<Seq<char>>, reason: Seq<char>) -> PhxView {
    push_view(join_ref, topic, events::PHX_ERROR@, reason_json(reason))
}

/// The message that tells the client that a channel is closed.
pub open spec fn close_view(topic: Seq<char>, join_ref: Option<Seq<char>>) -> PhxView {
    push_view(join_ref, topic, events::PHX_CLOSE@, json::empty_object())
}

/// The answer to a heartbeat.
pub open spec fn heartbeat_view(request: PhxView) -> PhxView {
    PhxView {
        join_ref: None,
        ref_: request.ref_,
        topic: "phoenix"@,
        event: events::PHX_REPLY@,
        payload: PayloadView::Json(reply_json("ok"@, json::empty_object())),
    }
}

/// A reference as JSON: a string, or null where there is none.
pub open spec fn ref_json(reference: Option<Seq<char>>) -> JsonView {
    match reference {
        Some(s) => JsonView::Str(s),
        None => JsonView::Null,
    }
}

/// The items of the array `[join_ref, ref, topic, event, payload]`.
pub open spec fn wire_items(message: PhxView) -> Seq<JsonView> {
    seq![
        ref_json(message.join_ref),
        ref_json(message.ref_),
        JsonView::Str(message.topic),
        JsonView::Str(message.event),
        message.payload->Json_0,
    ]
}

/// The message that the items of an array stand for, or why they stand for none.
pub open spec fn decoded_items(items: Seq<JsonView>) -> Result<PhxView, Seq<char>> {
    if items.len() != 5 {
        Err("Expected 5 elements, got "@ + text::decimal(items.len()))
    } else if items[3].as_str() is None {
        Err("Invalid event"@)
    } else if items[2].as_str() is None {
        Err("Invalid topic"@)
    } else {
        Ok(
            PhxView {
                join_ref: items[0].as_str(),
                ref_: items[1].as_str(),
                topic: items[2].as_str()->0,
                event: items[3].as_str()->0,
                payload: PayloadView::Json(items[4]),
            },
        )
    }
}

/// The message that a text stands for, or why it stands for none.
pub open spec fn decoded(data: Seq<char>) -> Result<PhxView, Seq<char>> {
    match json::json_array_parsed(data) {
        Ok(items) => decoded_items(items),
        Err(e) => Err(e),
    }
}

/// Reading back the items of a message gives the message.
pub proof fn lemma_wire_round_trip(message: PhxView)
    requires
        message.payload is Json,
    ensures
        decoded_items(wire_items(message)) == Ok::<PhxView, Seq<char>>(message),
{
}

// ---------------------------------------------------------------------------
// Binary form
// ---------------------------------------------------------------------------

/// The text of the error that `std::str::from_utf8` reports for bytes that are not UTF-8.
pub uninterp spec fn utf8_error_text(bytes: Seq<u8>) -> Seq<char>;

/// `std::str::from_utf8`: the text that the bytes encode, or the text of the error where they
/// are not UTF-8.
#[verifier::external_body]
fn utf8_text(bytes: &[u8]) -> (r: Result<String, String>)
    ensures
        match r {
            Ok(s) => vstd::utf8::valid_utf8(bytes@) && s@ == vstd::utf8::decode_utf8(bytes@),
            Err(e) => !vstd::utf8::valid_utf8(bytes@) && e@ == utf8_error_text(bytes@),
        },
{
    std::str::from_utf8(bytes).map(|s| s.to_string()).map_err(|e| e.to_string())
}

/// The text that bytes encode, or the text of the error.
pub open spec fn utf8_decoded(bytes: Seq<u8>) -> Result<Seq<char>, Seq<char>> {
    if vstd::utf8::valid_utf8(bytes) {
        Ok(vstd::utf8::decode_utf8(bytes))
    } else {
        Err(utf8_error_text(bytes))
    }
}

/// A reference, which is absent where it is empty.
pub open spec fn non_empty(s: Seq<char>) -> Option<Seq<char>> {
    if s.len() == 0 {
        None
    } else {
        Some(s)
    }
}

/// The places at which the four texts of a binary push begin, and its payload.
pub open spec fn binary_offsets(buf: Seq<u8>) -> Seq<int> {
    let a = 5int;
    let b = a + buf[1];
    let c = b + buf[2];
    let d = c + buf[3];
    let e = d + buf[4];
    seq![a, b, c, d, e]
}

/// The message that a binary push stands for, or why it stands for none. The wire format is
/// `[kind = 0, join_ref_size, ref_size, topic_size, event_size, join_ref, ref, topic, event, data]`.
pub open spec fn decoded_binary(buf: Seq<u8>) -> Result<PhxView, Seq<char>> {
    let at = binary_offsets(buf);
    let join_ref = utf8_decoded(buf.subrange(at[0], at[1]));
    let ref_ = utf8_decoded(buf.subrange(at[1], at[2]));
    let topic = utf8_decoded(buf.subrange(at[2], at[3]));
    let event = utf8_decoded(buf.subrange(at[3], at[4]));
    if buf.len() < 5 {
        Err("binary message too short"@)
    } else if buf[0] != 0 {
        Err("expected push (kind 0), got kind "@ + text::decimal(buf[0] as nat))
    } else if buf.len() < at[4] {
        Err("binary message truncated"@)
    } else if join_ref is Err {
        Err(join_ref->Err_0)
    } else if ref_ is Err {
        Err(ref_->Err_0)
    } else if topic is Err {
        Err(topic->Err_0)
    } else if event is Err {
        Err(event->Err_0)
    } else {
        Ok(
            PhxView {
                join_ref: non_empty(join_ref->Ok_0),
                ref_: non_empty(ref_->Ok_0),
                topic: topic->Ok_0,
                event: event->Ok_0,
                payload: PayloadView::Binary(buf.skip(at[4])),
            },
        )
    }
}

/// The text of a reference, which is empty where the reference is absent.
pub open spec fn ref_text(reference: Option<Seq<char>>) -> Seq<char> {
    match reference {
        Some(s) => s,
        None => seq![],
    }
}

/// The bytes of a binary push.
pub open spec fn binary_push(message: PhxView) -> Seq<u8> {
    let join_ref = vstd::utf8::encode_utf8(ref_text(message.join_ref));
    let ref_ = vstd::utf8::encode_utf8(ref_text(message.ref_));
    let topic = vstd::utf8::encode_utf8(message.topic);
    let event = vstd::utf8::encode_utf8(message.event);
    seq![
        0u8,
        join_ref.len() as u8,
        ref_.len() as u8,
        topic.len() as u8,
        event.len() as u8,
    ] + join_ref + ref_ + topic + event + message.payload->Binary_0
}

/// Whether a message has a binary form: its payload is binary, no reference is an empty text, and
/// the size of each text fits one byte.
pub open spec fn fits_binary(message: PhxView) -> bool {
    &&& message.payload is Binary
    &&& message.join_ref != Some(Seq::<char>::empty())
    &&& message.ref_ != Some(Seq::<char>::empty())
    &&& vstd::utf8::encode_utf8(ref_text(message.join_ref)).len() < 256
    &&& vstd::utf8::encode_utf8(ref_text(message.ref_)).len() < 256
    &&& vstd::utf8::encode_utf8(message.topic).len() < 256
    &&& vstd::utf8::encode_utf8(message.event).len() < 256
}

/// Reading back the binary form of a message gives the message.
pub proof fn lemma_binary_round_trip(message: PhxView)
    requires
        fits_binary(message),
    ensures
        decoded_binary(binary_push(message)) == Ok::<PhxView, Seq<char>>(message),
{
    let join_ref = vstd::utf8::encode_utf8(ref_text(message.join_ref));
    let ref_ = vstd::utf8::encode_utf8(ref_text(message.ref_));
    let topic = vstd::utf8::encode_utf8(message.topic);
    let event = vstd::utf8::encode_utf8(message.event);
    let buf = binary_push(message);
    let at = binary_offsets(buf);
    assert(buf.subrange(at[0], at[1]) =~= join_ref);
    assert(buf.subrange(at[1], at[2]) =~= ref_);
    assert(buf.subrange(at[2], at[3]) =~= topic);
    assert(buf.subrange(at[3], at[4]) =~= event);
    assert(buf.skip(at[4]) =~= message.payload->Binary_0);
    vstd::utf8::encode_utf8_valid_utf8(ref_text(message.join_ref));
    vstd::utf8::encode_utf8_valid_utf8(ref_text(message.ref_));
    vstd::utf8::encode_utf8_valid_utf8(message.topic);
    vstd::utf8::encode_utf8_valid_utf8(message.event);
    vstd::utf8::encode_utf8_decode_utf8(ref_text(message.join_ref));
    vstd::utf8::encode_utf8_decode_utf8(ref_text(message.ref_));
    vstd::utf8::encode_utf8_decode_utf8(message.topic);
    vstd::utf8::encode_utf8_decode_utf8(message.event);
}

fn non_empty_ref(s: String) -> (r: Option<String>)
    ensures
        json::opt_text(r) == non_empty(s@),
{
    if s.as_str().is_empty() {
        None
    } else {
        Some(s)
    }
}

fn ref_value(reference: Option<String>) -> (r: Json)
    ensures
        r@ == ref_json(json::opt_text(reference)),
{
    match reference {
        Some(s) => Json::String(s),
        None => Json::Null,
    }
}

/// A copy of an optional text.
pub fn clone_text(value: &Option<String>) -> (r: Option<String>)
    ensures
        json::opt_text(r) == json::opt_text(*value),
{
    match value {
        Some(s) => Some(s.clone()),
        None => None,
    }
}

impl PhxMessage {
    /// A message without references.
    pub fn new(topic: &str, event: &str, payload: Json) -> (r: Self)
        ensures
            r@ == push_view(None, topic@, event@, payload@),
    {
        PhxMessage {
            join_ref: None,
            ref_: None,
            topic: topic.to_owned(),
            event: event.to_owned(),
            payload: Payload::Json(payload),
        }
    }

    /// The message with its reference set.
    pub fn with_ref(self, ref_: &str) -> (r: Self)
        ensures
            r@ == (PhxView { ref_: Some(ref_@), ..self@ }),
    {
        PhxMessage { ref_: Some(ref_.to_owned()), ..self }
    }

    /// The message with its join reference set.
    pub fn with_join_ref(self, join_ref: &str) -> (r: Self)
        ensures
            r@ == (PhxView { join_ref: Some(join_ref@), ..self@ }),
    {
        PhxMessage { join_ref: Some(join_ref.to_owned()), ..self }
    }

    /// The message that tells the client that a channel failed.
    pub fn error(topic: &str, join_ref: Option<String>, reason: &str) -> (r: Self)
        ensures
            r@ == error_view(topic@, json::opt_text(join_ref), reason@),
    {
        PhxMessage {
            join_ref,
            ref_: None,
            topic: topic.to_owned(),
            event: events::PHX_ERROR.to_owned(),
            payload: Payload::Json(Json::object().with("reason", Json::string(reason))),
        }
    }

    /// The answer that grants a request.
    pub fn ok_reply(request: &PhxMessage, response: Json) -> (r: Self)
        ensures
            r@ == reply_view(request@, "ok"@, response@),
    {
        Self::reply(request, "ok", response)
    }

    /// The answer that refuses a request.
    pub fn error_reply(request: &PhxMessage, reason: &str) -> (r: Self)
        ensures
            r@ == reply_view(request@, "error"@, reason_json(reason@)),
    {
        Self::reply(request, "error", Json::object().with("reason", Json::string(reason)))
    }

    /// The answer to a request.
    pub fn reply(request: &PhxMessage, status: &str, response: Json) -> (r: Self)
        ensures
            r@ == reply_view(request@, status@, response@),
    {
        PhxMessage {
            join_ref: clone_text(&request.join_ref),
            ref_: clone_text(&request.ref_),
            topic: request.topic.clone(),
            event: events::PHX_REPLY.to_owned(),
            payload: Payload::Json(
                Json::object().with("status", Json::string(status)).with("response", response),
            ),
        }
    }

    /// The message that tells the client that a channel is closed.
    pub fn close(topic: &str, join_ref: Option<String>) -> (r: Self)
        ensures
            r@ == close_view(topic@, json::opt_text(join_ref)),
    {
        PhxMessage {
            join_ref,
            ref_: None,
            topic: topic.to_owned(),
            event: events::PHX_CLOSE.to_owned(),
            payload: Payload::Json(Json::object()),
        }
    }

    /// The answer to a heartbeat.
    pub fn heartbeat_reply(request: &PhxMessage) -> (r: Self)
        ensures
            r@ == heartbeat_view(request@),
    {
        PhxMessage {
            join_ref: None,
            ref_: clone_text(&request.ref_),
            topic: "phoenix".to_owned(),
            event: events::PHX_REPLY.to_owned(),
            payload: Payload::Json(
                Json::object().with("status", Json::string("ok")).with("response", Json::object()),
            ),
        }
    }

    /// The text of the array `[join_ref, ref, topic, event, payload]`. Decoding it gives the
    /// message back where the payload is plain. A binary payload has no text form.
    pub fn encode(self) -> (r: String)
        requires
            self@.payload is Json,
        ensures
            r@ == json::json_text(JsonView::Arr(wire_items(self@))),
            json::plain(self@.payload->Json_0, (json::MAX_LEVELS - 1) as nat) ==> (decoded(r@) is Ok
                && decoded(r@)->Ok_0 == self@),
    {
        let ghost message = self@;
        let mut items: Vec<Json> = Vec::new();
        items.push(ref_value(self.join_ref));
        items.push(ref_value(self.ref_));
        items.push(Json::String(self.topic));
        items.push(Json::String(self.event));
        items.push(self.payload.into_json());
        let array = Json::array(items);
        proof {
            json::lemma_items_view(items@);
            assert(json::items_view(items@) =~= wire_items(message));
            lemma_wire_round_trip(message);
            if json::plain(message.payload->Json_0, (json::MAX_LEVELS - 1) as nat) {
                let levels = json::MAX_LEVELS as nat;
                assert forall|i: int| 0 <= i < 5 implies json::plain(
                    #[trigger] wire_items(message)[i],
                    (levels - 1) as nat,
                ) by {}
                assert(json::plain(array@, levels));
            }
        }
        array.to_text()
    }

    /// Reads the text form of a message.
    pub fn decode(data: &str) -> (r: Result<Self, String>)
        ensures
            match r {
                Ok(m) => decoded(data@) is Ok && decoded(data@)->Ok_0 == m@,
                Err(e) => decoded(data@) is Err && decoded(data@)->Err_0 == e@,
            },
    {
        match Json::parse_array(data) {
            Ok(array) => {
                let mut items = array;
                proof {
                    json::lemma_items_view(items@);
                }
                if items.len() != 5 {
                    return Err(
                        text::joined("Expected 5 elements, got ", text::number_text(items.len() as u64).as_str()),
                    );
                }
                let payload = match items.pop() {
                    Some(v) => v,
                    None => Json::Null,
                };
                let event = match items[3].as_str() {
                    Some(s) => s.to_owned(),
                    None => {
                        return Err("Invalid event".to_owned());
                    },
                };
                let topic = match items[2].as_str() {
                    Some(s) => s.to_owned(),
                    None => {
                        return Err("Invalid topic".to_owned());
                    },
                };
                let join_ref = match items[0].as_str() {
                    Some(s) => Some(s.to_owned()),
                    None => None,
                };
                let ref_ = match items[1].as_str() {
                    Some(s) => Some(s.to_owned()),
                    None => None,
                };
                Ok(PhxMessage { join_ref, ref_, topic, event, payload: Payload::Json(payload) })
            },
            Err(e) => Err(e),
        }
    }

    /// Reads the binary form of a message.
    pub fn decode_binary(buf: &[u8]) -> (r: Result<Self, String>)
        ensures
            match r {
                Ok(m) => decoded_binary(buf@) is Ok && decoded_binary(buf@)->Ok_0 == m@,
                Err(e) => decoded_binary(buf@) is Err && decoded_binary(buf@)->Err_0 == e@,
            },
    {
        if buf.len() < 5 {
            return Err("binary message too short".to_owned());
        }
        let kind: u8 = buf[0];
        if kind != 0 {
            return Err(
                text::joined("expected push (kind 0), got kind ", text::number_text(kind as u64).as_str()),
            );
        }
        let a: usize = 5;
        let b: usize = a + buf[1] as usize;
        let c: usize = b + buf[2] as usize;
        let d: usize = c + buf[3] as usize;
        let e: usize = d + buf[4] as usize;
        if buf.len() < e {
            return Err("binary message truncated".to_owned());
        }
        let join_ref = match utf8_text(slice_subrange(buf, a, b)) {
            Ok(s) => s,
            Err(error) => {
                return Err(error);
            },
        };
        let ref_ = match utf8_text(slice_subrange(buf, b, c)) {
            Ok(s) => s,
            Err(error) => {
                return Err(error);
            },
        };
        let topic = match utf8_text(slice_subrange(buf, c, d)) {
            Ok(s) => s,
            Err(error) => {
                return Err(error);
            },
        };
        let event = match utf8_text(slice_subrange(buf, d, e)) {
            Ok(s) => s,
            Err(error) => {
                return Err(error);
            },
        };
        let data = vstd::slice::slice_to_vec(slice_subrange(buf, e, buf.len()));
        assert(data@ =~= buf@.skip(e as int));
        Ok(
            PhxMessage {
                join_ref: non_empty_ref(join_ref),
                ref_: non_empty_ref(ref_),
                topic,
                event,
                payload: Payload::Binary(data),
            },
        )
    }
}

} // verus!
