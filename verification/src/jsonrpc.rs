//! JSON-RPC messages as the ACP proxy sees them, and what the proxy reads from and adds to them.

use vstd::prelude::*;

use crate::json;
use crate::json::{Json, JsonView};

pub mod laws;

verus! {

/// The version that every message of the proxy's own names.
pub const JSONRPC_VERSION: &'static str = "2.0";

/// A message between a client and an agent.
#[derive(Debug)]
pub enum JsonRpcMessage {
    Request(JsonRpcRequest),
    Response(JsonRpcResponse),
    Notification(JsonRpcNotification),
}

#[derive(Debug)]
pub struct JsonRpcRequest {
    pub jsonrpc: String,
    pub id: Json,
    pub method: String,
    pub params: Option<Json>,
}

#[derive(Debug)]
pub struct JsonRpcResponse {
    pub jsonrpc: String,
    pub id: Json,
    pub result: Option<Json>,
    pub error: Option<JsonRpcError>,
}

#[derive(Debug)]
pub struct JsonRpcNotification {
    pub jsonrpc: String,
    pub method: String,
    pub params: Option<Json>,
}

#[derive(Debug)]
pub struct JsonRpcError {
    pub code: i32,
    pub message: String,
    pub data: Option<Json>,
}

/// The model of a [`JsonRpcMessage`].
pub enum MessageView {
    Request(RequestView),
    Response(ResponseView),
    Notification(NotificationView),
}

/// The model of a [`JsonRpcRequest`].
pub struct RequestView {
    pub jsonrpc: Seq<char>,
    pub id: JsonView,
    pub method: Seq<char>,
    pub params: Option<JsonView>,
}

/// The model of a [`JsonRpcResponse`].
pub struct ResponseView {
    pub jsonrpc: Seq<char>,
    pub id: JsonView,
    pub result: Option<JsonView>,
    pub error: Option<ErrorView>,
}

/// The model of a [`JsonRpcNotification`].
pub struct NotificationView {
    pub jsonrpc: Seq<char>,
    pub method: Seq<char>,
    pub params: Option<JsonView>,
}

/// The model of a [`JsonRpcError`].
pub struct ErrorView {
    pub code: i32,
    pub message: Seq<char>,
    pub data: Option<JsonView>,
}

impl View for JsonRpcMessage {
    type V = MessageView;

    open spec fn view(&self) -> MessageView {
        match self {
            JsonRpcMessage::Request(r) => MessageView::Request(r@),
            JsonRpcMessage::Response(r) => MessageView::Response(r@),
            JsonRpcMessage::Notification(n) => MessageView::Notification(n@),
        }
    }
}

impl View for JsonRpcRequest {
    type V = RequestView;

    open spec fn view(&self) -> RequestView {
        RequestView {
            jsonrpc: self.jsonrpc@,
            id: self.id@,
            method: self.method@,
            params: json::opt_json(self.params),
        }
    }
}

impl View for JsonRpcResponse {
    type V = ResponseView;

    open spec fn view(&self) -> ResponseView {
        ResponseView {
            jsonrpc: self.jsonrpc@,
            id: self.id@,
            result: json::opt_json(self.result),
            error: opt_error(self.error),
        }
    }
}

impl View for JsonRpcNotification {
    type V = NotificationView;

    open spec fn view(&self) -> NotificationView {
        NotificationView {
            jsonrpc: self.jsonrpc@,
            method: self.method@,
            params: json::opt_json(self.params),
        }
    }
}

impl View for JsonRpcError {
    type V = ErrorView;

    open spec fn view(&self) -> ErrorView {
        ErrorView { code: self.code, message: self.message@, data: json::opt_json(self.data) }
    }
}

/// The model of an optional error.
pub open spec fn opt_error(error: Option<JsonRpcError>) -> Option<ErrorView> {
    match error {
        Some(e) => Some(e@),
        None => None,
    }
}

impl Clone for JsonRpcError {
    fn clone(&self) -> (r: Self)
        ensures
            r@ == self@,
    {
        JsonRpcError { code: self.code, message: self.message.clone(), data: json::clone_opt(&self.data) }
    }
}

impl Clone for JsonRpcRequest {
    fn clone(&self) -> (r: Self)
        ensures
            r@ == self@,
    {
        JsonRpcRequest {
            jsonrpc: self.jsonrpc.clone(),
            id: self.id.clone(),
            method: self.method.clone(),
            params: json::clone_opt(&self.params),
        }
    }
}

impl Clone for JsonRpcResponse {
    fn clone(&self) -> (r: Self)
        ensures
            r@ == self@,
    {
        JsonRpcResponse {
            jsonrpc: self.jsonrpc.clone(),
            id: self.id.clone(),
            result: json::clone_opt(&self.result),
            error: match &self.error {
                Some(e) => Some(e.clone()),
                None => None,
            },
        }
    }
}

impl Clone for JsonRpcNotification {
    fn clone(&self) -> (r: Self)
        ensures
            r@ == self@,
    {
        JsonRpcNotification {
            jsonrpc: self.jsonrpc.clone(),
            method: self.method.clone(),
            params: json::clone_opt(&self.params),
        }
    }
}

impl Clone for JsonRpcMessage {
    fn clone(&self) -> (r: Self)
        ensures
            r@ == self@,
    {
        match self {
            JsonRpcMessage::Request(m) => JsonRpcMessage::Request(m.clone()),
            JsonRpcMessage::Response(m) => JsonRpcMessage::Response(m.clone()),
            JsonRpcMessage::Notification(m) => JsonRpcMessage::Notification(m.clone()),
        }
    }
}

// ---------------------------------------------------------------------------
// The JSON form of messages
// ---------------------------------------------------------------------------

/// The JSON form of a message. A request and a notification write absent parameters as null; a
/// response leaves out what is absent.
pub open spec fn message_json(message: MessageView) -> JsonView {
    match message {
        MessageView::Request(m) => json::empty_object().with("jsonrpc"@, JsonView::Str(m.jsonrpc)).with(
            "id"@,
            m.id,
        ).with("method"@, JsonView::Str(m.method)).with("params"@, or_null(m.params)),
        MessageView::Response(m) => with_some(
            with_some(
                json::empty_object().with("jsonrpc"@, JsonView::Str(m.jsonrpc)).with("id"@, m.id),
                "result"@,
                m.result,
            ),
            "error"@,
            match m.error {
                Some(e) => Some(error_json(e)),
                None => None,
            },
        ),
        MessageView::Notification(m) => json::empty_object().with("jsonrpc"@, JsonView::Str(m.jsonrpc)).with(
            "method"@,
            JsonView::Str(m.method),
        ).with("params"@, or_null(m.params)),
    }
}

/// The JSON form of an error.
pub open spec fn error_json(error: ErrorView) -> JsonView {
    with_some(
        json::empty_object().with("code"@, json::integer_json(error.code as i64)).with(
            "message"@,
            JsonView::Str(error.message),
        ),
        "data"@,
        error.data,
    )
}

/// The fields of an error, in their order.
pub open spec fn error_fields(error: ErrorView) -> Seq<(Seq<char>, Seq<char>)> {
    with_field(
        seq![
            ("code"@, json::json_text(json::integer_json(error.code as i64))),
            ("message"@, json::json_text(JsonView::Str(error.message))),
        ],
        "data"@,
        match error.data {
            Some(data) => Some(json::json_text(data)),
            None => None,
        },
    )
}

/// The fields of a message, in their order.
pub open spec fn message_fields(message: MessageView) -> Seq<(Seq<char>, Seq<char>)> {
    match message {
        MessageView::Request(m) => seq![
            ("jsonrpc"@, json::json_text(JsonView::Str(m.jsonrpc))),
            ("id"@, json::json_text(m.id)),
            ("method"@, json::json_text(JsonView::Str(m.method))),
            ("params"@, json::json_text(or_null(m.params))),
        ],
        MessageView::Response(m) => with_field(
            with_field(
                seq![
                    ("jsonrpc"@, json::json_text(JsonView::Str(m.jsonrpc))),
                    ("id"@, json::json_text(m.id)),
                ],
                "result"@,
                match m.result {
                    Some(result) => Some(json::json_text(result)),
                    None => None,
                },
            ),
            "error"@,
            match m.error {
                Some(e) => Some(json::record_text(error_fields(e))),
                None => None,
            },
        ),
        MessageView::Notification(m) => seq![
            ("jsonrpc"@, json::json_text(JsonView::Str(m.jsonrpc))),
            ("method"@, json::json_text(JsonView::Str(m.method))),
            ("params"@, json::json_text(or_null(m.params))),
        ],
    }
}

/// The fields with one more where there is a value for it.
pub open spec fn with_field(
    fields: Seq<(Seq<char>, Seq<char>)>,
    name: Seq<char>,
    value: Option<Seq<char>>,
) -> Seq<(Seq<char>, Seq<char>)> {
    match value {
        Some(v) => fields.push((name, v)),
        None => fields,
    }
}

/// The text of a message: its fields in their order.
pub open spec fn message_text(message: MessageView) -> Seq<char> {
    json::record_text(message_fields(message))
}

/// The value, or null.
pub open spec fn or_null(value: Option<JsonView>) -> JsonView {
    match value {
        Some(v) => v,
        None => JsonView::Null,
    }
}

/// The object with one member more where there is a value for it.
pub open spec fn with_some(object: JsonView, key: Seq<char>, value: Option<JsonView>) -> JsonView {
    match value {
        Some(v) => object.with(key, v),
        None => object,
    }
}

fn value_or_null(value: &Option<Json>) -> (r: Json)
    ensures
        r@ == or_null(json::opt_json(*value)),
{
    match value {
        Some(v) => v.clone(),
        None => Json::Null,
    }
}

/// The object with one member more where there is a value for it.
pub fn with_optional(object: Json, key: &str, value: Option<Json>) -> (r: Json)
    ensures
        r@ == with_some(object@, key@, json::opt_json(value)),
{
    match value {
        Some(v) => object.with(key, v),
        None => object,
    }
}

impl JsonRpcError {
    /// The JSON form of the error.
    pub fn to_json(&self) -> (r: Json)
        ensures
            r@ == error_json(self@),
    {
        with_optional(
            Json::object().with("code", Json::integer(self.code as i64)).with(
                "message",
                Json::string(self.message.as_str()),
            ),
            "data",
            json::clone_opt(&self.data),
        )
    }
}

fn error_text(error: &JsonRpcError) -> (r: String)
    ensures
        r@ == json::record_text(error_fields(error@)),
{
    let mut fields: Vec<(&'static str, String)> = Vec::new();
    fields.push(("code", Json::integer(error.code as i64).to_text()));
    fields.push(("message", Json::string(error.message.as_str()).to_text()));
    match &error.data {
        Some(data) => {
            fields.push(("data", data.to_text()));
        },
        None => {},
    }
    assert(json::fields_view(fields@) =~= error_fields(error@));
    json::write_record(fields)
}

impl JsonRpcMessage {
    /// The text of the message: its fields in their order.
    pub fn to_text(&self) -> (r: String)
        ensures
            r@ == message_text(self@),
    {
        let mut fields: Vec<(&'static str, String)> = Vec::new();
        match self {
            JsonRpcMessage::Request(m) => {
                fields.push(("jsonrpc", Json::string(m.jsonrpc.as_str()).to_text()));
                fields.push(("id", m.id.to_text()));
                fields.push(("method", Json::string(m.method.as_str()).to_text()));
                fields.push(("params", value_or_null(&m.params).to_text()));
            },
            JsonRpcMessage::Response(m) => {
                fields.push(("jsonrpc", Json::string(m.jsonrpc.as_str()).to_text()));
                fields.push(("id", m.id.to_text()));
                match &m.result {
                    Some(result) => {
                        fields.push(("result", result.to_text()));
                    },
                    None => {},
                }
                match &m.error {
                    Some(error) => {
                        fields.push(("error", error_text(error)));
                    },
                    None => {},
                }
            },
            JsonRpcMessage::Notification(m) => {
                fields.push(("jsonrpc", Json::string(m.jsonrpc.as_str()).to_text()));
                fields.push(("method", Json::string(m.method.as_str()).to_text()));
                fields.push(("params", value_or_null(&m.params).to_text()));
            },
        }
        assert(json::fields_view(fields@) =~= message_fields(self@));
        json::write_record(fields)
    }

    /// The JSON form of the message.
    pub fn to_json(&self) -> (r: Json)
        ensures
            r@ == message_json(self@),
    {
        match self {
            JsonRpcMessage::Request(m) => {
                Json::object().with("jsonrpc", Json::string(m.jsonrpc.as_str())).with(
                    "id",
                    m.id.clone(),
                ).with("method", Json::string(m.method.as_str())).with("params", value_or_null(&m.params))
            },
            JsonRpcMessage::Response(m) => {
                let base = Json::object().with("jsonrpc", Json::string(m.jsonrpc.as_str())).with(
                    "id",
                    m.id.clone(),
                );
                let error = match &m.error {
                    Some(e) => Some(e.to_json()),
                    None => None,
                };
                with_optional(with_optional(base, "result", json::clone_opt(&m.result)), "error", error)
            },
            JsonRpcMessage::Notification(m) => {
                Json::object().with("jsonrpc", Json::string(m.jsonrpc.as_str())).with(
                    "method",
                    Json::string(m.method.as_str()),
                ).with("params", value_or_null(&m.params))
            },
        }
    }
}

/// A field of a record in JSON form: a record is an object with the fields as members, or an array
/// with the fields in their order.
pub open spec fn field_of(record: JsonView, name: Seq<char>, place: int, count: int) -> Option<JsonView> {
    match record {
        JsonView::Arr(items) => if items.len() == count {
            Some(items[place])
        } else {
            None
        },
        _ => record.get(name),
    }
}

/// A text field.
pub open spec fn text_field_of(record: JsonView, name: Seq<char>, place: int, count: int) -> Option<Seq<char>> {
    match field_of(record, name, place, count) {
        Some(v) => v.as_str(),
        None => None,
    }
}

/// A field that may be absent. Null stands for absent too.
pub open spec fn opt_field_of(record: JsonView, name: Seq<char>, place: int, count: int) -> Option<JsonView> {
    match field_of(record, name, place, count) {
        Some(JsonView::Null) => None,
        other => other,
    }
}

/// The error that a JSON value stands for.
pub open spec fn error_of(v: JsonView) -> Option<ErrorView> {
    let code = match field_of(v, "code"@, 0, 3) {
        Some(c) => c.as_i64(),
        None => None,
    };
    match (code, text_field_of(v, "message"@, 1, 3)) {
        (Some(c), Some(message)) => if i32::MIN <= c <= i32::MAX {
            Some(ErrorView { code: c as i32, message, data: opt_field_of(v, "data"@, 2, 3) })
        } else {
            None
        },
        _ => None,
    }
}

/// The request that a JSON value stands for.
pub open spec fn request_of(v: JsonView) -> Option<RequestView> {
    match (
        text_field_of(v, "jsonrpc"@, 0, 4),
        field_of(v, "id"@, 1, 4),
        text_field_of(v, "method"@, 2, 4),
    ) {
        (Some(jsonrpc), Some(id), Some(method)) => Some(
            RequestView { jsonrpc, id, method, params: opt_field_of(v, "params"@, 3, 4) },
        ),
        _ => None,
    }
}

/// The response that a JSON value stands for.
pub open spec fn response_of(v: JsonView) -> Option<ResponseView> {
    let error = opt_field_of(v, "error"@, 3, 4);
    match (text_field_of(v, "jsonrpc"@, 0, 4), field_of(v, "id"@, 1, 4)) {
        (Some(jsonrpc), Some(id)) => {
            if error is Some && error_of(error->0) is None {
                None
            } else {
                Some(
                    ResponseView {
                        jsonrpc,
                        id,
                        result: opt_field_of(v, "result"@, 2, 4),
                        error: match error {
                            Some(e) => error_of(e),
                            None => None,
                        },
                    },
                )
            }
        },
        _ => None,
    }
}

/// The notification that a JSON value stands for.
pub open spec fn notification_of(v: JsonView) -> Option<NotificationView> {
    match (text_field_of(v, "jsonrpc"@, 0, 3), text_field_of(v, "method"@, 1, 3)) {
        (Some(jsonrpc), Some(method)) => Some(
            NotificationView { jsonrpc, method, params: opt_field_of(v, "params"@, 2, 3) },
        ),
        _ => None,
    }
}

/// The message that a JSON value stands for: a request where it can be read as one, else a
/// response, else a notification.
pub open spec fn message_of(v: JsonView) -> Option<MessageView> {
    match (request_of(v), response_of(v), notification_of(v)) {
        (Some(m), _, _) => Some(MessageView::Request(m)),
        (None, Some(m), _) => Some(MessageView::Response(m)),
        (None, None, Some(m)) => Some(MessageView::Notification(m)),
        (None, None, None) => None,
    }
}

/// A field of a record in JSON form.
pub fn field<'a>(record: &'a Json, name: &str, place: usize, count: usize) -> (r: Option<&'a Json>)
    requires
        place < count,
    ensures
        json::opt_json_ref(r) == field_of(record@, name@, place as int, count as int),
{
    match record.array_len() {
        Some(n) => {
            if n == count {
                record.item(place)
            } else {
                None
            }
        },
        None => record.get(name),
    }
}

/// A text field of a record in JSON form.
pub fn text_field(record: &Json, name: &str, place: usize, count: usize) -> (r: Option<String>)
    requires
        place < count,
    ensures
        json::opt_text(r) == text_field_of(record@, name@, place as int, count as int),
{
    match field(record, name, place, count) {
        Some(v) => match v.as_str() {
            Some(s) => Some(s.to_owned()),
            None => None,
        },
        None => None,
    }
}

/// A field of a record in JSON form that may be absent.
pub fn opt_field(record: &Json, name: &str, place: usize, count: usize) -> (r: Option<Json>)
    requires
        place < count,
    ensures
        json::opt_json(r) == opt_field_of(record@, name@, place as int, count as int),
{
    match field(record, name, place, count) {
        Some(v) => match v {
            Json::Null => None,
            other => Some(other.clone()),
        },
        None => None,
    }
}

fn parse_error(v: &Json) -> (r: Option<JsonRpcError>)
    ensures
        opt_error(r) == error_of(v@),
{
    let code = match field(v, "code", 0, 3) {
        Some(c) => c.as_i64(),
        None => None,
    };
    match (code, text_field(v, "message", 1, 3)) {
        (Some(c), Some(message)) => {
            if i32::MIN as i64 <= c && c <= i32::MAX as i64 {
                Some(JsonRpcError { code: c as i32, message, data: opt_field(v, "data", 2, 3) })
            } else {
                None
            }
        },
        _ => None,
    }
}

impl JsonRpcMessage {
    /// Reads a message from its JSON form.
    pub fn from_json(v: &Json) -> (r: Option<JsonRpcMessage>)
        ensures
            match r {
                Some(m) => message_of(v@) == Some(m@),
                None => message_of(v@) is None,
            },
    {
        match (text_field(v, "jsonrpc", 0, 4), field(v, "id", 1, 4)) {
            (Some(jsonrpc), Some(id)) => {
                match text_field(v, "method", 2, 4) {
                    Some(method) => {
                        return Some(
                            JsonRpcMessage::Request(
                                JsonRpcRequest {
                                    jsonrpc,
                                    id: id.clone(),
                                    method,
                                    params: opt_field(v, "params", 3, 4),
                                },
                            ),
                        );
                    },
                    None => {},
                }
                let error = match opt_field(v, "error", 3, 4) {
                    Some(e) => match parse_error(&e) {
                        Some(error) => Some(Some(error)),
                        None => None,
                    },
                    None => Some(None),
                };
                match error {
                    Some(error) => {
                        return Some(
                            JsonRpcMessage::Response(
                                JsonRpcResponse {
                                    jsonrpc,
                                    id: id.clone(),
                                    result: opt_field(v, "result", 2, 4),
                                    error,
                                },
                            ),
                        );
                    },
                    None => {},
                }
            },
            _ => {},
        }
        match (text_field(v, "jsonrpc", 0, 3), text_field(v, "method", 1, 3)) {
            (Some(jsonrpc), Some(method)) => Some(
                JsonRpcMessage::Notification(
                    JsonRpcNotification { jsonrpc, method, params: opt_field(v, "params", 2, 3) },
                ),
            ),
            _ => None,
        }
    }
}

/// The JSON form of a message reads back as the message where it says what it is: the parameters
/// and the result are absent rather than null, and so is the data of an error.
pub proof fn lemma_message_round_trip(message: MessageView)
    requires
        match message {
            MessageView::Request(m) => m.params != Some(JsonView::Null),
            MessageView::Response(m) => m.result != Some(JsonView::Null) && (m.error is Some
                ==> m.error->0.data != Some(JsonView::Null)),
            MessageView::Notification(m) => m.params != Some(JsonView::Null),
        },
    ensures
        message_of(message_json(message)) == Some(message),
{
    reveal_strlit("jsonrpc");
    reveal_strlit("id");
    reveal_strlit("method");
    reveal_strlit("params");
    reveal_strlit("result");
    reveal_strlit("error");
    reveal_strlit("code");
    reveal_strlit("message");
    reveal_strlit("data");
    let v = message_json(message);
    lemma_names_differ();
    match message {
        MessageView::Request(m) => {
            assert(request_of(v) == Some(m));
        },
        MessageView::Response(m) => {
            assert(v.get("method"@) is None);
            assert(request_of(v) is None);
            if m.error is Some {
                assert(error_of(error_json(m.error->0)) == m.error);
            }
            assert(response_of(v) == Some(m));
        },
        MessageView::Notification(m) => {
            assert(v.get("id"@) is None);
            assert(request_of(v) is None);
            assert(response_of(v) is None);
            assert(notification_of(v) == Some(m));
        },
    }
}

/// The names of the members are different.
pub proof fn lemma_names_differ()
    ensures
        "jsonrpc"@ != "id"@,
        "jsonrpc"@ != "method"@,
        "jsonrpc"@ != "params"@,
        "jsonrpc"@ != "result"@,
        "jsonrpc"@ != "error"@,
        "id"@ != "method"@,
        "id"@ != "params"@,
        "id"@ != "result"@,
        "id"@ != "error"@,
        "method"@ != "params"@,
        "method"@ != "result"@,
        "method"@ != "error"@,
        "result"@ != "error"@,
        "code"@ != "message"@,
        "code"@ != "data"@,
        "message"@ != "data"@,
{
    reveal_strlit("jsonrpc");
    reveal_strlit("id");
    reveal_strlit("method");
    reveal_strlit("params");
    reveal_strlit("result");
    reveal_strlit("error");
    reveal_strlit("code");
    reveal_strlit("message");
    reveal_strlit("data");
    assert("method"@[0] == 'm');
    assert("params"@[0] == 'p');
    assert("result"@[0] == 'r');
    assert("id"@.len() == 2);
    assert("error"@.len() == 5);
    assert("code"@.len() == 4);
    assert("data"@[0] == 'd');
    assert("code"@[0] == 'c');
    assert("message"@.len() == 7);
    assert("jsonrpc"@.len() == 7);
}

} // verus!
