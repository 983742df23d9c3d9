//! What holds of JSON-RPC messages as JSON objects and as text.

use vstd::prelude::*;

use crate::json;
use crate::json::{JsonView, NumberView};
use crate::jsonrpc;
use crate::jsonrpc::{
    ErrorView, JsonRpcMessage, MessageView, NotificationView, RequestView, ResponseView,
};

verus! {

/// Whether an object has this member with a text as its value.
pub open spec fn has_text(members: Map<Seq<char>, JsonView>, name: Seq<char>) -> bool {
    members.contains_key(name) && members[name] is Str
}

/// Whether an object lacks this member, or has it with null as its value.
pub open spec fn is_absent(members: Map<Seq<char>, JsonView>, name: Seq<char>) -> bool {
    !members.contains_key(name) || members[name] == JsonView::Null
}

/// Whether an optional value is what an object holds under a name, where null stands for nothing.
pub open spec fn holds(members: Map<Seq<char>, JsonView>, name: Seq<char>, value: Option<JsonView>) -> bool {
    match value {
        Some(v) => v != JsonView::Null && members.contains_key(name) && members[name] == v,
        None => is_absent(members, name),
    }
}

/// An object with a version, an `id` and a method is a request, whatever else it has, and its parts are
/// the members of the object.
pub proof fn lemma_request_is_read(members: Map<Seq<char>, JsonView>)
    requires
        has_text(members, "jsonrpc"@),
        members.contains_key("id"@),
        has_text(members, "method"@),
    ensures
        jsonrpc::message_of(JsonView::Obj(members)) matches Some(MessageView::Request(m))
            && JsonView::Str(m.jsonrpc) == members["jsonrpc"@] && m.id == members["id"@] && JsonView::Str(
            m.method,
        ) == members["method"@] && holds(members, "params"@, m.params),
{
}

/// An object with a version and a method and without an `id` is a notification.
pub proof fn lemma_notification_is_read(members: Map<Seq<char>, JsonView>)
    requires
        has_text(members, "jsonrpc"@),
        !members.contains_key("id"@),
        has_text(members, "method"@),
    ensures
        jsonrpc::message_of(JsonView::Obj(members)) matches Some(MessageView::Notification(m))
            && JsonView::Str(m.jsonrpc) == members["jsonrpc"@] && JsonView::Str(m.method)
            == members["method"@] && holds(members, "params"@, m.params),
{
}

/// An object with a version and an `id` and without a method is a response, with the result as it
/// stands. Its error, where it has one, has a code and a message.
pub proof fn lemma_response_is_read(members: Map<Seq<char>, JsonView>)
    requires
        has_text(members, "jsonrpc"@),
        members.contains_key("id"@),
        !has_text(members, "method"@),
    ensures
        is_absent(members, "error"@) ==> (jsonrpc::message_of(JsonView::Obj(members)) matches Some(
            MessageView::Response(m),
        ) && JsonView::Str(m.jsonrpc) == members["jsonrpc"@] && m.id == members["id"@] && holds(
            members,
            "result"@,
            m.result,
        ) && m.error is None),
        forall|code: i32, error: Map<Seq<char>, JsonView>|
            #![trigger json::integer_json(code as i64), has_text(error, "message"@)]
            members.contains_key("error"@) && members["error"@] == JsonView::Obj(error)
                && error.contains_key("code"@) && error["code"@] == json::integer_json(code as i64)
                && has_text(error, "message"@) ==> (jsonrpc::message_of(JsonView::Obj(members)) matches Some(
                MessageView::Response(m),
            ) && m.id == members["id"@] && holds(members, "result"@, m.result) && (m.error matches Some(e)
                && e.code == code && JsonView::Str(e.message) == error["message"@] && holds(
                error,
                "data"@,
                e.data,
            ))),
{
}

/// An object without a version is no message, nor is one with neither a method nor an `id`, nor a value
/// that is neither an object nor an array.
pub proof fn lemma_no_message(v: JsonView)
    requires
        v !is Arr,
        v matches JsonView::Obj(members) ==> !has_text(members, "jsonrpc"@) || (!members.contains_key("id"@)
            && !has_text(members, "method"@)),
    ensures
        jsonrpc::message_of(v) is None,
{
}

/// The JSON form of a request has exactly four members, which are its parts.
pub proof fn lemma_request_members(m: RequestView)
    ensures
        jsonrpc::message_json(MessageView::Request(m)) matches JsonView::Obj(members) && (forall|
            key: Seq<char>,
        | #[trigger]
            members.contains_key(key) <==> key == "jsonrpc"@ || key == "id"@ || key == "method"@ || key
                == "params"@) && members["jsonrpc"@] == JsonView::Str(m.jsonrpc) && members["id"@] == m.id
            && members["method"@] == JsonView::Str(m.method) && members["params"@] == (match m.params {
            Some(p) => p,
            None => JsonView::Null,
        }),
{
    jsonrpc::lemma_names_differ();
}

/// The JSON form of a notification has exactly three members, which are its parts.
pub proof fn lemma_notification_members(m: NotificationView)
    ensures
        jsonrpc::message_json(MessageView::Notification(m)) matches JsonView::Obj(members) && (forall|
            key: Seq<char>,
        | #[trigger]
            members.contains_key(key) <==> key == "jsonrpc"@ || key == "method"@ || key == "params"@)
            && members["jsonrpc"@] == JsonView::Str(m.jsonrpc) && members["method"@] == JsonView::Str(
            m.method,
        ) && members["params"@] == (match m.params {
            Some(p) => p,
            None => JsonView::Null,
        }),
{
    jsonrpc::lemma_names_differ();
}

/// The JSON form of a response has its version and its `id`, and of the result and the error what there
/// is.
pub proof fn lemma_response_members(m: ResponseView)
    ensures
        jsonrpc::message_json(MessageView::Response(m)) matches JsonView::Obj(members) && (forall|
            key: Seq<char>,
        | #[trigger]
            members.contains_key(key) <==> key == "jsonrpc"@ || key == "id"@ || (key == "result"@ && m.result
                is Some) || (key == "error"@ && m.error is Some)) && members["jsonrpc"@] == JsonView::Str(
            m.jsonrpc,
        ) && members["id"@] == m.id && (m.result is Some ==> members["result"@] == m.result->0) && (
        m.error is Some ==> members["error"@] == jsonrpc::error_json(m.error->0)),
{
    jsonrpc::lemma_names_differ();
}

/// The JSON form of an error has its code, its message and, where there is any, its data.
pub proof fn lemma_error_members(e: ErrorView)
    ensures
        jsonrpc::error_json(e) matches JsonView::Obj(members) && (forall|key: Seq<char>| #[trigger]
            members.contains_key(key) <==> key == "code"@ || key == "message"@ || (key == "data"@ && e.data
                is Some)) && members["code"@] == json::integer_json(e.code as i64) && members["message"@]
            == JsonView::Str(e.message) && (e.data is Some ==> members["data"@] == e.data->0),
{
    jsonrpc::lemma_names_differ();
}

/// An integer is written as it is, with its sign.
pub proof fn lemma_integers(n: i64)
    ensures
        json::integer_json(n) matches JsonView::Number(number) && (match number {
            NumberView::PosInt(u) => n >= 0 && u as int == n as int,
            NumberView::NegInt(i) => n < 0 && i == n,
            NumberView::Float(_) => false,
        }),
{
}

/// The line of a request: the version, the `id`, the method and the parameters, in this order.
pub proof fn lemma_request_text(m: RequestView)
    ensures
        jsonrpc::message_text(MessageView::Request(m)) == "{\"jsonrpc\":"@ + json::json_text(
            JsonView::Str(m.jsonrpc),
        ) + ",\"id\":"@ + json::json_text(m.id) + ",\"method\":"@ + json::json_text(JsonView::Str(m.method))
            + ",\"params\":"@ + json::json_text(
            match m.params {
                Some(p) => p,
                None => JsonView::Null,
            },
        ) + "}"@,
{
    lemma_openings();
    reveal_with_fuel(json::fields_text, 5);
    let fields = jsonrpc::message_fields(MessageView::Request(m));
    let one = fields.take(1);
    let two = fields.take(2);
    let three = fields.take(3);
    assert(fields.drop_last() =~= three);
    assert(three.drop_last() =~= two);
    assert(two.drop_last() =~= one);
    assert(one.drop_last() =~= seq![]);
    assert(jsonrpc::message_text(MessageView::Request(m)) =~= "{\"jsonrpc\":"@ + json::json_text(
        JsonView::Str(m.jsonrpc),
    ) + ",\"id\":"@ + json::json_text(m.id) + ",\"method\":"@ + json::json_text(JsonView::Str(m.method))
        + ",\"params\":"@ + fields[3].1 + "}"@);
}

/// The line of a notification: the version, the method and the parameters, in this order.
pub proof fn lemma_notification_text(m: NotificationView)
    ensures
        jsonrpc::message_text(MessageView::Notification(m)) == "{\"jsonrpc\":"@ + json::json_text(
            JsonView::Str(m.jsonrpc),
        ) + ",\"method\":"@ + json::json_text(JsonView::Str(m.method)) + ",\"params\":"@ + json::json_text(
            match m.params {
                Some(p) => p,
                None => JsonView::Null,
            },
        ) + "}"@,
{
    lemma_openings();
    reveal_with_fuel(json::fields_text, 5);
    let fields = jsonrpc::message_fields(MessageView::Notification(m));
    let one = fields.take(1);
    let two = fields.take(2);
    assert(fields.drop_last() =~= two);
    assert(two.drop_last() =~= one);
    assert(one.drop_last() =~= seq![]);
    assert(jsonrpc::message_text(MessageView::Notification(m)) =~= "{\"jsonrpc\":"@ + json::json_text(
        JsonView::Str(m.jsonrpc),
    ) + ",\"method\":"@ + json::json_text(JsonView::Str(m.method)) + ",\"params\":"@ + fields[2].1 + "}"@);
}

/// The text of an error: its code, its message and, where there is any, its data, in this order.
pub proof fn lemma_error_text(e: ErrorView)
    ensures
        json::record_text(jsonrpc::error_fields(e)) == "{\"code\":"@ + json::json_text(
            json::integer_json(e.code as i64),
        ) + ",\"message\":"@ + json::json_text(JsonView::Str(e.message)) + (match e.data {
            Some(data) => ",\"data\":"@ + json::json_text(data),
            None => seq![],
        }) + "}"@,
{
    lemma_openings();
    let code = ("code"@, json::json_text(json::integer_json(e.code as i64)));
    let message = ("message"@, json::json_text(JsonView::Str(e.message)));
    lemma_two_fields(code, message);
    let plain = seq![code, message];
    let open = "{\"code\":"@ + code.1 + ",\"message\":"@ + message.1;
    assert("{"@ + json::fields_text(plain) =~= open);
    if e.data is Some {
        lemma_one_more(plain, ("data"@, json::json_text(e.data->0)));
        let tail = ",\"data\":"@ + json::json_text(e.data->0);
        assert("{"@ + json::fields_text(jsonrpc::error_fields(e)) =~= open + tail);
    } else {
        assert(open + seq![] =~= open);
    }
}

/// The line of a response: the version, the `id`, the result where there is one, and the error where
/// there is one, in this order.
pub proof fn lemma_response_text(m: ResponseView)
    ensures
        jsonrpc::message_text(MessageView::Response(m)) == "{\"jsonrpc\":"@ + json::json_text(
            JsonView::Str(m.jsonrpc),
        ) + ",\"id\":"@ + json::json_text(m.id) + (match m.result {
            Some(result) => ",\"result\":"@ + json::json_text(result),
            None => seq![],
        }) + (match m.error {
            Some(e) => ",\"error\":"@ + json::record_text(jsonrpc::error_fields(e)),
            None => seq![],
        }) + "}"@,
{
    lemma_openings();
    let version = ("jsonrpc"@, json::json_text(JsonView::Str(m.jsonrpc)));
    let id = ("id"@, json::json_text(m.id));
    lemma_two_fields(version, id);
    let base = seq![version, id];
    let head = "{\"jsonrpc\":"@ + version.1 + ",\"id\":"@ + id.1;
    assert("{"@ + json::fields_text(base) =~= head);
    let result_text = match m.result {
        Some(result) => Some(json::json_text(result)),
        None => None,
    };
    let answered = jsonrpc::with_field(base, "result"@, result_text);
    let result_part = match m.result {
        Some(result) => ",\"result\":"@ + json::json_text(result),
        None => seq![],
    };
    let middle = head + result_part;
    if m.result is Some {
        lemma_one_more(base, ("result"@, json::json_text(m.result->0)));
        assert("{"@ + json::fields_text(answered) =~= middle);
    } else {
        assert(middle =~= head);
    }
    assert("{"@ + json::fields_text(answered) == middle);
    let all = jsonrpc::message_fields(MessageView::Response(m));
    let error_part = match m.error {
        Some(e) => ",\"error\":"@ + json::record_text(jsonrpc::error_fields(e)),
        None => seq![],
    };
    if m.error is Some {
        lemma_one_more(answered, ("error"@, json::record_text(jsonrpc::error_fields(m.error->0))));
        assert("{"@ + json::fields_text(all) =~= middle + error_part);
    } else {
        assert(all == answered);
        assert(middle + error_part =~= middle);
    }
}

/// The text of two fields.
pub proof fn lemma_two_fields(first: (Seq<char>, Seq<char>), second: (Seq<char>, Seq<char>))
    ensures
        json::fields_text(seq![first, second]) == "\""@ + first.0 + "\":"@ + first.1 + ","@ + "\""@ + second.0
            + "\":"@ + second.1,
{
    let one = seq![first];
    assert(one.drop_last() =~= seq![]);
    assert(json::fields_text(seq![]) =~= seq![]);
    assert(json::fields_text(one) =~= "\""@ + first.0 + "\":"@ + first.1);
    assert(seq![first, second].drop_last() =~= one);
}

/// The text of the fields of a record grows by each field, behind a comma.
pub proof fn lemma_one_more(fields: Seq<(Seq<char>, Seq<char>)>, field: (Seq<char>, Seq<char>))
    requires
        fields.len() > 0,
    ensures
        json::fields_text(fields.push(field)) == json::fields_text(fields) + ","@ + "\""@ + field.0 + "\":"@
            + field.1,
{
    assert(fields.push(field).drop_last() =~= fields);
}

/// How the members of a record are opened.
proof fn lemma_openings()
    ensures
        "{\"jsonrpc\":"@ =~= "{"@ + "\""@ + "jsonrpc"@ + "\":"@,
        ",\"id\":"@ =~= ","@ + "\""@ + "id"@ + "\":"@,
        ",\"method\":"@ =~= ","@ + "\""@ + "method"@ + "\":"@,
        ",\"params\":"@ =~= ","@ + "\""@ + "params"@ + "\":"@,
        ",\"result\":"@ =~= ","@ + "\""@ + "result"@ + "\":"@,
        ",\"error\":"@ =~= ","@ + "\""@ + "error"@ + "\":"@,
        "{\"code\":"@ =~= "{"@ + "\""@ + "code"@ + "\":"@,
        ",\"message\":"@ =~= ","@ + "\""@ + "message"@ + "\":"@,
        ",\"data\":"@ =~= ","@ + "\""@ + "data"@ + "\":"@,
{
    reveal_strlit("{");
    reveal_strlit("\"");
    reveal_strlit("\":");
    reveal_strlit(",");
    reveal_strlit("jsonrpc");
    reveal_strlit("id");
    reveal_strlit("method");
    reveal_strlit("params");
    reveal_strlit("result");
    reveal_strlit("error");
    reveal_strlit("code");
    reveal_strlit("message");
    reveal_strlit("data");
    reveal_strlit("{\"jsonrpc\":");
    reveal_strlit(",\"id\":");
    reveal_strlit(",\"method\":");
    reveal_strlit(",\"params\":");
    reveal_strlit(",\"result\":");
    reveal_strlit(",\"error\":");
    reveal_strlit("{\"code\":");
    reveal_strlit(",\"message\":");
    reveal_strlit(",\"data\":");
}

// ---------------------------------------------------------------------------
// What the calls do
// ---------------------------------------------------------------------------

/// A message is read from the value that it is written as, and written as its laws say.
pub proof fn lemma_message_calls(
    v: &json::Json,
    message: &JsonRpcMessage,
    read: Option<JsonRpcMessage>,
    written: json::Json,
    line: String,
)
    requires
        call_ensures(JsonRpcMessage::from_json, (v,), read),
        call_ensures(JsonRpcMessage::to_json, (message,), written),
        call_ensures(JsonRpcMessage::to_text, (message,), line),
    ensures
        read is Some <==> jsonrpc::message_of(v@) is Some,
        read is Some ==> Some(read->0@) == jsonrpc::message_of(v@),
        written@ == jsonrpc::message_json(message@),
        line@ == jsonrpc::message_text(message@),
{
}

/// What stands for a field that may be absent.
pub open spec fn unless_null(value: JsonView) -> Option<JsonView> {
    if value is Null {
        None
    } else {
        Some(value)
    }
}

/// Messages may be written as lists of their fields, in their order: the version, the identifier, the
/// method and the parameters of a request, and so on. Null stands for what is absent. A list of another
/// length is no message of that kind.
pub proof fn lemma_message_lists(items: Seq<JsonView>)
    ensures
        ({
            let v = JsonView::Arr(items);
            let version = items[0].as_str();
            &&& items.len() == 4 && version is Some && items[2].as_str() is Some <==> jsonrpc::request_of(v)
                is Some
            &&& jsonrpc::request_of(v) is Some ==> jsonrpc::request_of(v)->0 == (RequestView {
                jsonrpc: version->0,
                id: items[1],
                method: items[2].as_str()->0,
                params: unless_null(items[3]),
            })
            &&& items.len() == 3 && version is Some && items[1].as_str() is Some
                <==> jsonrpc::notification_of(v) is Some
            &&& jsonrpc::notification_of(v) is Some ==> jsonrpc::notification_of(v)->0 == (NotificationView {
                jsonrpc: version->0,
                method: items[1].as_str()->0,
                params: unless_null(items[2]),
            })
            &&& items.len() == 4 && version is Some && (items[3] is Null || jsonrpc::error_of(items[3])
                is Some) <==> jsonrpc::response_of(v) is Some
            &&& jsonrpc::response_of(v) is Some ==> jsonrpc::response_of(v)->0 == (ResponseView {
                jsonrpc: version->0,
                id: items[1],
                result: unless_null(items[2]),
                error: if items[3] is Null {
                    None
                } else {
                    jsonrpc::error_of(items[3])
                },
            })
        }),
{
}

/// An error may be written as the list of its code, its message and its data.
pub proof fn lemma_error_lists(items: Seq<JsonView>)
    ensures
        ({
            let read = jsonrpc::error_of(JsonView::Arr(items));
            let code = items[0].as_i64();
            &&& items.len() == 3 && code is Some && -0x8000_0000 <= code->0 <= 0x7fff_ffff
                && items[1].as_str() is Some <==> read is Some
            &&& read is Some ==> read->0.code == code->0 && read->0.message == items[1].as_str()->0
                && read->0.data == unless_null(items[2])
        }),
{
}

} // verus!
