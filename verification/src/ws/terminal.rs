//! An interactive terminal on a Phoenix channel `terminal:<ref>`.
//!
//! The client sends `input` with the keys it got and `resize` with the size of its window, and gets
//! `output` and, at the end, `exit`.

use vstd::prelude::*;

use crate::json;
use crate::json::{Json, JsonView};
use crate::jsonrpc;
use crate::phoenix;
use crate::phoenix::{InitResult, InitView, Payload, PayloadView, PhxMessage};
use crate::text;
use crate::ws::ChannelSender;

verus! {

/// The width of a terminal whose client names none.
pub fn default_cols() -> (r: u16)
    ensures
        r == 80,
{
    80
}

/// The height of a terminal whose client names none.
pub fn default_rows() -> (r: u16)
    ensures
        r == 24,
{
    24
}

/// Why a terminal cannot be opened.
#[derive(Debug)]
pub enum TerminalProblem {
    Payload(String),
    OpenPty(String),
    SpawnShell(String),
    CloneReader(String),
    TakeWriter(String),
}

/// The reason for refusing a join.
pub open spec fn problem_text(problem: TerminalProblem) -> Seq<char> {
    match problem {
        TerminalProblem::Payload(e) => "Invalid join payload: "@ + e@,
        TerminalProblem::OpenPty(e) => "Failed to open PTY: "@ + e@,
        TerminalProblem::SpawnShell(e) => "Failed to spawn shell: "@ + e@,
        TerminalProblem::CloneReader(e) => "Failed to clone PTY reader: "@ + e@,
        TerminalProblem::TakeWriter(e) => "Failed to take PTY writer: "@ + e@,
    }
}

/// Refuses a join.
pub fn refuse(problem: TerminalProblem) -> (r: InitResult)
    ensures
        r@ == InitView::Error(problem_text(problem)),
{
    let (prefix, e) = match problem {
        TerminalProblem::Payload(e) => ("Invalid join payload: ", e),
        TerminalProblem::OpenPty(e) => ("Failed to open PTY: ", e),
        TerminalProblem::SpawnShell(e) => ("Failed to spawn shell: ", e),
        TerminalProblem::CloneReader(e) => ("Failed to clone PTY reader: ", e),
        TerminalProblem::TakeWriter(e) => ("Failed to take PTY writer: ", e),
    };
    InitResult::Error(text::joined(prefix, e.as_str()))
}

/// The answer to a join that is granted.
pub fn joined(msg: &PhxMessage) -> (r: PhxMessage)
    ensures
        r@ == phoenix::reply_view(msg@, "ok"@, json::empty_object()),
{
    PhxMessage::ok_reply(msg, Json::object())
}

/// What the client asks of its terminal.
#[derive(Debug)]
pub enum TerminalAction {
    Nothing,
    /// Write this to the terminal.
    Input(String),
    Resize { cols: u16, rows: u16 },
}

/// The model of a [`TerminalAction`].
pub enum ActionView {
    Nothing,
    Input(Seq<char>),
    Resize { cols: u16, rows: u16 },
}

impl View for TerminalAction {
    type V = ActionView;

    open spec fn view(&self) -> ActionView {
        match self {
            TerminalAction::Nothing => ActionView::Nothing,
            TerminalAction::Input(data) => ActionView::Input(data@),
            TerminalAction::Resize { cols, rows } => ActionView::Resize { cols: *cols, rows: *rows },
        }
    }
}

/// A number of columns or rows.
pub open spec fn size_of(value: Option<JsonView>) -> Option<u16> {
    match value {
        Some(v) => match v.as_u64() {
            Some(n) => if n <= u16::MAX {
                Some(n as u16)
            } else {
                None
            },
            None => None,
        },
        None => None,
    }
}

fn size(value: Option<&Json>) -> (r: Option<u16>)
    ensures
        r == size_of(json::opt_json_ref(value)),
{
    match value {
        Some(v) => match v.as_u64() {
            Some(n) => {
                if n <= u16::MAX as u64 {
                    Some(n as u16)
                } else {
                    None
                }
            },
            None => None,
        },
        None => None,
    }
}

/// What a message of the client asks for. What cannot be read asks for nothing.
pub open spec fn action_of(event: Seq<char>, payload: JsonView) -> ActionView {
    if event == "input"@ {
        match jsonrpc::text_field_of(payload, "data"@, 0, 1) {
            Some(data) => ActionView::Input(data),
            None => ActionView::Nothing,
        }
    } else if event == "resize"@ {
        match (
            size_of(jsonrpc::field_of(payload, "cols"@, 0, 2)),
            size_of(jsonrpc::field_of(payload, "rows"@, 1, 2)),
        ) {
            (Some(cols), Some(rows)) => ActionView::Resize { cols, rows },
            _ => ActionView::Nothing,
        }
    } else {
        ActionView::Nothing
    }
}

/// What a message of the client asks for.
pub fn handle_client(msg: &PhxMessage) -> (r: TerminalAction)
    ensures
        r@ == (match msg@.payload {
            PayloadView::Json(payload) => action_of(msg@.event, payload),
            PayloadView::Binary(_) => ActionView::Nothing,
        }),
{
    let payload = match &msg.payload {
        Payload::Json(payload) => payload,
        Payload::Binary(_) => {
            return TerminalAction::Nothing;
        },
    };
    if text::same_text(msg.event.as_str(), "input") {
        match jsonrpc::text_field(payload, "data", 0, 1) {
            Some(data) => TerminalAction::Input(data),
            None => TerminalAction::Nothing,
        }
    } else if text::same_text(msg.event.as_str(), "resize") {
        let cols = size(jsonrpc::field(payload, "cols", 0, 2));
        let rows = size(jsonrpc::field(payload, "rows", 1, 2));
        match (cols, rows) {
            (Some(cols), Some(rows)) => TerminalAction::Resize { cols, rows },
            _ => TerminalAction::Nothing,
        }
    } else {
        TerminalAction::Nothing
    }
}

/// The message that shows what the terminal wrote.
pub fn output(sender: &ChannelSender, bytes: &[u8]) -> (r: PhxMessage)
    ensures
        r@ == sender@.push(
            "output"@,
            json::empty_object().with("data"@, JsonView::Str(text::lossy_text(bytes@))),
        ),
        vstd::utf8::valid_utf8(bytes@) ==> r@ == sender@.push(
            "output"@,
            json::empty_object().with("data"@, JsonView::Str(vstd::utf8::decode_utf8(bytes@))),
        ),
{
    let data = text::text_lossy(bytes);
    sender.push("output", Json::object().with("data", Json::String(data)))
}

/// The exit code that the client is told. `success` is absent where the exit status could not be
/// read.
pub open spec fn exit_code(success: Option<bool>) -> u64 {
    if success == Some(true) {
        0
    } else {
        1
    }
}

/// The message that tells that the shell has ended.
pub fn exit(sender: &ChannelSender, success: Option<bool>) -> (r: PhxMessage)
    ensures
        r@ == sender@.push(
            "exit"@,
            json::empty_object().with("code"@, json::uint_json(exit_code(success))),
        ),
{
    let code: u64 = match success {
        Some(true) => 0,
        _ => 1,
    };
    sender.push("exit", Json::object().with("code", Json::uint(code)))
}

/// What is said of a terminal that cannot be opened.
pub proof fn lemma_problem_texts(e: String)
    ensures
        problem_text(TerminalProblem::Payload(e)) == "Invalid join payload: "@ + e@,
        problem_text(TerminalProblem::OpenPty(e)) == "Failed to open PTY: "@ + e@,
        problem_text(TerminalProblem::SpawnShell(e)) == "Failed to spawn shell: "@ + e@,
        problem_text(TerminalProblem::CloneReader(e)) == "Failed to clone PTY reader: "@ + e@,
        problem_text(TerminalProblem::TakeWriter(e)) == "Failed to take PTY writer: "@ + e@,
{
}

/// Input is typed as it is, and a terminal takes the size that it is given. Input without text, a size
/// that is none, and anything else do nothing.
pub proof fn lemma_action_call(msg: &PhxMessage, members: Map<Seq<char>, JsonView>, r: TerminalAction)
    requires
        call_ensures(handle_client, (msg,), r),
        msg@.payload == PayloadView::Json(JsonView::Obj(members)),
    ensures
        ({
            let payload = JsonView::Obj(members);
            let data = payload.get("data"@);
            let cols = payload.get("cols"@);
            let rows = payload.get("rows"@);
            let sized = cols is Some && rows is Some && cols->0.as_u64() is Some && rows->0.as_u64() is Some
                && cols->0.as_u64()->0 <= 65535 && rows->0.as_u64()->0 <= 65535;
            &&& msg@.event == "input"@ && data is Some && data->0 is Str ==> r@ == ActionView::Input(
                data->0->Str_0,
            )
            &&& msg@.event == "input"@ && (data is None || !(data->0 is Str)) ==> r@ is Nothing
            &&& msg@.event == "resize"@ && sized ==> r@ == (ActionView::Resize {
                cols: cols->0.as_u64()->0 as u16,
                rows: rows->0.as_u64()->0 as u16,
            })
            &&& msg@.event == "resize"@ && !sized ==> r@ is Nothing
            &&& msg@.event != "input"@ && msg@.event != "resize"@ ==> r@ is Nothing
        }),
{
    reveal_strlit("input");
    reveal_strlit("resize");
    assert("input"@.len() == 5);
    assert("resize"@.len() == 6);
}

/// Bytes do nothing to a terminal.
pub proof fn lemma_binary_call(msg: &PhxMessage, r: TerminalAction)
    requires
        call_ensures(handle_client, (msg,), r),
        msg@.payload is Binary,
    ensures
        r@ is Nothing,
{
}

/// The output of a terminal is pushed as text, and its end with the code: 0 if the shell succeeded, and
/// 1 if it failed or nobody knows.
pub proof fn lemma_push_calls(
    sender: &ChannelSender,
    bytes: &[u8],
    success: Option<bool>,
    printed: PhxMessage,
    ended: PhxMessage,
)
    requires
        call_ensures(output, (sender, bytes), printed),
        call_ensures(exit, (sender, success), ended),
    ensures
        printed@ == sender@.push(
            "output"@,
            JsonView::Obj(map!["data"@ => JsonView::Str(text::lossy_text(bytes@))]),
        ),
        success == Some(true) ==> ended@ == sender@.push(
            "exit"@,
            JsonView::Obj(map!["code"@ => JsonView::Number(json::NumberView::PosInt(0))]),
        ),
        success != Some(true) ==> ended@ == sender@.push(
            "exit"@,
            JsonView::Obj(map!["code"@ => JsonView::Number(json::NumberView::PosInt(1))]),
        ),
{
}

/// A terminal is 80 columns wide and 24 rows high, unless the join says otherwise. The join is answered
/// without more.
pub proof fn lemma_join_calls(msg: &PhxMessage, cols: u16, rows: u16, reply: PhxMessage)
    requires
        call_ensures(default_cols, (), cols),
        call_ensures(default_rows, (), rows),
        call_ensures(joined, (msg,), reply),
    ensures
        cols == 80,
        rows == 24,
        reply@ == phoenix::reply_view(
            msg@,
            "ok"@,
            JsonView::Obj(Map::<Seq<char>, JsonView>::empty()),
        ),
{
}

/// Input may be written as a list with the text alone, and a size as the list of its columns and rows.
pub proof fn lemma_action_lists(items: Seq<JsonView>)
    ensures
        ({
            let payload = JsonView::Arr(items);
            let input = action_of("input"@, payload);
            let resize = action_of("resize"@, payload);
            let data = items[0].as_str();
            let cols = items[0].as_u64();
            let rows = items[1].as_u64();
            let sized = items.len() == 2 && cols is Some && rows is Some && cols->0 <= 65535 && rows->0
                <= 65535;
            &&& items.len() == 1 && data is Some ==> input == ActionView::Input(data->0)
            &&& items.len() != 1 || data is None ==> input == ActionView::Nothing
            &&& sized ==> resize == (ActionView::Resize { cols: cols->0 as u16, rows: rows->0 as u16 })
            &&& !sized ==> resize == ActionView::Nothing
        }),
{
    reveal_strlit("input");
    reveal_strlit("resize");
    assert("input"@.len() == 5);
    assert("resize"@.len() == 6);
}

} // verus!
