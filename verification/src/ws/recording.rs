//! Recordings on a Phoenix channel `recording:<ref>`.
//!
//! The client names a file when it joins, sends its content as binary `chunk` messages and then
//! `done`, which is answered with the place of the file.

use vstd::prelude::*;

use crate::json;
use crate::json::{Json, JsonView};
use crate::phoenix;
use crate::phoenix::{InitResult, InitView, Payload, PayloadView, PhxMessage, PhxView};
use crate::text;

verus! {

/// Why a recording cannot be started.
#[derive(Debug)]
pub enum RecordingProblem {
    Payload(String),
    Directory(String),
    Open(String),
}

/// The reason for refusing a join.
pub open spec fn problem_text(problem: RecordingProblem) -> Seq<char> {
    match problem {
        RecordingProblem::Payload(e) => "Invalid join payload: "@ + e@,
        RecordingProblem::Directory(e) => "Failed to create recordings dir: "@ + e@,
        RecordingProblem::Open(e) => "Failed to open file: "@ + e@,
    }
}

/// Refuses a join.
pub fn refuse(problem: RecordingProblem) -> (r: InitResult)
    ensures
        r@ == InitView::Error(problem_text(problem)),
{
    let (prefix, e) = match problem {
        RecordingProblem::Payload(e) => ("Invalid join payload: ", e),
        RecordingProblem::Directory(e) => ("Failed to create recordings dir: ", e),
        RecordingProblem::Open(e) => ("Failed to open file: ", e),
    };
    InitResult::Error(text::joined(prefix, e.as_str()))
}

/// Whether a name stands for a file in the directory of recordings, and not for one elsewhere.
pub open spec fn is_file_name(name: Seq<char>) -> bool {
    &&& !text::has_part(name, "/"@)
    &&& !text::has_part(name, "\\"@)
    &&& !text::has_part(name, ".."@)
}

/// Refuses a name that may stand for a file outside the directory of recordings.
pub fn check_name(name: &str) -> (r: Result<(), InitResult>)
    ensures
        if is_file_name(name@) {
            r is Ok
        } else {
            r is Err && r->Err_0@ == InitView::Error("Invalid name: "@ + name@)
        },
{
    if text::contains_text(name, "/") || text::contains_text(name, "\\") || text::contains_text(
        name,
        "..",
    ) {
        Err(InitResult::Error(text::joined("Invalid name: ", name)))
    } else {
        Ok(())
    }
}

/// A name that is accepted is one component of a path: no slash is in it, and it is not the parent
/// directory.
pub proof fn lemma_file_name_stays_inside(name: Seq<char>)
    requires
        is_file_name(name),
    ensures
        !name.contains('/'),
        !name.contains('\\'),
        name != ".."@,
{
    reveal_strlit("/");
    reveal_strlit("\\");
    if name.contains('/') {
        let i = name.index_of('/');
        assert(name.subrange(i, i + "/"@.len()) =~= "/"@);
    }
    if name.contains('\\') {
        let i = name.index_of('\\');
        assert(name.subrange(i, i + "\\"@.len()) =~= "\\"@);
    }
    if name == ".."@ {
        assert(name.subrange(0, 0int + ".."@.len()) =~= ".."@);
    }
}

/// The answer to a join that is granted.
pub fn joined(msg: &PhxMessage, name: &str) -> (r: PhxMessage)
    ensures
        r@ == phoenix::reply_view(
            msg@,
            "ok"@,
            json::empty_object().with("name"@, JsonView::Str(name@)),
        ),
{
    PhxMessage::ok_reply(msg, Json::object().with("name", Json::string(name)))
}

/// What a message of the client asks for.
pub enum RecordingAction {
    Nothing,
    /// Append these bytes.
    Write(Vec<u8>),
    /// Flush the file and answer the message.
    Finish(PhxMessage),
}

/// The model of a [`RecordingAction`].
pub enum RecordingView {
    Nothing,
    Write(Seq<u8>),
    Finish(PhxView),
}

impl View for RecordingAction {
    type V = RecordingView;

    open spec fn view(&self) -> RecordingView {
        match self {
            RecordingAction::Nothing => RecordingView::Nothing,
            RecordingAction::Write(data) => RecordingView::Write(data@),
            RecordingAction::Finish(msg) => RecordingView::Finish(msg@),
        }
    }
}

/// What a message of the client asks for.
pub open spec fn action_of(msg: PhxView) -> RecordingView {
    if msg.event == "chunk"@ {
        match msg.payload {
            PayloadView::Binary(data) => RecordingView::Write(data),
            PayloadView::Json(_) => RecordingView::Nothing,
        }
    } else if msg.event == "done"@ {
        RecordingView::Finish(msg)
    } else {
        RecordingView::Nothing
    }
}

/// What a message of the client asks for.
pub fn handle_client(msg: PhxMessage) -> (r: RecordingAction)
    ensures
        r@ == action_of(msg@),
{
    if text::same_text(msg.event.as_str(), "chunk") {
        match msg.payload {
            Payload::Binary(data) => RecordingAction::Write(data),
            Payload::Json(_) => RecordingAction::Nothing,
        }
    } else if text::same_text(msg.event.as_str(), "done") {
        RecordingAction::Finish(msg)
    } else {
        RecordingAction::Nothing
    }
}

/// Ends the channel when bytes could not be written.
pub fn write_failed(error: &str) -> (r: InitResult)
    ensures
        r@ == InitView::Shutdown("Write error: "@ + error@),
{
    InitResult::Shutdown(text::joined("Write error: ", error))
}

/// The answer to the end of a recording. `flushed` says whether the file could be flushed.
pub open spec fn finished(
    msg: PhxView,
    flushed: Result<(), Seq<char>>,
    path: Seq<char>,
    directory: Seq<char>,
) -> PhxView {
    match flushed {
        Ok(_) => phoenix::reply_view(
            msg,
            "ok"@,
            json::empty_object().with("path"@, JsonView::Str(path)).with(
                "directory"@,
                JsonView::Str(directory),
            ),
        ),
        Err(e) => phoenix::reply_view(msg, "error"@, phoenix::reason_json("Flush error: "@ + e)),
    }
}

/// The answer to the end of a recording, after which the channel ends.
pub fn finish(msg: &PhxMessage, flushed: Result<(), String>, path: &str, directory: &str) -> (r: PhxMessage)
    ensures
        r@ == finished(msg@, crate::watching::outcome_view(flushed), path@, directory@),
{
    match flushed {
        Ok(()) => PhxMessage::ok_reply(
            msg,
            Json::object().with("path", Json::string(path)).with("directory", Json::string(directory)),
        ),
        Err(e) => PhxMessage::error_reply(msg, text::joined("Flush error: ", e.as_str()).as_str()),
    }
}

/// How the conversion of a recording went.
#[derive(Debug, Clone, Copy, PartialEq, Eq, Structural)]
pub enum Remux {
    /// The converter ran and succeeded.
    Succeeded,
    /// The converter ran and failed.
    Failed,
    /// There is no converter.
    Unavailable,
}

/// What is to be done with the converted file.
#[derive(Debug, Clone, Copy, PartialEq, Eq, Structural)]
pub enum Converted {
    /// Put it in the place of the recording, or remove it where that fails.
    Replace,
    Remove,
    Nothing,
}

/// Decides what is to be done with the converted file.
pub fn after_remux(remux: Remux) -> (r: Converted)
    ensures
        r == (match remux {
            Remux::Succeeded => Converted::Replace,
            Remux::Failed => Converted::Remove,
            Remux::Unavailable => Converted::Nothing,
        }),
{
    match remux {
        Remux::Succeeded => Converted::Replace,
        Remux::Failed => Converted::Remove,
        Remux::Unavailable => Converted::Nothing,
    }
}

/// What is said of a recording that cannot be made.
pub proof fn lemma_problem_texts(e: String)
    ensures
        problem_text(RecordingProblem::Payload(e)) == "Invalid join payload: "@ + e@,
        problem_text(RecordingProblem::Directory(e)) == "Failed to create recordings dir: "@ + e@,
        problem_text(RecordingProblem::Open(e)) == "Failed to open file: "@ + e@,
{
}

/// The bytes of a chunk are written as they are, and `done` ends the recording. Nothing else does
/// anything.
pub proof fn lemma_action_call(msg: PhxMessage, r: RecordingAction)
    requires
        call_ensures(handle_client, (msg,), r),
    ensures
        msg@.event == "chunk"@ && msg@.payload is Binary ==> r@ == RecordingView::Write(
            msg@.payload->Binary_0,
        ),
        msg@.event == "chunk"@ && !(msg@.payload is Binary) ==> r@ is Nothing,
        msg@.event == "done"@ ==> r@ == RecordingView::Finish(msg@),
        msg@.event != "chunk"@ && msg@.event != "done"@ ==> r@ is Nothing,
{
    reveal_strlit("chunk");
    reveal_strlit("done");
    assert("chunk"@.len() == 5);
    assert("done"@.len() == 4);
}

/// A name is accepted unless it holds a slash, a backslash or two dots; then it is refused by name.
pub proof fn lemma_name_call(name: &str, r: Result<(), InitResult>)
    requires
        call_ensures(check_name, (name,), r),
    ensures
        r is Ok <==> !text::has_part(name@, "/"@) && !text::has_part(name@, "\\"@) && !text::has_part(
            name@,
            ".."@,
        ),
        r is Err ==> r->Err_0@ == InitView::Error("Invalid name: "@ + name@),
{
}

/// A join is answered with the name. The end of a recording is answered with its path and its directory,
/// or with the reason why it could not be completed.
pub proof fn lemma_reply_calls(
    msg: &PhxMessage,
    name: &str,
    flushed: Result<(), String>,
    path: &str,
    directory: &str,
    joined_reply: PhxMessage,
    reply: PhxMessage,
)
    requires
        call_ensures(joined, (msg, name), joined_reply),
        call_ensures(finish, (msg, flushed, path, directory), reply),
    ensures
        joined_reply@ == phoenix::reply_view(
            msg@,
            "ok"@,
            JsonView::Obj(map!["name"@ => JsonView::Str(name@)]),
        ),
        flushed is Ok ==> reply@ == phoenix::reply_view(
            msg@,
            "ok"@,
            JsonView::Obj(
                map!["path"@ => JsonView::Str(path@), "directory"@ => JsonView::Str(directory@)],
            ),
        ),
        flushed is Err ==> reply@ == phoenix::reply_view(
            msg@,
            "error"@,
            JsonView::Obj(map!["reason"@ => JsonView::Str("Flush error: "@ + flushed->Err_0@)]),
        ),
{
}

/// A recording that was converted takes the place of the one before, one that could not be converted is
/// removed, and without a converter nothing happens. A failure to write breaks the channel down.
pub proof fn lemma_end_calls(remux: Remux, converted: Converted, error: &str, failed: InitResult)
    requires
        call_ensures(after_remux, (remux,), converted),
        call_ensures(write_failed, (error,), failed),
    ensures
        remux == Remux::Succeeded <==> converted == Converted::Replace,
        remux == Remux::Failed <==> converted == Converted::Remove,
        remux == Remux::Unavailable <==> converted == Converted::Nothing,
        failed@ == InitView::Shutdown("Write error: "@ + error@),
{
}

} // verus!
