//! Uploads on a Phoenix channel `upload:<ref>`.
//!
//! The client names a path when it joins, sends the content of the file as binary `chunk` messages
//! and then `done`, which is answered with the path and the number of bytes.

use vstd::prelude::*;

use crate::json;
use crate::json::{Json, JsonView};
use crate::phoenix;
use crate::phoenix::{InitResult, InitView, Payload, PayloadView, PhxMessage, PhxView};
use crate::text;

verus! {

/// Why an upload cannot be started.
#[derive(Debug)]
pub enum UploadProblem {
    Payload(String),
    Directory(String),
    Open(String),
}

/// The reason for refusing a join.
pub open spec fn problem_text(problem: UploadProblem) -> Seq<char> {
    match problem {
        UploadProblem::Payload(e) => "Invalid join payload: "@ + e@,
        UploadProblem::Directory(e) => "Failed to create parent directories: "@ + e@,
        UploadProblem::Open(e) => "Failed to open file: "@ + e@,
    }
}

/// Refuses a join.
pub fn refuse(problem: UploadProblem) -> (r: InitResult)
    ensures
        r@ == InitView::Error(problem_text(problem)),
{
    let (prefix, e) = match problem {
        UploadProblem::Payload(e) => ("Invalid join payload: ", e),
        UploadProblem::Directory(e) => ("Failed to create parent directories: ", e),
        UploadProblem::Open(e) => ("Failed to open file: ", e),
    };
    InitResult::Error(text::joined(prefix, e.as_str()))
}

/// The answer to a join that is granted.
pub fn joined(msg: &PhxMessage, path: &str) -> (r: PhxMessage)
    ensures
        r@ == phoenix::reply_view(
            msg@,
            "ok"@,
            json::empty_object().with("path"@, JsonView::Str(path@)),
        ),
{
    PhxMessage::ok_reply(msg, Json::object().with("path", Json::string(path)))
}

/// What a message of the client asks for.
pub enum UploadAction {
    Nothing,
    /// Append these bytes.
    Write(Vec<u8>),
    /// Flush the file and answer the message.
    Finish(PhxMessage),
}

/// The model of an [`UploadAction`].
pub enum UploadView {
    Nothing,
    Write(Seq<u8>),
    Finish(PhxView),
}

impl View for UploadAction {
    type V = UploadView;

    open spec fn view(&self) -> UploadView {
        match self {
            UploadAction::Nothing => UploadView::Nothing,
            UploadAction::Write(data) => UploadView::Write(data@),
            UploadAction::Finish(msg) => UploadView::Finish(msg@),
        }
    }
}

/// What a message of the client asks for.
pub open spec fn action_of(msg: PhxView) -> UploadView {
    if msg.event == "chunk"@ {
        match msg.payload {
            PayloadView::Binary(data) => UploadView::Write(data),
            PayloadView::Json(_) => UploadView::Nothing,
        }
    } else if msg.event == "done"@ {
        UploadView::Finish(msg)
    } else {
        UploadView::Nothing
    }
}

/// The bytes that a message adds to an upload.
pub open spec fn chunk_len(msg: PhxView) -> nat {
    match action_of(msg) {
        UploadView::Write(data) => data.len(),
        _ => 0,
    }
}

/// The bytes that messages add to an upload.
pub open spec fn total_len(messages: Seq<PhxView>) -> nat
    decreases messages.len(),
{
    if messages.len() == 0 {
        0
    } else {
        total_len(messages.drop_last()) + chunk_len(messages.last())
    }
}

/// An upload, with the number of bytes received so far.
#[derive(Debug)]
pub struct Upload {
    pub size: u64,
}

impl Upload {
    /// An upload of which nothing has been received.
    pub fn new() -> (r: Self)
        ensures
            r.size == 0,
    {
        Upload { size: 0 }
    }

    /// Decides what a message of the client asks for, and counts the bytes it brings.
    pub fn handle_client(&mut self, msg: PhxMessage) -> (r: UploadAction)
        requires
            old(self).size + chunk_len(msg@) <= u64::MAX,
        ensures
            r@ == action_of(msg@),
            final(self).size == old(self).size + chunk_len(msg@),
    {
        if text::same_text(msg.event.as_str(), "chunk") {
            match msg.payload {
                Payload::Binary(data) => {
                    self.size = self.size + data.len() as u64;
                    UploadAction::Write(data)
                },
                Payload::Json(_) => UploadAction::Nothing,
            }
        } else if text::same_text(msg.event.as_str(), "done") {
            UploadAction::Finish(msg)
        } else {
            UploadAction::Nothing
        }
    }

    /// The answer to the end of an upload, after which the channel ends. `flushed` says whether the
    /// file could be flushed.
    pub fn finish(&self, msg: &PhxMessage, flushed: Result<(), String>, path: &str) -> (r: PhxMessage)
        ensures
            r@ == (match flushed {
                Ok(_) => phoenix::reply_view(
                    msg@,
                    "ok"@,
                    json::empty_object().with("path"@, JsonView::Str(path@)).with(
                        "size"@,
                        json::uint_json(self.size),
                    ),
                ),
                Err(e) => phoenix::reply_view(
                    msg@,
                    "error"@,
                    phoenix::reason_json("Flush error: "@ + e@),
                ),
            }),
    {
        match flushed {
            Ok(()) => PhxMessage::ok_reply(
                msg,
                Json::object().with("path", Json::string(path)).with("size", Json::uint(self.size)),
            ),
            Err(e) => PhxMessage::error_reply(msg, text::joined("Flush error: ", e.as_str()).as_str()),
        }
    }
}

/// Ends the channel when bytes could not be written.
pub fn write_failed(error: &str) -> (r: InitResult)
    ensures
        r@ == InitView::Shutdown("Write error: "@ + error@),
{
    InitResult::Shutdown(text::joined("Write error: ", error))
}

/// The size that is reported is the length of what the client sent: counting one message after
/// another gives the total.
pub proof fn lemma_size_is_total(messages: Seq<PhxView>, msg: PhxView)
    ensures
        total_len(messages.push(msg)) == total_len(messages) + chunk_len(msg),
{
    assert(messages.push(msg).drop_last() =~= messages);
}

/// What is said of a file that cannot be uploaded.
pub proof fn lemma_problem_texts(e: String)
    ensures
        problem_text(UploadProblem::Payload(e)) == "Invalid join payload: "@ + e@,
        problem_text(UploadProblem::Directory(e)) == "Failed to create parent directories: "@ + e@,
        problem_text(UploadProblem::Open(e)) == "Failed to open file: "@ + e@,
{
}

/// The bytes of a chunk are written as they are and count for the size. `done` ends the upload. Nothing
/// else does anything.
pub proof fn lemma_action_call(upload: &mut Upload, msg: PhxMessage, r: UploadAction)
    requires
        call_ensures(Upload::handle_client, (upload, msg), r),
    ensures
        msg@.event == "chunk"@ && msg@.payload is Binary ==> r@ == UploadView::Write(msg@.payload->Binary_0)
            && final(upload).size == old(upload).size + msg@.payload->Binary_0.len(),
        msg@.event == "chunk"@ && !(msg@.payload is Binary) ==> r@ is Nothing && final(upload).size
            == old(upload).size,
        msg@.event == "done"@ ==> r@ == UploadView::Finish(msg@) && final(upload).size == old(upload).size,
        msg@.event != "chunk"@ && msg@.event != "done"@ ==> r@ is Nothing && final(upload).size
            == old(upload).size,
{
    reveal_strlit("chunk");
    reveal_strlit("done");
    assert("chunk"@.len() == 5);
    assert("done"@.len() == 4);
}

/// A join is answered with the path. The end of an upload is answered with its path and its size, or with
/// the reason why it could not be completed. A failure to write breaks the channel down.
pub proof fn lemma_reply_calls(
    upload: &Upload,
    msg: &PhxMessage,
    flushed: Result<(), String>,
    path: &str,
    error: &str,
    joined_reply: PhxMessage,
    reply: PhxMessage,
    failed: InitResult,
)
    requires
        call_ensures(joined, (msg, path), joined_reply),
        call_ensures(Upload::finish, (upload, msg, flushed, path), reply),
        call_ensures(write_failed, (error,), failed),
    ensures
        joined_reply@ == phoenix::reply_view(
            msg@,
            "ok"@,
            JsonView::Obj(map!["path"@ => JsonView::Str(path@)]),
        ),
        flushed is Ok ==> reply@ == phoenix::reply_view(
            msg@,
            "ok"@,
            JsonView::Obj(
                map![
                    "path"@ => JsonView::Str(path@),
                    "size"@ => JsonView::Number(json::NumberView::PosInt(upload.size)),
                ],
            ),
        ),
        flushed is Err ==> reply@ == phoenix::reply_view(
            msg@,
            "error"@,
            JsonView::Obj(map!["reason"@ => JsonView::Str("Flush error: "@ + flushed->Err_0@)]),
        ),
        failed@ == InitView::Shutdown("Write error: "@ + error@),
{
}

/// Nothing has been received before the first message, and a chunk counts with its length.
pub proof fn lemma_total(messages: Seq<PhxView>, msg: PhxView)
    ensures
        total_len(Seq::<PhxView>::empty()) == 0,
        action_of(msg) is Write ==> total_len(messages.push(msg)) == total_len(messages)
            + action_of(msg)->Write_0.len(),
        !(action_of(msg) is Write) ==> total_len(messages.push(msg)) == total_len(messages),
{
    assert(messages.push(msg).drop_last() =~= messages);
}

} // verus!
