//! File system watching on a Phoenix channel `watch:<path>`, with a watcher for each channel.
//!
//! The paths in events are relative to the watched directory.

use vstd::prelude::*;

use crate::channel_result;
use crate::channel_result::{HandleResult, HandleView, JoinResult, JoinView};
use crate::json;
use crate::json::{Json, JsonView};
use crate::paths;
use crate::phoenix;
use crate::text;
use crate::watching;
use crate::watching::{FileChange, PathEvent, PathEventView, PathProblem, WatcherStart, WatcherStartView};

pub use crate::paths::to_relative_path;

verus! {

/// What a watcher tells its channel.
#[derive(Debug)]
pub enum WatchInfo {
    Created { path: String },
    Modified { path: String },
    Deleted { path: String },
    Renamed { from: String, to: String },
    Warning { message: String },
    /// The watched path was removed, and the watcher has ended.
    WatchedPathRemoved,
    /// The watcher has failed, and has ended.
    WatchError { message: String },
}

/// The model of a [`WatchInfo`].
pub enum InfoView {
    Created { path: Seq<char> },
    Modified { path: Seq<char> },
    Deleted { path: Seq<char> },
    Renamed { from: Seq<char>, to: Seq<char> },
    Warning { message: Seq<char> },
    WatchedPathRemoved,
    WatchError { message: Seq<char> },
}

impl View for WatchInfo {
    type V = InfoView;

    open spec fn view(&self) -> InfoView {
        match self {
            WatchInfo::Created { path } => InfoView::Created { path: path@ },
            WatchInfo::Modified { path } => InfoView::Modified { path: path@ },
            WatchInfo::Deleted { path } => InfoView::Deleted { path: path@ },
            WatchInfo::Renamed { from, to } => InfoView::Renamed { from: from@, to: to@ },
            WatchInfo::Warning { message } => InfoView::Warning { message: message@ },
            WatchInfo::WatchedPathRemoved => InfoView::WatchedPathRemoved,
            WatchInfo::WatchError { message } => InfoView::WatchError { message: message@ },
        }
    }
}

impl InfoView {
    /// Whether the watcher ends with this.
    pub open spec fn is_fatal(self) -> bool {
        self is WatchedPathRemoved || self is WatchError
    }
}

/// The models of a list of events.
pub open spec fn info_views(infos: Seq<WatchInfo>) -> Seq<InfoView> {
    infos.map_values(|i: WatchInfo| i@)
}

/// What the channel of a watcher is told of an event.
pub open spec fn info_of(event: PathEventView) -> InfoView {
    match event {
        PathEventView::Created { path } => InfoView::Created { path },
        PathEventView::Modified { path } => InfoView::Modified { path },
        PathEventView::Deleted { path } => InfoView::Deleted { path },
        PathEventView::Renamed { from, to } => InfoView::Renamed { from, to },
        PathEventView::WatchedRemoved => InfoView::WatchedPathRemoved,
    }
}

/// What the channel of a watcher is told of a list of events.
pub open spec fn infos_of(events: Seq<PathEventView>) -> Seq<InfoView> {
    events.map_values(|e: PathEventView| info_of(e))
}

fn from_path_event(event: PathEvent) -> (r: WatchInfo)
    ensures
        r@ == info_of(event@),
{
    match event {
        PathEvent::Created { path } => WatchInfo::Created { path },
        PathEvent::Modified { path } => WatchInfo::Modified { path },
        PathEvent::Deleted { path } => WatchInfo::Deleted { path },
        PathEvent::Renamed { from, to } => WatchInfo::Renamed { from, to },
        PathEvent::WatchedRemoved => WatchInfo::WatchedPathRemoved,
    }
}

/// Turns a change in the file system into what the channel of a watcher is told.
pub fn convert_notify_event(
    change: &FileChange,
    watched_path: &str,
    pending_rename_from: &mut Option<String>,
) -> (r: Vec<WatchInfo>)
    ensures
        info_views(r@) == infos_of(
            watching::converted(
                change.system,
                change.kind,
                text::texts(change.paths@),
                watched_path@,
                json::opt_text(*old(pending_rename_from)),
            ).0,
        ),
        json::opt_text(*final(pending_rename_from)) == watching::converted(
            change.system,
            change.kind,
            text::texts(change.paths@),
            watched_path@,
            json::opt_text(*old(pending_rename_from)),
        ).1,
{
    let mut events = watching::convert(change, watched_path, pending_rename_from);
    let ghost all = watching::events_view(events@);
    let mut r: Vec<WatchInfo> = Vec::new();
    while events.len() > 0
        invariant
            r.len() + events.len() == all.len(),
            forall|i: int|
                0 <= i < events@.len() ==> (#[trigger] events@[i])@ == all[r@.len() + i],
            forall|i: int| 0 <= i < r@.len() ==> (#[trigger] r@[i])@ == info_of(all[i]),
        decreases events.len(),
    {
        let event = events.remove(0);
        r.push(from_path_event(event));
    }
    assert(info_views(r@) =~= infos_of(all));
    r
}

/// What a watcher tells of a batch: everything up to what ends it.
pub open spec fn until_fatal(infos: Seq<InfoView>) -> Seq<InfoView>
    decreases infos.len(),
{
    if infos.len() == 0 {
        seq![]
    } else if infos[0].is_fatal() {
        seq![infos[0]]
    } else {
        seq![infos[0]] + until_fatal(infos.drop_first())
    }
}

impl WatchInfo {
    /// Whether the watcher ends with this.
    pub fn is_fatal(&self) -> (r: bool)
        ensures
            r == self@.is_fatal(),
    {
        match self {
            WatchInfo::WatchedPathRemoved => true,
            WatchInfo::WatchError { .. } => true,
            _ => false,
        }
    }
}

/// Drops what comes after what ends a watcher. The result says whether something does.
pub fn cut_at_fatal(infos: &mut Vec<WatchInfo>) -> (ended: bool)
    ensures
        info_views(final(infos)@) == until_fatal(info_views(old(infos)@)),
        ended == exists|i: int|
            0 <= i < old(infos)@.len() && (#[trigger] info_views(old(infos)@)[i]).is_fatal(),
{
    let ghost all = info_views(infos@);
    let mut i: usize = 0;
    proof {
        assert(all.skip(0) =~= all);
        assert(all.take(0) + until_fatal(all) =~= until_fatal(all));
    }
    while i < infos.len()
        invariant
            infos@ == old(infos)@,
            all == info_views(infos@),
            i <= infos.len(),
            forall|k: int| 0 <= k < i ==> !(#[trigger] all[k]).is_fatal(),
            until_fatal(all) == all.take(i as int) + until_fatal(all.skip(i as int)),
        decreases infos.len() - i,
    {
        let ends = infos[i].is_fatal();
        proof {
            assert(all.skip(i as int)[0] == all[i as int]);
            assert(all[i as int] == infos@[i as int]@);
            assert(all.skip(i as int).drop_first() =~= all.skip(i + 1));
        }
        if ends {
            infos.truncate(i + 1);
            assert(info_views(infos@) =~= all.take(i as int) + seq![all[i as int]]);
            return true;
        }
        proof {
            assert(all.take(i as int) + (seq![all[i as int]] + until_fatal(all.skip(i + 1)))
                =~= all.take(i + 1) + until_fatal(all.skip(i + 1)));
        }
        i = i + 1;
    }
    proof {
        assert(all.skip(all.len() as int).len() == 0);
        assert(all.take(all.len() as int) + Seq::<InfoView>::empty() =~= all);
    }
    false
}

/// What a watcher tells of its start, if anything.
pub fn start_info(start: WatcherStart) -> (r: Option<WatchInfo>)
    ensures
        match start@ {
            WatcherStartView::Ready => r is None,
            WatcherStartView::Warn(message) => r is Some && r->0@ == (InfoView::Warning { message }),
            WatcherStartView::Failed(message) => r is Some && r->0@ == (InfoView::WatchError { message }),
        },
{
    match start {
        WatcherStart::Ready => None,
        WatcherStart::Warn(message) => Some(WatchInfo::Warning { message }),
        WatcherStart::Failed(message) => Some(WatchInfo::WatchError { message }),
    }
}

/// The name of the message that carries an event to the client, and its payload.
pub open spec fn pushed(info: InfoView) -> (Seq<char>, JsonView) {
    match info {
        InfoView::Created { path } => ("created"@, json::empty_object().with("path"@, JsonView::Str(path))),
        InfoView::Modified { path } => ("modified"@, json::empty_object().with("path"@, JsonView::Str(path))),
        InfoView::Deleted { path } => ("deleted"@, json::empty_object().with("path"@, JsonView::Str(path))),
        InfoView::Renamed { from, to } => (
            "renamed"@,
            json::empty_object().with("from"@, JsonView::Str(from)).with("to"@, JsonView::Str(to)),
        ),
        InfoView::Warning { message } => (
            "warning"@,
            json::empty_object().with("message"@, JsonView::Str(message)),
        ),
        InfoView::WatchedPathRemoved => ("error"@, phoenix::reason_json("watched path was removed"@)),
        InfoView::WatchError { message } => ("error"@, phoenix::reason_json(message)),
    }
}

/// What the socket of a channel offers to a background task.
#[derive(Debug, Clone, Copy, PartialEq, Eq, Structural)]
pub struct SocketTools {
    pub info_sender: bool,
    pub shutdown_token: bool,
}

/// File system watching on a Phoenix channel.
#[derive(Debug, Clone, Copy, PartialEq, Eq, Structural)]
pub struct WatchChannel;

/// Why a join is refused, if it is.
pub open spec fn join_problem(
    topic: Seq<char>,
    path: Result<String, PathProblem>,
    tools: SocketTools,
) -> Option<Seq<char>> {
    match (watching::topic_path_of(topic), path) {
        (None, _) => Some(watching::INVALID_TOPIC@),
        (Some(_), Err(problem)) => Some(watching::problem_reason(problem)),
        (Some(_), Ok(_)) => if !tools.info_sender {
            Some("internal error: info sender not available"@)
        } else if !tools.shutdown_token {
            Some("internal error: shutdown token not available"@)
        } else {
            None
        },
    }
}

impl WatchChannel {
    /// Answers a join. `path` is the outcome of [`watching::check_path`] for the path in the topic.
    /// Where the join is granted, a watcher of that path is to be started.
    pub fn join(&self, topic: &str, path: &Result<String, PathProblem>, tools: SocketTools) -> (r: JoinResult)
        ensures
            match join_problem(topic@, *path, tools) {
                Some(reason) => r@ == channel_result::refused(reason),
                None => path is Ok && r@ == JoinView::Granted(watching::watching_json(path->Ok_0@)),
            },
    {
        if watching::topic_path(topic).is_none() {
            return JoinResult::refuse(watching::INVALID_TOPIC);
        }
        match path {
            Err(problem) => JoinResult::refuse(problem.reason().as_str()),
            Ok(canonical_path) => {
                if !tools.info_sender {
                    JoinResult::refuse("internal error: info sender not available")
                } else if !tools.shutdown_token {
                    JoinResult::refuse("internal error: shutdown token not available")
                } else {
                    watching::granted(canonical_path.as_str())
                }
            },
        }
    }

    /// Clients have nothing to say on this channel.
    pub fn handle_in(&self, _event: &str, _payload: &Json) -> (r: HandleResult)
        ensures
            r@ == HandleView::NoReply,
    {
        HandleResult::NoReply
    }

    /// The message that tells the client what the watcher says: its name and its payload.
    pub fn handle_info(&self, info: &WatchInfo) -> (r: (&'static str, Json))
        ensures
            (r.0@, r.1@) == pushed(info@),
    {
        match info {
            WatchInfo::Created { path } => (
                "created",
                Json::object().with("path", Json::string(path.as_str())),
            ),
            WatchInfo::Modified { path } => (
                "modified",
                Json::object().with("path", Json::string(path.as_str())),
            ),
            WatchInfo::Deleted { path } => (
                "deleted",
                Json::object().with("path", Json::string(path.as_str())),
            ),
            WatchInfo::Renamed { from, to } => (
                "renamed",
                Json::object().with("from", Json::string(from.as_str())).with(
                    "to",
                    Json::string(to.as_str()),
                ),
            ),
            WatchInfo::Warning { message } => (
                "warning",
                Json::object().with("message", Json::string(message.as_str())),
            ),
            WatchInfo::WatchedPathRemoved => (
                "error",
                Json::object().with("reason", Json::string("watched path was removed")),
            ),
            WatchInfo::WatchError { message } => (
                "error",
                Json::object().with("reason", Json::string(message.as_str())),
            ),
        }
    }
}

/// A client hears of a failed watcher as an `error`, and of nothing else as one.
pub proof fn lemma_errors_are_fatal(info: InfoView)
    ensures
        info.is_fatal() == (pushed(info).0 == "error"@),
{
    reveal_strlit("error");
    reveal_strlit("created");
    reveal_strlit("modified");
    reveal_strlit("deleted");
    reveal_strlit("renamed");
    reveal_strlit("warning");
    assert("error"@.len() == 5);
}

/// A change of a file is pushed under its own name, with its path and nothing else; a renaming with
/// both paths, a warning with its text, and an error with its reason.
pub proof fn lemma_pushed(path: Seq<char>, from: Seq<char>, to: Seq<char>, message: Seq<char>)
    ensures
        pushed(InfoView::Created { path }) == (
            "created"@,
            JsonView::Obj(map!["path"@ => JsonView::Str(path)]),
        ),
        pushed(InfoView::Modified { path }) == (
            "modified"@,
            JsonView::Obj(map!["path"@ => JsonView::Str(path)]),
        ),
        pushed(InfoView::Deleted { path }) == (
            "deleted"@,
            JsonView::Obj(map!["path"@ => JsonView::Str(path)]),
        ),
        pushed(InfoView::Renamed { from, to }) == (
            "renamed"@,
            JsonView::Obj(map!["from"@ => JsonView::Str(from), "to"@ => JsonView::Str(to)]),
        ),
        pushed(InfoView::Warning { message }) == (
            "warning"@,
            JsonView::Obj(map!["message"@ => JsonView::Str(message)]),
        ),
        pushed(InfoView::WatchedPathRemoved) == (
            "error"@,
            JsonView::Obj(map!["reason"@ => JsonView::Str("watched path was removed"@)]),
        ),
        pushed(InfoView::WatchError { message }) == (
            "error"@,
            JsonView::Obj(map!["reason"@ => JsonView::Str(message)]),
        ),
{
}

/// Each event of a watcher is told as what it is.
pub proof fn lemma_infos(events: Seq<PathEventView>, i: int, path: Seq<char>, from: Seq<char>, to: Seq<char>)
    requires
        0 <= i < events.len(),
    ensures
        infos_of(events).len() == events.len(),
        events[i] == (PathEventView::Created { path }) ==> infos_of(events)[i] == (InfoView::Created { path }),
        events[i] == (PathEventView::Modified { path }) ==> infos_of(events)[i] == (InfoView::Modified {
            path,
        }),
        events[i] == (PathEventView::Deleted { path }) ==> infos_of(events)[i] == (InfoView::Deleted { path }),
        events[i] == (PathEventView::Renamed { from, to }) ==> infos_of(events)[i] == (InfoView::Renamed {
            from,
            to,
        }),
        events[i] is WatchedRemoved ==> infos_of(events)[i] is WatchedPathRemoved,
{
}

/// What is told is the first part of the events, in their order and none left out, up to the first that
/// ends the watcher. Without such an event all of them are told.
pub proof fn lemma_cut(infos: Seq<InfoView>)
    ensures
        until_fatal(infos).len() <= infos.len(),
        until_fatal(infos) == infos.take(until_fatal(infos).len() as int),
        until_fatal(infos).len() < infos.len() ==> until_fatal(infos).len() > 0 && until_fatal(
            infos,
        ).last().is_fatal(),
        (forall|i: int| 0 <= i < infos.len() ==> !(#[trigger] infos[i]).is_fatal()) ==> until_fatal(infos)
            == infos,
    decreases infos.len(),
{
    let cut = until_fatal(infos);
    if infos.len() == 0 {
        assert(cut =~= infos.take(0));
        assert(cut =~= infos);
    } else if infos[0].is_fatal() {
        assert(cut =~= infos.take(1));
    } else {
        let rest = infos.drop_first();
        let cut_rest = until_fatal(rest);
        lemma_cut(rest);
        assert(cut =~= seq![infos[0]] + cut_rest);
        assert(cut =~= infos.take(cut.len() as int));
        if cut.len() < infos.len() {
            assert(cut.last() == cut_rest.last());
        }
        if forall|i: int| 0 <= i < infos.len() ==> !(#[trigger] infos[i]).is_fatal() {
            assert forall|i: int| 0 <= i < rest.len() implies !(#[trigger] rest[i]).is_fatal() by {
                assert(rest[i] == infos[i + 1]);
            }
            assert(cut =~= infos);
        }
    }
}

/// The removal of the watched directory and an error end the watcher; nothing else does.
pub proof fn lemma_fatal(info: InfoView)
    ensures
        info.is_fatal() <==> info is WatchedPathRemoved || info is WatchError,
{
}

/// A join is refused with the reason: first the form of the topic counts, then the path, and then what
/// the channel needs to work.
pub proof fn lemma_join_problems(topic: Seq<char>, path: Result<String, PathProblem>, tools: SocketTools)
    ensures
        watching::topic_path_of(topic) is None ==> join_problem(topic, path, tools) == Some(
            "invalid topic format, expected 'watch:/path/to/dir'"@,
        ),
        watching::topic_path_of(topic) is Some && path is Err ==> join_problem(topic, path, tools) == Some(
            watching::problem_reason(path->Err_0),
        ),
        watching::topic_path_of(topic) is Some && path is Ok ==> {
            &&& join_problem(topic, path, tools) is None <==> tools.info_sender && tools.shutdown_token
            &&& !tools.info_sender ==> join_problem(topic, path, tools) == Some(
                "internal error: info sender not available"@,
            )
            &&& tools.info_sender && !tools.shutdown_token ==> join_problem(topic, path, tools) == Some(
                "internal error: shutdown token not available"@,
            )
        },
{
}

/// A join is answered with the path, or refused with the reason.
pub proof fn lemma_join_call(
    channel: &WatchChannel,
    topic: &str,
    path: &Result<String, PathProblem>,
    tools: SocketTools,
    r: JoinResult,
)
    requires
        call_ensures(WatchChannel::join, (channel, topic, path, tools), r),
    ensures
        join_problem(topic@, *path, tools) is Some ==> r@ == JoinView::Refused(
            JsonView::Obj(map!["reason"@ => JsonView::Str(join_problem(topic@, *path, tools)->0)]),
        ),
        join_problem(topic@, *path, tools) is None ==> r@ == JoinView::Granted(
            JsonView::Obj(
                map!["status"@ => JsonView::Str("watching"@), "path"@ => JsonView::Str((path->Ok_0)@)],
            ),
        ),
{
}

/// A watcher that has started says nothing, one that polls warns, and one that failed is an error.
pub proof fn lemma_start_call(start: WatcherStart, r: Option<WatchInfo>)
    requires
        call_ensures(start_info, (start,), r),
    ensures
        r is None <==> start@ is Ready,
        start@ is Warn ==> r->0@ == (InfoView::Warning { message: start@->Warn_0 }),
        start@ is Failed ==> r->0@ == (InfoView::WatchError { message: start@->Failed_0 }),
{
}

} // verus!
