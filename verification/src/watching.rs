//! What the file watchers have in common: turning changes in the file system into events with
//! paths relative to the watched directory, and the messages of a watcher that cannot start.

use vstd::prelude::*;

use crate::channel_result::{JoinResult, JoinView};
use crate::command::System;
use crate::json;
use crate::json::{Json, JsonView};
use crate::paths;
use crate::text;

pub mod laws;

verus! {

/// What happened to files, as the operating system reports it.
#[derive(Debug, Clone, Copy, PartialEq, Eq, Structural)]
pub enum ChangeKind {
    Create,
    /// The old name of a file that was renamed. Its new name follows.
    RenameFrom,
    /// The new name of a file that was renamed.
    RenameTo,
    /// The old and the new name of a file that was renamed.
    RenameBoth,
    /// Any other change of a file.
    Modify,
    Remove,
    /// Nothing that matters.
    Other,
}

/// A change of files.
#[derive(Debug)]
pub struct FileChange {
    pub kind: ChangeKind,
    pub paths: Vec<String>,
    /// The system whose paths they are.
    pub system: System,
}

/// An event of a watched directory, with paths relative to it.
#[derive(Debug)]
pub enum PathEvent {
    Created { path: String },
    Modified { path: String },
    Deleted { path: String },
    Renamed { from: String, to: String },
    /// The watched directory itself was removed.
    WatchedRemoved,
}

/// The model of a [`PathEvent`].
pub enum PathEventView {
    Created { path: Seq<char> },
    Modified { path: Seq<char> },
    Deleted { path: Seq<char> },
    Renamed { from: Seq<char>, to: Seq<char> },
    WatchedRemoved,
}

impl View for PathEvent {
    type V = PathEventView;

    open spec fn view(&self) -> PathEventView {
        match self {
            PathEvent::Created { path } => PathEventView::Created { path: path@ },
            PathEvent::Modified { path } => PathEventView::Modified { path: path@ },
            PathEvent::Deleted { path } => PathEventView::Deleted { path: path@ },
            PathEvent::Renamed { from, to } => PathEventView::Renamed { from: from@, to: to@ },
            PathEvent::WatchedRemoved => PathEventView::WatchedRemoved,
        }
    }
}

/// The models of a list of events.
pub open spec fn events_view(events: Seq<PathEvent>) -> Seq<PathEventView> {
    events.map_values(|e: PathEvent| e@)
}

/// The event of one path, for a change that is about each path by itself. Paths outside the watched
/// directory have none.
pub open spec fn path_event(
    system: System,
    kind: ChangeKind,
    path: Seq<char>,
    watched: Seq<char>,
) -> Option<PathEventView> {
    if kind == ChangeKind::Remove && path == watched {
        Some(PathEventView::WatchedRemoved)
    } else {
        match (kind, paths::relative_on(system, path, watched)) {
            (ChangeKind::Create, Some(path)) => Some(PathEventView::Created { path }),
            (ChangeKind::Modify, Some(path)) => Some(PathEventView::Modified { path }),
            (ChangeKind::Remove, Some(path)) => Some(PathEventView::Deleted { path }),
            _ => None,
        }
    }
}

/// The events of the paths, in their order.
pub open spec fn path_events(
    system: System,
    kind: ChangeKind,
    changed: Seq<Seq<char>>,
    watched: Seq<char>,
) -> Seq<PathEventView>
    decreases changed.len(),
{
    if changed.len() == 0 {
        seq![]
    } else {
        let rest = path_events(system, kind, changed.drop_last(), watched);
        match path_event(system, kind, changed.last(), watched) {
            Some(event) => rest.push(event),
            None => rest,
        }
    }
}

/// The events of a rename of which both names are known. A name outside the watched directory makes
/// it a creation or a removal.
pub open spec fn rename_events(from: Option<Seq<char>>, to: Option<Seq<char>>) -> Seq<PathEventView> {
    match (from, to) {
        (Some(from), Some(to)) => seq![PathEventView::Renamed { from, to }],
        (Some(path), None) => seq![PathEventView::Deleted { path }],
        (None, Some(path)) => seq![PathEventView::Created { path }],
        (None, None) => seq![],
    }
}

/// The events of a change, and the old name of a rename whose new name has not been seen yet.
/// `pending` is that name before the change.
pub open spec fn converted(
    system: System,
    kind: ChangeKind,
    changed: Seq<Seq<char>>,
    watched: Seq<char>,
    pending: Option<Seq<char>>,
) -> (Seq<PathEventView>, Option<Seq<char>>) {
    match kind {
        ChangeKind::RenameFrom => if changed.len() > 0 {
            (seq![], paths::relative_on(system, changed[0], watched))
        } else {
            (seq![], pending)
        },
        ChangeKind::RenameTo => if changed.len() > 0 {
            match paths::relative_on(system, changed[0], watched) {
                Some(to) => (rename_events(pending, Some(to)), None),
                None => (seq![], None),
            }
        } else {
            (seq![], pending)
        },
        ChangeKind::RenameBoth => if changed.len() >= 2 {
            (
                rename_events(
                    paths::relative_on(system, changed[0], watched),
                    paths::relative_on(system, changed[1], watched),
                ),
                pending,
            )
        } else {
            (seq![], pending)
        },
        ChangeKind::Other => (seq![], pending),
        _ => (path_events(system, kind, changed, watched), pending),
    }
}

fn event_of_path(system: System, kind: ChangeKind, path: &str, watched: &str) -> (r: Option<PathEvent>)
    ensures
        match r {
            Some(event) => path_event(system, kind, path@, watched@) == Some(event@),
            None => path_event(system, kind, path@, watched@) is None,
        },
{
    if kind == ChangeKind::Remove && text::same_text(path, watched) {
        return Some(PathEvent::WatchedRemoved);
    }
    match (kind, paths::to_relative_path(system, path, watched)) {
        (ChangeKind::Create, Some(path)) => Some(PathEvent::Created { path }),
        (ChangeKind::Modify, Some(path)) => Some(PathEvent::Modified { path }),
        (ChangeKind::Remove, Some(path)) => Some(PathEvent::Deleted { path }),
        _ => None,
    }
}

fn renamed(from: Option<String>, to: Option<String>) -> (r: Vec<PathEvent>)
    ensures
        events_view(r@) == rename_events(json::opt_text(from), json::opt_text(to)),
{
    let mut r: Vec<PathEvent> = Vec::new();
    match (from, to) {
        (Some(from), Some(to)) => r.push(PathEvent::Renamed { from, to }),
        (Some(path), None) => r.push(PathEvent::Deleted { path }),
        (None, Some(path)) => r.push(PathEvent::Created { path }),
        (None, None) => {},
    }
    assert(events_view(r@) =~= rename_events(json::opt_text(from), json::opt_text(to)));
    r
}

/// Turns a change into events. `pending` keeps the old name of a rename until its new name is seen.
pub fn convert(change: &FileChange, watched: &str, pending: &mut Option<String>) -> (r: Vec<PathEvent>)
    ensures
        events_view(r@) == converted(
            change.system,
            change.kind,
            text::texts(change.paths@),
            watched@,
            json::opt_text(*old(pending)),
        ).0,
        json::opt_text(*final(pending)) == converted(
            change.system,
            change.kind,
            text::texts(change.paths@),
            watched@,
            json::opt_text(*old(pending)),
        ).1,
{
    let ghost all = text::texts(change.paths@);
    let mut r: Vec<PathEvent> = Vec::new();
    assert(events_view(r@) =~= seq![]);
    match change.kind {
        ChangeKind::RenameFrom => {
            if change.paths.len() > 0 {
                *pending = paths::to_relative_path(change.system, change.paths[0].as_str(), watched);
            }
        },
        ChangeKind::RenameTo => {
            if change.paths.len() > 0 {
                let from = pending.take();
                match paths::to_relative_path(change.system, change.paths[0].as_str(), watched) {
                    Some(to) => {
                        return renamed(from, Some(to));
                    },
                    None => {},
                }
            }
        },
        ChangeKind::RenameBoth => {
            if change.paths.len() >= 2 {
                return renamed(
                    paths::to_relative_path(change.system, change.paths[0].as_str(), watched),
                    paths::to_relative_path(change.system, change.paths[1].as_str(), watched),
                );
            }
        },
        ChangeKind::Other => {},
        kind => {
            let mut i: usize = 0;
            assert(all.take(0).len() == 0);
            while i < change.paths.len()
                invariant
                    all == text::texts(change.paths@),
                    i <= change.paths.len(),
                    events_view(r@) == path_events(change.system, kind, all.take(i as int), watched@),
                decreases change.paths.len() - i,
            {
                let ghost before = r@;
                proof {
                    assert(all.take(i + 1).drop_last() =~= all.take(i as int));
                    assert(all.take(i + 1).last() == change.paths@[i as int]@);
                }
                match event_of_path(change.system, kind, change.paths[i].as_str(), watched) {
                    Some(event) => {
                        r.push(event);
                        assert(events_view(r@) =~= events_view(before).push(event@));
                    },
                    None => {},
                }
                i = i + 1;
            }
            assert(all.take(all.len() as int) =~= all);
        },
    }
    r
}

/// A rename that is reported name by name gives the same event as one that is reported at once,
/// where both names lie in the watched directory.
pub proof fn lemma_rename_in_two_steps(system: System, from: Seq<char>, to: Seq<char>, watched: Seq<char>)
    requires
        paths::relative_on(system, from, watched) is Some,
        paths::relative_on(system, to, watched) is Some,
    ensures
        ({
            let (first, pending) = converted(system, ChangeKind::RenameFrom, seq![from], watched, None);
            let (second, left) = converted(system, ChangeKind::RenameTo, seq![to], watched, pending);
            &&& first.len() == 0
            &&& second == converted(system, ChangeKind::RenameBoth, seq![from, to], watched, None).0
            &&& left is None
        }),
{
}

/// Every path in an event lies in the watched directory: it is the relative path of a path of the
/// change, or the pending old name of a rename.
pub proof fn lemma_events_lie_inside(
    system: System,
    kind: ChangeKind,
    changed: Seq<Seq<char>>,
    watched: Seq<char>,
    pending: Option<Seq<char>>,
    path: Seq<char>,
)
    requires
        ({
            let events = converted(system, kind, changed, watched, pending).0;
            ||| events.contains(PathEventView::Created { path })
            ||| events.contains(PathEventView::Modified { path })
            ||| events.contains(PathEventView::Deleted { path })
        }),
    ensures
        exists|i: int| 0 <= i < changed.len() && paths::relative_on(system, #[trigger] changed[i], watched) == Some(path),
{
    let events = converted(system, kind, changed, watched, pending).0;
    match kind {
        ChangeKind::RenameFrom => {},
        ChangeKind::RenameTo => {
            assert(paths::relative_on(system, changed[0], watched) == Some(path));
        },
        ChangeKind::RenameBoth => {
            assert(paths::relative_on(system, changed[0], watched) == Some(path) || paths::relative_on(
                system,
                changed[1],
                watched,
            ) == Some(path));
        },
        ChangeKind::Other => {},
        _ => {
            lemma_path_events_inside(system, kind, changed, watched, path);
        },
    }
}

proof fn lemma_path_events_inside(
    system: System,
    kind: ChangeKind,
    changed: Seq<Seq<char>>,
    watched: Seq<char>,
    path: Seq<char>,
)
    requires
        ({
            let events = path_events(system, kind, changed, watched);
            ||| events.contains(PathEventView::Created { path })
            ||| events.contains(PathEventView::Modified { path })
            ||| events.contains(PathEventView::Deleted { path })
        }),
    ensures
        exists|i: int| 0 <= i < changed.len() && paths::relative_on(system, #[trigger] changed[i], watched) == Some(path),
    decreases changed.len(),
{
    let events = path_events(system, kind, changed, watched);
    if changed.len() > 0 {
        let rest = path_events(system, kind, changed.drop_last(), watched);
        let event = if events.contains(PathEventView::Created { path }) {
            PathEventView::Created { path }
        } else if events.contains(PathEventView::Modified { path }) {
            PathEventView::Modified { path }
        } else {
            PathEventView::Deleted { path }
        };
        let k = events.index_of(event);
        if k < rest.len() {
            assert(rest[k] == event);
            assert(rest.contains(event));
            lemma_path_events_inside(system, kind, changed.drop_last(), watched, path);
            let i = choose|i: int|
                0 <= i < changed.drop_last().len() && paths::relative_on(
                    system,
                    #[trigger] changed.drop_last()[i],
                    watched,
                ) == Some(path);
            assert(changed[i] == changed.drop_last()[i]);
        } else {
            assert(changed[changed.len() - 1] == changed.last());
        }
    }
}

// ---------------------------------------------------------------------------
// Starting a watcher
// ---------------------------------------------------------------------------

/// How the start of a watcher went.
#[derive(Debug)]
pub enum WatcherStart {
    Ready,
    /// It works by polling, and clients are to be warned.
    Warn(String),
    Failed(String),
}

/// The model of a [`WatcherStart`].
pub enum WatcherStartView {
    Ready,
    Warn(Seq<char>),
    Failed(Seq<char>),
}

impl View for WatcherStart {
    type V = WatcherStartView;

    open spec fn view(&self) -> WatcherStartView {
        match self {
            WatcherStart::Ready => WatcherStartView::Ready,
            WatcherStart::Warn(m) => WatcherStartView::Warn(m@),
            WatcherStart::Failed(m) => WatcherStartView::Failed(m@),
        }
    }
}

/// The warning about a watcher that had to fall back to polling.
pub open spec fn poll_warning(error: Seq<char>) -> Seq<char> {
    "Using poll-based file watching (native watcher unavailable: "@ + error
        + "). File change detection may be slower."@
}

/// How the start of a watcher went: where polling is asked for, the native watcher is not tried;
/// else polling is the fallback.
pub open spec fn start_of(
    use_poll_watcher: bool,
    native: Result<(), Seq<char>>,
    poll: Result<(), Seq<char>>,
) -> WatcherStartView {
    if use_poll_watcher {
        match poll {
            Ok(_) => WatcherStartView::Ready,
            Err(e) => WatcherStartView::Failed("Failed to create poll watcher: "@ + e),
        }
    } else {
        match (native, poll) {
            (Ok(_), _) => WatcherStartView::Ready,
            (Err(e), Ok(_)) => WatcherStartView::Warn(poll_warning(e)),
            (Err(e), Err(p)) => WatcherStartView::Failed(
                "Failed to create watcher: "@ + e + " (poll fallback also failed: "@ + p + ")"@,
            ),
        }
    }
}

/// The model of the outcome of something that may fail.
pub open spec fn outcome_view(outcome: Result<(), String>) -> Result<(), Seq<char>> {
    match outcome {
        Ok(_) => Ok(()),
        Err(e) => Err(e@),
    }
}

/// How the start of a watcher went. `native` and `poll` say whether each watcher could be made;
/// what was not tried does not matter.
pub fn watcher_start(use_poll_watcher: bool, native: Result<(), String>, poll: Result<(), String>) -> (r:
    WatcherStart)
    ensures
        r@ == start_of(use_poll_watcher, outcome_view(native), outcome_view(poll)),
{
    if use_poll_watcher {
        match poll {
            Ok(()) => WatcherStart::Ready,
            Err(e) => WatcherStart::Failed(text::joined("Failed to create poll watcher: ", e.as_str())),
        }
    } else {
        match (native, poll) {
            (Ok(()), _) => WatcherStart::Ready,
            (Err(e), Ok(())) => {
                let mut message = text::joined(
                    "Using poll-based file watching (native watcher unavailable: ",
                    e.as_str(),
                );
                message.append("). File change detection may be slower.");
                WatcherStart::Warn(message)
            },
            (Err(e), Err(p)) => {
                let mut message = text::joined("Failed to create watcher: ", e.as_str());
                message.append(" (poll fallback also failed: ");
                message.append(p.as_str());
                message.append(")");
                WatcherStart::Failed(message)
            },
        }
    }
}

/// What the task of a watcher learns.
#[derive(Debug)]
pub enum WatcherNews {
    /// The watcher could be made, or not.
    Started(WatcherStart),
    /// The directory cannot be watched.
    NotWatched(String),
    Changed(FileChange),
    /// The watcher reports an error.
    Failed(String),
    /// The watcher will report nothing more.
    Silent,
    /// Some time has passed, and so many listen.
    Idle(usize),
}

/// The model of a [`WatcherNews`].
pub enum NewsView {
    Started(WatcherStartView),
    NotWatched(Seq<char>),
    Changed { kind: ChangeKind, paths: Seq<Seq<char>>, system: System },
    Failed(Seq<char>),
    Silent,
    Idle(usize),
}

impl View for WatcherNews {
    type V = NewsView;

    open spec fn view(&self) -> NewsView {
        match self {
            WatcherNews::Started(start) => NewsView::Started(start@),
            WatcherNews::NotWatched(e) => NewsView::NotWatched(e@),
            WatcherNews::Changed(change) => NewsView::Changed {
                kind: change.kind,
                paths: text::texts(change.paths@),
                system: change.system,
            },
            WatcherNews::Failed(e) => NewsView::Failed(e@),
            WatcherNews::Silent => NewsView::Silent,
            WatcherNews::Idle(listeners) => NewsView::Idle(*listeners),
        }
    }
}

/// The text about a directory that cannot be watched.
pub open spec fn watch_path_text(error: Seq<char>) -> Seq<char> {
    "Failed to watch path: "@ + error
}

/// The text about a watcher that fails while it watches.
pub open spec fn watch_error_text(error: Seq<char>) -> Seq<char> {
    "Watch error: "@ + error
}

/// The message of a watcher that cannot watch its directory.
pub fn watch_path_error(error: &str) -> (r: String)
    ensures
        r@ == watch_path_text(error@),
{
    text::joined("Failed to watch path: ", error)
}

/// The message of a watcher that fails while it watches.
pub fn watch_error(error: &str) -> (r: String)
    ensures
        r@ == watch_error_text(error@),
{
    text::joined("Watch error: ", error)
}

// ---------------------------------------------------------------------------
// The path to watch
// ---------------------------------------------------------------------------

/// Why a path cannot be watched.
#[derive(Debug)]
pub enum PathProblem {
    Normalize(String),
    NotAbsolute,
    Missing,
    Canonicalize(String),
}

/// The canonical form of a path that is to be watched, or the first thing that is wrong with it.
pub fn check_path(
    normalized: Result<(), String>,
    is_absolute: bool,
    exists: bool,
    canonical: Result<String, String>,
) -> (r: Result<String, PathProblem>)
    ensures
        match normalized {
            Err(e) => r == Err::<String, PathProblem>(PathProblem::Normalize(e)),
            Ok(_) => if !is_absolute {
                r == Err::<String, PathProblem>(PathProblem::NotAbsolute)
            } else if !exists {
                r == Err::<String, PathProblem>(PathProblem::Missing)
            } else {
                match canonical {
                    Ok(path) => r == Ok::<String, PathProblem>(path),
                    Err(e) => r == Err::<String, PathProblem>(PathProblem::Canonicalize(e)),
                }
            },
        },
{
    match normalized {
        Err(e) => Err(PathProblem::Normalize(e)),
        Ok(()) => {
            if !is_absolute {
                Err(PathProblem::NotAbsolute)
            } else if !exists {
                Err(PathProblem::Missing)
            } else {
                match canonical {
                    Ok(path) => Ok(path),
                    Err(e) => Err(PathProblem::Canonicalize(e)),
                }
            }
        },
    }
}

/// The message about a path that cannot be watched.
pub open spec fn problem_text(problem: PathProblem) -> Seq<char> {
    match problem {
        PathProblem::Normalize(e) => "Failed to normalize path: "@ + e@,
        PathProblem::NotAbsolute => "Path must be absolute"@,
        PathProblem::Missing => "Path does not exist"@,
        PathProblem::Canonicalize(e) => "Failed to canonicalize path: "@ + e@,
    }
}

/// The reason for refusing a join whose path cannot be watched.
pub open spec fn problem_reason(problem: PathProblem) -> Seq<char> {
    match problem {
        PathProblem::Normalize(e) => "failed to normalize path: "@ + e@,
        PathProblem::NotAbsolute => "path must be absolute"@,
        PathProblem::Missing => "path does not exist"@,
        PathProblem::Canonicalize(e) => "failed to canonicalize path: "@ + e@,
    }
}

impl PathProblem {
    /// The message about the path.
    pub fn message(&self) -> (r: String)
        ensures
            r@ == problem_text(*self),
    {
        match self {
            PathProblem::Normalize(e) => text::joined("Failed to normalize path: ", e.as_str()),
            PathProblem::NotAbsolute => "Path must be absolute".to_owned(),
            PathProblem::Missing => "Path does not exist".to_owned(),
            PathProblem::Canonicalize(e) => text::joined("Failed to canonicalize path: ", e.as_str()),
        }
    }

    /// The reason for refusing a join.
    pub fn reason(&self) -> (r: String)
        ensures
            r@ == problem_reason(*self),
    {
        match self {
            PathProblem::Normalize(e) => text::joined("failed to normalize path: ", e.as_str()),
            PathProblem::NotAbsolute => "path must be absolute".to_owned(),
            PathProblem::Missing => "path does not exist".to_owned(),
            PathProblem::Canonicalize(e) => text::joined("failed to canonicalize path: ", e.as_str()),
        }
    }
}

/// A directory that is watched.
#[derive(Debug, Clone, Copy, PartialEq, Eq, Structural)]
pub struct ActiveWatch {
    /// Whether the watcher has been started.
    pub started: bool,
}

impl View for ActiveWatch {
    type V = bool;

    open spec fn view(&self) -> bool {
        self.started
    }
}

// ---------------------------------------------------------------------------
// Joining a channel whose topic names the path
// ---------------------------------------------------------------------------

/// The path in a topic `watch:<path>`.
pub open spec fn topic_path_of(topic: Seq<char>) -> Option<Seq<char>> {
    match text::after_prefix(topic, "watch:"@) {
        Some(path) => if path.len() > 0 {
            Some(path)
        } else {
            None
        },
        None => None,
    }
}

/// The path in a topic `watch:<path>`. A topic of another form, or with no path, has none.
pub fn topic_path(topic: &str) -> (r: Option<String>)
    ensures
        json::opt_text(r) == topic_path_of(topic@),
{
    match text::strip_prefix(topic, "watch:") {
        Some(path) => {
            if path.as_str().unicode_len() > 0 {
                Some(path)
            } else {
                None
            }
        },
        None => None,
    }
}

/// Whether the payload of a join says that the path is a path inside the Windows Subsystem for
/// Linux.
pub open spec fn wsl_of(payload: JsonView) -> bool {
    match payload.get("is_wsl"@) {
        Some(value) => value.as_bool() == Some(true),
        None => false,
    }
}

/// Whether the payload of a join says that the path is a path inside the Windows Subsystem for
/// Linux.
pub fn is_wsl(payload: &Json) -> (r: bool)
    ensures
        r == wsl_of(payload@),
{
    match payload.get("is_wsl") {
        Some(value) => match value.as_bool() {
            Some(wsl) => wsl,
            None => false,
        },
        None => false,
    }
}

/// The answer to a join that is granted.
pub open spec fn watching_json(path: Seq<char>) -> JsonView {
    json::empty_object().with("status"@, JsonView::Str("watching"@)).with("path"@, JsonView::Str(path))
}

/// The answer to a join that is granted.
pub fn granted(path: &str) -> (r: JoinResult)
    ensures
        r@ == JoinView::Granted(watching_json(path@)),
{
    JoinResult::Granted(
        Json::object().with("status", Json::string("watching")).with("path", Json::string(path)),
    )
}

/// Why a join is refused before its path is looked at.
pub const INVALID_TOPIC: &'static str = "invalid topic format, expected 'watch:/path/to/dir'";

} // verus!
