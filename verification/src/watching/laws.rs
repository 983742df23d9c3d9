//! Which changes of files give which events, and what watchers say.

use vstd::prelude::*;

use crate::channel_result::{JoinResult, JoinView};
use crate::command::System;
use crate::json;
use crate::json::JsonView;
use crate::paths;
use crate::text;
use crate::watching;
use crate::watching::{
    ChangeKind, FileChange, PathEvent, PathEventView, PathProblem, WatcherStart, WatcherStartView,
};

verus! {

// ---------------------------------------------------------------------------
// Changes of paths
// ---------------------------------------------------------------------------

proof fn lemma_event_of_each_path(
    system: System,
    kind: ChangeKind,
    changed: Seq<Seq<char>>,
    watched: Seq<char>,
    i: int,
    event: PathEventView,
)
    requires
        0 <= i < changed.len(),
        watching::path_event(system, kind, changed[i], watched) == Some(event),
    ensures
        watching::path_events(system, kind, changed, watched).contains(event),
    decreases changed.len(),
{
    let rest = watching::path_events(system, kind, changed.drop_last(), watched);
    let all = watching::path_events(system, kind, changed, watched);
    if i < changed.len() - 1 {
        assert(changed.drop_last()[i] == changed[i]);
        lemma_event_of_each_path(system, kind, changed.drop_last(), watched, i, event);
        let k = rest.index_of(event);
        assert(all[k] == event);
    } else {
        assert(all == rest.push(event));
        assert(all[rest.len() as int] == event);
    }
}

/// Every file or directory that is created in the watched directory gives a creation.
pub proof fn lemma_creation_is_told(
    system: System,
    changed: Seq<Seq<char>>,
    watched: Seq<char>,
    pending: Option<Seq<char>>,
    i: int,
    path: Seq<char>,
)
    requires
        0 <= i < changed.len(),
        paths::relative_on(system, changed[i], watched) == Some(path),
    ensures
        watching::converted(system, ChangeKind::Create, changed, watched, pending).0.contains(
            PathEventView::Created { path },
        ),
{
    lemma_event_of_each_path(
        system,
        ChangeKind::Create,
        changed,
        watched,
        i,
        PathEventView::Created { path },
    );
}

/// Every file or directory that changes in the watched directory gives a modification.
pub proof fn lemma_modification_is_told(
    system: System,
    changed: Seq<Seq<char>>,
    watched: Seq<char>,
    pending: Option<Seq<char>>,
    i: int,
    path: Seq<char>,
)
    requires
        0 <= i < changed.len(),
        paths::relative_on(system, changed[i], watched) == Some(path),
    ensures
        watching::converted(system, ChangeKind::Modify, changed, watched, pending).0.contains(
            PathEventView::Modified { path },
        ),
{
    lemma_event_of_each_path(
        system,
        ChangeKind::Modify,
        changed,
        watched,
        i,
        PathEventView::Modified { path },
    );
}

/// Every file or directory that is removed from the watched directory, and is not that directory,
/// gives a deletion.
pub proof fn lemma_deletion_is_told(
    system: System,
    changed: Seq<Seq<char>>,
    watched: Seq<char>,
    pending: Option<Seq<char>>,
    i: int,
    path: Seq<char>,
)
    requires
        0 <= i < changed.len(),
        changed[i] != watched,
        paths::relative_on(system, changed[i], watched) == Some(path),
    ensures
        watching::converted(system, ChangeKind::Remove, changed, watched, pending).0.contains(
            PathEventView::Deleted { path },
        ),
{
    lemma_event_of_each_path(
        system,
        ChangeKind::Remove,
        changed,
        watched,
        i,
        PathEventView::Deleted { path },
    );
}

/// The removal of the watched directory itself is told as such.
pub proof fn lemma_removal_of_watched_is_told(
    system: System,
    changed: Seq<Seq<char>>,
    watched: Seq<char>,
    pending: Option<Seq<char>>,
)
    requires
        changed.contains(watched),
    ensures
        watching::converted(system, ChangeKind::Remove, changed, watched, pending).0.contains(
            PathEventView::WatchedRemoved,
        ),
{
    lemma_event_of_each_path(
        system,
        ChangeKind::Remove,
        changed,
        watched,
        changed.index_of(watched),
        PathEventView::WatchedRemoved,
    );
}

proof fn lemma_path_of_each_event(
    system: System,
    kind: ChangeKind,
    changed: Seq<Seq<char>>,
    watched: Seq<char>,
    k: int,
) -> (i: int)
    requires
        0 <= k < watching::path_events(system, kind, changed, watched).len(),
    ensures
        0 <= i < changed.len(),
        watching::path_event(system, kind, changed[i], watched) == Some(
            watching::path_events(system, kind, changed, watched)[k],
        ),
    decreases changed.len(),
{
    let rest = watching::path_events(system, kind, changed.drop_last(), watched);
    if k < rest.len() {
        let i = lemma_path_of_each_event(system, kind, changed.drop_last(), watched, k);
        assert(changed.drop_last()[i] == changed[i]);
        i
    } else {
        changed.len() - 1
    }
}

/// An event comes only of a change of its kind: a creation of a file that was created or that moved
/// into the directory, a modification of a file that changed, a deletion of a file that was removed
/// or that moved away, a renaming of a file that was renamed.
pub proof fn lemma_events_match_changes(
    system: System,
    kind: ChangeKind,
    changed: Seq<Seq<char>>,
    watched: Seq<char>,
    pending: Option<Seq<char>>,
    k: int,
)
    requires
        0 <= k < watching::converted(system, kind, changed, watched, pending).0.len(),
    ensures
        ({
            let event = watching::converted(system, kind, changed, watched, pending).0[k];
            &&& event is Created ==> kind == ChangeKind::Create || kind == ChangeKind::RenameTo || kind
                == ChangeKind::RenameBoth
            &&& event is Modified ==> kind == ChangeKind::Modify
            &&& event is Deleted ==> kind == ChangeKind::Remove || kind == ChangeKind::RenameBoth
            &&& event is Renamed ==> kind == ChangeKind::RenameTo || kind == ChangeKind::RenameBoth
            &&& event is WatchedRemoved ==> kind == ChangeKind::Remove && changed.contains(watched)
            &&& kind != ChangeKind::RenameFrom
            &&& kind != ChangeKind::Other
        }),
{
    match kind {
        ChangeKind::Create | ChangeKind::Modify | ChangeKind::Remove => {
            let i = lemma_path_of_each_event(system, kind, changed, watched, k);
            assert(changed[i] == changed[i]);
        },
        _ => {},
    }
}

/// An event of a file that was created, changed or removed names a path of the change, relative to
/// the watched directory.
pub proof fn lemma_events_name_changed_paths(
    system: System,
    kind: ChangeKind,
    changed: Seq<Seq<char>>,
    watched: Seq<char>,
    pending: Option<Seq<char>>,
    k: int,
)
    requires
        kind == ChangeKind::Create || kind == ChangeKind::Modify || kind == ChangeKind::Remove,
        0 <= k < watching::converted(system, kind, changed, watched, pending).0.len(),
    ensures
        ({
            let event = watching::converted(system, kind, changed, watched, pending).0[k];
            &&& event is WatchedRemoved || exists|i: int|
                #![trigger changed[i]]
                0 <= i < changed.len() && paths::relative_on(system, changed[i], watched) == Some(
                    match event {
                        PathEventView::Created { path } => path,
                        PathEventView::Modified { path } => path,
                        PathEventView::Deleted { path } => path,
                        _ => seq![],
                    },
                )
            &&& kind == ChangeKind::Create ==> event is Created
            &&& kind == ChangeKind::Modify ==> event is Modified
            &&& kind == ChangeKind::Remove ==> event is Deleted || event is WatchedRemoved
        }),
{
    let i = lemma_path_of_each_event(system, kind, changed, watched, k);
    assert(0 <= i < changed.len());
    assert(changed[i] == changed[i]);
}

proof fn lemma_all_events(system: System, kind: ChangeKind, changed: Seq<Seq<char>>, watched: Seq<char>)
    ensures
        watching::path_events(system, kind, changed, watched).len() <= changed.len(),
        (forall|i: int|
            0 <= i < changed.len() ==> watching::path_event(system, kind, #[trigger] changed[i], watched)
                is Some) ==> {
            &&& watching::path_events(system, kind, changed, watched).len() == changed.len()
            &&& forall|i: int|
                0 <= i < changed.len() ==> Some(
                    #[trigger] watching::path_events(system, kind, changed, watched)[i],
                ) == watching::path_event(system, kind, changed[i], watched)
        },
    decreases changed.len(),
{
    if changed.len() > 0 {
        let shorter = changed.drop_last();
        lemma_all_events(system, kind, shorter, watched);
        let rest = watching::path_events(system, kind, shorter, watched);
        let events = watching::path_events(system, kind, changed, watched);
        if forall|i: int|
            0 <= i < changed.len() ==> watching::path_event(system, kind, #[trigger] changed[i], watched)
                is Some {
            assert forall|i: int| 0 <= i < shorter.len() implies watching::path_event(
                system,
                kind,
                #[trigger] shorter[i],
                watched,
            ) is Some by {
                assert(shorter[i] == changed[i]);
            }
            assert(changed[changed.len() - 1] == changed.last());
            assert forall|i: int| 0 <= i < changed.len() implies Some(#[trigger] events[i])
                == watching::path_event(system, kind, changed[i], watched) by {
                if i < shorter.len() {
                    assert(events[i] == rest[i]);
                    assert(shorter[i] == changed[i]);
                }
            }
        }
    }
}

/// A change gives at most one event for each path, and where all paths lie in the directory it gives
/// one for each, in the order of the paths. A change that is no renaming leaves a started one alone.
pub proof fn lemma_events_in_order(
    system: System,
    kind: ChangeKind,
    changed: Seq<Seq<char>>,
    watched: Seq<char>,
    pending: Option<Seq<char>>,
    i: int,
)
    requires
        kind == ChangeKind::Create || kind == ChangeKind::Modify || kind == ChangeKind::Remove,
    ensures
        ({
            let (events, left) = watching::converted(system, kind, changed, watched, pending);
            let inside = forall|k: int|
                0 <= k < changed.len() ==> paths::relative_on(system, #[trigger] changed[k], watched)
                    is Some && changed[k] != watched;
            let path = paths::relative_on(system, changed[i], watched)->0;
            &&& left == pending
            &&& events.len() <= changed.len()
            &&& inside ==> events.len() == changed.len()
            &&& inside && 0 <= i < changed.len() ==> {
                &&& kind == ChangeKind::Create ==> events[i] == (PathEventView::Created { path })
                &&& kind == ChangeKind::Modify ==> events[i] == (PathEventView::Modified { path })
                &&& kind == ChangeKind::Remove ==> events[i] == (PathEventView::Deleted { path })
            }
        }),
{
    lemma_all_events(system, kind, changed, watched);
    let events = watching::path_events(system, kind, changed, watched);
    assert(events[i] == events[i]);
    assert(changed[i] == changed[i]);
}

/// What lies outside the watched directory gives no event.
pub proof fn lemma_nothing_from_outside(
    system: System,
    kind: ChangeKind,
    changed: Seq<Seq<char>>,
    watched: Seq<char>,
    pending: Option<Seq<char>>,
)
    requires
        kind == ChangeKind::Create || kind == ChangeKind::Modify || kind == ChangeKind::Remove,
        forall|i: int|
            0 <= i < changed.len() ==> paths::relative_on(system, #[trigger] changed[i], watched) is None
                && changed[i] != watched,
    ensures
        watching::converted(system, kind, changed, watched, pending).0.len() == 0,
{
    let events = watching::converted(system, kind, changed, watched, pending).0;
    if events.len() > 0 {
        let i = lemma_path_of_each_event(system, kind, changed, watched, 0);
        assert(paths::relative_on(system, changed[i], watched) is None);
    }
}

// ---------------------------------------------------------------------------
// Renamings
// ---------------------------------------------------------------------------

/// A renaming that is reported at once: inside the directory it is a renaming, out of it a deletion,
/// into it a creation, and outside of it nothing. A started renaming is left alone.
pub proof fn lemma_renaming(
    system: System,
    changed: Seq<Seq<char>>,
    watched: Seq<char>,
    pending: Option<Seq<char>>,
)
    requires
        changed.len() >= 2,
    ensures
        ({
            let (events, left) = watching::converted(
                system,
                ChangeKind::RenameBoth,
                changed,
                watched,
                pending,
            );
            let old_path = paths::relative_on(system, changed[0], watched);
            let new_path = paths::relative_on(system, changed[1], watched);
            &&& left == pending
            &&& old_path is Some && new_path is Some ==> events == seq![
                PathEventView::Renamed { from: old_path->0, to: new_path->0 },
            ]
            &&& old_path is Some && new_path is None ==> events == seq![
                PathEventView::Deleted { path: old_path->0 },
            ]
            &&& old_path is None && new_path is Some ==> events == seq![
                PathEventView::Created { path: new_path->0 },
            ]
            &&& old_path is None && new_path is None ==> events.len() == 0
        }),
{
}

/// A renaming that is reported in two steps: the first gives nothing and keeps the old name, where it
/// lies in the directory. The second gives a renaming if an old name is kept, and a creation if none
/// is; no name is kept afterwards.
pub proof fn lemma_renaming_steps(
    system: System,
    changed: Seq<Seq<char>>,
    watched: Seq<char>,
    pending: Option<Seq<char>>,
)
    requires
        changed.len() > 0,
    ensures
        ({
            let (events, left) = watching::converted(
                system,
                ChangeKind::RenameFrom,
                changed,
                watched,
                pending,
            );
            events.len() == 0 && left == paths::relative_on(system, changed[0], watched)
        }),
        ({
            let (events, left) = watching::converted(
                system,
                ChangeKind::RenameTo,
                changed,
                watched,
                pending,
            );
            let new_path = paths::relative_on(system, changed[0], watched);
            &&& left is None
            &&& new_path is None ==> events.len() == 0
            &&& new_path is Some && pending is Some ==> events == seq![
                PathEventView::Renamed { from: pending->0, to: new_path->0 },
            ]
            &&& new_path is Some && pending is None ==> events == seq![
                PathEventView::Created { path: new_path->0 },
            ]
        }),
{
}

/// A renaming without the paths that it needs, and a change that does not matter, give nothing and
/// change nothing.
pub proof fn lemma_changes_without_paths(
    system: System,
    changed: Seq<Seq<char>>,
    watched: Seq<char>,
    pending: Option<Seq<char>>,
)
    ensures
        watching::converted(system, ChangeKind::Other, changed, watched, pending).0.len() == 0,
        watching::converted(system, ChangeKind::Other, changed, watched, pending).1 == pending,
        changed.len() == 0 ==> {
            &&& watching::converted(system, ChangeKind::RenameFrom, changed, watched, pending).0.len() == 0
            &&& watching::converted(system, ChangeKind::RenameFrom, changed, watched, pending).1 == pending
            &&& watching::converted(system, ChangeKind::RenameTo, changed, watched, pending).0.len() == 0
            &&& watching::converted(system, ChangeKind::RenameTo, changed, watched, pending).1 == pending
        },
        changed.len() < 2 ==> {
            &&& watching::converted(system, ChangeKind::RenameBoth, changed, watched, pending).0.len() == 0
            &&& watching::converted(system, ChangeKind::RenameBoth, changed, watched, pending).1 == pending
        },
{
}

// ---------------------------------------------------------------------------
// What watchers say
// ---------------------------------------------------------------------------

/// A watcher that the system has is used without a word, unless polling was asked for. Where it cannot
/// be had, polling is used with a warning that names the reason. Where neither can be had, watching
/// fails with both reasons.
pub proof fn lemma_watcher_start(native_error: Seq<char>, poll_error: Seq<char>, native: Result<(), Seq<char>>, poll: Result<(), Seq<char>>)
    ensures
        poll is Ok ==> watching::start_of(true, native, poll) == WatcherStartView::Ready,
        watching::start_of(true, native, Err(poll_error)) == WatcherStartView::Failed(
            "Failed to create poll watcher: "@ + poll_error,
        ),
        native is Ok ==> watching::start_of(false, native, poll) == WatcherStartView::Ready,
        watching::start_of(false, Err(native_error), Ok(())) == WatcherStartView::Warn(
            "Using poll-based file watching (native watcher unavailable: "@ + native_error
                + "). File change detection may be slower."@,
        ),
        watching::start_of(false, Err(native_error), Err(poll_error)) == WatcherStartView::Failed(
            "Failed to create watcher: "@ + native_error + " (poll fallback also failed: "@ + poll_error
                + ")"@,
        ),
{
}

/// The texts about a path that cannot be watched.
pub proof fn lemma_problem_texts(error: String, reason: Seq<char>)
    ensures
        watching::problem_text(PathProblem::Normalize(error)) == "Failed to normalize path: "@ + error@,
        watching::problem_text(PathProblem::NotAbsolute) == "Path must be absolute"@,
        watching::problem_text(PathProblem::Missing) == "Path does not exist"@,
        watching::problem_text(PathProblem::Canonicalize(error)) == "Failed to canonicalize path: "@
            + error@,
        watching::problem_reason(PathProblem::Normalize(error)) == "failed to normalize path: "@ + error@,
        watching::problem_reason(PathProblem::NotAbsolute) == "path must be absolute"@,
        watching::problem_reason(PathProblem::Missing) == "path does not exist"@,
        watching::problem_reason(PathProblem::Canonicalize(error)) == "failed to canonicalize path: "@
            + error@,
        watching::watch_path_text(reason) == "Failed to watch path: "@ + reason,
        watching::watch_error_text(reason) == "Watch error: "@ + reason,
        watching::INVALID_TOPIC@ == "invalid topic format, expected 'watch:/path/to/dir'"@,
{
}

/// The path of a topic is what follows `watch:`, unless that is nothing.
pub proof fn lemma_topic_path(topic: Seq<char>, path: Seq<char>)
    ensures
        path.len() > 0 ==> watching::topic_path_of("watch:"@ + path) == Some(path),
        watching::topic_path_of("watch:"@) is None,
        watching::topic_path_of(topic) is Some ==> topic == "watch:"@ + watching::topic_path_of(topic)->0
            && watching::topic_path_of(topic)->0.len() > 0,
{
    let prefix = "watch:"@;
    assert((prefix + path).take(prefix.len() as int) =~= prefix);
    assert((prefix + path).skip(prefix.len() as int) =~= path);
    assert(prefix.take(prefix.len() as int) =~= prefix);
    if watching::topic_path_of(topic) is Some {
        assert(topic =~= topic.take(prefix.len() as int) + topic.skip(prefix.len() as int));
    }
}

/// A path is one of the Windows Subsystem for Linux only if the join says so with `is_wsl: true`.
pub proof fn lemma_wsl(payload: JsonView)
    ensures
        watching::wsl_of(payload) <==> payload.get("is_wsl"@) == Some(JsonView::Bool(true)),
{
}

/// The members of the answer to a join that is granted: that the path is watched, and the path.
pub proof fn lemma_watching_members(path: Seq<char>)
    ensures
        watching::watching_json(path) is Obj,
        watching::watching_json(path)->Obj_0.dom() == set!["status"@, "path"@],
        watching::watching_json(path).get("status"@) == Some(JsonView::Str("watching"@)),
        watching::watching_json(path).get("path"@) == Some(JsonView::Str(path)),
{
    reveal_strlit("status");
    reveal_strlit("path");
    assert("status"@.len() == 6);
    assert("path"@.len() == 4);
    assert(watching::watching_json(path)->Obj_0.dom() =~= set!["status"@, "path"@]);
}

// ---------------------------------------------------------------------------
// What the calls do
// ---------------------------------------------------------------------------

/// Converting a change: every path of a removal that lies in the directory and is not the directory is
/// told as deleted, every path that was created as created, and every path that changed as modified.
pub proof fn lemma_convert_call(
    change: &FileChange,
    watched: &str,
    pending: &mut Option<String>,
    r: Vec<PathEvent>,
    i: int,
    path: Seq<char>,
)
    requires
        call_ensures(watching::convert, (change, watched, pending), r),
        0 <= i < change.paths@.len(),
        paths::relative_on(change.system, change.paths@[i]@, watched@) == Some(path),
    ensures
        change.kind == ChangeKind::Create ==> watching::events_view(r@).contains(
            PathEventView::Created { path },
        ),
        change.kind == ChangeKind::Modify ==> watching::events_view(r@).contains(
            PathEventView::Modified { path },
        ),
        change.kind == ChangeKind::Remove && change.paths@[i]@ != watched@ ==> watching::events_view(
            r@,
        ).contains(PathEventView::Deleted { path }),
        change.kind == ChangeKind::Create || change.kind == ChangeKind::Modify || change.kind
            == ChangeKind::Remove || change.kind == ChangeKind::Other ==> json::opt_text(*final(pending))
            == json::opt_text(*old(pending)),
{
    let changed = text::texts(change.paths@);
    let kept = json::opt_text(*old(pending));
    assert(changed[i] == change.paths@[i]@);
    lemma_creation_is_told(change.system, changed, watched@, kept, i, path);
    lemma_modification_is_told(change.system, changed, watched@, kept, i, path);
    if changed[i] != watched@ {
        lemma_deletion_is_told(change.system, changed, watched@, kept, i, path);
    }
}

/// Converting a change tells nothing that the change is not: what it tells matches the kind of the
/// change.
pub proof fn lemma_convert_call_kinds(
    change: &FileChange,
    watched: &str,
    pending: &mut Option<String>,
    r: Vec<PathEvent>,
    k: int,
)
    requires
        call_ensures(watching::convert, (change, watched, pending), r),
        0 <= k < r@.len(),
    ensures
        r@[k] is Created ==> change.kind == ChangeKind::Create || change.kind == ChangeKind::RenameTo
            || change.kind == ChangeKind::RenameBoth,
        r@[k] is Modified ==> change.kind == ChangeKind::Modify,
        r@[k] is Deleted ==> change.kind == ChangeKind::Remove || change.kind == ChangeKind::RenameBoth,
        r@[k] is Renamed ==> change.kind == ChangeKind::RenameTo || change.kind == ChangeKind::RenameBoth,
        r@[k] is WatchedRemoved ==> change.kind == ChangeKind::Remove,
{
    assert(watching::events_view(r@)[k] == r@[k]@);
    lemma_events_match_changes(
        change.system,
        change.kind,
        text::texts(change.paths@),
        watched@,
        json::opt_text(*old(pending)),
        k,
    );
}

/// Checking a path: a text that cannot be normalized, a path that is not absolute, one that does not
/// exist and one that cannot be resolved are told apart, in this order.
pub proof fn lemma_check_path_call(
    normalized: Result<(), String>,
    is_absolute: bool,
    exists: bool,
    canonical: Result<String, String>,
    r: Result<String, PathProblem>,
)
    requires
        call_ensures(watching::check_path, (normalized, is_absolute, exists, canonical), r),
    ensures
        normalized is Err ==> r is Err && r->Err_0 is Normalize,
        normalized is Ok && !is_absolute ==> r is Err && r->Err_0 is NotAbsolute,
        normalized is Ok && is_absolute && !exists ==> r is Err && r->Err_0 is Missing,
        normalized is Ok && is_absolute && exists && canonical is Err ==> r is Err && r->Err_0
            is Canonicalize,
        normalized is Ok && is_absolute && exists && canonical is Ok ==> r is Ok && r->Ok_0@
            == canonical->Ok_0@,
{
}

/// The texts and answers of a watcher are those of their laws.
pub proof fn lemma_text_calls(
    error: &str,
    problem: &PathProblem,
    topic: &str,
    payload: &json::Json,
    path: &str,
    not_watched: String,
    failed: String,
    message: String,
    reason: String,
    topic_path: Option<String>,
    wsl: bool,
    granted: JoinResult,
)
    requires
        call_ensures(watching::watch_path_error, (error,), not_watched),
        call_ensures(watching::watch_error, (error,), failed),
        call_ensures(PathProblem::message, (problem,), message),
        call_ensures(PathProblem::reason, (problem,), reason),
        call_ensures(watching::topic_path, (topic,), topic_path),
        call_ensures(watching::is_wsl, (payload,), wsl),
        call_ensures(watching::granted, (path,), granted),
    ensures
        not_watched@ == "Failed to watch path: "@ + error@,
        failed@ == "Watch error: "@ + error@,
        message@ == watching::problem_text(*problem),
        reason@ == watching::problem_reason(*problem),
        json::opt_text(topic_path) == watching::topic_path_of(topic@),
        wsl <==> payload@.get("is_wsl"@) == Some(JsonView::Bool(true)),
        granted@ == JoinView::Granted(
            JsonView::Obj(map!["status"@ => JsonView::Str("watching"@), "path"@ => JsonView::Str(path@)]),
        ),
{
}

/// How a watcher starts goes by what could be made.
pub proof fn lemma_start_call(
    use_poll_watcher: bool,
    native: Result<(), String>,
    poll: Result<(), String>,
    r: WatcherStart,
)
    requires
        call_ensures(watching::watcher_start, (use_poll_watcher, native, poll), r),
    ensures
        !use_poll_watcher && native is Ok ==> r@ is Ready,
        !use_poll_watcher && native is Err && poll is Ok ==> r@ is Warn,
        !use_poll_watcher && native is Err && poll is Err ==> r@ is Failed,
        use_poll_watcher && poll is Ok ==> r@ is Ready,
        use_poll_watcher && poll is Err ==> r@ is Failed,
        r@ == watching::start_of(
            use_poll_watcher,
            watching::outcome_view(native),
            watching::outcome_view(poll),
        ),
{
}

} // verus!
