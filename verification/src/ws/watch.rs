//! File system watching on a Phoenix channel `watch:<ref>`, where `<ref>` is the client's own name
//! for the watch.
//!
//! Clients that watch the same directory share one watcher. When the watcher dies or the watched
//! directory is removed, the channel fails, and Phoenix clients join again by themselves. The paths
//! in events are relative to the watched directory.

use vstd::prelude::*;

use crate::json;
use crate::json::{Json, JsonView};
use crate::phoenix;
use crate::phoenix::{InitResult, InitView, PhxMessage};
use crate::registry;
use crate::registry::Registry;
use crate::starts;
use crate::starts::StartStep;
use crate::text;
use crate::watching;
use crate::watching::{
    FileChange, NewsView, PathEvent, PathEventView, PathProblem, WatcherNews, WatcherStart,
    WatcherStartView,
};

pub use crate::watching::ActiveWatch;

verus! {

broadcast use crate::registry::group_viewed;

/// A change that a client is told of.
#[derive(Debug)]
pub enum FsEvent {
    Created { path: String },
    Modified { path: String },
    Deleted { path: String },
    Renamed { from: String, to: String },
    Warning { message: String },
}

/// What a watcher tells its channels.
#[derive(Debug)]
pub enum WatchEvent {
    FS(FsEvent),
    /// The watcher has died, or the watched path was removed.
    Terminated { error: String },
}

/// The model of a [`FsEvent`].
pub enum FsView {
    Created { path: Seq<char> },
    Modified { path: Seq<char> },
    Deleted { path: Seq<char> },
    Renamed { from: Seq<char>, to: Seq<char> },
    Warning { message: Seq<char> },
}

/// The model of a [`WatchEvent`].
pub enum WatchView {
    FS(FsView),
    Terminated { error: Seq<char> },
}

impl View for FsEvent {
    type V = FsView;

    open spec fn view(&self) -> FsView {
        match self {
            FsEvent::Created { path } => FsView::Created { path: path@ },
            FsEvent::Modified { path } => FsView::Modified { path: path@ },
            FsEvent::Deleted { path } => FsView::Deleted { path: path@ },
            FsEvent::Renamed { from, to } => FsView::Renamed { from: from@, to: to@ },
            FsEvent::Warning { message } => FsView::Warning { message: message@ },
        }
    }
}

impl View for WatchEvent {
    type V = WatchView;

    open spec fn view(&self) -> WatchView {
        match self {
            WatchEvent::FS(event) => WatchView::FS(event@),
            WatchEvent::Terminated { error } => WatchView::Terminated { error: error@ },
        }
    }
}

/// The models of a list of events.
pub open spec fn watch_views(events: Seq<WatchEvent>) -> Seq<WatchView> {
    events.map_values(|e: WatchEvent| e@)
}

/// The name of an event, and its payload.
pub open spec fn event_parts(event: FsView) -> (Seq<char>, JsonView) {
    match event {
        FsView::Created { path } => ("created"@, json::empty_object().with("path"@, JsonView::Str(path))),
        FsView::Modified { path } => ("modified"@, json::empty_object().with("path"@, JsonView::Str(path))),
        FsView::Deleted { path } => ("deleted"@, json::empty_object().with("path"@, JsonView::Str(path))),
        FsView::Renamed { from, to } => (
            "renamed"@,
            json::empty_object().with("from"@, JsonView::Str(from)).with("to"@, JsonView::Str(to)),
        ),
        FsView::Warning { message } => (
            "warning"@,
            json::empty_object().with("message"@, JsonView::Str(message)),
        ),
    }
}

impl FsEvent {
    /// The message that carries the event on a topic.
    pub fn into_phx(self, topic: &str, join_ref: &Option<String>) -> (r: PhxMessage)
        ensures
            r@ == phoenix::push_view(
                json::opt_text(*join_ref),
                topic@,
                event_parts(self@).0,
                event_parts(self@).1,
            ),
    {
        let (name, payload) = match self {
            FsEvent::Created { path } => ("created", Json::object().with("path", Json::String(path))),
            FsEvent::Modified { path } => ("modified", Json::object().with("path", Json::String(path))),
            FsEvent::Deleted { path } => ("deleted", Json::object().with("path", Json::String(path))),
            FsEvent::Renamed { from, to } => (
                "renamed",
                Json::object().with("from", Json::String(from)).with("to", Json::String(to)),
            ),
            FsEvent::Warning { message } => (
                "warning",
                Json::object().with("message", Json::String(message)),
            ),
        };
        let mut phx = PhxMessage::new(topic, name, payload);
        phx.join_ref = phoenix::clone_text(join_ref);
        phx
    }
}

/// The event for the channels of a watcher.
pub open spec fn watch_event(event: PathEventView) -> WatchView {
    match event {
        PathEventView::Created { path } => WatchView::FS(FsView::Created { path }),
        PathEventView::Modified { path } => WatchView::FS(FsView::Modified { path }),
        PathEventView::Deleted { path } => WatchView::FS(FsView::Deleted { path }),
        PathEventView::Renamed { from, to } => WatchView::FS(FsView::Renamed { from, to }),
        PathEventView::WatchedRemoved => WatchView::Terminated { error: "watched path was removed"@ },
    }
}

/// The events for the channels of a watcher.
pub open spec fn watch_events(events: Seq<PathEventView>) -> Seq<WatchView> {
    events.map_values(|e: PathEventView| watch_event(e))
}

fn from_path_event(event: PathEvent) -> (r: WatchEvent)
    ensures
        r@ == watch_event(event@),
{
    match event {
        PathEvent::Created { path } => WatchEvent::FS(FsEvent::Created { path }),
        PathEvent::Modified { path } => WatchEvent::FS(FsEvent::Modified { path }),
        PathEvent::Deleted { path } => WatchEvent::FS(FsEvent::Deleted { path }),
        PathEvent::Renamed { from, to } => WatchEvent::FS(FsEvent::Renamed { from, to }),
        PathEvent::WatchedRemoved => WatchEvent::Terminated {
            error: "watched path was removed".to_owned(),
        },
    }
}

/// Turns a change in the file system into events for the channels of a watcher.
pub fn convert_notify_event(
    change: &FileChange,
    watched_path: &str,
    pending_rename_from: &mut Option<String>,
) -> (r: Vec<WatchEvent>)
    ensures
        watch_views(r@) == watch_events(
            watching::converted(
                change.system,
                change.kind,
                text::texts(change.paths@),
                watched_path@,
                json::opt_text(*old(pending_rename_from)),
            ).0,
        ),
        json::opt_text(*final(pending_rename_from)) == watching::converted(
            change.system,
            change.kind,
            text::texts(change.paths@),
            watched_path@,
            json::opt_text(*old(pending_rename_from)),
        ).1,
{
    let mut events = watching::convert(change, watched_path, pending_rename_from);
    let ghost all = watching::events_view(events@);
    let mut r: Vec<WatchEvent> = Vec::new();
    while events.len() > 0
        invariant
            r.len() + events.len() == all.len(),
            watching::events_view(events@) == all.skip(r.len() as int),
            watch_views(r@) == watch_events(all.take(r.len() as int)),
        decreases events.len(),
    {
        let ghost before = r@;
        let ghost rest = events@;
        let event = events.remove(0);
        proof {
            assert(watching::events_view(rest)[0] == rest[0]@);
            assert(event@ == all[before.len() as int]);
        }
        r.push(from_path_event(event));
        proof {
            assert forall|i: int| 0 <= i < events@.len() implies watching::events_view(events@)[i]
                == all.skip(r.len() as int)[i] by {
                assert(watching::events_view(rest)[i + 1] == all.skip(before.len() as int)[i + 1]);
            }
            assert(watching::events_view(events@) =~= all.skip(r.len() as int));
            assert(watch_views(r@) =~= watch_views(before).push(watch_event(event@)));
            assert(all.take(r.len() as int) =~= all.take(before.len() as int).push(event@));
            assert(watch_events(all.take(r.len() as int)) =~= watch_events(
                all.take(before.len() as int),
            ).push(watch_event(event@)));
        }
    }
    assert(all.take(all.len() as int) =~= all);
    r
}

/// The events of a batch that a watcher sends: those up to the one that ends it.
pub open spec fn until_terminated(events: Seq<WatchView>) -> Seq<WatchView>
    decreases events.len(),
{
    if events.len() == 0 {
        seq![]
    } else if events[0] is Terminated {
        seq![events[0]]
    } else {
        seq![events[0]] + until_terminated(events.drop_first())
    }
}

/// Drops the events after the one that ends a watcher. The result says whether one does.
pub fn cut_at_termination(events: &mut Vec<WatchEvent>) -> (ended: bool)
    ensures
        watch_views(final(events)@) == until_terminated(watch_views(old(events)@)),
        ended == exists|i: int|
            0 <= i < old(events)@.len() && (#[trigger] watch_views(old(events)@)[i]) is Terminated,
{
    let ghost all = watch_views(events@);
    let mut i: usize = 0;
    proof {
        assert(all.skip(0) =~= all);
        assert(all.take(0) + until_terminated(all) =~= until_terminated(all));
    }
    while i < events.len()
        invariant
            events@ == old(events)@,
            all == watch_views(events@),
            i <= events.len(),
            forall|k: int| 0 <= k < i ==> !((#[trigger] all[k]) is Terminated),
            until_terminated(all) == all.take(i as int) + until_terminated(all.skip(i as int)),
        decreases events.len() - i,
    {
        let ends = match &events[i] {
            WatchEvent::Terminated { .. } => true,
            WatchEvent::FS(_) => false,
        };
        proof {
            assert(all.skip(i as int)[0] == all[i as int]);
            assert(all[i as int] == events@[i as int]@);
            assert(all.skip(i as int).drop_first() =~= all.skip(i + 1));
        }
        if ends {
            events.truncate(i + 1);
            proof {
                assert(watch_views(events@) =~= all.take(i as int) + seq![all[i as int]]);
            }
            return true;
        }
        proof {
            assert(all.take(i as int) + (seq![all[i as int]] + until_terminated(all.skip(i + 1)))
                =~= all.take(i + 1) + until_terminated(all.skip(i + 1)));
        }
        i = i + 1;
    }
    proof {
        assert(all.skip(all.len() as int).len() == 0);
        assert(all.take(all.len() as int) + Seq::<WatchView>::empty() =~= all);
    }
    false
}

/// The events with which a watcher starts or fails to.
pub fn start_event(start: WatcherStart) -> (r: Option<WatchEvent>)
    ensures
        match start@ {
            WatcherStartView::Ready => r is None,
            WatcherStartView::Warn(message) => r is Some && r->0@ == WatchView::FS(
                FsView::Warning { message },
            ),
            WatcherStartView::Failed(error) => r is Some && r->0@ == WatchView::Terminated { error },
        },
{
    match start {
        WatcherStart::Ready => None,
        WatcherStart::Warn(message) => Some(WatchEvent::FS(FsEvent::Warning { message })),
        WatcherStart::Failed(error) => Some(WatchEvent::Terminated { error }),
    }
}

/// What a channel hears from its watcher.
#[derive(Debug)]
pub enum Received {
    Event(WatchEvent),
    /// The watcher is gone.
    Closed,
    /// Some events were lost.
    Lagged,
}

/// What a channel does with what it hears.
pub enum Forwarded {
    Push(PhxMessage),
    Nothing,
    End(InitResult),
}

/// Decides what a channel does with what it hears from its watcher.
pub fn forward(received: Received, topic: &str, join_ref: &Option<String>) -> (r: Forwarded)
    ensures
        match received {
            Received::Event(WatchEvent::FS(event)) => {
                &&& r is Push
                &&& r->Push_0@ == phoenix::push_view(
                    json::opt_text(*join_ref),
                    topic@,
                    event_parts(event@).0,
                    event_parts(event@).1,
                )
            },
            Received::Event(WatchEvent::Terminated { error }) => r is End && r->End_0@
                == InitView::Shutdown(error@),
            Received::Closed => r is End && r->End_0@ == InitView::Shutdown("watcher closed"@),
            Received::Lagged => r is Nothing,
        },
{
    match received {
        Received::Event(WatchEvent::FS(event)) => Forwarded::Push(event.into_phx(topic, join_ref)),
        Received::Event(WatchEvent::Terminated { error }) => Forwarded::End(InitResult::Shutdown(error)),
        Received::Closed => Forwarded::End(InitResult::Shutdown("watcher closed".to_owned())),
        Received::Lagged => Forwarded::Nothing,
    }
}

/// The directories that are watched, by their canonical paths.
pub struct WatchFeatureState {
    pub watchers: Registry<ActiveWatch>,
}

impl View for WatchFeatureState {
    type V = Map<Seq<char>, bool>;

    open spec fn view(&self) -> Map<Seq<char>, bool> {
        registry::viewed(self.watchers@)
    }
}

/// Whether a join for a directory starts its watcher.
pub open spec fn starts_watcher(watchers: Map<Seq<char>, bool>, path: Seq<char>) -> bool {
    !(watchers.contains_key(path) && watchers[path])
}

/// A channel that has joined.
pub struct Joined {
    pub canonical_path: String,
    /// Whether the watcher is to be started.
    pub start_watcher: bool,
    pub reply: PhxMessage,
}

impl WatchFeatureState {
    /// The table is well formed.
    pub open spec fn wf(&self) -> bool {
        self.watchers.wf()
    }

    /// Nothing is watched.
    pub fn new() -> (r: Self)
        ensures
            r.wf(),
            r@ == Map::<Seq<char>, bool>::empty(),
    {
        let r = WatchFeatureState { watchers: Registry::new() };
        assert(r@ =~= Map::<Seq<char>, bool>::empty());
        r
    }

    /// Joins a channel to the watcher of a directory. `payload` says why the join's payload could
    /// not be read, where it could not, and `path` is the outcome of
    /// [`watching::check_path`]. Only the first channel starts the watcher.
    pub fn join(&mut self, msg: &PhxMessage, payload: Result<(), String>, path: Result<String, PathProblem>) -> (r:
        Result<Joined, InitResult>)
        requires
            old(self).wf(),
        ensures
            final(self).wf(),
            match (payload, path) {
                (Err(e), _) => r is Err && r->Err_0@ == InitView::Error(e@) && final(self)@ == old(self)@,
                (Ok(_), Err(problem)) => r is Err && r->Err_0@ == InitView::Error(
                    watching::problem_text(problem),
                ) && final(self)@ == old(self)@,
                (Ok(_), Ok(path)) => {
                    &&& r is Ok
                    &&& r->Ok_0.canonical_path@ == path@
                    &&& r->Ok_0.start_watcher == starts_watcher(old(self)@, path@)
                    &&& r->Ok_0.reply@ == phoenix::reply_view(
                        msg@,
                        "ok"@,
                        json::empty_object().with("path"@, JsonView::Str(path@)),
                    )
                    &&& final(self)@ == old(self)@.insert(path@, true)
                },
            },
    {
        match payload {
            Err(e) => {
                return Err(InitResult::Error(e));
            },
            Ok(()) => {},
        }
        match path {
            Err(problem) => Err(InitResult::Error(problem.message())),
            Ok(canonical_path) => {
                let started = match self.watchers.get(canonical_path.as_str()) {
                    Some(watch) => watch.started,
                    None => false,
                };
                self.watchers.insert(canonical_path.clone(), ActiveWatch { started: true });
                let reply = PhxMessage::ok_reply(
                    msg,
                    Json::object().with("path", Json::string(canonical_path.as_str())),
                );
                Ok(Joined { canonical_path, start_watcher: !started, reply })
            },
        }
    }

    /// Forgets a watcher that has ended.
    pub fn remove_watcher(&mut self, canonical_path: &str)
        requires
            old(self).wf(),
        ensures
            final(self).wf(),
            final(self)@ == old(self)@.remove(canonical_path@),
    {
        let _ = self.watchers.remove(canonical_path);
    }

    /// Takes in what the task of a watcher learns. The result is the events to be sent, and whether the
    /// task ends. A watcher that ends is forgotten.
    pub fn watcher_news(
        &mut self,
        canonical_path: &str,
        pending_rename_from: &mut Option<String>,
        news: WatcherNews,
    ) -> (r: (Vec<WatchEvent>, bool))
        requires
            old(self).wf(),
        ensures
            final(self).wf(),
            ({
                let (events, pending, ends) = told(
                    news@,
                    canonical_path@,
                    json::opt_text(*old(pending_rename_from)),
                );
                &&& watch_views(r.0@) == events
                &&& json::opt_text(*final(pending_rename_from)) == pending
                &&& r.1 == ends
                &&& final(self)@ == watchers_after(old(self)@, canonical_path@, ends)
            }),
    {
        let mut events: Vec<WatchEvent> = Vec::new();
        let ends = match news {
            WatcherNews::Started(start) => {
                let failed = match start {
                    WatcherStart::Failed(_) => true,
                    _ => false,
                };
                match start_event(start) {
                    Some(event) => events.push(event),
                    None => {},
                }
                failed
            },
            WatcherNews::NotWatched(e) => {
                events.push(WatchEvent::Terminated { error: watching::watch_path_error(e.as_str()) });
                true
            },
            WatcherNews::Changed(change) => {
                events = convert_notify_event(&change, canonical_path, pending_rename_from);
                cut_at_termination(&mut events)
            },
            WatcherNews::Failed(e) => {
                events.push(WatchEvent::Terminated { error: watching::watch_error(e.as_str()) });
                true
            },
            WatcherNews::Silent => true,
            WatcherNews::Idle(listeners) => listeners == 0,
        };
        proof {
            let (expected, _, _) = told(
                news@,
                canonical_path@,
                json::opt_text(*old(pending_rename_from)),
            );
            assert(watch_views(events@) =~= expected);
        }
        if ends {
            self.remove_watcher(canonical_path);
        }
        (events, ends)
    }

    /// Forgets all watchers.
    pub fn clear(&mut self)
        requires
            old(self).wf(),
        ensures
            final(self).wf(),
            final(self)@ == Map::<Seq<char>, bool>::empty(),
    {
        self.watchers = Registry::new();
        assert(self@ =~= Map::<Seq<char>, bool>::empty());
    }
}

// ---------------------------------------------------------------------------
// The life of a watcher
// ---------------------------------------------------------------------------

/// What the task of a watcher makes of what it learns: the events that it sends, the pending old name
/// of a rename, and whether it ends.
pub open spec fn told(news: NewsView, path: Seq<char>, pending: Option<Seq<char>>) -> (
    Seq<WatchView>,
    Option<Seq<char>>,
    bool,
) {
    match news {
        NewsView::Started(WatcherStartView::Ready) => (seq![], pending, false),
        NewsView::Started(WatcherStartView::Warn(message)) => (
            seq![WatchView::FS(FsView::Warning { message })],
            pending,
            false,
        ),
        NewsView::Started(WatcherStartView::Failed(error)) => (
            seq![WatchView::Terminated { error }],
            pending,
            true,
        ),
        NewsView::NotWatched(e) => {
            let error = watching::watch_path_text(e);
            (seq![WatchView::Terminated { error }], pending, true)
        },
        NewsView::Changed { kind, paths, system } => {
            let (changes, left) = watching::converted(system, kind, paths, path, pending);
            let events = watch_events(changes);
            (until_terminated(events), left, exists|i: int| 0 <= i < events.len() && (#[trigger] events[i]) is Terminated)
        },
        NewsView::Failed(e) => {
            let error = watching::watch_error_text(e);
            (seq![WatchView::Terminated { error }], pending, true)
        },
        NewsView::Silent => (seq![], pending, true),
        NewsView::Idle(listeners) => (seq![], pending, listeners == 0),
    }
}

/// The watchers once the task of one has taken news in: a watcher that ends is forgotten.
pub open spec fn watchers_after(watchers: Map<Seq<char>, bool>, path: Seq<char>, ends: bool) -> Map<
    Seq<char>,
    bool,
> {
    if ends {
        watchers.remove(path)
    } else {
        watchers
    }
}

/// What the task of a watcher has made of all that it has learnt. After its end it learns nothing
/// more.
pub open spec fn told_all(news: Seq<NewsView>, path: Seq<char>) -> (Seq<WatchView>, Option<Seq<char>>, bool)
    decreases news.len(),
{
    if news.len() == 0 {
        (seq![], None, false)
    } else {
        let (events, pending, ended) = told_all(news.drop_last(), path);
        if ended {
            (events, pending, ended)
        } else {
            let (more, left, ends) = told(news.last(), path, pending);
            (events + more, left, ends)
        }
    }
}

proof fn lemma_cut_ends(events: Seq<WatchView>)
    ensures
        forall|i: int|
            0 <= i < until_terminated(events).len() && (#[trigger] until_terminated(events)[i]) is Terminated ==> i == until_terminated(
                events,
            ).len() - 1,
        (exists|i: int| 0 <= i < events.len() && (#[trigger] events[i]) is Terminated) <==> until_terminated(
            events,
        ).len() > 0 && until_terminated(events).last() is Terminated,
    decreases events.len(),
{
    let cut = until_terminated(events);
    if events.len() > 0 && !(events[0] is Terminated) {
        let rest = events.drop_first();
        lemma_cut_ends(rest);
        let cut_rest = until_terminated(rest);
        assert(cut =~= seq![events[0]] + cut_rest);
        assert forall|i: int| 0 <= i < cut.len() && (#[trigger] cut[i]) is Terminated implies i == cut.len()
            - 1 by {
            if i > 0 {
                assert(cut[i] == cut_rest[i - 1]);
            }
        }
        if exists|i: int| 0 <= i < events.len() && (#[trigger] events[i]) is Terminated {
            let i = choose|i: int| 0 <= i < events.len() && (#[trigger] events[i]) is Terminated;
            assert(rest[i - 1] is Terminated);
            assert(cut.last() == cut_rest.last());
        }
        if cut.len() > 0 && cut.last() is Terminated {
            if cut_rest.len() > 0 {
                assert(cut.last() == cut_rest.last());
            }
            let i = choose|i: int| 0 <= i < rest.len() && (#[trigger] rest[i]) is Terminated;
            assert(events[i + 1] is Terminated);
        }
    } else if events.len() > 0 {
        assert(cut[0] is Terminated);
        assert(events[0] is Terminated);
    }
}

/// Whatever a watcher goes through: its termination is the last event that it sends, and comes only
/// when it ends. It is sent wherever the watcher ends for another reason than that it has nothing
/// more to report or that nobody listens.
pub proof fn lemma_watcher_ends(news: Seq<NewsView>, path: Seq<char>)
    ensures
        ({
            let (events, _, ended) = told_all(news, path);
            &&& forall|i: int|
                0 <= i < events.len() && (#[trigger] events[i]) is Terminated ==> ended && i == events.len() - 1
            &&& ended && !told_all(news.drop_last(), path).2 && news.len() > 0 && !(news.last() is Silent)
                && !(news.last() is Idle) ==> events.len() > 0 && events.last() is Terminated
        }),
    decreases news.len(),
{
    if news.len() > 0 {
        let shorter = news.drop_last();
        lemma_watcher_ends(shorter, path);
        let (before, pending, over) = told_all(shorter, path);
        if !over {
            let (more, _, _) = told(news.last(), path, pending);
            let events = before + more;
            match news.last() {
                NewsView::Changed { kind, paths, system } => {
                    let all = watch_events(watching::converted(system, kind, paths, path, pending).0);
                    lemma_cut_ends(all);
                },
                _ => {},
            }
            assert forall|i: int| 0 <= i < events.len() && (#[trigger] events[i]) is Terminated implies told_all(
                news,
                path,
            ).2 && i == events.len() - 1 by {
                if i < before.len() {
                    assert(before[i] is Terminated);
                } else {
                    assert(more[i - before.len()] == events[i]);
                }
            }
            if more.len() > 0 {
                assert(events.last() == more.last());
            }
        }
    }
}

/// A watcher that has ended, for whatever reason, leaves no entry behind, and the next join for its
/// directory starts another; the other watchers stay.
pub proof fn lemma_ended_watcher_is_gone(
    watchers: Map<Seq<char>, bool>,
    news: Seq<NewsView>,
    path: Seq<char>,
    other: Seq<char>,
)
    requires
        told_all(news, path).2,
    ensures
        ({
            let after = watchers_after(watchers, path, told_all(news, path).2);
            &&& !after.contains_key(path)
            &&& starts_watcher(after, path)
            &&& other != path ==> after.contains_key(other) == watchers.contains_key(other)
                && starts_watcher(after, other) == starts_watcher(watchers, other)
        }),
{
}

/// After a join for a directory, no later one starts its watcher again, whatever happens in between,
/// as long as the watcher does not end; after its end, the next join does.
pub proof fn lemma_watcher_starts_once(watchers: Map<Seq<char>, bool>, path: Seq<char>, steps: Seq<StartStep>)
    ensures
        (forall|i: int| 0 <= i < steps.len() ==> #[trigger] steps[i] != StartStep::Ended(path))
            ==> !starts_watcher(starts::after(watchers.insert(path, true), steps), path),
        (forall|i: int| 0 <= i < steps.len() ==> #[trigger] steps[i] != StartStep::Wanted(path))
            ==> starts_watcher(starts::after(watchers.remove(path), steps), path),
{
    if forall|i: int| 0 <= i < steps.len() ==> #[trigger] steps[i] != StartStep::Ended(path) {
        starts::lemma_shared_until_end(watchers.insert(path, true), steps, path);
    }
    if forall|i: int| 0 <= i < steps.len() ==> #[trigger] steps[i] != StartStep::Wanted(path) {
        starts::lemma_started_after_end(watchers.remove(path), steps, path);
    }
}

/// A change of a file is told under its own name, with its path and nothing else; a renaming with both
/// paths, a warning with its text.
pub proof fn lemma_event_parts(path: Seq<char>, from: Seq<char>, to: Seq<char>, message: Seq<char>)
    ensures
        event_parts(FsView::Created { path }) == (
            "created"@,
            JsonView::Obj(map!["path"@ => JsonView::Str(path)]),
        ),
        event_parts(FsView::Modified { path }) == (
            "modified"@,
            JsonView::Obj(map!["path"@ => JsonView::Str(path)]),
        ),
        event_parts(FsView::Deleted { path }) == (
            "deleted"@,
            JsonView::Obj(map!["path"@ => JsonView::Str(path)]),
        ),
        event_parts(FsView::Renamed { from, to }) == (
            "renamed"@,
            JsonView::Obj(map!["from"@ => JsonView::Str(from), "to"@ => JsonView::Str(to)]),
        ),
        event_parts(FsView::Warning { message }) == (
            "warning"@,
            JsonView::Obj(map!["message"@ => JsonView::Str(message)]),
        ),
{
}

/// Each event of a watcher is told as what it is. The removal of the watched directory ends the
/// watcher.
pub proof fn lemma_watch_events(events: Seq<PathEventView>, i: int, path: Seq<char>, from: Seq<char>, to: Seq<char>)
    requires
        0 <= i < events.len(),
    ensures
        watch_events(events).len() == events.len(),
        events[i] == (PathEventView::Created { path }) ==> watch_events(events)[i] == WatchView::FS(
            FsView::Created { path },
        ),
        events[i] == (PathEventView::Modified { path }) ==> watch_events(events)[i] == WatchView::FS(
            FsView::Modified { path },
        ),
        events[i] == (PathEventView::Deleted { path }) ==> watch_events(events)[i] == WatchView::FS(
            FsView::Deleted { path },
        ),
        events[i] == (PathEventView::Renamed { from, to }) ==> watch_events(events)[i] == WatchView::FS(
            FsView::Renamed { from, to },
        ),
        events[i] is WatchedRemoved ==> watch_events(events)[i] == (WatchView::Terminated {
            error: "watched path was removed"@,
        }),
{
}

/// The events that are sent are the first ones, in their order and none left out, up to the termination of the watcher. Without
/// it all of them are sent.
pub proof fn lemma_cut(events: Seq<WatchView>)
    ensures
        until_terminated(events).len() <= events.len(),
        until_terminated(events) == events.take(until_terminated(events).len() as int),
        until_terminated(events).len() < events.len() ==> until_terminated(events).len() > 0 && until_terminated(events).last() is Terminated,
        (forall|i: int| 0 <= i < events.len() ==> !((#[trigger] events[i]) is Terminated)) ==> until_terminated(events)
            == events,
    decreases events.len(),
{
    let cut = until_terminated(events);
    if events.len() == 0 {
        assert(cut =~= events.take(0));
        assert(cut =~= events);
    } else if events[0] is Terminated {
        assert(cut =~= events.take(1));
    } else {
        let rest = events.drop_first();
        let cut_rest = until_terminated(rest);
        lemma_cut(rest);
        assert(cut =~= seq![events[0]] + cut_rest);
        assert(cut =~= events.take(cut.len() as int));
        if cut.len() < events.len() {
            assert(cut.last() == cut_rest.last());
        }
        if forall|i: int| 0 <= i < events.len() ==> !((#[trigger] events[i]) is Terminated) {
            assert forall|i: int| 0 <= i < rest.len() implies !((#[trigger] rest[i]) is Terminated) by {
                assert(rest[i] == events[i + 1]);
            }
            assert(cut =~= events);
        }
    }
}

/// What a watcher makes of its news: a warning is told, a failure ends the watcher with its text,
/// silence and the absence of listeners end it without a word, and changes are told as they are.
pub proof fn lemma_news(path: Seq<char>, pending: Option<Seq<char>>, text: Seq<char>, listeners: usize)
    ensures
        told(NewsView::Started(WatcherStartView::Ready), path, pending) == (
            Seq::<WatchView>::empty(),
            pending,
            false,
        ),
        told(NewsView::Started(WatcherStartView::Warn(text)), path, pending) == (
            seq![WatchView::FS(FsView::Warning { message: text })],
            pending,
            false,
        ),
        told(NewsView::Started(WatcherStartView::Failed(text)), path, pending) == (
            seq![WatchView::Terminated { error: text }],
            pending,
            true,
        ),
        told(NewsView::NotWatched(text), path, pending) == (
            seq![WatchView::Terminated { error: "Failed to watch path: "@ + text }],
            pending,
            true,
        ),
        told(NewsView::Failed(text), path, pending) == (
            seq![WatchView::Terminated { error: "Watch error: "@ + text }],
            pending,
            true,
        ),
        told(NewsView::Silent, path, pending) == (Seq::<WatchView>::empty(), pending, true),
        told(NewsView::Idle(listeners), path, pending) == (
            Seq::<WatchView>::empty(),
            pending,
            listeners == 0,
        ),
{
}

/// The changes that a watcher learns of are told in their order, up to its termination, and the
/// watcher ends with the removal of its directory.
pub proof fn lemma_changes_are_told(
    path: Seq<char>,
    pending: Option<Seq<char>>,
    kind: watching::ChangeKind,
    changed: Seq<Seq<char>>,
    system: crate::command::System,
)
    ensures
        ({
            let (events, left, ends) = told(
                NewsView::Changed { kind, paths: changed, system },
                path,
                pending,
            );
            let (changes, kept) = watching::converted(system, kind, changed, path, pending);
            &&& left == kept
            &&& events == watch_events(changes).take(events.len() as int)
            &&& !ends ==> events == watch_events(changes)
            &&& ends <==> changes.contains(PathEventView::WatchedRemoved)
        }),
{
    let changes = watching::converted(system, kind, changed, path, pending).0;
    let events = watch_events(changes);
    lemma_cut(events);
    if changes.contains(PathEventView::WatchedRemoved) {
        let i = changes.index_of(PathEventView::WatchedRemoved);
        assert(events[i] is Terminated);
    }
    if exists|i: int| 0 <= i < events.len() && (#[trigger] events[i]) is Terminated {
        let i = choose|i: int| 0 <= i < events.len() && (#[trigger] events[i]) is Terminated;
        assert(changes[i] is WatchedRemoved);
        assert(changes.contains(changes[i]));
    }
}

/// What a watcher sends over time is what it makes of each of its news, one after the other, until it
/// ends.
pub proof fn lemma_news_in_order(news: Seq<NewsView>, one: NewsView, path: Seq<char>)
    ensures
        ({
            let (events, pending, ended) = told_all(news, path);
            let (all, left, over) = told_all(news.push(one), path);
            let (more, kept, ends) = told(one, path, pending);
            &&& ended ==> all == events && over
            &&& !ended ==> all == events + more && left == kept && over == ends
        }),
        told_all(Seq::<NewsView>::empty(), path) == (Seq::<WatchView>::empty(), None::<Seq<char>>, false),
{
    assert(news.push(one).drop_last() =~= news);
}

/// The watcher of a directory is started if none runs there.
pub proof fn lemma_starts(watchers: Map<Seq<char>, bool>, path: Seq<char>)
    ensures
        starts_watcher(watchers, path) <==> !watchers.contains_key(path) || !watchers[path],
        watchers_after(watchers, path, true) == watchers.remove(path),
        watchers_after(watchers, path, false) == watchers,
{
}

/// A join is answered with the path, and the watcher of the directory is started if none runs. A payload
/// that cannot be read, and a path that cannot be watched, refuse it with the reason.
pub proof fn lemma_join_call(
    state: &mut WatchFeatureState,
    msg: &PhxMessage,
    payload: Result<(), String>,
    path: Result<String, PathProblem>,
    r: Result<Joined, InitResult>,
)
    requires
        call_ensures(WatchFeatureState::join, (state, msg, payload, path), r),
    ensures
        payload is Err ==> r is Err && r->Err_0@ == InitView::Error(payload->Err_0@) && final(state)@ == old(
            state,
        )@,
        payload is Ok && path is Err ==> r is Err && r->Err_0@ == InitView::Error(
            watching::problem_text(path->Err_0),
        ) && final(state)@ == old(state)@,
        payload is Ok && path is Ok ==> {
            &&& r is Ok
            &&& r->Ok_0.canonical_path@ == (path->Ok_0)@
            &&& r->Ok_0.start_watcher == (!old(state)@.contains_key((path->Ok_0)@) || !old(
                state,
            )@[(path->Ok_0)@])
            &&& r->Ok_0.reply@ == phoenix::reply_view(
                msg@,
                "ok"@,
                JsonView::Obj(map!["path"@ => JsonView::Str((path->Ok_0)@)]),
            )
            &&& final(state)@ == old(state)@.insert((path->Ok_0)@, true)
        },
{
}

/// A change of a file is pushed to the client. The end of the watcher, and a watcher that closes, end the
/// channel; lost events are passed over.
pub proof fn lemma_forward_call(received: Received, topic: &str, join_ref: &Option<String>, r: Forwarded)
    requires
        call_ensures(forward, (received, topic, join_ref), r),
    ensures
        match received {
            Received::Event(WatchEvent::FS(event)) => r is Push && r->Push_0@ == (phoenix::PhxView {
                join_ref: json::opt_text(*join_ref),
                ref_: None,
                topic: topic@,
                event: event_parts(event@).0,
                payload: phoenix::PayloadView::Json(event_parts(event@).1),
            }),
            Received::Event(WatchEvent::Terminated { error }) => r is End && r->End_0@
                == InitView::Shutdown(error@),
            Received::Closed => r is End && r->End_0@ == InitView::Shutdown("watcher closed"@),
            Received::Lagged => r is Nothing,
        },
{
}

/// What a watcher learns is told as its news say. A watcher that ends is removed, and no other is.
pub proof fn lemma_news_call(
    state: &mut WatchFeatureState,
    canonical_path: &str,
    pending: &mut Option<String>,
    news: WatcherNews,
    r: (Vec<WatchEvent>, bool),
)
    requires
        call_ensures(WatchFeatureState::watcher_news, (state, canonical_path, pending, news), r),
    ensures
        ({
            let (events, left, ends) = told(news@, canonical_path@, json::opt_text(*old(pending)));
            &&& watch_views(r.0@) == events
            &&& json::opt_text(*final(pending)) == left
            &&& r.1 == ends
            &&& ends ==> final(state)@ == old(state)@.remove(canonical_path@)
            &&& !ends ==> final(state)@ == old(state)@
        }),
{
}

} // verus!
