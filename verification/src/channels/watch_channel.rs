//! File system watching on a Phoenix channel `watch:<path>`, with watchers that are shared by all
//! channels of the same directory.
//!
//! A join is answered once the watcher is active, or has failed. The paths in events are relative to
//! the watched directory.

use vstd::prelude::*;

use crate::channel_result;
use crate::channel_result::{HandleResult, HandleView, JoinResult, JoinView};
use crate::json;
use crate::json::{Json, JsonView};
use crate::phoenix;
use crate::registry;
use crate::registry::Registry;
use crate::text;
use crate::watching;
use crate::watching::{FileChange, PathEvent, PathEventView, PathProblem, WatcherStart, WatcherStartView};

verus! {

broadcast use crate::registry::group_viewed;

/// What a watcher tells its channels.
#[derive(Debug)]
pub enum WatchEvent {
    Created { path: String },
    Modified { path: String },
    Deleted { path: String },
    Renamed { from: String, to: String },
    Warning { message: String },
    /// The watcher has ended.
    Stopped { error: Option<String> },
}

/// The model of a [`WatchEvent`].
pub enum WatchView {
    Created { path: Seq<char> },
    Modified { path: Seq<char> },
    Deleted { path: Seq<char> },
    Renamed { from: Seq<char>, to: Seq<char> },
    Warning { message: Seq<char> },
    Stopped { error: Option<Seq<char>> },
}

impl View for WatchEvent {
    type V = WatchView;

    open spec fn view(&self) -> WatchView {
        match self {
            WatchEvent::Created { path } => WatchView::Created { path: path@ },
            WatchEvent::Modified { path } => WatchView::Modified { path: path@ },
            WatchEvent::Deleted { path } => WatchView::Deleted { path: path@ },
            WatchEvent::Renamed { from, to } => WatchView::Renamed { from: from@, to: to@ },
            WatchEvent::Warning { message } => WatchView::Warning { message: message@ },
            WatchEvent::Stopped { error } => WatchView::Stopped { error: json::opt_text(*error) },
        }
    }
}

/// The models of a list of events.
pub open spec fn watch_views(events: Seq<WatchEvent>) -> Seq<WatchView> {
    events.map_values(|e: WatchEvent| e@)
}

/// The event for the channels of a watcher.
pub open spec fn watch_event(event: PathEventView) -> WatchView {
    match event {
        PathEventView::Created { path } => WatchView::Created { path },
        PathEventView::Modified { path } => WatchView::Modified { path },
        PathEventView::Deleted { path } => WatchView::Deleted { path },
        PathEventView::Renamed { from, to } => WatchView::Renamed { from, to },
        PathEventView::WatchedRemoved => WatchView::Stopped {
            error: Some("watched path was removed"@),
        },
    }
}

/// The events for the channels of a watcher.
pub open spec fn watch_events(events: Seq<PathEventView>) -> Seq<WatchView> {
    events.map_values(|e: PathEventView| watch_event(e))
}

fn from_path_event(event: PathEvent) -> (r: WatchEvent)
    ensures
        r@ == watch_event(event@),
{
    match event {
        PathEvent::Created { path } => WatchEvent::Created { path },
        PathEvent::Modified { path } => WatchEvent::Modified { path },
        PathEvent::Deleted { path } => WatchEvent::Deleted { path },
        PathEvent::Renamed { from, to } => WatchEvent::Renamed { from, to },
        PathEvent::WatchedRemoved => WatchEvent::Stopped {
            error: Some("watched path was removed".to_owned()),
        },
    }
}

/// Turns a change in the file system into events for the channels of a watcher.
pub fn convert_notify_event(
    change: &FileChange,
    watched_path: &str,
    pending_rename_from: &mut Option<String>,
) -> (r: Vec<WatchEvent>)
    ensures
        watch_views(r@) == watch_events(
            watching::converted(
                change.system,
                change.kind,
                text::texts(change.paths@),
                watched_path@,
                json::opt_text(*old(pending_rename_from)),
            ).0,
        ),
        json::opt_text(*final(pending_rename_from)) == watching::converted(
            change.system,
            change.kind,
            text::texts(change.paths@),
            watched_path@,
            json::opt_text(*old(pending_rename_from)),
        ).1,
{
    let mut events = watching::convert(change, watched_path, pending_rename_from);
    let ghost all = watching::events_view(events@);
    let mut r: Vec<WatchEvent> = Vec::new();
    while events.len() > 0
        invariant
            r.len() + events.len() == all.len(),
            forall|i: int|
                0 <= i < events@.len() ==> (#[trigger] events@[i])@ == all[r@.len() + i],
            forall|i: int| 0 <= i < r@.len() ==> (#[trigger] r@[i])@ == watch_event(all[i]),
        decreases events.len(),
    {
        let event = events.remove(0);
        r.push(from_path_event(event));
    }
    assert(watch_views(r@) =~= watch_events(all));
    r
}

/// The events of a batch that a watcher sends: those up to the one that ends it.
pub open spec fn until_stopped(events: Seq<WatchView>) -> Seq<WatchView>
    decreases events.len(),
{
    if events.len() == 0 {
        seq![]
    } else if events[0] is Stopped {
        seq![events[0]]
    } else {
        seq![events[0]] + until_stopped(events.drop_first())
    }
}

/// Drops the events after the one that ends a watcher. The result says whether one does.
pub fn cut_at_stop(events: &mut Vec<WatchEvent>) -> (ended: bool)
    ensures
        watch_views(final(events)@) == until_stopped(watch_views(old(events)@)),
        ended == exists|i: int|
            0 <= i < old(events)@.len() && (#[trigger] watch_views(old(events)@)[i]) is Stopped,
{
    let ghost all = watch_views(events@);
    let mut i: usize = 0;
    proof {
        assert(all.skip(0) =~= all);
        assert(all.take(0) + until_stopped(all) =~= until_stopped(all));
    }
    while i < events.len()
        invariant
            events@ == old(events)@,
            all == watch_views(events@),
            i <= events.len(),
            forall|k: int| 0 <= k < i ==> !((#[trigger] all[k]) is Stopped),
            until_stopped(all) == all.take(i as int) + until_stopped(all.skip(i as int)),
        decreases events.len() - i,
    {
        let ends = match &events[i] {
            WatchEvent::Stopped { .. } => true,
            _ => false,
        };
        proof {
            assert(all.skip(i as int)[0] == all[i as int]);
            assert(all[i as int] == events@[i as int]@);
            assert(all.skip(i as int).drop_first() =~= all.skip(i + 1));
        }
        if ends {
            events.truncate(i + 1);
            assert(watch_views(events@) =~= all.take(i as int) + seq![all[i as int]]);
            return true;
        }
        proof {
            assert(all.take(i as int) + (seq![all[i as int]] + until_stopped(all.skip(i + 1)))
                =~= all.take(i + 1) + until_stopped(all.skip(i + 1)));
        }
        i = i + 1;
    }
    proof {
        assert(all.skip(all.len() as int).len() == 0);
        assert(all.take(all.len() as int) + Seq::<WatchView>::empty() =~= all);
    }
    false
}

/// The name of the message that carries an event to a client, and its payload.
pub open spec fn pushed(event: WatchView) -> (Seq<char>, JsonView) {
    match event {
        WatchView::Created { path } => ("created"@, json::empty_object().with("path"@, JsonView::Str(path))),
        WatchView::Modified { path } => ("modified"@, json::empty_object().with("path"@, JsonView::Str(path))),
        WatchView::Deleted { path } => ("deleted"@, json::empty_object().with("path"@, JsonView::Str(path))),
        WatchView::Renamed { from, to } => (
            "renamed"@,
            json::empty_object().with("from"@, JsonView::Str(from)).with("to"@, JsonView::Str(to)),
        ),
        WatchView::Warning { message } => (
            "warning"@,
            json::empty_object().with("message"@, JsonView::Str(message)),
        ),
        WatchView::Stopped { error } => (
            "error"@,
            phoenix::reason_json(
                match error {
                    Some(e) => e,
                    None => "stopped"@,
                },
            ),
        ),
    }
}

/// The message that carries an event to a client: its name and its payload.
pub fn push_watch_event(event: &WatchEvent) -> (r: (&'static str, Json))
    ensures
        (r.0@, r.1@) == pushed(event@),
{
    match event {
        WatchEvent::Created { path } => (
            "created",
            Json::object().with("path", Json::string(path.as_str())),
        ),
        WatchEvent::Modified { path } => (
            "modified",
            Json::object().with("path", Json::string(path.as_str())),
        ),
        WatchEvent::Deleted { path } => (
            "deleted",
            Json::object().with("path", Json::string(path.as_str())),
        ),
        WatchEvent::Renamed { from, to } => (
            "renamed",
            Json::object().with("from", Json::string(from.as_str())).with(
                "to",
                Json::string(to.as_str()),
            ),
        ),
        WatchEvent::Warning { message } => (
            "warning",
            Json::object().with("message", Json::string(message.as_str())),
        ),
        WatchEvent::Stopped { error } => {
            let reason = match error {
                Some(e) => Json::string(e.as_str()),
                None => Json::string("stopped"),
            };
            ("error", Json::object().with("reason", reason))
        },
    }
}

/// What a channel hears from its watcher.
#[derive(Debug)]
pub enum Received {
    Event(WatchEvent),
    /// The watcher is gone.
    Closed,
    /// Some events were lost.
    Lagged,
}

/// What a channel does with what it hears: what the client is told, and whether the forwarding ends.
pub struct Forward {
    pub message: Option<(&'static str, Json)>,
    pub ends: bool,
}

/// The model of a message that may be missing.
pub open spec fn opt_message(message: Option<(&'static str, Json)>) -> Option<(Seq<char>, JsonView)> {
    match message {
        Some(m) => Some((m.0@, m.1@)),
        None => None,
    }
}

/// Decides what a channel does with what it hears from its watcher.
pub fn forward(received: Received) -> (r: Forward)
    ensures
        match received {
            Received::Event(event) => {
                &&& opt_message(r.message) == Some(pushed(event@))
                &&& r.ends == (event@ is Stopped)
            },
            Received::Closed => {
                &&& opt_message(r.message) == Some(("error"@, phoenix::reason_json("watcher closed"@)))
                &&& r.ends
            },
            Received::Lagged => r.message is None && !r.ends,
        },
{
    match received {
        Received::Event(event) => {
            let ends = match &event {
                WatchEvent::Stopped { .. } => true,
                _ => false,
            };
            Forward { message: Some(push_watch_event(&event)), ends }
        },
        Received::Closed => Forward {
            message: Some(
                ("error", Json::object().with("reason", Json::string("watcher closed"))),
            ),
            ends: true,
        },
        Received::Lagged => Forward { message: None, ends: false },
    }
}

/// A directory that is watched.
#[derive(Debug)]
pub struct ActiveWatch {
    /// Whether the watcher has been started.
    pub started: bool,
    /// Whether the watcher is active, or why it is not, once that is known.
    pub ready: Option<Result<(), String>>,
}

/// The model of an [`ActiveWatch`].
pub struct ActiveView {
    pub started: bool,
    pub ready: Option<Result<(), Seq<char>>>,
}

impl View for ActiveWatch {
    type V = ActiveView;

    open spec fn view(&self) -> ActiveView {
        ActiveView {
            started: self.started,
            ready: match self.ready {
                Some(outcome) => Some(watching::outcome_view(outcome)),
                None => None,
            },
        }
    }
}

/// What is watched, and by which channels.
pub struct WatchChannelState {
    /// The watchers, by canonical path.
    pub watchers: Registry<ActiveWatch>,
    /// The canonical path of each channel, by the identity of its socket.
    pub canonical_paths: Registry<String>,
}

/// The model of a [`WatchChannelState`].
#[verifier::ext_equal]
pub struct WatchChannelView {
    pub watchers: Map<Seq<char>, ActiveView>,
    pub canonical_paths: Map<Seq<char>, Seq<char>>,
}

impl View for WatchChannelState {
    type V = WatchChannelView;

    open spec fn view(&self) -> WatchChannelView {
        WatchChannelView {
            watchers: registry::viewed(self.watchers@),
            canonical_paths: registry::viewed(self.canonical_paths@),
        }
    }
}

impl WatchChannelState {
    /// The tables are well formed.
    pub open spec fn wf(&self) -> bool {
        self.watchers.wf() && self.canonical_paths.wf()
    }

    /// Nothing is watched.
    pub fn new() -> (r: Self)
        ensures
            r.wf(),
            r@ == (WatchChannelView { watchers: Map::empty(), canonical_paths: Map::empty() }),
    {
        let r = WatchChannelState { watchers: Registry::new(), canonical_paths: Registry::new() };
        assert(r@ =~= (WatchChannelView { watchers: Map::empty(), canonical_paths: Map::empty() }));
        r
    }
}

impl WatchChannelView {
    /// Whether a join for a directory starts its watcher.
    pub open spec fn starts_watcher(self, path: Seq<char>) -> bool {
        !(self.watchers.contains_key(path) && self.watchers[path].started)
    }

    /// The state once a channel has joined the watcher of a directory.
    pub open spec fn joined(self, socket: Seq<char>, path: Seq<char>) -> WatchChannelView {
        WatchChannelView {
            watchers: if self.watchers.contains_key(path) {
                self.watchers.insert(path, ActiveView { started: true, ..self.watchers[path] })
            } else {
                self.watchers.insert(path, ActiveView { started: true, ready: None })
            },
            canonical_paths: self.canonical_paths.insert(socket, path),
        }
    }
}

/// A join that waits until the watcher is active.
pub struct Joining {
    pub canonical_path: String,
    /// Whether the watcher is to be started.
    pub start_watcher: bool,
}

/// The answer to a join, by whether the watcher became active.
pub open spec fn join_answer(path: Seq<char>, ready: Option<Result<(), Seq<char>>>) -> JoinView {
    match ready {
        Some(Ok(_)) => JoinView::Granted(watching::watching_json(path)),
        Some(Err(e)) => channel_result::refused(e),
        None => channel_result::refused("watcher failed to start"@),
    }
}

/// File system watching on a Phoenix channel.
pub struct WatchChannel {
    pub state: WatchChannelState,
}

impl WatchChannel {
    /// The channel with nothing watched yet.
    pub fn new() -> (r: Self)
        ensures
            r.state.wf(),
            r.state@ == (WatchChannelView { watchers: Map::empty(), canonical_paths: Map::empty() }),
    {
        WatchChannel { state: WatchChannelState::new() }
    }

    /// The channel with this state.
    pub fn with_state(state: WatchChannelState) -> (r: Self)
        ensures
            r.state == state,
    {
        WatchChannel { state }
    }

    /// The state of the channel.
    pub fn state(&self) -> (r: &WatchChannelState)
        ensures
            *r == self.state,
    {
        &self.state
    }

    /// Joins a channel to the watcher of a directory. `path` is the outcome of
    /// [`watching::check_path`] for the path in the topic, which does not matter where the topic has
    /// none. Only the first channel starts the watcher.
    pub fn join(&mut self, topic: &str, socket: &str, path: Result<String, PathProblem>) -> (r: Result<
        Joining,
        JoinResult,
    >)
        requires
            old(self).state.wf(),
        ensures
            final(self).state.wf(),
            match (watching::topic_path_of(topic@), path) {
                (None, _) => {
                    &&& r is Err
                    &&& r->Err_0@ == channel_result::refused(watching::INVALID_TOPIC@)
                    &&& *final(self) == *old(self)
                },
                (Some(_), Err(problem)) => {
                    &&& r is Err
                    &&& r->Err_0@ == channel_result::refused(watching::problem_reason(problem))
                    &&& *final(self) == *old(self)
                },
                (Some(_), Ok(path)) => {
                    &&& r is Ok
                    &&& r->Ok_0.canonical_path@ == path@
                    &&& r->Ok_0.start_watcher == old(self).state@.starts_watcher(path@)
                    &&& final(self).state@ == old(self).state@.joined(socket@, path@)
                },
            },
    {
        if watching::topic_path(topic).is_none() {
            return Err(JoinResult::refuse(watching::INVALID_TOPIC));
        }
        match path {
            Err(problem) => Err(JoinResult::refuse(problem.reason().as_str())),
            Ok(canonical_path) => {
                self.state.canonical_paths.insert(socket.to_owned(), canonical_path.clone());
                let start_watcher = match self.state.watchers.get_mut(canonical_path.as_str()) {
                    Some(watch) => {
                        let start = !watch.started;
                        watch.started = true;
                        start
                    },
                    None => {
                        self.state.watchers.insert(
                            canonical_path.clone(),
                            ActiveWatch { started: true, ready: None },
                        );
                        true
                    },
                };
                assert(self.state@ =~= old(self).state@.joined(socket@, canonical_path@));
                Ok(Joining { canonical_path, start_watcher })
            },
        }
    }

    /// Notes whether the watcher of a directory became active.
    pub fn watcher_ready(&mut self, canonical_path: &str, ready: Result<(), String>)
        requires
            old(self).state.wf(),
        ensures
            final(self).state.wf(),
            final(self).state@.canonical_paths == old(self).state@.canonical_paths,
            final(self).state@.watchers == (if old(self).state@.watchers.contains_key(canonical_path@) {
                old(self).state@.watchers.insert(
                    canonical_path@,
                    ActiveView {
                        ready: Some(watching::outcome_view(ready)),
                        ..old(self).state@.watchers[canonical_path@]
                    },
                )
            } else {
                old(self).state@.watchers
            }),
    {
        match self.state.watchers.get_mut(canonical_path) {
            Some(watch) => {
                watch.ready = Some(ready);
            },
            None => {},
        }
    }

    /// Answers a join once it is known whether the watcher became active.
    pub fn finish_join(&self, canonical_path: &str, ready: &Option<Result<(), String>>) -> (r: JoinResult)
        ensures
            r@ == join_answer(
                canonical_path@,
                match *ready {
                    Some(outcome) => Some(watching::outcome_view(outcome)),
                    None => None,
                },
            ),
    {
        match ready {
            Some(Ok(())) => watching::granted(canonical_path),
            Some(Err(e)) => JoinResult::refuse(e.as_str()),
            None => JoinResult::refuse("watcher failed to start"),
        }
    }

    /// Clients have nothing to say on this channel.
    pub fn handle_in(&self, _event: &str, _payload: &Json) -> (r: HandleResult)
        ensures
            r@ == HandleView::NoReply,
    {
        HandleResult::NoReply
    }

    /// A channel is gone. The result is the path that it watched.
    pub fn terminate(&mut self, socket: &str) -> (r: Option<String>)
        requires
            old(self).state.wf(),
        ensures
            final(self).state.wf(),
            json::opt_text(r) == (if old(self).state@.canonical_paths.contains_key(socket@) {
                Some(old(self).state@.canonical_paths[socket@])
            } else {
                None
            }),
            final(self).state@ == (WatchChannelView {
                canonical_paths: old(self).state@.canonical_paths.remove(socket@),
                ..old(self).state@
            }),
    {
        self.state.canonical_paths.remove(socket)
    }

    /// Forgets a watcher that has ended.
    pub fn remove_watcher(&mut self, canonical_path: &str)
        requires
            old(self).state.wf(),
        ensures
            final(self).state.wf(),
            final(self).state@ == (WatchChannelView {
                watchers: old(self).state@.watchers.remove(canonical_path@),
                ..old(self).state@
            }),
    {
        let _ = self.state.watchers.remove(canonical_path);
    }

    /// Forgets a watcher that nobody listens to. The result says whether it is to end.
    pub fn cleanup(&mut self, canonical_path: &str, receiver_count: usize) -> (ends: bool)
        requires
            old(self).state.wf(),
        ensures
            final(self).state.wf(),
            ends == (receiver_count == 0),
            final(self).state@ == (if ends {
                WatchChannelView {
                    watchers: old(self).state@.watchers.remove(canonical_path@),
                    ..old(self).state@
                }
            } else {
                old(self).state@
            }),
    {
        if receiver_count == 0 {
            self.remove_watcher(canonical_path);
            true
        } else {
            false
        }
    }
}

impl Default for WatchChannel {
    fn default() -> (r: Self)
        ensures
            r.state.wf(),
            r.state@ == (WatchChannelView { watchers: Map::empty(), canonical_paths: Map::empty() }),
    {
        WatchChannel::new()
    }
}

/// The event with which a watcher starts or fails to, and whether it became active.
pub fn start_event(start: WatcherStart) -> (r: (Option<WatchEvent>, Result<(), String>))
    ensures
        match start@ {
            WatcherStartView::Ready => r.0 is None && r.1 is Ok,
            WatcherStartView::Warn(message) => r.0 is Some && (r.0)->0@ == (WatchView::Warning { message })
                && r.1 is Ok,
            WatcherStartView::Failed(error) => r.0 is Some && (r.0)->0@ == (WatchView::Stopped {
                error: Some(error),
            }) && r.1 is Err && (r.1)->Err_0@ == error,
        },
{
    match start {
        WatcherStart::Ready => (None, Ok(())),
        WatcherStart::Warn(message) => (Some(WatchEvent::Warning { message }), Ok(())),
        WatcherStart::Failed(error) => (
            Some(WatchEvent::Stopped { error: Some(error.clone()) }),
            Err(error),
        ),
    }
}

/// What happens to the watchers.
pub enum WatcherStep {
    /// A channel joins the watcher of a directory.
    Joined { socket: Seq<char>, path: Seq<char> },
    /// It is known whether the watcher of a directory became active.
    Ready { path: Seq<char>, outcome: Result<(), Seq<char>> },
    /// A channel is gone.
    Left { socket: Seq<char> },
    /// The watcher of a directory has ended.
    Ended { path: Seq<char> },
}

impl WatchChannelView {
    /// The state once a step was taken.
    pub open spec fn stepped(self, step: WatcherStep) -> WatchChannelView {
        match step {
            WatcherStep::Joined { socket, path } => self.joined(socket, path),
            WatcherStep::Ready { path, outcome } => if self.watchers.contains_key(path) {
                WatchChannelView {
                    watchers: self.watchers.insert(
                        path,
                        ActiveView { ready: Some(outcome), ..self.watchers[path] },
                    ),
                    ..self
                }
            } else {
                self
            },
            WatcherStep::Left { socket } => WatchChannelView {
                canonical_paths: self.canonical_paths.remove(socket),
                ..self
            },
            WatcherStep::Ended { path } => WatchChannelView {
                watchers: self.watchers.remove(path),
                ..self
            },
        }
    }

    /// The state once all steps were taken, one after the other.
    pub open spec fn after(self, steps: Seq<WatcherStep>) -> WatchChannelView
        decreases steps.len(),
    {
        if steps.len() == 0 {
            self
        } else {
            self.after(steps.drop_last()).stepped(steps.last())
        }
    }
}

/// After a join for a directory, no later one starts its watcher again, whatever happens in between,
/// as long as the watcher does not end.
pub proof fn lemma_watcher_starts_once(
    state: WatchChannelView,
    socket: Seq<char>,
    path: Seq<char>,
    steps: Seq<WatcherStep>,
)
    requires
        forall|i: int| 0 <= i < steps.len() ==> #[trigger] steps[i] != (WatcherStep::Ended { path }),
    ensures
        !state.joined(socket, path).after(steps).starts_watcher(path),
    decreases steps.len(),
{
    if steps.len() > 0 {
        let earlier = steps.drop_last();
        assert forall|i: int| 0 <= i < earlier.len() implies #[trigger] earlier[i] != (WatcherStep::Ended {
            path,
        }) by {
            assert(earlier[i] == steps[i]);
        }
        lemma_watcher_starts_once(state, socket, path, earlier);
        assert(steps.last() == steps[steps.len() - 1]);
    }
}

/// After the end of a watcher, the next join for its directory starts it again, whatever happens in
/// between.
pub proof fn lemma_watcher_starts_again(state: WatchChannelView, path: Seq<char>, steps: Seq<WatcherStep>)
    requires
        forall|i: int, socket: Seq<char>|
            0 <= i < steps.len() ==> #[trigger] steps[i] != (#[trigger] joining(socket, path)),
    ensures
        state.stepped(WatcherStep::Ended { path }).after(steps).starts_watcher(path),
    decreases steps.len(),
{
    if steps.len() > 0 {
        let earlier = steps.drop_last();
        assert forall|i: int, socket: Seq<char>| 0 <= i < earlier.len() implies #[trigger] earlier[i]
            != (#[trigger] joining(socket, path)) by {
            assert(earlier[i] == steps[i]);
        }
        lemma_watcher_starts_again(state, path, earlier);
        match steps.last() {
            WatcherStep::Joined { socket, path: other } => {
                assert(steps[steps.len() - 1] != joining(socket, path));
            },
            _ => {},
        }
    }
}

/// The step of a channel that joins the watcher of a directory.
pub open spec fn joining(socket: Seq<char>, path: Seq<char>) -> WatcherStep {
    WatcherStep::Joined { socket, path }
}

/// A change of a file is pushed under its own name, with its path and nothing else; a renaming with
/// both paths, a warning with its text, and the end of the watcher with the reason.
pub proof fn lemma_pushed(path: Seq<char>, from: Seq<char>, to: Seq<char>, message: Seq<char>)
    ensures
        pushed(WatchView::Created { path }) == (
            "created"@,
            JsonView::Obj(map!["path"@ => JsonView::Str(path)]),
        ),
        pushed(WatchView::Modified { path }) == (
            "modified"@,
            JsonView::Obj(map!["path"@ => JsonView::Str(path)]),
        ),
        pushed(WatchView::Deleted { path }) == (
            "deleted"@,
            JsonView::Obj(map!["path"@ => JsonView::Str(path)]),
        ),
        pushed(WatchView::Renamed { from, to }) == (
            "renamed"@,
            JsonView::Obj(map!["from"@ => JsonView::Str(from), "to"@ => JsonView::Str(to)]),
        ),
        pushed(WatchView::Warning { message }) == (
            "warning"@,
            JsonView::Obj(map!["message"@ => JsonView::Str(message)]),
        ),
        pushed(WatchView::Stopped { error: Some(message) }) == (
            "error"@,
            JsonView::Obj(map!["reason"@ => JsonView::Str(message)]),
        ),
        pushed(WatchView::Stopped { error: None }) == (
            "error"@,
            JsonView::Obj(map!["reason"@ => JsonView::Str("stopped"@)]),
        ),
{
}

/// Each event of a watcher is told as what it is. The removal of the watched directory stops the
/// watcher.
pub proof fn lemma_watch_events(events: Seq<PathEventView>, i: int, path: Seq<char>, from: Seq<char>, to: Seq<char>)
    requires
        0 <= i < events.len(),
    ensures
        watch_events(events).len() == events.len(),
        events[i] == (PathEventView::Created { path }) ==> watch_events(events)[i] == (WatchView::Created {
            path,
        }),
        events[i] == (PathEventView::Modified { path }) ==> watch_events(events)[i] == (
        WatchView::Modified { path }),
        events[i] == (PathEventView::Deleted { path }) ==> watch_events(events)[i] == (WatchView::Deleted {
            path,
        }),
        events[i] == (PathEventView::Renamed { from, to }) ==> watch_events(events)[i] == (
        WatchView::Renamed { from, to }),
        events[i] is WatchedRemoved ==> watch_events(events)[i] == (WatchView::Stopped {
            error: Some("watched path was removed"@),
        }),
{
}

/// The events that are sent are the first ones, in their order and none left out, up to the end of the watcher. Without
/// it all of them are sent.
pub proof fn lemma_cut(events: Seq<WatchView>)
    ensures
        until_stopped(events).len() <= events.len(),
        until_stopped(events) == events.take(until_stopped(events).len() as int),
        until_stopped(events).len() < events.len() ==> until_stopped(events).len() > 0 && until_stopped(events).last() is Stopped,
        (forall|i: int| 0 <= i < events.len() ==> !((#[trigger] events[i]) is Stopped)) ==> until_stopped(events)
            == events,
    decreases events.len(),
{
    let cut = until_stopped(events);
    if events.len() == 0 {
        assert(cut =~= events.take(0));
        assert(cut =~= events);
    } else if events[0] is Stopped {
        assert(cut =~= events.take(1));
    } else {
        let rest = events.drop_first();
        let cut_rest = until_stopped(rest);
        lemma_cut(rest);
        assert(cut =~= seq![events[0]] + cut_rest);
        assert(cut =~= events.take(cut.len() as int));
        if cut.len() < events.len() {
            assert(cut.last() == cut_rest.last());
        }
        if forall|i: int| 0 <= i < events.len() ==> !((#[trigger] events[i]) is Stopped) {
            assert forall|i: int| 0 <= i < rest.len() implies !((#[trigger] rest[i]) is Stopped) by {
                assert(rest[i] == events[i + 1]);
            }
            assert(cut =~= events);
        }
    }
}

/// A join is granted once the watcher is ready, with the path. It is refused with the reason of a
/// watcher that could not start, and where the watcher has gone without a word.
pub proof fn lemma_join_answer(path: Seq<char>, error: Seq<char>)
    ensures
        join_answer(path, Some(Ok(()))) == JoinView::Granted(
            JsonView::Obj(map!["status"@ => JsonView::Str("watching"@), "path"@ => JsonView::Str(path)]),
        ),
        join_answer(path, Some(Err(error))) == JoinView::Refused(
            JsonView::Obj(map!["reason"@ => JsonView::Str(error)]),
        ),
        join_answer(path, None) == JoinView::Refused(
            JsonView::Obj(map!["reason"@ => JsonView::Str("watcher failed to start"@)]),
        ),
{
}

/// A channel that joins the watcher of a directory is noted with the directory, and the watcher counts
/// as started. What is known of its readiness stays, and so does everything else.
pub proof fn lemma_joined(state: WatchChannelView, socket: Seq<char>, path: Seq<char>, other: Seq<char>)
    ensures
        ({
            let after = state.joined(socket, path);
            &&& after.canonical_paths == state.canonical_paths.insert(socket, path)
            &&& after.watchers.contains_key(path)
            &&& after.watchers[path].started
            &&& after.watchers[path].ready == (if state.watchers.contains_key(path) {
                state.watchers[path].ready
            } else {
                None
            })
            &&& other != path ==> after.watchers.contains_key(other) == state.watchers.contains_key(other)
            &&& other != path && state.watchers.contains_key(other) ==> after.watchers[other]
                == state.watchers[other]
            &&& state.starts_watcher(path) <==> !state.watchers.contains_key(path)
                || !state.watchers[path].started
        }),
{
}

/// A join names the directory in its topic; it is refused with the reason if it does not, or if the
/// directory cannot be watched. Otherwise the watcher is started if none runs.
pub proof fn lemma_join_call(
    channel: &mut WatchChannel,
    topic: &str,
    socket: &str,
    path: Result<String, PathProblem>,
    r: Result<Joining, JoinResult>,
)
    requires
        call_ensures(WatchChannel::join, (channel, topic, socket, path), r),
    ensures
        ({
            let before = old(channel).state@;
            let named = watching::topic_path_of(topic@) is Some;
            &&& !named ==> r is Err && r->Err_0@ == JoinView::Refused(
                JsonView::Obj(
                    map![
                        "reason"@ => JsonView::Str("invalid topic format, expected 'watch:/path/to/dir'"@),
                    ],
                ),
            )
            &&& named && path is Err ==> r is Err && r->Err_0@ == JoinView::Refused(
                JsonView::Obj(map!["reason"@ => JsonView::Str(watching::problem_reason(path->Err_0))]),
            )
            &&& !named || path is Err ==> final(channel).state@ == before
            &&& named && path is Ok ==> {
                &&& r is Ok
                &&& r->Ok_0.canonical_path@ == (path->Ok_0)@
                &&& r->Ok_0.start_watcher == (!before.watchers.contains_key((path->Ok_0)@)
                    || !before.watchers[(path->Ok_0)@].started)
                &&& final(channel).state@.canonical_paths == before.canonical_paths.insert(
                    socket@,
                    (path->Ok_0)@,
                )
            }
        }),
{
}

/// An event of a watcher is pushed to the client, and ends the forwarding if it stops the watcher. A
/// watcher that closes is an error; lost events are passed over.
pub proof fn lemma_forward_calls(event: WatchEvent, told: Forward, closed: Forward, lagged: Forward)
    requires
        call_ensures(forward, (Received::Event(event),), told),
        call_ensures(forward, (Received::Closed,), closed),
        call_ensures(forward, (Received::Lagged,), lagged),
    ensures
        told.message is Some && ((told.message)->0).0@ == pushed(event@).0 && ((told.message)->0).1@ == pushed(
            event@,
        ).1,
        told.ends <==> event@ is Stopped,
        closed.message is Some && ((closed.message)->0).0@ == "error"@ && ((closed.message)->0).1@
            == JsonView::Obj(map!["reason"@ => JsonView::Str("watcher closed"@)]),
        closed.ends,
        lagged.message is None,
        !lagged.ends,
{
}

/// A watcher is cleaned up when nobody listens any more, and not before. A channel that ends is forgotten
/// with its directory.
pub proof fn lemma_cleanup_call(channel: &mut WatchChannel, canonical_path: &str, receivers: usize, ends: bool)
    requires
        call_ensures(WatchChannel::cleanup, (channel, canonical_path, receivers), ends),
    ensures
        ends <==> receivers == 0,
        ends ==> final(channel).state@.watchers == old(channel).state@.watchers.remove(canonical_path@),
        !ends ==> final(channel).state@ == old(channel).state@,
{
}

/// A channel that ends is forgotten with its directory, which the call gives. The watchers stay.
pub proof fn lemma_terminate_call(channel: &mut WatchChannel, socket: &str, r: Option<String>)
    requires
        call_ensures(WatchChannel::terminate, (channel, socket), r),
    ensures
        r is Some <==> old(channel).state@.canonical_paths.contains_key(socket@),
        r is Some ==> r->0@ == old(channel).state@.canonical_paths[socket@],
        !final(channel).state@.canonical_paths.contains_key(socket@),
        final(channel).state@.watchers == old(channel).state@.watchers,
{
}

/// A watcher that has started says nothing, one that polls warns, and one that failed stops with the
/// error, which refuses those who join.
pub proof fn lemma_start_call(start: WatcherStart, r: (Option<WatchEvent>, Result<(), String>))
    requires
        call_ensures(start_event, (start,), r),
    ensures
        start@ is Ready ==> r.0 is None && r.1 is Ok,
        start@ is Warn ==> r.0 is Some && (r.0)->0@ == (WatchView::Warning { message: start@->Warn_0 })
            && r.1 is Ok,
        start@ is Failed ==> r.0 is Some && (r.0)->0@ == (WatchView::Stopped {
            error: Some(start@->Failed_0),
        }) && r.1 is Err && (r.1)->Err_0@ == start@->Failed_0,
{
}

} // verus!
