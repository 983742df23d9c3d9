//! File system watching on a WebSocket of its own.
//!
//! A client subscribes to a directory under a reference of its own, and gets events with that
//! reference until it unsubscribes, disconnects or the watcher ends. Clients that watch the same
//! directory share one watcher. The paths in events are absolute.

use vstd::prelude::*;

use crate::json;
use crate::json::{Json, JsonView};
use crate::jsonrpc;
use crate::registry;
use crate::registry::Registry;
use crate::starts;
use crate::starts::StartStep;
use crate::text;
use crate::watching;
use crate::watching::{
    ChangeKind, FileChange, NewsView, PathProblem, WatcherNews, WatcherStart, WatcherStartView,
};

pub use crate::watching::ActiveWatch;

pub mod laws;

verus! {

broadcast use crate::registry::group_viewed;

/// The name of a WebSocket connection.
pub type WebSocketId = String;

/// What a client asks for.
#[derive(Debug)]
pub enum WatchClientMessage {
    Subscribe { path: String, reference: String, is_wsl: bool },
    Unsubscribe { reference: String },
}

/// The model of a [`WatchClientMessage`].
pub enum ClientView {
    Subscribe { path: Seq<char>, reference: Seq<char>, is_wsl: bool },
    Unsubscribe { reference: Seq<char> },
}

impl View for WatchClientMessage {
    type V = ClientView;

    open spec fn view(&self) -> ClientView {
        match self {
            WatchClientMessage::Subscribe { path, reference, is_wsl } => ClientView::Subscribe {
                path: path@,
                reference: reference@,
                is_wsl: *is_wsl,
            },
            WatchClientMessage::Unsubscribe { reference } => ClientView::Unsubscribe {
                reference: reference@,
            },
        }
    }
}

/// Whether a path is one of the Windows Subsystem for Linux, among the fields of a subscription. It
/// is not where nothing is said.
pub open spec fn wsl_field_of(v: JsonView) -> Option<bool> {
    match v {
        JsonView::Arr(items) => if items.len() == 3 {
            Some(false)
        } else {
            items[3].as_bool()
        },
        _ => match v.get("is_wsl"@) {
            Some(flag) => flag.as_bool(),
            None => Some(false),
        },
    }
}

/// The number of fields of a subscription: the last may be left out.
pub open spec fn subscribe_fields(v: JsonView) -> int {
    if v is Arr && v->Arr_0.len() == 3 {
        3
    } else {
        4
    }
}

/// What a JSON value asks for.
pub open spec fn client_message_of(v: JsonView) -> Option<ClientView> {
    let count = subscribe_fields(v);
    if jsonrpc::text_field_of(v, "action"@, 0, count) == Some("subscribe"@) {
        match (
            jsonrpc::text_field_of(v, "path"@, 1, count),
            jsonrpc::text_field_of(v, "ref"@, 2, count),
            wsl_field_of(v),
        ) {
            (Some(path), Some(reference), Some(is_wsl)) => Some(
                ClientView::Subscribe { path, reference, is_wsl },
            ),
            _ => None,
        }
    } else if jsonrpc::text_field_of(v, "action"@, 0, 2) == Some("unsubscribe"@) {
        match jsonrpc::text_field_of(v, "ref"@, 1, 2) {
            Some(reference) => Some(ClientView::Unsubscribe { reference }),
            None => None,
        }
    } else {
        None
    }
}

/// The model of a message that may be missing.
pub open spec fn opt_client(message: Option<WatchClientMessage>) -> Option<ClientView> {
    match message {
        Some(m) => Some(m@),
        None => None,
    }
}

fn has_action(v: &Json, count: usize, name: &str) -> (r: bool)
    requires
        0 < count,
    ensures
        r == (jsonrpc::text_field_of(v@, "action"@, 0, count as int) == Some(name@)),
{
    match jsonrpc::text_field(v, "action", 0, count) {
        Some(action) => text::same_text(action.as_str(), name),
        None => false,
    }
}

fn wsl_field(v: &Json, count: usize) -> (r: Option<bool>)
    requires
        count == subscribe_fields(v@),
        v@ is Arr ==> v@->Arr_0.len() == count,
    ensures
        r == wsl_field_of(v@),
{
    match v.array_len() {
        Some(_) => if count == 3 {
            Some(false)
        } else {
            match v.item(3) {
                Some(flag) => flag.as_bool(),
                None => None,
            }
        },
        None => match v.get("is_wsl") {
            Some(flag) => flag.as_bool(),
            None => Some(false),
        },
    }
}

impl WatchClientMessage {
    /// What a JSON value asks for.
    pub fn from_json(v: &Json) -> (r: Option<WatchClientMessage>)
        ensures
            opt_client(r) == client_message_of(v@),
    {
        let count: usize = match v.array_len() {
            Some(n) => if n == 3 {
                3
            } else {
                4
            },
            None => 4,
        };
        if has_action(v, count, "subscribe") {
            match (
                jsonrpc::text_field(v, "path", 1, count),
                jsonrpc::text_field(v, "ref", 2, count),
                wsl_field(v, count),
            ) {
                (Some(path), Some(reference), Some(is_wsl)) => Some(
                    WatchClientMessage::Subscribe { path, reference, is_wsl },
                ),
                _ => None,
            }
        } else if has_action(v, 2, "unsubscribe") {
            match jsonrpc::text_field(v, "ref", 1, 2) {
                Some(reference) => Some(WatchClientMessage::Unsubscribe { reference }),
                None => None,
            }
        } else {
            None
        }
    }
}

/// What a client is told.
#[derive(Debug)]
pub enum WatchEvent {
    Created { path: String, reference: String },
    Modified { path: String, reference: String },
    Deleted { path: String, reference: String },
    Renamed { from: String, to: String, reference: String },
    Warning { message: String, reference: String },
    Subscribed { reference: String },
    Unsubscribed { reference: String, error: Option<String> },
}

/// The model of a [`WatchEvent`].
pub enum EventView {
    Created { path: Seq<char>, reference: Seq<char> },
    Modified { path: Seq<char>, reference: Seq<char> },
    Deleted { path: Seq<char>, reference: Seq<char> },
    Renamed { from: Seq<char>, to: Seq<char>, reference: Seq<char> },
    Warning { message: Seq<char>, reference: Seq<char> },
    Subscribed { reference: Seq<char> },
    Unsubscribed { reference: Seq<char>, error: Option<Seq<char>> },
}

impl View for WatchEvent {
    type V = EventView;

    open spec fn view(&self) -> EventView {
        match self {
            WatchEvent::Created { path, reference } => EventView::Created {
                path: path@,
                reference: reference@,
            },
            WatchEvent::Modified { path, reference } => EventView::Modified {
                path: path@,
                reference: reference@,
            },
            WatchEvent::Deleted { path, reference } => EventView::Deleted {
                path: path@,
                reference: reference@,
            },
            WatchEvent::Renamed { from, to, reference } => EventView::Renamed {
                from: from@,
                to: to@,
                reference: reference@,
            },
            WatchEvent::Warning { message, reference } => EventView::Warning {
                message: message@,
                reference: reference@,
            },
            WatchEvent::Subscribed { reference } => EventView::Subscribed { reference: reference@ },
            WatchEvent::Unsubscribed { reference, error } => EventView::Unsubscribed {
                reference: reference@,
                error: json::opt_text(*error),
            },
        }
    }
}

/// The models of a list of events.
pub open spec fn event_views(events: Seq<WatchEvent>) -> Seq<EventView> {
    events.map_values(|e: WatchEvent| e@)
}

/// The model of an event that may be missing.
pub open spec fn opt_event(event: Option<WatchEvent>) -> Option<EventView> {
    match event {
        Some(e) => Some(e@),
        None => None,
    }
}

impl EventView {
    /// The event with another reference.
    pub open spec fn with_reference(self, reference: Seq<char>) -> EventView {
        match self {
            EventView::Created { path, .. } => EventView::Created { path, reference },
            EventView::Modified { path, .. } => EventView::Modified { path, reference },
            EventView::Deleted { path, .. } => EventView::Deleted { path, reference },
            EventView::Renamed { from, to, .. } => EventView::Renamed { from, to, reference },
            EventView::Warning { message, .. } => EventView::Warning { message, reference },
            EventView::Subscribed { .. } => EventView::Subscribed { reference },
            EventView::Unsubscribed { error, .. } => EventView::Unsubscribed { reference, error },
        }
    }
}

impl EventView {
    /// The fields of the event, in their order.
    pub open spec fn fields(self) -> Seq<(Seq<char>, Seq<char>)> {
        match self {
            EventView::Created { path, reference } => path_fields("created"@, path, reference),
            EventView::Modified { path, reference } => path_fields("modified"@, path, reference),
            EventView::Deleted { path, reference } => path_fields("deleted"@, path, reference),
            EventView::Renamed { from, to, reference } => seq![
                text_field("event"@, "renamed"@),
                text_field("from"@, from),
                text_field("to"@, to),
                text_field("ref"@, reference),
            ],
            EventView::Warning { message, reference } => seq![
                text_field("event"@, "warning"@),
                text_field("message"@, message),
                text_field("ref"@, reference),
            ],
            EventView::Subscribed { reference } => seq![
                text_field("event"@, "subscribed"@),
                text_field("ref"@, reference),
            ],
            EventView::Unsubscribed { reference, error } => {
                let base = seq![text_field("event"@, "unsubscribed"@), text_field("ref"@, reference)];
                match error {
                    Some(e) => base.push(text_field("error"@, e)),
                    None => base,
                }
            },
        }
    }
}

/// A field that holds a text.
pub open spec fn text_field(name: Seq<char>, value: Seq<char>) -> (Seq<char>, Seq<char>) {
    (name, json::json_text(JsonView::Str(value)))
}

/// The fields of an event about a path.
pub open spec fn path_fields(name: Seq<char>, path: Seq<char>, reference: Seq<char>) -> Seq<(
    Seq<char>,
    Seq<char>,
)> {
    seq![text_field("event"@, name), text_field("path"@, path), text_field("ref"@, reference)]
}

fn push_text(fields: &mut Vec<(&'static str, String)>, name: &'static str, value: &str)
    ensures
        json::fields_view(final(fields)@) == json::fields_view(old(fields)@).push(
            text_field(name@, value@),
        ),
{
    fields.push((name, Json::string(value).to_text()));
    assert(json::fields_view(fields@) =~= json::fields_view(old(fields)@).push(text_field(name@, value@)));
}

impl WatchEvent {
    /// The text of the event: its fields in their order.
    pub fn to_text(&self) -> (r: String)
        ensures
            r@ == json::record_text(self@.fields()),
    {
        let mut fields: Vec<(&'static str, String)> = Vec::new();
        match self {
            WatchEvent::Created { path, reference } => {
                push_text(&mut fields, "event", "created");
                push_text(&mut fields, "path", path.as_str());
                push_text(&mut fields, "ref", reference.as_str());
            },
            WatchEvent::Modified { path, reference } => {
                push_text(&mut fields, "event", "modified");
                push_text(&mut fields, "path", path.as_str());
                push_text(&mut fields, "ref", reference.as_str());
            },
            WatchEvent::Deleted { path, reference } => {
                push_text(&mut fields, "event", "deleted");
                push_text(&mut fields, "path", path.as_str());
                push_text(&mut fields, "ref", reference.as_str());
            },
            WatchEvent::Renamed { from, to, reference } => {
                push_text(&mut fields, "event", "renamed");
                push_text(&mut fields, "from", from.as_str());
                push_text(&mut fields, "to", to.as_str());
                push_text(&mut fields, "ref", reference.as_str());
            },
            WatchEvent::Warning { message, reference } => {
                push_text(&mut fields, "event", "warning");
                push_text(&mut fields, "message", message.as_str());
                push_text(&mut fields, "ref", reference.as_str());
            },
            WatchEvent::Subscribed { reference } => {
                push_text(&mut fields, "event", "subscribed");
                push_text(&mut fields, "ref", reference.as_str());
            },
            WatchEvent::Unsubscribed { reference, error } => {
                push_text(&mut fields, "event", "unsubscribed");
                push_text(&mut fields, "ref", reference.as_str());
                match error {
                    Some(e) => {
                        push_text(&mut fields, "error", e.as_str());
                    },
                    None => {},
                }
            },
        }
        assert(json::fields_view(fields@) =~= self@.fields());
        json::write_record(fields)
    }
}

impl WatchEvent {
    /// The event with another reference.
    pub fn with_reference(&self, new_ref: String) -> (r: Self)
        ensures
            r@ == self@.with_reference(new_ref@),
    {
        match self {
            WatchEvent::Created { path, .. } => WatchEvent::Created {
                path: path.clone(),
                reference: new_ref,
            },
            WatchEvent::Modified { path, .. } => WatchEvent::Modified {
                path: path.clone(),
                reference: new_ref,
            },
            WatchEvent::Deleted { path, .. } => WatchEvent::Deleted {
                path: path.clone(),
                reference: new_ref,
            },
            WatchEvent::Renamed { from, to, .. } => WatchEvent::Renamed {
                from: from.clone(),
                to: to.clone(),
                reference: new_ref,
            },
            WatchEvent::Warning { message, .. } => WatchEvent::Warning {
                message: message.clone(),
                reference: new_ref,
            },
            WatchEvent::Subscribed { .. } => WatchEvent::Subscribed { reference: new_ref },
            WatchEvent::Unsubscribed { error, .. } => WatchEvent::Unsubscribed {
                reference: new_ref,
                error: match error {
                    Some(e) => Some(e.clone()),
                    None => None,
                },
            },
        }
    }
}

/// What is sent to a client.
#[derive(Debug)]
pub enum WatchWebSocketMessage {
    Event(WatchEvent),
    Pong,
}

/// The text of what is sent to a client.
pub open spec fn message_text(message: WatchWebSocketMessage) -> Seq<char> {
    match message {
        WatchWebSocketMessage::Event(event) => json::record_text(event@.fields()) + "\n"@,
        WatchWebSocketMessage::Pong => "pong"@,
    }
}

impl WatchWebSocketMessage {
    /// The text to send: a line of JSON, or `pong`.
    pub fn to_text(&self) -> (r: String)
        ensures
            r@ == message_text(*self),
    {
        match self {
            WatchWebSocketMessage::Event(event) => {
                let mut line = event.to_text();
                line.append("\n");
                line
            },
            WatchWebSocketMessage::Pong => "pong".to_owned(),
        }
    }
}

/// Whether a text of a client only asks whether the server is there.
pub fn is_ping(message: &str) -> (r: bool)
    ensures
        r == (text::trimmed(message@) == "ping"@),
{
    text::same_text(text::trim(message), "ping")
}

// ---------------------------------------------------------------------------
// Events of a watcher
// ---------------------------------------------------------------------------

/// The events of a change of one path each, with the watched path as their reference.
pub open spec fn path_event(kind: ChangeKind, path: Seq<char>, watched: Seq<char>) -> EventView {
    match kind {
        ChangeKind::Create => EventView::Created { path, reference: watched },
        ChangeKind::Remove => if path == watched {
            EventView::Unsubscribed { reference: watched, error: Some("watched path was removed"@) }
        } else {
            EventView::Deleted { path, reference: watched }
        },
        _ => EventView::Modified { path, reference: watched },
    }
}

/// The events of a change, and the old name of a rename whose new name has not been seen yet.
/// `pending` is that name before the change.
pub open spec fn converted(
    kind: ChangeKind,
    changed: Seq<Seq<char>>,
    watched: Seq<char>,
    pending: Option<Seq<char>>,
) -> (Seq<EventView>, Option<Seq<char>>) {
    match kind {
        ChangeKind::RenameFrom => if changed.len() > 0 {
            (seq![], Some(changed[0]))
        } else {
            (seq![], pending)
        },
        ChangeKind::RenameTo => if changed.len() > 0 {
            match pending {
                Some(from) => (
                    seq![EventView::Renamed { from, to: changed[0], reference: watched }],
                    None,
                ),
                None => (seq![EventView::Created { path: changed[0], reference: watched }], None),
            }
        } else {
            (seq![], pending)
        },
        ChangeKind::RenameBoth => if changed.len() >= 2 {
            (
                seq![EventView::Renamed { from: changed[0], to: changed[1], reference: watched }],
                pending,
            )
        } else {
            (seq![], pending)
        },
        ChangeKind::Other => (seq![], pending),
        _ => (changed.map_values(|path: Seq<char>| path_event(kind, path, watched)), pending),
    }
}

fn event_of_path(kind: ChangeKind, path: &str, watched: &str) -> (r: WatchEvent)
    ensures
        r@ == path_event(kind, path@, watched@),
{
    let reference = watched.to_owned();
    match kind {
        ChangeKind::Create => WatchEvent::Created { path: path.to_owned(), reference },
        ChangeKind::Remove => {
            if text::same_text(path, watched) {
                WatchEvent::Unsubscribed {
                    reference,
                    error: Some("watched path was removed".to_owned()),
                }
            } else {
                WatchEvent::Deleted { path: path.to_owned(), reference }
            }
        },
        _ => WatchEvent::Modified { path: path.to_owned(), reference },
    }
}

/// Turns a change into events. `pending_rename_from` keeps the old name of a rename until its new
/// name is seen.
pub fn convert_notify_event(
    change: &FileChange,
    watched_path: &str,
    pending_rename_from: &mut Option<String>,
) -> (r: Vec<WatchEvent>)
    ensures
        event_views(r@) == converted(
            change.kind,
            text::texts(change.paths@),
            watched_path@,
            json::opt_text(*old(pending_rename_from)),
        ).0,
        json::opt_text(*final(pending_rename_from)) == converted(
            change.kind,
            text::texts(change.paths@),
            watched_path@,
            json::opt_text(*old(pending_rename_from)),
        ).1,
{
    let ghost all = text::texts(change.paths@);
    let mut r: Vec<WatchEvent> = Vec::new();
    match change.kind {
        ChangeKind::RenameFrom => {
            if change.paths.len() > 0 {
                *pending_rename_from = Some(change.paths[0].clone());
            }
        },
        ChangeKind::RenameTo => {
            if change.paths.len() > 0 {
                let reference = watched_path.to_owned();
                match pending_rename_from.take() {
                    Some(from) => r.push(
                        WatchEvent::Renamed { from, to: change.paths[0].clone(), reference },
                    ),
                    None => r.push(WatchEvent::Created { path: change.paths[0].clone(), reference }),
                }
            }
        },
        ChangeKind::RenameBoth => {
            if change.paths.len() >= 2 {
                r.push(
                    WatchEvent::Renamed {
                        from: change.paths[0].clone(),
                        to: change.paths[1].clone(),
                        reference: watched_path.to_owned(),
                    },
                );
            }
        },
        ChangeKind::Other => {},
        kind => {
            let mut i: usize = 0;
            while i < change.paths.len()
                invariant
                    all == text::texts(change.paths@),
                    i <= change.paths.len(),
                    r.len() == i,
                    forall|k: int|
                        0 <= k < i ==> (#[trigger] r@[k])@ == path_event(kind, all[k], watched_path@),
                decreases change.paths.len() - i,
            {
                r.push(event_of_path(kind, change.paths[i].as_str(), watched_path));
                i = i + 1;
            }
        },
    }
    proof {
        let expected = converted(
            change.kind,
            all,
            watched_path@,
            json::opt_text(*old(pending_rename_from)),
        ).0;
        assert(event_views(r@) =~= expected);
    }
    r
}

/// The events of a batch that a watcher sends: those up to the one that ends it.
pub open spec fn until_unsubscribed(events: Seq<EventView>) -> Seq<EventView>
    decreases events.len(),
{
    if events.len() == 0 {
        seq![]
    } else if events[0] is Unsubscribed {
        seq![events[0]]
    } else {
        seq![events[0]] + until_unsubscribed(events.drop_first())
    }
}

/// Drops the events after the one that ends a watcher. The result says whether one does.
pub fn cut_at_end(events: &mut Vec<WatchEvent>) -> (ended: bool)
    ensures
        event_views(final(events)@) == until_unsubscribed(event_views(old(events)@)),
        ended == exists|i: int|
            0 <= i < old(events)@.len() && (#[trigger] event_views(old(events)@)[i]) is Unsubscribed,
{
    let ghost all = event_views(events@);
    let mut i: usize = 0;
    proof {
        assert(all.skip(0) =~= all);
        assert(all.take(0) + until_unsubscribed(all) =~= until_unsubscribed(all));
    }
    while i < events.len()
        invariant
            events@ == old(events)@,
            all == event_views(events@),
            i <= events.len(),
            forall|k: int| 0 <= k < i ==> !((#[trigger] all[k]) is Unsubscribed),
            until_unsubscribed(all) == all.take(i as int) + until_unsubscribed(all.skip(i as int)),
        decreases events.len() - i,
    {
        let ends = match &events[i] {
            WatchEvent::Unsubscribed { .. } => true,
            _ => false,
        };
        proof {
            assert(all.skip(i as int)[0] == all[i as int]);
            assert(all[i as int] == events@[i as int]@);
            assert(all.skip(i as int).drop_first() =~= all.skip(i + 1));
        }
        if ends {
            events.truncate(i + 1);
            assert(event_views(events@) =~= all.take(i as int) + seq![all[i as int]]);
            return true;
        }
        proof {
            assert(all.take(i as int) + (seq![all[i as int]] + until_unsubscribed(all.skip(i + 1)))
                =~= all.take(i + 1) + until_unsubscribed(all.skip(i + 1)));
        }
        i = i + 1;
    }
    proof {
        assert(all.skip(all.len() as int).len() == 0);
        assert(all.take(all.len() as int) + Seq::<EventView>::empty() =~= all);
    }
    false
}

/// The event with which a watcher starts or fails to.
pub fn start_event(start: WatcherStart, watched_path: &str) -> (r: Option<WatchEvent>)
    ensures
        opt_event(r) == (match start@ {
            WatcherStartView::Ready => None,
            WatcherStartView::Warn(message) => Some(
                EventView::Warning { message, reference: watched_path@ },
            ),
            WatcherStartView::Failed(error) => Some(
                EventView::Unsubscribed { reference: watched_path@, error: Some(error) },
            ),
        }),
{
    let reference = watched_path.to_owned();
    match start {
        WatcherStart::Ready => None,
        WatcherStart::Warn(message) => Some(WatchEvent::Warning { message, reference }),
        WatcherStart::Failed(error) => Some(WatchEvent::Unsubscribed { reference, error: Some(error) }),
    }
}

/// The event that ends a watcher with an error.
pub fn end_event(error: String, watched_path: &str) -> (r: WatchEvent)
    ensures
        r@ == (EventView::Unsubscribed { reference: watched_path@, error: Some(error@) }),
{
    WatchEvent::Unsubscribed { reference: watched_path.to_owned(), error: Some(error) }
}

// ---------------------------------------------------------------------------
// Subscriptions
// ---------------------------------------------------------------------------

/// What is watched, and by whom.
pub struct WatchState {
    /// The watchers, by canonical path.
    pub watchers: Registry<ActiveWatch>,
    /// The subscriptions of each connection: canonical paths by reference.
    pub subscriptions: Registry<Registry<String>>,
}

/// The model of a [`WatchState`].
#[verifier::ext_equal]
pub struct WatchStateView {
    pub watchers: Map<Seq<char>, bool>,
    pub subscriptions: Map<Seq<char>, Map<Seq<char>, String>>,
}

impl View for WatchState {
    type V = WatchStateView;

    open spec fn view(&self) -> WatchStateView {
        WatchStateView {
            watchers: registry::viewed(self.watchers@),
            subscriptions: registry::viewed(self.subscriptions@),
        }
    }
}

impl WatchStateView {
    /// Whether a connection is open.
    pub open spec fn connected(self, websocket: Seq<char>) -> bool {
        self.subscriptions.contains_key(websocket)
    }

    /// The path that a connection is subscribed to under a reference.
    pub open spec fn subscription(self, websocket: Seq<char>, reference: Seq<char>) -> Option<Seq<char>> {
        if self.connected(websocket) && self.subscriptions[websocket].contains_key(reference) {
            Some(self.subscriptions[websocket][reference]@)
        } else {
            None
        }
    }

    /// Whether a subscription for a path starts its watcher.
    pub open spec fn starts_watcher(self, path: Seq<char>) -> bool {
        !(self.watchers.contains_key(path) && self.watchers[path])
    }

    /// The subscriptions, and only they, differ from those of another state: by one reference of
    /// one connection, which now stands for `path`.
    pub open spec fn resubscribed(
        self,
        before: WatchStateView,
        websocket: Seq<char>,
        reference: Seq<char>,
        path: Option<Seq<char>>,
    ) -> bool {
        &&& forall|w: Seq<char>| #[trigger] self.connected(w) == before.connected(w)
        &&& forall|w: Seq<char>, r: Seq<char>| #[trigger]
            self.subscription(w, r) == (if before.connected(w) && w == websocket && r == reference {
                path
            } else {
                before.subscription(w, r)
            })
    }
}

/// What a subscription asks for.
pub struct Subscribe {
    /// The canonical path, where events are to be forwarded.
    pub forward: Option<String>,
    pub start_watcher: bool,
    /// What the client is told, where it is still connected.
    pub message: Option<WatchEvent>,
}

/// What a subscriber hears from a watcher.
#[derive(Debug)]
pub enum Received {
    Event(WatchEvent),
    /// The watcher is gone.
    Closed,
    /// Some events were lost.
    Lagged,
}

/// What a subscriber does with what it hears: what the client is told, and whether the forwarding
/// ends.
pub struct Forward {
    pub message: Option<WatchEvent>,
    pub ends: bool,
}

impl WatchState {
    /// The tables are well formed.
    pub open spec fn wf(&self) -> bool {
        &&& self.watchers.wf()
        &&& self.subscriptions.wf()
        &&& forall|key: Seq<char>| #[trigger]
            self.subscriptions@.contains_key(key) ==> self.subscriptions@[key].wf()
    }

    /// Nothing is watched, and nobody is connected.
    pub fn new() -> (r: Self)
        ensures
            r.wf(),
            r@ == (WatchStateView { watchers: Map::empty(), subscriptions: Map::empty() }),
    {
        let r = WatchState { watchers: Registry::new(), subscriptions: Registry::new() };
        assert(r@ =~= (WatchStateView { watchers: Map::empty(), subscriptions: Map::empty() }));
        r
    }

    /// A connection opens, with no subscription.
    pub fn connect(&mut self, websocket_id: &str)
        requires
            old(self).wf(),
        ensures
            final(self).wf(),
            final(self)@ == (WatchStateView {
                subscriptions: old(self)@.subscriptions.insert(websocket_id@, Map::empty()),
                ..old(self)@
            }),
    {
        self.subscriptions.insert(websocket_id.to_owned(), Registry::new());
    }

    /// A connection closes.
    pub fn disconnect(&mut self, websocket_id: &str)
        requires
            old(self).wf(),
        ensures
            final(self).wf(),
            final(self)@ == (WatchStateView {
                subscriptions: old(self)@.subscriptions.remove(websocket_id@),
                ..old(self)@
            }),
    {
        let _ = self.subscriptions.remove(websocket_id);
    }

    /// Subscribes a connection to the directory whose path was checked with
    /// [`watching::check_path`]. A reference that was in use stands for the new path from then on.
    /// Only the first subscription starts the watcher.
    pub fn handle_subscribe(
        &mut self,
        websocket_id: &str,
        reference: &str,
        path: Result<String, PathProblem>,
    ) -> (r: Subscribe)
        requires
            old(self).wf(),
        ensures
            final(self).wf(),
            match path {
                Ok(path) => {
                    &&& json::opt_text(r.forward) == Some(path@)
                    &&& r.start_watcher == old(self)@.starts_watcher(path@)
                    &&& opt_event(r.message) == (if old(self)@.connected(websocket_id@) {
                        Some(EventView::Subscribed { reference: reference@ })
                    } else {
                        None
                    })
                    &&& final(self)@.watchers == old(self)@.watchers.insert(path@, true)
                    &&& final(self)@.resubscribed(old(self)@, websocket_id@, reference@, Some(path@))
                },
                Err(problem) => {
                    &&& r.forward is None
                    &&& !r.start_watcher
                    &&& opt_event(r.message) == (if old(self)@.connected(websocket_id@) {
                        Some(
                            EventView::Unsubscribed {
                                reference: reference@,
                                error: Some(watching::problem_text(problem)),
                            },
                        )
                    } else {
                        None
                    })
                    &&& *final(self) == *old(self)
                },
            },
    {
        match path {
            Err(problem) => Subscribe {
                forward: None,
                start_watcher: false,
                message: self.send_unsubscribed_with_error(websocket_id, reference, problem.message()),
            },
            Ok(path) => {
                let connected = match self.subscriptions.get_mut(websocket_id) {
                    Some(subs) => {
                        subs.insert(reference.to_owned(), path.clone());
                        true
                    },
                    None => false,
                };
                let started = match self.watchers.get(path.as_str()) {
                    Some(watch) => watch.started,
                    None => false,
                };
                self.watchers.insert(path.clone(), ActiveWatch { started: true });
                let message = if connected {
                    Some(WatchEvent::Subscribed { reference: reference.to_owned() })
                } else {
                    None
                };
                Subscribe { forward: Some(path), start_watcher: !started, message }
            },
        }
    }

    /// What a client is told whose subscription failed.
    pub fn send_unsubscribed_with_error(&self, websocket_id: &str, reference: &str, message: String) -> (r:
        Option<WatchEvent>)
        requires
            self.wf(),
        ensures
            opt_event(r) == (if self@.connected(websocket_id@) {
                Some(EventView::Unsubscribed { reference: reference@, error: Some(message@) })
            } else {
                None
            }),
    {
        if self.subscriptions.contains_key(websocket_id) {
            Some(WatchEvent::Unsubscribed { reference: reference.to_owned(), error: Some(message) })
        } else {
            None
        }
    }

    /// Ends a subscription. The result is what the client is told, where it is still connected.
    pub fn handle_unsubscribe(&mut self, websocket_id: &str, reference: &str) -> (r: Option<WatchEvent>)
        requires
            old(self).wf(),
        ensures
            final(self).wf(),
            opt_event(r) == (if old(self)@.connected(websocket_id@) {
                Some(EventView::Unsubscribed { reference: reference@, error: None })
            } else {
                None
            }),
            final(self)@.watchers == old(self)@.watchers,
            final(self)@.resubscribed(old(self)@, websocket_id@, reference@, None),
    {
        match self.subscriptions.get_mut(websocket_id) {
            Some(subs) => {
                let _ = subs.remove(reference);
                Some(WatchEvent::Unsubscribed { reference: reference.to_owned(), error: None })
            },
            None => None,
        }
    }

    /// Decides what a subscriber does with what it hears from the watcher of `path`. Only an event
    /// for a subscription that still stands reaches the client, with the client's own reference.
    pub fn forward(&self, websocket_id: &str, reference: &str, path: &str, received: Received) -> (r: Forward)
        requires
            self.wf(),
        ensures
            ({
                let subscribed = self@.subscription(websocket_id@, reference@) == Some(path@);
                match received {
                    Received::Event(event) => {
                        &&& opt_event(r.message) == (if subscribed {
                            Some(event@.with_reference(reference@))
                        } else {
                            None
                        })
                        &&& r.ends == (event@ is Unsubscribed || !subscribed)
                    },
                    Received::Closed => {
                        &&& opt_event(r.message) == (if self@.connected(websocket_id@) {
                            Some(
                                EventView::Unsubscribed {
                                    reference: reference@,
                                    error: Some("watcher closed"@),
                                },
                            )
                        } else {
                            None
                        })
                        &&& r.ends
                    },
                    Received::Lagged => r.message is None && !r.ends,
                }
            }),
    {
        match received {
            Received::Event(event) => {
                let subscribed = match self.subscriptions.get(websocket_id) {
                    Some(subs) => match subs.get(reference) {
                        Some(p) => text::same_text(p.as_str(), path),
                        None => false,
                    },
                    None => false,
                };
                let last = match &event {
                    WatchEvent::Unsubscribed { .. } => true,
                    _ => false,
                };
                let message = if subscribed {
                    Some(event.with_reference(reference.to_owned()))
                } else {
                    None
                };
                Forward { message, ends: last || !subscribed }
            },
            Received::Closed => Forward {
                message: self.send_unsubscribed_with_error(
                    websocket_id,
                    reference,
                    "watcher closed".to_owned(),
                ),
                ends: true,
            },
            Received::Lagged => Forward { message: None, ends: false },
        }
    }

    /// Forgets a watcher that has ended.
    pub fn remove_watcher(&mut self, canonical_path: &str)
        requires
            old(self).wf(),
        ensures
            final(self).wf(),
            final(self)@ == (WatchStateView {
                watchers: old(self)@.watchers.remove(canonical_path@),
                ..old(self)@
            }),
    {
        let _ = self.watchers.remove(canonical_path);
    }

    /// Takes in what the task of a watcher learns. The result is the events to be sent, and whether the
    /// task ends. A watcher that ends is forgotten.
    pub fn watcher_news(
        &mut self,
        canonical_path: &str,
        pending_rename_from: &mut Option<String>,
        news: WatcherNews,
    ) -> (r: (Vec<WatchEvent>, bool))
        requires
            old(self).wf(),
        ensures
            final(self).wf(),
            ({
                let (events, pending, ends) = told(
                    news@,
                    canonical_path@,
                    json::opt_text(*old(pending_rename_from)),
                );
                &&& event_views(r.0@) == events
                &&& json::opt_text(*final(pending_rename_from)) == pending
                &&& r.1 == ends
                &&& final(self)@ == (if ends {
                    WatchStateView {
                        watchers: old(self)@.watchers.remove(canonical_path@),
                        ..old(self)@
                    }
                } else {
                    old(self)@
                })
            }),
    {
        let mut events: Vec<WatchEvent> = Vec::new();
        let ends = match news {
            WatcherNews::Started(start) => {
                let failed = match start {
                    WatcherStart::Failed(_) => true,
                    _ => false,
                };
                match start_event(start, canonical_path) {
                    Some(event) => events.push(event),
                    None => {},
                }
                failed
            },
            WatcherNews::NotWatched(e) => {
                events.push(end_event(watching::watch_path_error(e.as_str()), canonical_path));
                true
            },
            WatcherNews::Changed(change) => {
                events = convert_notify_event(&change, canonical_path, pending_rename_from);
                cut_at_end(&mut events)
            },
            WatcherNews::Failed(e) => {
                events.push(end_event(watching::watch_error(e.as_str()), canonical_path));
                true
            },
            WatcherNews::Silent => true,
            WatcherNews::Idle(listeners) => listeners == 0,
        };
        proof {
            let (expected, _, _) = told(
                news@,
                canonical_path@,
                json::opt_text(*old(pending_rename_from)),
            );
            assert(event_views(events@) =~= expected);
        }
        if ends {
            self.remove_watcher(canonical_path);
        }
        (events, ends)
    }
}

// ---------------------------------------------------------------------------
// The life of a watcher
// ---------------------------------------------------------------------------

/// What the task of a watcher makes of what it learns: the events that it sends, the pending old name
/// of a rename, and whether it ends.
pub open spec fn told(news: NewsView, path: Seq<char>, pending: Option<Seq<char>>) -> (
    Seq<EventView>,
    Option<Seq<char>>,
    bool,
) {
    match news {
        NewsView::Started(WatcherStartView::Ready) => (seq![], pending, false),
        NewsView::Started(WatcherStartView::Warn(message)) => (
            seq![EventView::Warning { message, reference: path }],
            pending,
            false,
        ),
        NewsView::Started(WatcherStartView::Failed(error)) => (
            seq![EventView::Unsubscribed { reference: path, error: Some(error) }],
            pending,
            true,
        ),
        NewsView::NotWatched(e) => {
            let error = watching::watch_path_text(e);
            (seq![EventView::Unsubscribed { reference: path, error: Some(error) }], pending, true)
        },
        NewsView::Changed { kind, paths, .. } => {
            let (events, left) = converted(kind, paths, path, pending);
            (until_unsubscribed(events), left, exists|i: int| 0 <= i < events.len() && (#[trigger] events[i]) is Unsubscribed)
        },
        NewsView::Failed(e) => {
            let error = watching::watch_error_text(e);
            (seq![EventView::Unsubscribed { reference: path, error: Some(error) }], pending, true)
        },
        NewsView::Silent => (seq![], pending, true),
        NewsView::Idle(listeners) => (seq![], pending, listeners == 0),
    }
}

/// What the task of a watcher has made of all that it has learnt. After its end it learns nothing
/// more.
pub open spec fn told_all(news: Seq<NewsView>, path: Seq<char>) -> (Seq<EventView>, Option<Seq<char>>, bool)
    decreases news.len(),
{
    if news.len() == 0 {
        (seq![], None, false)
    } else {
        let (events, pending, ended) = told_all(news.drop_last(), path);
        if ended {
            (events, pending, ended)
        } else {
            let (more, left, ends) = told(news.last(), path, pending);
            (events + more, left, ends)
        }
    }
}

proof fn lemma_cut_ends(events: Seq<EventView>)
    ensures
        forall|i: int|
            0 <= i < until_unsubscribed(events).len() && (#[trigger] until_unsubscribed(events)[i]) is Unsubscribed ==> i == until_unsubscribed(
                events,
            ).len() - 1,
        (exists|i: int| 0 <= i < events.len() && (#[trigger] events[i]) is Unsubscribed) <==> until_unsubscribed(
            events,
        ).len() > 0 && until_unsubscribed(events).last() is Unsubscribed,
    decreases events.len(),
{
    let cut = until_unsubscribed(events);
    if events.len() > 0 && !(events[0] is Unsubscribed) {
        let rest = events.drop_first();
        lemma_cut_ends(rest);
        let cut_rest = until_unsubscribed(rest);
        assert(cut =~= seq![events[0]] + cut_rest);
        assert forall|i: int| 0 <= i < cut.len() && (#[trigger] cut[i]) is Unsubscribed implies i == cut.len()
            - 1 by {
            if i > 0 {
                assert(cut[i] == cut_rest[i - 1]);
            }
        }
        if exists|i: int| 0 <= i < events.len() && (#[trigger] events[i]) is Unsubscribed {
            let i = choose|i: int| 0 <= i < events.len() && (#[trigger] events[i]) is Unsubscribed;
            assert(rest[i - 1] is Unsubscribed);
            assert(cut.last() == cut_rest.last());
        }
        if cut.len() > 0 && cut.last() is Unsubscribed {
            if cut_rest.len() > 0 {
                assert(cut.last() == cut_rest.last());
            }
            let i = choose|i: int| 0 <= i < rest.len() && (#[trigger] rest[i]) is Unsubscribed;
            assert(events[i + 1] is Unsubscribed);
        }
    } else if events.len() > 0 {
        assert(cut[0] is Unsubscribed);
        assert(events[0] is Unsubscribed);
    }
}

/// Whatever a watcher goes through: the event that ends the subscriptions is the last that it sends,
/// and comes only when it ends. It is sent wherever the watcher ends for another reason than that it
/// has nothing more to report or that nobody listens.
pub proof fn lemma_watcher_ends(news: Seq<NewsView>, path: Seq<char>)
    ensures
        ({
            let (events, _, ended) = told_all(news, path);
            &&& forall|i: int|
                0 <= i < events.len() && (#[trigger] events[i]) is Unsubscribed ==> ended && i == events.len() - 1
            &&& ended && !told_all(news.drop_last(), path).2 && news.len() > 0 && !(news.last() is Silent)
                && !(news.last() is Idle) ==> events.len() > 0 && events.last() is Unsubscribed
        }),
    decreases news.len(),
{
    if news.len() > 0 {
        let shorter = news.drop_last();
        lemma_watcher_ends(shorter, path);
        let (before, pending, over) = told_all(shorter, path);
        if !over {
            let (more, _, _) = told(news.last(), path, pending);
            let events = before + more;
            match news.last() {
                NewsView::Changed { kind, paths, .. } => {
                    let all = converted(kind, paths, path, pending).0;
                    lemma_cut_ends(all);
                },
                _ => {},
            }
            assert forall|i: int| 0 <= i < events.len() && (#[trigger] events[i]) is Unsubscribed implies told_all(
                news,
                path,
            ).2 && i == events.len() - 1 by {
                if i < before.len() {
                    assert(before[i] is Unsubscribed);
                } else {
                    assert(more[i - before.len()] == events[i]);
                }
            }
            if more.len() > 0 {
                assert(events.last() == more.last());
            }
        }
    }
}

// ---------------------------------------------------------------------------
// Laws
// ---------------------------------------------------------------------------

/// A rename that is reported name by name gives the same event as one that is reported at once.
pub proof fn lemma_rename_in_two_steps(from: Seq<char>, to: Seq<char>, watched: Seq<char>)
    ensures
        ({
            let (first, pending) = converted(ChangeKind::RenameFrom, seq![from], watched, None);
            let (second, left) = converted(ChangeKind::RenameTo, seq![to], watched, pending);
            &&& first.len() == 0
            &&& second == converted(ChangeKind::RenameBoth, seq![from, to], watched, None).0
            &&& left is None
        }),
{
}

/// Every event of a watcher carries the watched path as its reference, until it is replaced by the
/// reference of a client.
pub proof fn lemma_watcher_reference(
    kind: ChangeKind,
    changed: Seq<Seq<char>>,
    watched: Seq<char>,
    pending: Option<Seq<char>>,
    i: int,
)
    requires
        0 <= i < converted(kind, changed, watched, pending).0.len(),
    ensures
        ({
            let event = converted(kind, changed, watched, pending).0[i];
            event == event.with_reference(watched)
        }),
{
}

/// After a subscription has ended, or its reference stands for another path, no event of the old
/// path reaches the client under that reference; the subscriptions of other clients stand.
pub proof fn lemma_no_events_after_unsubscribe(
    before: WatchStateView,
    after: WatchStateView,
    websocket: Seq<char>,
    reference: Seq<char>,
    path: Seq<char>,
    now: Option<Seq<char>>,
)
    requires
        after.resubscribed(before, websocket, reference, now),
        now != Some(path),
    ensures
        after.subscription(websocket, reference) != Some(path),
        forall|w: Seq<char>, r: Seq<char>|
            w != websocket || r != reference ==> #[trigger] after.subscription(w, r)
                == before.subscription(w, r),
{
    assert(after.connected(websocket) == before.connected(websocket));
}

/// After a subscription for a directory, no later one starts its watcher again, whatever happens in
/// between, as long as the watcher does not end; after its end, the next subscription does.
pub proof fn lemma_watcher_starts_once(state: WatchStateView, path: Seq<char>, steps: Seq<StartStep>)
    ensures
        ({
            let subscribed = state.watchers.insert(path, true);
            let later = WatchStateView { watchers: starts::after(subscribed, steps), ..state };
            (forall|i: int| 0 <= i < steps.len() ==> #[trigger] steps[i] != StartStep::Ended(path))
                ==> !later.starts_watcher(path)
        }),
        ({
            let ended = state.watchers.remove(path);
            let later = WatchStateView { watchers: starts::after(ended, steps), ..state };
            (forall|i: int| 0 <= i < steps.len() ==> #[trigger] steps[i] != StartStep::Wanted(path))
                ==> later.starts_watcher(path)
        }),
{
    if forall|i: int| 0 <= i < steps.len() ==> #[trigger] steps[i] != StartStep::Ended(path) {
        starts::lemma_shared_until_end(state.watchers.insert(path, true), steps, path);
    }
    if forall|i: int| 0 <= i < steps.len() ==> #[trigger] steps[i] != StartStep::Wanted(path) {
        starts::lemma_started_after_end(state.watchers.remove(path), steps, path);
    }
}

/// The events that are sent are the first ones, in their order and none left out, up to the one that ends the subscriptions. Without
/// it all of them are sent.
pub proof fn lemma_cut(events: Seq<EventView>)
    ensures
        until_unsubscribed(events).len() <= events.len(),
        until_unsubscribed(events) == events.take(until_unsubscribed(events).len() as int),
        until_unsubscribed(events).len() < events.len() ==> until_unsubscribed(events).len() > 0 && until_unsubscribed(events).last() is Unsubscribed,
        (forall|i: int| 0 <= i < events.len() ==> !((#[trigger] events[i]) is Unsubscribed)) ==> until_unsubscribed(events)
            == events,
    decreases events.len(),
{
    let cut = until_unsubscribed(events);
    if events.len() == 0 {
        assert(cut =~= events.take(0));
        assert(cut =~= events);
    } else if events[0] is Unsubscribed {
        assert(cut =~= events.take(1));
    } else {
        let rest = events.drop_first();
        let cut_rest = until_unsubscribed(rest);
        lemma_cut(rest);
        assert(cut =~= seq![events[0]] + cut_rest);
        assert(cut =~= events.take(cut.len() as int));
        if cut.len() < events.len() {
            assert(cut.last() == cut_rest.last());
        }
        if forall|i: int| 0 <= i < events.len() ==> !((#[trigger] events[i]) is Unsubscribed) {
            assert forall|i: int| 0 <= i < rest.len() implies !((#[trigger] rest[i]) is Unsubscribed) by {
                assert(rest[i] == events[i + 1]);
            }
            assert(cut =~= events);
        }
    }
}

} // verus!
