//! Which changes of files give which events, and how the events are written.

use vstd::prelude::*;

use crate::json;
use crate::json::JsonView;
use crate::jsonrpc;
use crate::text;
use crate::watch;
use crate::watch::{
    ClientView, EventView, Forward, Received, Subscribe, WatchEvent, WatchState, WatchStateView,
    WatchWebSocketMessage,
};
use crate::watching;
use crate::watching::{ChangeKind, FileChange, NewsView, PathProblem, WatcherNews, WatcherStartView};

verus! {

/// Every path of a change gives one event, in the order of the paths, with the full path: a creation
/// where files were created, a modification where they changed, a deletion where they were removed.
/// The removal of the watched directory ends its subscriptions.
pub proof fn lemma_changes(changed: Seq<Seq<char>>, watched: Seq<char>, pending: Option<Seq<char>>, i: int)
    requires
        0 <= i < changed.len(),
    ensures
        ({
            let (events, left) = watch::converted(ChangeKind::Create, changed, watched, pending);
            &&& events.len() == changed.len()
            &&& events[i] == (EventView::Created { path: changed[i], reference: watched })
            &&& left == pending
        }),
        ({
            let (events, left) = watch::converted(ChangeKind::Modify, changed, watched, pending);
            &&& events.len() == changed.len()
            &&& events[i] == (EventView::Modified { path: changed[i], reference: watched })
            &&& left == pending
        }),
        ({
            let (events, left) = watch::converted(ChangeKind::Remove, changed, watched, pending);
            &&& events.len() == changed.len()
            &&& changed[i] != watched ==> events[i] == (EventView::Deleted {
                path: changed[i],
                reference: watched,
            })
            &&& changed[i] == watched ==> events[i] == (EventView::Unsubscribed {
                reference: watched,
                error: Some("watched path was removed"@),
            })
            &&& left == pending
        }),
{
}

/// An event comes only of a change of its kind.
pub proof fn lemma_events_match_changes(
    kind: ChangeKind,
    changed: Seq<Seq<char>>,
    watched: Seq<char>,
    pending: Option<Seq<char>>,
    k: int,
)
    requires
        0 <= k < watch::converted(kind, changed, watched, pending).0.len(),
    ensures
        ({
            let event = watch::converted(kind, changed, watched, pending).0[k];
            &&& event is Created ==> kind == ChangeKind::Create || kind == ChangeKind::RenameTo
            &&& event is Modified ==> kind == ChangeKind::Modify
            &&& event is Deleted ==> kind == ChangeKind::Remove
            &&& event is Renamed ==> kind == ChangeKind::RenameTo || kind == ChangeKind::RenameBoth
            &&& event is Unsubscribed ==> kind == ChangeKind::Remove && changed[k] == watched
            &&& !(event is Warning)
            &&& !(event is Subscribed)
        }),
{
}

/// A renaming is told with both names. One that is reported name by name keeps the old name until the
/// new one comes; a new name without an old one is a creation.
pub proof fn lemma_renamings(changed: Seq<Seq<char>>, watched: Seq<char>, pending: Option<Seq<char>>)
    ensures
        changed.len() >= 2 ==> watch::converted(ChangeKind::RenameBoth, changed, watched, pending) == (
            seq![EventView::Renamed { from: changed[0], to: changed[1], reference: watched }],
            pending,
        ),
        changed.len() > 0 ==> {
            &&& watch::converted(ChangeKind::RenameFrom, changed, watched, pending) == (
                Seq::<EventView>::empty(),
                Some(changed[0]),
            )
            &&& pending is Some ==> watch::converted(ChangeKind::RenameTo, changed, watched, pending) == (
                seq![EventView::Renamed { from: pending->0, to: changed[0], reference: watched }],
                None::<Seq<char>>,
            )
            &&& pending is None ==> watch::converted(ChangeKind::RenameTo, changed, watched, pending) == (
                seq![EventView::Created { path: changed[0], reference: watched }],
                None::<Seq<char>>,
            )
        },
        changed.len() == 0 ==> {
            &&& watch::converted(ChangeKind::RenameFrom, changed, watched, pending) == (
                Seq::<EventView>::empty(),
                pending,
            )
            &&& watch::converted(ChangeKind::RenameTo, changed, watched, pending) == (
                Seq::<EventView>::empty(),
                pending,
            )
        },
        changed.len() < 2 ==> watch::converted(ChangeKind::RenameBoth, changed, watched, pending) == (
            Seq::<EventView>::empty(),
            pending,
        ),
        watch::converted(ChangeKind::Other, changed, watched, pending) == (
            Seq::<EventView>::empty(),
            pending,
        ),
{
}

/// What a watcher makes of its news: a warning is told, a failure ends the subscriptions with its text,
/// silence and the absence of listeners end the watcher without a word.
pub proof fn lemma_news(path: Seq<char>, pending: Option<Seq<char>>, text: Seq<char>, listeners: usize)
    ensures
        watch::told(NewsView::Started(WatcherStartView::Ready), path, pending) == (
            Seq::<EventView>::empty(),
            pending,
            false,
        ),
        watch::told(NewsView::Started(WatcherStartView::Warn(text)), path, pending) == (
            seq![EventView::Warning { message: text, reference: path }],
            pending,
            false,
        ),
        watch::told(NewsView::Started(WatcherStartView::Failed(text)), path, pending) == (
            seq![EventView::Unsubscribed { reference: path, error: Some(text) }],
            pending,
            true,
        ),
        watch::told(NewsView::NotWatched(text), path, pending) == (
            seq![
                EventView::Unsubscribed {
                    reference: path,
                    error: Some("Failed to watch path: "@ + text),
                },
            ],
            pending,
            true,
        ),
        watch::told(NewsView::Failed(text), path, pending) == (
            seq![EventView::Unsubscribed { reference: path, error: Some("Watch error: "@ + text) }],
            pending,
            true,
        ),
        watch::told(NewsView::Silent, path, pending) == (Seq::<EventView>::empty(), pending, true),
        watch::told(NewsView::Idle(listeners), path, pending) == (
            Seq::<EventView>::empty(),
            pending,
            listeners == 0,
        ),
{
}

/// The changes that a watcher learns of are told in their order, up to the removal of its directory,
/// with which it ends.
pub proof fn lemma_changes_are_told(
    path: Seq<char>,
    pending: Option<Seq<char>>,
    kind: ChangeKind,
    changed: Seq<Seq<char>>,
    system: crate::command::System,
)
    ensures
        ({
            let (events, left, ends) = watch::told(
                NewsView::Changed { kind, paths: changed, system },
                path,
                pending,
            );
            let (changes, kept) = watch::converted(kind, changed, path, pending);
            &&& left == kept
            &&& events == changes.take(events.len() as int)
            &&& !ends ==> events == changes
            &&& ends <==> kind == ChangeKind::Remove && changed.contains(path)
        }),
{
    let changes = watch::converted(kind, changed, path, pending).0;
    watch::lemma_cut(changes);
    if kind == ChangeKind::Remove && changed.contains(path) {
        let i = changed.index_of(path);
        assert(changes[i] is Unsubscribed);
    }
    if exists|i: int| 0 <= i < changes.len() && (#[trigger] changes[i]) is Unsubscribed {
        let i = choose|i: int| 0 <= i < changes.len() && (#[trigger] changes[i]) is Unsubscribed;
        lemma_events_match_changes(kind, changed, path, pending, i);
        assert(changed.contains(changed[i]));
    }
}

/// What a watcher sends over time is what it makes of each of its news, one after the other, until it
/// ends.
pub proof fn lemma_news_in_order(news: Seq<NewsView>, one: NewsView, path: Seq<char>)
    ensures
        ({
            let (events, pending, ended) = watch::told_all(news, path);
            let (all, left, over) = watch::told_all(news.push(one), path);
            let (more, kept, ends) = watch::told(one, path, pending);
            &&& ended ==> all == events && over
            &&& !ended ==> all == events + more && left == kept && over == ends
        }),
        watch::told_all(Seq::<NewsView>::empty(), path) == (
            Seq::<EventView>::empty(),
            None::<Seq<char>>,
            false,
        ),
{
    assert(news.push(one).drop_last() =~= news);
}

// ---------------------------------------------------------------------------
// Texts
// ---------------------------------------------------------------------------

/// The fields of each event, in their order: the name of the event, what it is about, and the reference
/// of the subscription.
pub proof fn lemma_event_fields(
    path: Seq<char>,
    from: Seq<char>,
    to: Seq<char>,
    text: Seq<char>,
    reference: Seq<char>,
)
    ensures
        (EventView::Created { path, reference }).fields() == seq![
            ("event"@, json::json_text(JsonView::Str("created"@))),
            ("path"@, json::json_text(JsonView::Str(path))),
            ("ref"@, json::json_text(JsonView::Str(reference))),
        ],
        (EventView::Modified { path, reference }).fields() == seq![
            ("event"@, json::json_text(JsonView::Str("modified"@))),
            ("path"@, json::json_text(JsonView::Str(path))),
            ("ref"@, json::json_text(JsonView::Str(reference))),
        ],
        (EventView::Deleted { path, reference }).fields() == seq![
            ("event"@, json::json_text(JsonView::Str("deleted"@))),
            ("path"@, json::json_text(JsonView::Str(path))),
            ("ref"@, json::json_text(JsonView::Str(reference))),
        ],
        (EventView::Renamed { from, to, reference }).fields() == seq![
            ("event"@, json::json_text(JsonView::Str("renamed"@))),
            ("from"@, json::json_text(JsonView::Str(from))),
            ("to"@, json::json_text(JsonView::Str(to))),
            ("ref"@, json::json_text(JsonView::Str(reference))),
        ],
        (EventView::Warning { message: text, reference }).fields() == seq![
            ("event"@, json::json_text(JsonView::Str("warning"@))),
            ("message"@, json::json_text(JsonView::Str(text))),
            ("ref"@, json::json_text(JsonView::Str(reference))),
        ],
        (EventView::Subscribed { reference }).fields() == seq![
            ("event"@, json::json_text(JsonView::Str("subscribed"@))),
            ("ref"@, json::json_text(JsonView::Str(reference))),
        ],
        (EventView::Unsubscribed { reference, error: None }).fields() == seq![
            ("event"@, json::json_text(JsonView::Str("unsubscribed"@))),
            ("ref"@, json::json_text(JsonView::Str(reference))),
        ],
        (EventView::Unsubscribed { reference, error: Some(text) }).fields() == seq![
            ("event"@, json::json_text(JsonView::Str("unsubscribed"@))),
            ("ref"@, json::json_text(JsonView::Str(reference))),
            ("error"@, json::json_text(JsonView::Str(text))),
        ],
{
}

/// An event is sent as its record on a line of its own, and a pong as the word.
pub proof fn lemma_message_text(event: WatchEvent)
    ensures
        watch::message_text(WatchWebSocketMessage::Event(event)) == json::record_text(event@.fields())
            + seq!['\n'],
        watch::message_text(WatchWebSocketMessage::Pong) == "pong"@,
{
    reveal_strlit("\n");
    assert("\n"@ =~= seq!['\n']);
}

/// A client's reference takes the place of the watched path in an event, and changes nothing else.
pub proof fn lemma_reference(event: EventView, reference: Seq<char>)
    ensures
        ({
            let told = event.with_reference(reference);
            match event {
                EventView::Created { path, .. } => told == (EventView::Created { path, reference }),
                EventView::Modified { path, .. } => told == (EventView::Modified { path, reference }),
                EventView::Deleted { path, .. } => told == (EventView::Deleted { path, reference }),
                EventView::Renamed { from, to, .. } => told == (EventView::Renamed { from, to, reference }),
                EventView::Warning { message, .. } => told == (EventView::Warning { message, reference }),
                EventView::Subscribed { .. } => told == (EventView::Subscribed { reference }),
                EventView::Unsubscribed { error, .. } => told == (EventView::Unsubscribed {
                    reference,
                    error,
                }),
            }
        }),
{
}

// ---------------------------------------------------------------------------
// What clients say
// ---------------------------------------------------------------------------

/// A client subscribes with a path and a reference, and may say that the path is one of the Windows
/// Subsystem for Linux; it unsubscribes with the reference. Other objects say nothing.
pub proof fn lemma_client_messages(members: Map<Seq<char>, JsonView>)
    ensures
        ({
            let v = JsonView::Obj(members);
            let read = watch::client_message_of(v);
            let path = v.get("path"@);
            let reference = v.get("ref"@);
            let wsl = v.get("is_wsl"@);
            let texts = path is Some && path->0 is Str && reference is Some && reference->0 is Str;
            &&& v.get("action"@) == Some(JsonView::Str("subscribe"@)) ==> {
                &&& texts && wsl is None ==> read == Some(
                    ClientView::Subscribe {
                        path: path->0->Str_0,
                        reference: reference->0->Str_0,
                        is_wsl: false,
                    },
                )
                &&& texts && wsl is Some && wsl->0 is Bool ==> read == Some(
                    ClientView::Subscribe {
                        path: path->0->Str_0,
                        reference: reference->0->Str_0,
                        is_wsl: wsl->0->Bool_0,
                    },
                )
                &&& !texts || wsl is Some && !(wsl->0 is Bool) ==> read is None
            }
            &&& v.get("action"@) == Some(JsonView::Str("unsubscribe"@)) ==> {
                &&& reference is Some && reference->0 is Str ==> read == Some(
                    ClientView::Unsubscribe { reference: reference->0->Str_0 },
                )
                &&& reference is None || !(reference->0 is Str) ==> read is None
            }
            &&& v.get("action"@) != Some(JsonView::Str("subscribe"@)) && v.get("action"@) != Some(
                JsonView::Str("unsubscribe"@),
            ) ==> read is None
        }),
{
    reveal_strlit("subscribe");
    reveal_strlit("unsubscribe");
    assert("subscribe"@.len() == 9);
    assert("unsubscribe"@.len() == 11);
}

/// A subscription may come as a list as well: the action, the path, the reference and, if it is given,
/// whether the path is one of the Windows Subsystem for Linux.
pub proof fn lemma_listed_messages(path: Seq<char>, reference: Seq<char>, is_wsl: bool)
    ensures
        watch::client_message_of(
            JsonView::Arr(
                seq![JsonView::Str("subscribe"@), JsonView::Str(path), JsonView::Str(reference)],
            ),
        ) == Some(ClientView::Subscribe { path, reference, is_wsl: false }),
        watch::client_message_of(
            JsonView::Arr(
                seq![
                    JsonView::Str("subscribe"@),
                    JsonView::Str(path),
                    JsonView::Str(reference),
                    JsonView::Bool(is_wsl),
                ],
            ),
        ) == Some(ClientView::Subscribe { path, reference, is_wsl }),
        watch::client_message_of(
            JsonView::Arr(seq![JsonView::Str("unsubscribe"@), JsonView::Str(reference)]),
        ) == Some(ClientView::Unsubscribe { reference }),
{
    let three = seq![JsonView::Str("subscribe"@), JsonView::Str(path), JsonView::Str(reference)];
    let four = three.push(JsonView::Bool(is_wsl));
    assert(four =~= seq![
        JsonView::Str("subscribe"@),
        JsonView::Str(path),
        JsonView::Str(reference),
        JsonView::Bool(is_wsl),
    ]);
    assert(jsonrpc::text_field_of(JsonView::Arr(three), "action"@, 0, 3) == Some("subscribe"@));
    assert(jsonrpc::text_field_of(JsonView::Arr(four), "action"@, 0, 4) == Some("subscribe"@));
}

/// Which path a client's reference stands for, and whether a client is connected at all. A watcher is
/// started where none runs.
pub proof fn lemma_subscriptions(state: WatchStateView, websocket: Seq<char>, reference: Seq<char>, path: Seq<char>)
    ensures
        state.connected(websocket) <==> state.subscriptions.contains_key(websocket),
        state.subscription(websocket, reference) is Some <==> state.subscriptions.contains_key(websocket)
            && state.subscriptions[websocket].contains_key(reference),
        state.starts_watcher(path) <==> !state.watchers.contains_key(path) || !state.watchers[path],
{
}

// ---------------------------------------------------------------------------
// What the calls do
// ---------------------------------------------------------------------------

/// A subscription that can be watched is confirmed with its reference and stands for its path from then
/// on; the watcher is started if none runs. One that cannot is ended with the reason, and changes nothing.
pub proof fn lemma_subscribe_call(
    state: &mut WatchState,
    websocket_id: &str,
    reference: &str,
    path: Result<String, PathProblem>,
    r: Subscribe,
)
    requires
        call_ensures(WatchState::handle_subscribe, (state, websocket_id, reference, path), r),
    ensures
        ({
            let connected = old(state)@.subscriptions.contains_key(websocket_id@);
            &&& !connected ==> r.message is None
            &&& path is Ok ==> {
                &&& r.forward is Some && (r.forward)->0@ == (path->Ok_0)@
                &&& r.start_watcher == (!old(state)@.watchers.contains_key((path->Ok_0)@) || !old(
                    state,
                )@.watchers[(path->Ok_0)@])
                &&& connected ==> r.message is Some && (r.message)->0@ == (EventView::Subscribed {
                    reference: reference@,
                })
                &&& connected ==> final(state)@.subscription(websocket_id@, reference@) == Some(
                    (path->Ok_0)@,
                )
                &&& final(state)@.watchers == old(state)@.watchers.insert((path->Ok_0)@, true)
            }
            &&& path is Err ==> {
                &&& r.forward is None
                &&& !r.start_watcher
                &&& connected ==> r.message is Some && (r.message)->0@ == (EventView::Unsubscribed {
                    reference: reference@,
                    error: Some(watching::problem_text(path->Err_0)),
                })
                &&& final(state)@ == old(state)@
            }
        }),
{
    assert(final(state)@.connected(websocket_id@) == old(state)@.connected(websocket_id@));
}

/// A subscription that ends is confirmed with its reference, and its reference stands for nothing then.
/// The watchers stay.
pub proof fn lemma_unsubscribe_call(
    state: &mut WatchState,
    websocket_id: &str,
    reference: &str,
    r: Option<WatchEvent>,
)
    requires
        call_ensures(WatchState::handle_unsubscribe, (state, websocket_id, reference), r),
    ensures
        r is Some <==> old(state)@.subscriptions.contains_key(websocket_id@),
        r is Some ==> r->0@ == (EventView::Unsubscribed { reference: reference@, error: None }),
        final(state)@.subscription(websocket_id@, reference@) is None,
        final(state)@.watchers == old(state)@.watchers,
{
    assert(final(state)@.connected(websocket_id@) == old(state)@.connected(websocket_id@));
}

/// An event of a watcher reaches a client under the client's own reference, as long as that stands for
/// the watched path, and ends with the subscription. A watcher that closes is told as the end; lost
/// events are passed over.
pub proof fn lemma_forward_calls(
    state: &WatchState,
    websocket_id: &str,
    reference: &str,
    path: &str,
    event: WatchEvent,
    told: Forward,
    closed: Forward,
    lagged: Forward,
)
    requires
        call_ensures(WatchState::forward, (state, websocket_id, reference, path, Received::Event(event)), told),
        call_ensures(WatchState::forward, (state, websocket_id, reference, path, Received::Closed), closed),
        call_ensures(WatchState::forward, (state, websocket_id, reference, path, Received::Lagged), lagged),
    ensures
        ({
            let subscribed = state@.subscription(websocket_id@, reference@) == Some(path@);
            let connected = state@.subscriptions.contains_key(websocket_id@);
            &&& told.message is Some <==> subscribed
            &&& subscribed ==> (told.message)->0@ == event@.with_reference(reference@)
            &&& told.ends <==> !subscribed || event@ is Unsubscribed
            &&& closed.ends
            &&& closed.message is Some <==> connected
            &&& connected ==> (closed.message)->0@ == (EventView::Unsubscribed {
                reference: reference@,
                error: Some("watcher closed"@),
            })
            &&& !lagged.ends
            &&& lagged.message is None
        }),
{
}

/// What a watcher learns is told as its news say. A watcher that ends is removed, and no other is.
pub proof fn lemma_news_call(
    state: &mut WatchState,
    canonical_path: &str,
    pending: &mut Option<String>,
    news: WatcherNews,
    r: (Vec<WatchEvent>, bool),
)
    requires
        call_ensures(WatchState::watcher_news, (state, canonical_path, pending, news), r),
    ensures
        ({
            let (events, left, ends) = watch::told(
                news@,
                canonical_path@,
                json::opt_text(*old(pending)),
            );
            &&& watch::event_views(r.0@) == events
            &&& json::opt_text(*final(pending)) == left
            &&& r.1 == ends
            &&& ends ==> final(state)@.watchers == old(state)@.watchers.remove(canonical_path@)
            &&& !ends ==> final(state)@ == old(state)@
            &&& final(state)@.subscriptions == old(state)@.subscriptions
        }),
{
}

/// A client that connects has no subscriptions, and one that disconnects leaves none.
pub proof fn lemma_connect_call(state: &mut WatchState, websocket_id: &str, reference: Seq<char>)
    requires
        call_ensures(WatchState::connect, (state, websocket_id), ()),
    ensures
        final(state)@.connected(websocket_id@),
        final(state)@.subscription(websocket_id@, reference) is None,
        final(state)@.watchers == old(state)@.watchers,
{
}

/// A client that disconnects leaves no subscription behind. The watchers stay.
pub proof fn lemma_disconnect_call(state: &mut WatchState, websocket_id: &str)
    requires
        call_ensures(WatchState::disconnect, (state, websocket_id), ()),
    ensures
        !final(state)@.connected(websocket_id@),
        final(state)@.watchers == old(state)@.watchers,
{
}

/// A change is converted, and a client's message read, as their laws say. An event that ends a
/// subscription carries the error.
pub proof fn lemma_convert_call(
    change: &FileChange,
    watched_path: &str,
    pending: &mut Option<String>,
    r: Vec<WatchEvent>,
)
    requires
        call_ensures(watch::convert_notify_event, (change, watched_path, pending), r),
    ensures
        watch::event_views(r@) == watch::converted(
            change.kind,
            text::texts(change.paths@),
            watched_path@,
            json::opt_text(*old(pending)),
        ).0,
        json::opt_text(*final(pending)) == watch::converted(
            change.kind,
            text::texts(change.paths@),
            watched_path@,
            json::opt_text(*old(pending)),
        ).1,
{
}

/// The texts of messages are those of their laws.
pub proof fn lemma_text_calls(
    v: &json::Json,
    event: &WatchEvent,
    reference: String,
    error: String,
    watched_path: &str,
    message: &str,
    read: Option<watch::WatchClientMessage>,
    referred: WatchEvent,
    ended: WatchEvent,
    ping: bool,
)
    requires
        call_ensures(watch::WatchClientMessage::from_json, (v,), read),
        call_ensures(WatchEvent::with_reference, (event, reference), referred),
        call_ensures(watch::end_event, (error, watched_path), ended),
        call_ensures(watch::is_ping, (message,), ping),
    ensures
        watch::opt_client(read) == watch::client_message_of(v@),
        referred@ == event@.with_reference(reference@),
        ended@ == (EventView::Unsubscribed { reference: watched_path@, error: Some(error@) }),
        ping <==> text::trimmed(message@) == "ping"@,
{
}

/// What cannot be watched is told to a client that is connected, under its reference and with the reason.
pub proof fn lemma_unsubscribed_call(
    state: &WatchState,
    websocket_id: &str,
    reference: &str,
    message: String,
    r: Option<WatchEvent>,
)
    requires
        call_ensures(
            WatchState::send_unsubscribed_with_error,
            (state, websocket_id, reference, message),
            r,
        ),
    ensures
        r is Some <==> state@.subscriptions.contains_key(websocket_id@),
        r is Some ==> r->0@ == (EventView::Unsubscribed {
            reference: reference@,
            error: Some(message@),
        }),
{
}

} // verus!
