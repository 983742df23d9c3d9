use tidewave_core::channel_result::JoinResult;
use tidewave_core::command::System;
use tidewave_core::channels::watch_channel as channel;
use tidewave_core::json::Json;
use tidewave_core::phoenix::{InitResult, PhxMessage};
use tidewave_core::watch;
use tidewave_core::watching::{
    check_path, convert, is_wsl, topic_path, watcher_start, ChangeKind, FileChange, PathEvent, PathProblem,
    WatcherNews, WatcherStart,
};
use tidewave_core::ws::watch as feature;

fn json(text: &str) -> Json {
    Json::parse(text).unwrap()
}

fn change(kind: ChangeKind, paths: &[&str]) -> FileChange {
    FileChange { kind, paths: paths.iter().map(|p| p.to_string()).collect(), system: System::Unix }
}

#[test]
fn changes_are_told_by_relative_paths() {
    let mut pending = None;
    let events = convert(&change(ChangeKind::Modify, &["/w/a", "/x/b"]), "/w", &mut pending);
    assert_eq!(events.len(), 1);
    assert!(matches!(&events[0], PathEvent::Modified { path } if path == "a"));
    let both = convert(&change(ChangeKind::RenameBoth, &["/w/a", "/w/b"]), "/w", &mut pending);
    assert!(matches!(&both[0], PathEvent::Renamed { from, to } if from == "a" && to == "b"));
    assert!(convert(&change(ChangeKind::Other, &["/w/a"]), "/w", &mut pending).is_empty());
}

#[test]
fn watchers_fall_back_to_polling() {
    assert!(matches!(watcher_start(false, Ok(()), Ok(())), WatcherStart::Ready));
    match watcher_start(false, Err("limit".to_string()), Ok(())) {
        WatcherStart::Warn(text) => assert!(text.contains("limit")),
        _ => panic!("Expected a warning"),
    }
    match watcher_start(false, Err("a".to_string()), Err("b".to_string())) {
        WatcherStart::Failed(text) => {
            assert_eq!(text, "Failed to create watcher: a (poll fallback also failed: b)")
        }
        _ => panic!("Expected a failure"),
    }
    match watcher_start(true, Ok(()), Err("b".to_string())) {
        WatcherStart::Failed(text) => assert_eq!(text, "Failed to create poll watcher: b"),
        _ => panic!("Expected a failure"),
    }
}

#[test]
fn paths_are_checked_in_order() {
    let ok = || Ok("/c".to_string());
    assert_eq!(check_path(Ok(()), true, true, ok()).unwrap(), "/c");
    assert!(matches!(
        check_path(Err("e".to_string()), false, false, ok()),
        Err(PathProblem::Normalize(_))
    ));
    assert!(matches!(check_path(Ok(()), false, false, ok()), Err(PathProblem::NotAbsolute)));
    assert!(matches!(check_path(Ok(()), true, false, ok()), Err(PathProblem::Missing)));
    assert!(matches!(
        check_path(Ok(()), true, true, Err("e".to_string())),
        Err(PathProblem::Canonicalize(_))
    ));
    assert_eq!(PathProblem::NotAbsolute.message(), "Path must be absolute");
    assert_eq!(PathProblem::Missing.reason(), "path does not exist");
    assert_eq!(PathProblem::Normalize("x".to_string()).reason(), "failed to normalize path: x");
    assert_eq!(
        PathProblem::Canonicalize("x".to_string()).message(),
        "Failed to canonicalize path: x"
    );
}

#[test]
fn topics_name_paths() {
    assert_eq!(topic_path("watch:/tmp").as_deref(), Some("/tmp"));
    assert_eq!(topic_path("acp:/tmp"), None);
    assert!(is_wsl(&Json::object().with("is_wsl", Json::Bool(true))));
    assert!(!is_wsl(&Json::object()));
}

fn canonical(path: &str) -> Result<String, PathProblem> {
    Ok(path.to_string())
}

#[test]
fn subscriptions_share_a_watcher() {
    let mut state = watch::WatchState::new();
    state.connect("w1");
    state.connect("w2");
    let first = state.handle_subscribe("w1", "r1", canonical("/w"));
    assert!(first.start_watcher);
    assert_eq!(first.forward.as_deref(), Some("/w"));
    assert!(matches!(first.message, Some(watch::WatchEvent::Subscribed { .. })));
    let second = state.handle_subscribe("w2", "r2", canonical("/w"));
    assert!(!second.start_watcher);
}

#[test]
fn refused_subscriptions_are_told() {
    let mut state = watch::WatchState::new();
    state.connect("w1");
    let refused = state.handle_subscribe("w1", "r1", Err(PathProblem::Missing));
    assert!(refused.forward.is_none());
    match refused.message {
        Some(watch::WatchEvent::Unsubscribed { reference, error }) => {
            assert_eq!(reference, "r1");
            assert_eq!(error.as_deref(), Some("Path does not exist"));
        }
        _ => panic!("Expected a refusal"),
    }
}

#[test]
fn nothing_is_forwarded_after_unsubscribing() {
    let mut state = watch::WatchState::new();
    state.connect("w1");
    state.handle_subscribe("w1", "r1", canonical("/w"));
    let event = || {
        watch::Received::Event(watch::WatchEvent::Created {
            path: "/w/a".to_string(),
            reference: "/w".to_string(),
        })
    };
    let before = state.forward("w1", "r1", "/w", event());
    match before.message {
        Some(watch::WatchEvent::Created { path, reference }) => {
            assert_eq!(path, "/w/a");
            assert_eq!(reference, "r1");
        }
        _ => panic!("Expected the event"),
    }
    assert!(!before.ends);
    assert!(matches!(
        state.handle_unsubscribe("w1", "r1"),
        Some(watch::WatchEvent::Unsubscribed { error: None, .. })
    ));
    let after = state.forward("w1", "r1", "/w", event());
    assert!(after.message.is_none());
    assert!(after.ends);
}

#[test]
fn a_watcher_ends_with_its_last_listener() {
    let mut state = watch::WatchState::new();
    state.connect("w1");
    state.handle_subscribe("w1", "r1", canonical("/w"));
    let mut pending = None;
    assert!(!state.watcher_news("/w", &mut pending, WatcherNews::Idle(1)).1);
    assert!(!state.handle_subscribe("w1", "r2", canonical("/w")).start_watcher);
    assert!(state.watcher_news("/w", &mut pending, WatcherNews::Idle(0)).1);
    assert!(state.handle_subscribe("w1", "r2", canonical("/w")).start_watcher);
}

#[test]
fn watch_messages_are_lines_of_json() {
    let event = watch::WatchEvent::Renamed {
        from: "/w/a".to_string(),
        to: "/w/b".to_string(),
        reference: "r".to_string(),
    };
    assert_eq!(
        watch::WatchWebSocketMessage::Event(event).to_text(),
        "{\"event\":\"renamed\",\"from\":\"/w/a\",\"to\":\"/w/b\",\"ref\":\"r\"}\n"
    );
    assert_eq!(watch::WatchWebSocketMessage::Pong.to_text(), "pong");
    assert!(watch::is_ping(" ping\n"));
    assert!(!watch::is_ping("pong"));
}

#[test]
fn a_rename_in_two_steps_is_one_event() {
    let mut pending = None;
    let from = change(ChangeKind::RenameFrom, &["/w/a"]);
    let to = change(ChangeKind::RenameTo, &["/w/b"]);
    assert!(watch::convert_notify_event(&from, "/w", &mut pending).is_empty());
    let events = watch::convert_notify_event(&to, "/w", &mut pending);
    assert!(matches!(
        &events[0],
        watch::WatchEvent::Renamed { from, to, .. } if from == "/w/a" && to == "/w/b"
    ));
    assert!(pending.is_none());
}

#[test]
fn features_push_events_to_their_topic() {
    let mut state = feature::WatchFeatureState::new();
    let join = PhxMessage::new("watch:/w", "phx_join", Json::object()).with_ref("1").with_join_ref("j");
    let joined = match state.join(&join, Ok(()), canonical("/w")) {
        Ok(joined) => joined,
        Err(_) => panic!("Expected a watcher"),
    };
    assert!(joined.start_watcher);
    assert_eq!(joined.canonical_path, "/w");
    let again = match state.join(&join, Ok(()), canonical("/w")) {
        Ok(joined) => joined,
        Err(_) => panic!("Expected a watcher"),
    };
    assert!(!again.start_watcher);
    assert!(matches!(
        state.join(&join, Ok(()), Err(PathProblem::Missing)),
        Err(InitResult::Error(_))
    ));

    let event = feature::WatchEvent::FS(feature::FsEvent::Created { path: "a".to_string() });
    match feature::forward(feature::Received::Event(event), "watch:/w", &Some("j".to_string())) {
        feature::Forwarded::Push(push) => {
            assert_eq!(push.encode(), r#"["j",null,"watch:/w","created",{"path":"a"}]"#)
        }
        _ => panic!("Expected a push"),
    }
    let end = feature::WatchEvent::Terminated { error: "watched path was removed".to_string() };
    assert!(matches!(
        feature::forward(feature::Received::Event(end), "watch:/w", &None),
        feature::Forwarded::End(InitResult::Shutdown(_))
    ));
    assert!(matches!(
        feature::forward(feature::Received::Lagged, "watch:/w", &None),
        feature::Forwarded::Nothing
    ));
}

#[test]
fn nothing_follows_the_end_of_a_watch() {
    let mut events = vec![
        feature::WatchEvent::Terminated { error: "e".to_string() },
        feature::WatchEvent::FS(feature::FsEvent::Deleted { path: "a".to_string() }),
    ];
    assert!(feature::cut_at_termination(&mut events));
    assert_eq!(events.len(), 1);
}

#[test]
fn channels_wait_for_their_watcher() {
    let mut watcher = channel::WatchChannel::new();
    let joining = match watcher.join("watch:/w", "socket", canonical("/w")) {
        Ok(joining) => joining,
        Err(_) => panic!("Expected a watcher"),
    };
    assert!(joining.start_watcher);
    watcher.watcher_ready("/w", Ok(()));
    let granted = watcher.finish_join("/w", &Some(Ok(())));
    assert!(matches!(granted, JoinResult::Granted(_)));
    let failed = watcher.finish_join("/w", &Some(Err("no".to_string())));
    assert!(matches!(failed, JoinResult::Refused(_)));
    assert!(matches!(watcher.finish_join("/w", &None), JoinResult::Refused(_)));
    assert_eq!(watcher.terminate("socket").as_deref(), Some("/w"));
    assert_eq!(watcher.terminate("socket"), None);
}

#[test]
fn channel_events_are_pushed() {
    let (event, payload) =
        channel::push_watch_event(&channel::WatchEvent::Stopped { error: None });
    assert_eq!(event, "error");
    assert_eq!(payload.to_text(), r#"{"reason":"stopped"}"#);
    let forward = channel::forward(channel::Received::Closed);
    assert!(forward.ends);
}

#[test]
fn subscriptions_are_read() {
    match watch::WatchClientMessage::from_json(&json(r#"{"action":"subscribe","path":"/w","ref":"r"}"#)) {
        Some(watch::WatchClientMessage::Subscribe { path, reference, is_wsl }) => {
            assert_eq!(path, "/w");
            assert_eq!(reference, "r");
            assert!(!is_wsl);
        }
        _ => panic!("Expected a subscription"),
    }
    match watch::WatchClientMessage::from_json(&json(r#"{"action":"unsubscribe","ref":"r"}"#)) {
        Some(watch::WatchClientMessage::Unsubscribe { reference }) => assert_eq!(reference, "r"),
        _ => panic!("Expected the end of a subscription"),
    }
    assert!(watch::WatchClientMessage::from_json(&json(r#"{"action":"subscribe","path":"/w"}"#)).is_none());
    assert!(watch::WatchClientMessage::from_json(&json(r#"{"action":"other","ref":"r"}"#)).is_none());
}

#[test]
fn a_watcher_that_cannot_watch_ends() {
    let mut state = watch::WatchState::new();
    state.connect("w1");
    let news = [
        WatcherNews::Started(WatcherStart::Failed("no watcher".to_string())),
        WatcherNews::NotWatched("no such directory".to_string()),
        WatcherNews::Failed("too many files".to_string()),
        WatcherNews::Changed(change(ChangeKind::Remove, &["/w"])),
    ];
    for one in news {
        assert!(state.handle_subscribe("w1", "r1", canonical("/w")).start_watcher);
        let mut pending = None;
        let (events, ends) = state.watcher_news("/w", &mut pending, one);
        assert!(ends);
        assert!(matches!(
            events.last(),
            Some(watch::WatchEvent::Unsubscribed { error: Some(_), .. })
        ));
        state.handle_unsubscribe("w1", "r1");
    }
    assert!(state.handle_subscribe("w1", "r1", canonical("/w")).start_watcher);
    let mut pending = None;
    let (events, ends) = state.watcher_news("/w", &mut pending, WatcherNews::Started(WatcherStart::Ready));
    assert!(events.is_empty() && !ends);
    let (events, ends) = state.watcher_news("/w", &mut pending, WatcherNews::Silent);
    assert!(events.is_empty() && ends);
    assert!(state.handle_subscribe("w1", "r2", canonical("/w")).start_watcher);
}

#[test]
fn the_last_event_of_a_feature_is_its_end() {
    let mut state = feature::WatchFeatureState::new();
    let join = PhxMessage::new("watch:/w", "phx_join", Json::object()).with_ref("1").with_join_ref("j");
    assert!(state.join(&join, Ok(()), canonical("/w")).is_ok());
    let mut pending = None;
    let start = WatcherStart::Warn("polling".to_string());
    let (events, ends) = state.watcher_news("/w", &mut pending, WatcherNews::Started(start));
    assert!(!ends);
    assert_eq!(events.len(), 1);
    let created = change(ChangeKind::Create, &["/w/a"]);
    let (events, ends) = state.watcher_news("/w", &mut pending, WatcherNews::Changed(created));
    assert!(!ends);
    assert!(matches!(
        &events[0],
        feature::WatchEvent::FS(feature::FsEvent::Created { path }) if path == "a"
    ));
    let removed = change(ChangeKind::Remove, &["/w/a", "/w", "/w/b"]);
    let (events, ends) = state.watcher_news("/w", &mut pending, WatcherNews::Changed(removed));
    assert!(ends);
    assert_eq!(events.len(), 2);
    match &events[1] {
        feature::WatchEvent::Terminated { error } => assert_eq!(error, "watched path was removed"),
        _ => panic!("Expected the end"),
    }
    match state.join(&join, Ok(()), canonical("/w")) {
        Ok(joined) => assert!(joined.start_watcher),
        Err(_) => panic!("Expected a watcher"),
    }
    let failed = WatcherNews::Failed("too many files".to_string());
    let (events, ends) = state.watcher_news("/w", &mut pending, failed);
    assert!(ends);
    match &events[0] {
        feature::WatchEvent::Terminated { error } => assert!(error.contains("too many files")),
        _ => panic!("Expected the end"),
    }
}

#[test]
fn changes_on_windows_are_told_by_relative_paths() {
    let mut pending = None;
    let change = FileChange {
        kind: ChangeKind::Create,
        paths: vec![r"\\?\C:\w\sub\a".to_string(), r"\\?\C:\x".to_string()],
        system: System::Windows,
    };
    let events = convert(&change, r"\\?\C:\w", &mut pending);
    assert_eq!(events.len(), 1);
    assert!(matches!(&events[0], PathEvent::Created { path } if path == r"sub\a"));
}
