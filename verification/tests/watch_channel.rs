use tidewave_core::command::System;
use tidewave_core::json::Json;
use tidewave_core::watch_channel::{
    convert_notify_event, cut_at_fatal, to_relative_path, SocketTools, WatchChannel, WatchInfo,
};
use tidewave_core::channel_result::JoinResult;
use tidewave_core::watching::{ChangeKind, FileChange, PathProblem};

fn change(kind: ChangeKind, paths: &[&str]) -> FileChange {
    FileChange { kind, paths: paths.iter().map(|p| p.to_string()).collect(), system: System::Unix }
}

#[test]
fn test_convert_notify_event_create() {
    let event = change(ChangeKind::Create, &["/tmp/test.txt"]);

    let mut pending = None;
    let results = convert_notify_event(&event, "/tmp", &mut pending);

    assert_eq!(results.len(), 1);
    match &results[0] {
        WatchInfo::Created { path } => assert_eq!(path, "test.txt"),
        _ => panic!("Expected Created event"),
    }
}

#[test]
fn test_convert_notify_event_rename() {
    let from_event = change(ChangeKind::RenameFrom, &["/tmp/old.txt"]);
    let to_event = change(ChangeKind::RenameTo, &["/tmp/new.txt"]);

    let mut pending = None;
    let results1 = convert_notify_event(&from_event, "/tmp", &mut pending);
    assert!(results1.is_empty());
    assert!(pending.is_some());

    let results2 = convert_notify_event(&to_event, "/tmp", &mut pending);
    assert_eq!(results2.len(), 1);
    match &results2[0] {
        WatchInfo::Renamed { from, to } => {
            assert_eq!(from, "old.txt");
            assert_eq!(to, "new.txt");
        }
        _ => panic!("Expected Renamed event"),
    }
}

#[test]
fn test_convert_notify_event_watched_path_removed() {
    let event = change(ChangeKind::Remove, &["/tmp/watched"]);

    let mut pending = None;
    let results = convert_notify_event(&event, "/tmp/watched", &mut pending);

    assert_eq!(results.len(), 1);
    assert!(matches!(results[0], WatchInfo::WatchedPathRemoved));
}

#[test]
fn test_to_relative_path() {
    let result = to_relative_path(System::Unix, "/watched/dir/subdir/file.txt", "/watched/dir");
    assert_eq!(result, Some("subdir/file.txt".to_string()));

    let result = to_relative_path(System::Unix, "/other/file.txt", "/watched/dir");
    assert_eq!(result, None);
}

#[test]
fn a_name_that_only_starts_alike_is_outside() {
    assert_eq!(to_relative_path(System::Unix, "/watched/director/f", "/watched/dir"), None);
}

#[test]
fn nothing_follows_a_fatal_info() {
    let mut infos = vec![
        WatchInfo::Created { path: "a".to_string() },
        WatchInfo::WatchedPathRemoved,
        WatchInfo::Created { path: "b".to_string() },
    ];
    assert!(cut_at_fatal(&mut infos));
    assert_eq!(infos.len(), 2);
    let mut others = vec![WatchInfo::Deleted { path: "a".to_string() }];
    assert!(!cut_at_fatal(&mut others));
    assert_eq!(others.len(), 1);
}

#[test]
fn joining_asks_for_an_existing_absolute_path() {
    let tools = SocketTools { info_sender: true, shutdown_token: true };
    let granted = WatchChannel.join("watch:/tmp", &Ok("/tmp".to_string()), tools);
    assert!(matches!(granted, JoinResult::Granted(_)));
    let tools = SocketTools { info_sender: true, shutdown_token: true };
    let missing = WatchChannel.join("watch:/nowhere", &Err(PathProblem::Missing), tools);
    assert!(matches!(missing, JoinResult::Refused(_)));
    let tools = SocketTools { info_sender: true, shutdown_token: true };
    let other = WatchChannel.join("other:/tmp", &Ok("/tmp".to_string()), tools);
    assert!(matches!(other, JoinResult::Refused(_)));
}

#[test]
fn infos_are_pushed_as_json() {
    let (event, payload) = WatchChannel.handle_info(&WatchInfo::Renamed {
        from: "a".to_string(),
        to: "b".to_string(),
    });
    assert_eq!(event, "renamed");
    assert_eq!(payload.get("from").and_then(Json::as_str), Some("a"));
    assert_eq!(payload.get("to").and_then(Json::as_str), Some("b"));
}
