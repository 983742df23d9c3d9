use flate2::write::GzEncoder;
use flate2::Compression;
use tidewave_core::http_handlers::{
    check_download, check_proxy, client_target, encoding_of, error_type, executable_mode,
    extract_from_tarball, find_entry, forwards_request_header, forwards_response_header, is_stale_part,
    last_line, retry_target, stream_step, wsl_path, DownloadProblem, DownloadProgress, DownloadState,
    Encoding, Heard, ProxyParams, Reporter, StreamStep,
};

fn archive(files: &[(&str, &[u8])]) -> Vec<u8> {
    let mut builder = tar::Builder::new(GzEncoder::new(Vec::new(), Compression::default()));
    for (path, contents) in files {
        let mut header = tar::Header::new_gnu();
        header.set_size(contents.len() as u64);
        header.set_mode(0o644);
        builder.append_data(&mut header, path, *contents).unwrap();
    }
    builder.into_inner().unwrap().finish().unwrap()
}

#[test]
fn a_file_is_taken_out_of_an_archive() {
    let bytes = archive(&[("package/a", b"first"), ("package/bin/codex", b"second")]);
    assert_eq!(extract_from_tarball(&bytes, "package/bin/codex").unwrap(), b"second");
    assert_eq!(extract_from_tarball(&bytes, "././package/a").unwrap(), b"first");
    assert_eq!(extract_from_tarball(&bytes, "//package/a").unwrap(), b"first");
}

#[test]
fn the_first_of_two_entries_counts() {
    let bytes = archive(&[("a", b"1"), ("a", b"2")]);
    assert_eq!(extract_from_tarball(&bytes, "a").unwrap(), b"1");
}

#[test]
fn a_missing_file_is_told_with_the_entries() {
    let bytes = archive(&[("a", b"1"), ("b", b"2")]);
    assert_eq!(
        extract_from_tarball(&bytes, "/c").unwrap_err(),
        r#"File 'c' not found in archive. Found entries: ["a", "b"]"#
    );
}

#[test]
fn a_broken_archive_is_told() {
    let error = extract_from_tarball(b"not an archive", "a").unwrap_err();
    assert!(error.starts_with("Failed to read archive entr"));
}

#[test]
fn at_most_the_first_entries_are_listed() {
    let entries: Vec<Result<Vec<u8>, String>> =
        (0..30).map(|i| Ok(format!("./e{}", i).into_bytes())).collect();
    let message = find_entry(&entries, "x").unwrap_err();
    assert!(message.contains("\"e19\""));
    assert!(!message.contains("\"e20\""));
    assert_eq!(find_entry(&entries, "e25"), Ok(25));
}

#[test]
fn an_unreadable_entry_ends_the_search() {
    let entries = vec![Ok(b"a".to_vec()), Err("cut off".to_string()), Ok(b"b".to_vec())];
    assert_eq!(find_entry(&entries, "a"), Ok(0));
    assert_eq!(
        find_entry(&entries, "b"),
        Err("Failed to read archive entry: cut off".to_string())
    );
}

#[test]
fn only_urls_of_the_web_are_proxied() {
    assert!(check_proxy(&ProxyParams { url: "http://x".to_string() }).is_ok());
    assert!(check_proxy(&ProxyParams { url: "https://x".to_string() }).is_ok());
    assert_eq!(check_proxy(&ProxyParams { url: "file:///x".to_string() }), Err(400));
    assert_eq!(client_target("http://c", "/p", &None), "http://c/p");
    assert_eq!(client_target("http://c", "/p", &Some("a=1".to_string())), "http://c/p?a=1");
}

#[test]
fn headers_of_the_connection_are_dropped() {
    for name in [
        "host",
        "connection",
        "transfer-encoding",
        "upgrade",
        "accept-encoding",
        "content-encoding",
        "origin",
    ] {
        assert!(!forwards_request_header(name));
    }
    assert!(forwards_request_header("x-custom-header"));
    assert!(forwards_request_header("content-length"));
    for name in ["connection", "transfer-encoding", "content-encoding", "content-length"] {
        assert!(!forwards_response_header(name));
    }
    assert!(forwards_response_header("content-type"));
}

#[test]
fn names_under_localhost_are_tried_again_on_this_machine() {
    let retry = retry_target("http://my.localhost:4000/p?q=1").unwrap();
    assert_eq!(retry.url, "http://127.0.0.1:4000/p?q=1");
    assert_eq!(retry.host, "my.localhost");
    assert!(retry_target("http://localhost:4000").is_none());
    assert!(retry_target("http://example.com").is_none());
    assert!(retry_target("nonsense").is_none());
}

#[test]
fn errors_are_classified() {
    assert_eq!(error_type("InvalidCertificate(NotValidForName)"), "not-valid-for-name");
    assert_eq!(error_type("InvalidCertificate(Expired)"), "certificate-error");
    assert_eq!(error_type("kind: ConnectionRefused"), "bad-connection");
    assert_eq!(error_type("other"), "general");
}

#[test]
fn downloads_stay_in_the_cache() {
    assert!(check_download("codex-1.0", "https://x/y").is_ok());
    for key in ["a/b", "a\\b", "c:", "..", "a..b"] {
        assert_eq!(check_download(key, "https://x/y"), Err(400));
    }
    assert_eq!(check_download("k", "ftp://x"), Err(400));
}

#[test]
fn progress_is_told_in_lines() {
    let known = DownloadProgress::Progress { size: 10240, total: Some(1048576) };
    assert_eq!(
        known.to_line(),
        "{\"status\":\"progress\",\"size\":10240,\"total\":1048576}\n"
    );
    let unknown = DownloadProgress::Progress { size: 5, total: None };
    assert_eq!(unknown.to_line(), "{\"status\":\"progress\",\"size\":5}\n");
    assert_eq!(
        last_line(true, "/c/k", "/mnt/k"),
        "{\"status\":\"done\",\"path\":\"/mnt/k\"}\n"
    );
    assert_eq!(
        last_line(false, "/c/k", "/c/k"),
        "{\"status\":\"error\",\"message\":\"Download failed: file not found at \\\"/c/k\\\"\"}\n"
    );
}

#[test]
fn a_download_is_shared() {
    let mut state = DownloadState::new();
    assert!(state.join("k"));
    assert!(!state.join("k"));
    assert!(state.join("other"));
    state.finish("k");
    assert!(state.join("k"));
}

#[test]
fn news_of_a_download_are_passed_on() {
    let step = stream_step(Heard::Progress(DownloadProgress::Progress { size: 1, total: None }));
    assert!(matches!(step, StreamStep::Line(_)));
    match stream_step(Heard::Failed("full".to_string())) {
        StreamStep::Last(line) => {
            assert_eq!(line, "{\"status\":\"error\",\"message\":\"full\"}\n")
        }
        _ => panic!("Expected the last line"),
    }
    assert!(matches!(stream_step(Heard::Closed), StreamStep::Finish));
    assert!(matches!(stream_step(Heard::Lagged), StreamStep::GoOn));
}

#[test]
fn progress_is_reported_in_hundredths() {
    let mut reporter = Reporter::new(Some(1000));
    assert!(reporter.report(0).is_some());
    assert!(reporter.report(9).is_none());
    match reporter.report(10) {
        Some(DownloadProgress::Progress { size, total }) => {
            assert_eq!(size, 10);
            assert_eq!(total, Some(1000));
        }
        _ => panic!("Expected a report"),
    }
    assert!(reporter.report(19).is_none());
}

#[test]
fn progress_of_unknown_size_is_reported_in_megabytes() {
    let mut reporter = Reporter::new(None);
    assert!(matches!(
        reporter.report(100),
        Some(DownloadProgress::Progress { size: 100, total: None })
    ));
    assert!(reporter.report(1048675).is_none());
    assert!(reporter.report(1048676).is_some());
}

#[test]
fn problems_with_downloads_are_told() {
    let e = || "e".to_string();
    assert_eq!(DownloadProblem::CacheDirectory(e()).message(), "Failed to create cache directory: e");
    assert_eq!(DownloadProblem::TempDirectory(e()).message(), "Failed to create temp directory: e");
    assert_eq!(DownloadProblem::Request(e()).message(), "Failed to send request: e");
    assert_eq!(DownloadProblem::Status("404 Not Found".to_string()).message(), "HTTP error: 404 Not Found");
    assert_eq!(DownloadProblem::TempFile(e()).message(), "Failed to create temp file: e");
    assert_eq!(DownloadProblem::ChunkTimeout.message(), "Chunk read timed out after 30 seconds");
    assert_eq!(DownloadProblem::Read(e()).message(), "Failed to read/decompress: e");
    assert_eq!(DownloadProblem::Write(e()).message(), "Failed to write to file: e");
    assert_eq!(DownloadProblem::Flush(e()).message(), "Failed to flush file: e");
    assert_eq!(DownloadProblem::ExtractionTask(e()).message(), "Extraction task failed: e");
    assert_eq!(
        DownloadProblem::Move(e()).message(),
        "Failed to move downloaded file to final location: e"
    );
    assert_eq!(DownloadProblem::Metadata(e()).message(), "Failed to get file metadata: e");
    assert_eq!(
        DownloadProblem::Permissions(e()).message(),
        "Failed to set executable permissions: e"
    );
}

#[test]
fn small_decisions_of_downloads() {
    assert_eq!(encoding_of(&Some("br".to_string())), Encoding::Brotli);
    assert_eq!(encoding_of(&Some("gzip".to_string())), Encoding::Gzip);
    assert_eq!(encoding_of(&Some("zstd".to_string())), Encoding::Plain);
    assert_eq!(encoding_of(&None), Encoding::Plain);
    assert_eq!(executable_mode(0o644), 0o755);
    assert!(is_stale_part(3601, &Some("part".to_string())));
    assert!(!is_stale_part(3600, &Some("part".to_string())));
    assert!(!is_stale_part(9999, &Some("bin".to_string())));
    assert!(!is_stale_part(9999, &None));
    assert_eq!(wsl_path(Some((true, b"/mnt/c/k\n".to_vec())), "C:\\k"), "/mnt/c/k");
    assert_eq!(wsl_path(Some((false, Vec::new())), "C:\\k"), "C:\\k");
    assert_eq!(wsl_path(None, "C:\\k"), "C:\\k");
}
