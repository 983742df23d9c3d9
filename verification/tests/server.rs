use tidewave_core::config::Config;
use tidewave_core::server::{
    about, about_wsl, check_origin, check_path, client_proxy, create_data_chunk, create_status_chunk, dir_or_default,
    done_answer, exit_status, get_bind_addr, get_variable, is_valid_origin, list_answer, mtime_seconds,
    path_type, printed_path, read_answer, root, shell_error, stat_answer, verify_origin, which_answer,
    which_place, write_answer, DirEntry, FileAnswer, ServerConfig, ShellProblem, WhichPlace, WriteOutcome,
};

fn config(https_port: Option<u16>) -> ServerConfig {
    let config = Config {
        https_port,
        allowed_origins: vec!["https://example.com".to_string()],
        ..Default::default()
    };
    ServerConfig::new(&config, 9832)
}

fn valid(origin: &str, https_port: Option<u16>) -> bool {
    is_valid_origin(&Some(origin.to_string()), &config(https_port))
}

#[test]
fn own_origins_are_valid() {
    assert!(valid("http://localhost:9832", None));
    assert!(valid("http://127.0.0.1:9832", None));
    assert!(valid("http://app.localhost:9832", None));
    assert!(valid("https://localhost:9833", Some(9833)));
    assert!(valid("https://my.app.localhost:9833", Some(9833)));
}

#[test]
fn configured_origins_are_valid() {
    assert!(valid("https://example.com", None));
    assert!(is_valid_origin(&None, &config(None)));
}

#[test]
fn foreign_origins_are_refused() {
    assert!(!valid("http://example.org:9832", None));
    assert!(!valid("http://localhost:9999", None));
    assert!(!valid("https://localhost:9833", None));
    assert!(!valid("http://notlocalhost:9832", None));
    assert!(!valid("https://example.com:444", None));
    assert!(!valid("null", None));
    assert!(!valid("not a url", None));
}

#[test]
fn the_default_ports_count() {
    let config = ServerConfig::new(
        &Config { https_port: Some(443), ..Default::default() },
        80,
    );
    assert!(is_valid_origin(&Some("http://localhost".to_string()), &config));
    assert!(is_valid_origin(&Some("https://a.localhost".to_string()), &config));
}

#[test]
fn two_pages_are_open_to_every_origin() {
    let foreign = Some("http://example.org".to_string());
    assert!(verify_origin("/about", &foreign, &config(None)).is_ok());
    assert!(verify_origin("/check-origin", &foreign, &config(None)).is_ok());
    assert_eq!(verify_origin("/shell", &foreign, &config(None)), Err(403));
    assert_eq!(check_origin(&foreign, &config(None)).to_text(), r#"{"valid":false}"#);
    assert_eq!(check_origin(&None, &config(None)).to_text(), r#"{"valid":true}"#);
}

#[test]
fn the_server_listens_locally_unless_told_otherwise() {
    assert_eq!(get_bind_addr(80, false), ([127, 0, 0, 1], 80));
    assert_eq!(get_bind_addr(80, true), ([0, 0, 0, 0], 80));
}

#[test]
fn chunks_have_a_kind_and_a_length() {
    assert_eq!(create_data_chunk(b"abc"), b"\x00\x00\x00\x00\x03abc".to_vec());
    let mut expected = vec![1, 0, 0, 0, 13];
    expected.extend_from_slice(br#"{"status":-1}"#);
    assert_eq!(create_status_chunk(-1), expected);
    let long = vec![7u8; 70000];
    let chunk = create_data_chunk(&long);
    assert_eq!(&chunk[..5], &[0, 0, 1, 0x11, 0x70]);
    assert_eq!(&chunk[5..], long.as_slice());
    assert_eq!(exit_status(Some(3)), 3);
    assert_eq!(exit_status(None), -1);
}

#[test]
fn problems_with_commands_are_told() {
    let (status, body) = shell_error(&ShellProblem::Spawn("no such file".to_string()));
    assert_eq!(status, 500);
    assert_eq!(body.to_text(), r#"{"error":"Failed to spawn command: no such file"}"#);
    assert_eq!(
        shell_error(&ShellProblem::Stdout).1.to_text(),
        r#"{"error":"Failed to get process stdout"}"#
    );
    assert_eq!(
        shell_error(&ShellProblem::Stderr).1.to_text(),
        r#"{"error":"Failed to get process stderr"}"#
    );
    assert_eq!(
        shell_error(&ShellProblem::Response("x".to_string())).1.to_text(),
        r#"{"error":"Failed to build response: x"}"#
    );
    assert_eq!(dir_or_default(None), ".");
    assert_eq!(dir_or_default(Some("/x".to_string())), "/x");
}

fn body(answer: FileAnswer) -> String {
    match answer {
        FileAnswer::Json(value) => value.to_text(),
        FileAnswer::Status(status) => format!("{}", status),
    }
}

#[test]
fn files_are_answered_about() {
    assert!(check_path(&Ok(()), true).is_none());
    assert_eq!(body(check_path(&Ok(()), false).unwrap()), "400");
    assert_eq!(
        body(check_path(&Err("bad".to_string()), true).unwrap()),
        r#"{"error":"bad","success":false}"#
    );
    assert_eq!(
        body(read_answer(Ok(("hi".to_string(), 5)))),
        r#"{"content":"hi","mtime":5,"success":true}"#
    );
    assert_eq!(
        body(write_answer(WriteOutcome::Written { bytes: 2, mtime: 5 })),
        r#"{"bytes_written":2,"mtime":5,"success":true}"#
    );
    assert_eq!(body(write_answer(WriteOutcome::Exists)), "409");
    assert_eq!(
        body(write_answer(WriteOutcome::Failed("full".to_string()))),
        r#"{"error":"full","success":false}"#
    );
    assert_eq!(body(done_answer(Ok(()))), r#"{"success":true}"#);
    assert_eq!(
        body(stat_answer(Ok((5, path_type(false, true, false))))),
        r#"{"mtime":5,"success":true,"type":"file"}"#
    );
    assert_eq!(path_type(true, false, false), "directory");
    assert_eq!(path_type(false, false, true), "symlink");
    assert_eq!(path_type(false, false, false), "other");
    assert_eq!(mtime_seconds(Some(9)), Ok(9));
    assert_eq!(mtime_seconds(None), Err("system time error".to_string()));
}

#[test]
fn entries_without_a_readable_name_are_left_out() {
    let entries = vec![
        DirEntry { name: Some("a".to_string()), entry_type: "file" },
        DirEntry { name: None, entry_type: "file" },
        DirEntry { name: Some("d".to_string()), entry_type: "directory" },
    ];
    assert_eq!(
        body(list_answer(Ok(entries))),
        r#"{"entries":[{"name":"a","type":"file"},{"name":"d","type":"directory"}],"success":true}"#
    );
}

#[test]
fn programs_are_looked_for_along_the_given_path() {
    let env = vec![
        ("PATH".to_string(), "/bin".to_string()),
        ("WSL_DISTRO_NAME".to_string(), "Ubuntu".to_string()),
    ];
    assert_eq!(get_variable(&env, "PATH").as_deref(), Some("/bin"));
    assert_eq!(get_variable(&env, "HOME"), None);
    assert!(matches!(which_place(false, "ls", None, &None), WhichPlace::OwnPath));
    match which_place(false, "ls", None, &Some(env)) {
        WhichPlace::Path { paths, cwd } => {
            assert_eq!(paths, "/bin");
            assert_eq!(cwd, ".");
        }
        _ => panic!("Expected a search path"),
    }
    let env = vec![("WSL_DISTRO_NAME".to_string(), "Ubuntu".to_string())];
    match which_place(true, "ls", Some("/x".to_string()), &Some(env)) {
        WhichPlace::Wsl { command, cwd } => {
            assert_eq!(command, "which ls");
            assert_eq!(cwd, "/x");
        }
        _ => panic!("Expected a command"),
    }
    assert_eq!(printed_path(true, b" /bin/ls\n").as_deref(), Some("/bin/ls"));
    assert_eq!(printed_path(true, b" \n"), None);
    assert_eq!(printed_path(false, b"/bin/ls"), None);
    assert_eq!(which_answer(None).to_text(), r#"{"path":null}"#);
    assert_eq!(which_answer(Some("/bin/ls".to_string())).to_text(), r#"{"path":"/bin/ls"}"#);
}

#[test]
fn output_that_is_not_utf8_is_read_with_replacements() {
    assert_eq!(printed_path(true, b"a\xffb").as_deref(), Some("a\u{fffd}b"));
}

#[test]
fn the_server_tells_of_itself() {
    assert_eq!(
        about("linux", "x86_64", "unix", "t", false).to_text(),
        r#"{"name":"tidewave-cli","system":{"arch":"x86_64","family":"unix","os":"linux","target":"t","wsl":false},"version":"0.1.0"}"#
    );
    let page = root(None);
    assert!(page.contains("content=\"0.1.0\""));
    assert!(page.contains("src=\"https://tidewave.ai/tc/tc.js\""));
    assert!(root(Some("http://x".to_string())).contains("src=\"http://x/tc/tc.js\""));
    let url = Some("http://x".to_string());
    assert_eq!(client_proxy(&Some("1".to_string()), url.clone()), url);
    assert_eq!(client_proxy(&Some("0".to_string()), url.clone()), None);
    assert_eq!(client_proxy(&None, url), None);
}

#[test]
fn the_server_tells_of_a_subsystem() {
    let body = about_wsl(true, b"aarch64\n", "t").unwrap();
    assert_eq!(
        body.to_text(),
        r#"{"name":"tidewave-cli","system":{"arch":"aarch64","family":"unix","os":"linux","target":"t","wsl":true},"version":"0.1.0"}"#
    );
    assert_eq!(about_wsl(false, b"aarch64\n", "t").err(), Some(500));
}
