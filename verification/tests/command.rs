use tidewave_core::acp::{check_params, handle_text, split_command, AcpParams, SocketAction};
use tidewave_core::command::{
    appimage_variables, command_with_env, create_shell_command, escape, filter_entries, System,
};
use tidewave_core::terminal::{create_error, shell_or_default, spawn_error, COLS, ROWS};

fn env() -> Vec<(String, String)> {
    vec![("A".to_string(), "it's".to_string()), ("B".to_string(), "2".to_string())]
}

#[test]
fn values_are_quoted() {
    assert_eq!(escape("it's"), r"it'\''s");
    assert_eq!(command_with_env("run", &env()), r"A='it'\''s' B='2' run");
    assert_eq!(command_with_env("run", &Vec::new()), "run");
}

#[test]
fn commands_run_through_the_shell_of_the_system() {
    let unix = create_shell_command(System::Unix, "run", &env(), "/d", true);
    assert_eq!(unix.program, "sh");
    assert_eq!(unix.args, vec!["-c", "run"]);
    assert!(unix.set_env && unix.set_dir && unix.new_group && !unix.no_window);
    let windows = create_shell_command(System::Windows, "run", &env(), "C:\\d", false);
    assert_eq!(windows.program, "cmd.exe");
    assert_eq!(windows.args, vec!["/s", "/c", "run"]);
    assert!(windows.set_env && windows.set_dir && windows.no_window);
    let wsl = create_shell_command(System::Windows, "run", &env(), "/d", true);
    assert_eq!(wsl.program, "wsl.exe");
    assert_eq!(wsl.args, vec!["--cd", "/d", "sh", "-c", r"A='it'\''s' B='2' run"]);
    assert!(!wsl.set_env && !wsl.set_dir);
}

#[test]
fn entries_below_the_mount_are_dropped() {
    let entries: Vec<String> =
        ["/tmp/.mount_x/usr/bin", "/usr/bin", "/tmp/.mount_xy"].iter().map(|s| s.to_string()).collect();
    assert_eq!(filter_entries(&entries, "/tmp/.mount_x"), vec!["/usr/bin", "/tmp/.mount_xy"]);
    assert!(appimage_variables().contains(&"LD_LIBRARY_PATH"));
}

#[test]
fn text_goes_to_a_command_line_by_line() {
    assert!(matches!(handle_text("ping".to_string()), SocketAction::Pong));
    match handle_text("{}".to_string()) {
        SocketAction::Write(line) => assert_eq!(line, "{}\n"),
        _ => panic!("Expected a line"),
    }
    match handle_text("{}\n".to_string()) {
        SocketAction::Write(line) => assert_eq!(line, "{}\n"),
        _ => panic!("Expected a line"),
    }
    assert_eq!(check_params(&AcpParams { command: String::new() }), Err(400));
    assert!(check_params(&AcpParams { command: "x".to_string() }).is_ok());
    let (program, args) = split_command(" agent --acp ").unwrap();
    assert_eq!(program, "agent");
    assert_eq!(args, vec!["--acp"]);
    assert!(split_command("  ").is_none());
}

#[test]
fn terminals_have_a_size_and_a_shell() {
    assert_eq!((ROWS, COLS), (24, 80));
    assert_eq!(create_error("e"), "Error: Failed to create terminal: e\r\n");
    assert_eq!(spawn_error("e"), "Error: Failed to spawn shell: e\r\n");
    assert_eq!(shell_or_default(None, false), "/bin/bash");
    assert_eq!(shell_or_default(None, true), "cmd.exe");
    assert_eq!(shell_or_default(Some("zsh".to_string()), true), "zsh");
}
