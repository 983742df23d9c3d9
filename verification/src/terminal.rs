//! A terminal on a WebSocket of its own.

use vstd::prelude::*;

use crate::text;

verus! {

/// The height of the terminal.
pub const ROWS: u16 = 24;

/// The width of the terminal.
pub const COLS: u16 = 80;

/// What the client is told when the terminal cannot be made.
pub fn create_error(error: &str) -> (r: String)
    ensures
        r@ == "Error: Failed to create terminal: "@ + error@ + "\r\n"@,
{
    let mut message = text::joined("Error: Failed to create terminal: ", error);
    message.append("\r\n");
    message
}

/// What the client is told when the shell cannot be started.
pub fn spawn_error(error: &str) -> (r: String)
    ensures
        r@ == "Error: Failed to spawn shell: "@ + error@ + "\r\n"@,
{
    let mut message = text::joined("Error: Failed to spawn shell: ", error);
    message.append("\r\n");
    message
}

/// The shell to run: the one that the environment names, or the system's usual one.
pub fn shell_or_default(named: Option<String>, windows: bool) -> (r: String)
    ensures
        r@ == (match named {
            Some(shell) => shell@,
            None => if windows {
                "cmd.exe"@
            } else {
                "/bin/bash"@
            },
        }),
{
    match named {
        Some(shell) => shell,
        None => if windows {
            "cmd.exe".to_owned()
        } else {
            "/bin/bash".to_owned()
        },
    }
}

/// The shell is the one that is named, and else that of the system. What cannot be done is said on a line
/// of its own.
pub proof fn lemma_calls(
    error: &str,
    named: Option<String>,
    windows: bool,
    create: String,
    spawn: String,
    shell: String,
)
    requires
        call_ensures(create_error, (error,), create),
        call_ensures(spawn_error, (error,), spawn),
        call_ensures(shell_or_default, (named, windows), shell),
    ensures
        create@ == "Error: Failed to create terminal: "@ + error@ + "\r\n"@,
        spawn@ == "Error: Failed to spawn shell: "@ + error@ + "\r\n"@,
        named is Some ==> shell@ == named->0@,
        named is None && windows ==> shell@ == "cmd.exe"@,
        named is None && !windows ==> shell@ == "/bin/bash"@,
{
}

} // verus!
