//! A WebSocket to a command: what the client sends goes to the command's input line by line, and
//! what the command prints goes back.

use vstd::prelude::*;

use crate::text;

verus! {

/// The query of a connection.
#[derive(Debug)]
pub struct AcpParams {
    pub command: String,
}

/// Refuses a connection without a command.
pub fn check_params(params: &AcpParams) -> (r: Result<(), u16>)
    ensures
        if params.command@.len() == 0 {
            r is Err && r->Err_0 == 400
        } else {
            r is Ok
        },
{
    if params.command.as_str().unicode_len() == 0 {
        Err(400)
    } else {
        Ok(())
    }
}

/// The program of a command and its arguments. A command of white space alone has no program.
pub fn split_command(command: &str) -> (r: Option<(String, Vec<String>)>)
    ensures
        match r {
            Some((program, args)) => text::words(command@) == seq![program@] + text::texts(args@),
            None => text::words(command@).len() == 0,
        },
{
    let mut words = text::split_words(command);
    let ghost all = text::texts(words@);
    assert(all.len() == words@.len());
    if words.len() == 0 {
        None
    } else {
        let program = words.remove(0);
        assert(all =~= seq![program@] + text::texts(words@));
        Some((program, words))
    }
}

/// What is to be done with a text of the client.
#[derive(Debug)]
pub enum SocketAction {
    /// Answer that the server is there.
    Pong,
    /// Write this to the command's input.
    Write(String),
}

/// A text as a line.
pub open spec fn as_line(data: Seq<char>) -> Seq<char> {
    if data.len() > 0 && data.last() == '\n' {
        data
    } else {
        data.push('\n')
    }
}

/// Decides what is to be done with a text of the client.
pub fn handle_text(data: String) -> (r: SocketAction)
    ensures
        if data@ == "ping"@ {
            r is Pong
        } else {
            r is Write && r->Write_0@ == as_line(data@)
        },
{
    if text::same_text(data.as_str(), "ping") {
        return SocketAction::Pong;
    }
    let n: usize = data.as_str().unicode_len();
    if n > 0 && data.as_str().get_char(n - 1) == '\n' {
        SocketAction::Write(data)
    } else {
        let mut line = data;
        line.append("\n");
        proof {
            reveal_strlit("\n");
            assert(data@ + "\n"@ =~= data@.push('\n'));
        }
        SocketAction::Write(line)
    }
}

/// A line of a client ends with one line break: one that has it is written as it is, another gets it. A
/// ping is answered and not written.
pub proof fn lemma_text_call(data: String, r: SocketAction)
    requires
        call_ensures(handle_text, (data,), r),
    ensures
        data@ == "ping"@ ==> r is Pong,
        data@ != "ping"@ && data@.len() > 0 && data@.last() == '\n' ==> r is Write && r->Write_0@ == data@,
        data@ != "ping"@ && (data@.len() == 0 || data@.last() != '\n') ==> r is Write && r->Write_0@
            == data@.push('\n'),
{
}

/// A command is one word and its arguments, in their order; without a word there is none. A request
/// without a command is bad.
pub proof fn lemma_command_calls(
    params: &AcpParams,
    command: &str,
    checked: Result<(), u16>,
    split: Option<(String, Vec<String>)>,
)
    requires
        call_ensures(check_params, (params,), checked),
        call_ensures(split_command, (command,), split),
    ensures
        checked is Ok <==> params.command@.len() > 0,
        checked is Err ==> checked->Err_0 == 400,
        split is None <==> text::words(command@).len() == 0,
        split is Some ==> (split->0).0@ == text::words(command@)[0] && text::texts((split->0).1@)
            == text::words(command@).skip(1),
{
    if split is Some {
        let all = seq![(split->0).0@] + text::texts((split->0).1@);
        assert(all.skip(1) =~= text::texts((split->0).1@));
        assert(all[0] == (split->0).0@);
    }
}

} // verus!
