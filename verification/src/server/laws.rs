//! Who may use the server, and what its answers hold.

use vstd::prelude::*;

use crate::config::Config;
use crate::json::{Json, JsonView, NumberView};
use crate::server;
use crate::server::{
    DirEntry, FileAnswer, FileAnswerView, ServerConfig, ShellProblem, WhichPlace, WriteOutcome,
};
use crate::text;
use crate::urls;

verus! {

// ---------------------------------------------------------------------------
// Origins
// ---------------------------------------------------------------------------

/// The server's own origins: `localhost` and `127.0.0.1` under its port, and under its port for HTTPS
/// where it has one.
pub proof fn lemma_own_origins(port: u16, https_port: u16)
    ensures
        server::own_origins(port, None) == seq![
            "http://localhost:"@ + text::decimal(port as nat),
            "http://127.0.0.1:"@ + text::decimal(port as nat),
        ],
        server::own_origins(port, Some(https_port)) == seq![
            "http://localhost:"@ + text::decimal(port as nat),
            "http://127.0.0.1:"@ + text::decimal(port as nat),
            "https://localhost:"@ + text::decimal(https_port as nat),
            "https://127.0.0.1:"@ + text::decimal(https_port as nat),
        ],
{
}

/// A host is the machine itself under exactly these names: `localhost`, `127.0.0.1`, and any name under
/// `localhost`.
pub proof fn lemma_local_hosts(host: Seq<char>, name: Seq<char>)
    ensures
        server::is_local_host("localhost"@),
        server::is_local_host("127.0.0.1"@),
        server::is_local_host(name + ".localhost"@),
        server::is_local_host(host) ==> host == "localhost"@ || host == "127.0.0.1"@ || host == host.take(
            host.len() - 10,
        ) + ".localhost"@,
{
    reveal_strlit(".localhost");
    text::laws::lemma_suffixes(host, ".localhost"@, name);
    assert(".localhost"@.len() == 10);
}

/// An origin on the machine itself is accepted under the server's own ports: with `http` under the one,
/// with `https` under the other. A port that is not named is the usual one of the scheme. No other
/// scheme and no other port is accepted.
pub proof fn lemma_own_ports(
    scheme: Seq<char>,
    host: Seq<char>,
    named: Option<u16>,
    port: u16,
    https_port: Option<u16>,
)
    requires
        server::is_local_host(host),
    ensures
        ({
            let own = server::is_own(Some((scheme, Some(host), named)), port, https_port);
            &&& scheme == "http"@ && named is Some ==> own == (named == Some(port))
            &&& scheme == "http"@ && named is None ==> own == (port == 80)
            &&& scheme == "https"@ && named is Some ==> own == (https_port == named)
            &&& scheme == "https"@ && named is None ==> own == (https_port == Some(443u16))
            &&& scheme != "http"@ && scheme != "https"@ ==> !own
        }),
{
    reveal_strlit("http");
    reveal_strlit("https");
    assert("http"@.len() == 4);
    assert("https"@.len() == 5);
}

/// An origin without a host, or on another host, is not the server's own, nor is what is no URL.
pub proof fn lemma_other_hosts(
    scheme: Seq<char>,
    host: Seq<char>,
    named: Option<u16>,
    port: u16,
    https_port: Option<u16>,
)
    ensures
        !server::is_own(Some((scheme, None, named)), port, https_port),
        !server::is_own(None, port, https_port),
        !server::is_local_host(host) ==> !server::is_own(
            Some((scheme, Some(host), named)),
            port,
            https_port,
        ),
{
}

/// A request without an origin is accepted. One with an origin is accepted exactly if the origin is
/// allowed or the server's own.
pub proof fn lemma_accepted_origins(
    origin: Seq<char>,
    allowed: Seq<Seq<char>>,
    port: u16,
    https_port: Option<u16>,
)
    ensures
        server::accepts(None, allowed, port, https_port),
        server::accepts(Some(origin), allowed, port, https_port) <==> allowed.contains(origin)
            || server::is_own(urls::url_parts(origin), port, https_port),
{
}

// ---------------------------------------------------------------------------
// Output of commands
// ---------------------------------------------------------------------------

/// A chunk begins with its kind and the length of its data in four bytes, the highest first. The data
/// follows as it is.
pub proof fn lemma_chunk(kind: u8, data: Seq<u8>)
    requires
        data.len() < 0x1_0000_0000,
    ensures
        ({
            let chunk = server::chunk(kind, data);
            &&& chunk.len() == data.len() + 5
            &&& chunk[0] == kind
            &&& chunk[1] * 0x1000000 + chunk[2] * 0x10000 + chunk[3] * 0x100 + chunk[4] == data.len()
            &&& chunk.skip(5) == data
        }),
{
    let n = data.len() as u32;
    let chunk = server::chunk(kind, data);
    assert(chunk.skip(5) =~= data);
    assert((n / 0x1000000) * 0x1000000 + (n / 0x10000 % 0x100) * 0x10000 + (n / 0x100 % 0x100) * 0x100 + n
        % 0x100 == n) by (nonlinear_arith);
    assert(n / 0x1000000 < 0x100);
}

/// The last chunk of a command tells its status as JSON.
pub proof fn lemma_status_text(status: i32)
    ensures
        server::status_text(status) == "{\"status\":"@ + text::signed_decimal(status as int) + seq!['}'],
        server::status_text(0) == "{\"status\":0}"@,
{
    reveal_strlit("}");
    reveal_strlit("{\"status\":");
    reveal_strlit("{\"status\":0}");
    assert("}"@ =~= seq!['}']);
    assert(text::signed_decimal(0) =~= seq!['0']);
    assert(server::status_text(0) =~= "{\"status\":0}"@);
}

/// What is said of a command that cannot be run.
pub proof fn lemma_shell_problems(e: String)
    ensures
        server::shell_problem_text(ShellProblem::Spawn(e)) == "Failed to spawn command: "@ + e@,
        server::shell_problem_text(ShellProblem::Stdout) == "Failed to get process stdout"@,
        server::shell_problem_text(ShellProblem::Stderr) == "Failed to get process stderr"@,
        server::shell_problem_text(ShellProblem::Response(e)) == "Failed to build response: "@ + e@,
{
}

// ---------------------------------------------------------------------------
// Files
// ---------------------------------------------------------------------------

/// An answer says whether the request succeeded; a failure says why.
pub proof fn lemma_outcomes(error: Seq<char>)
    ensures
        server::success() == JsonView::Obj(map!["success"@ => JsonView::Bool(true)]),
        server::failure(error) == JsonView::Obj(
            map!["success"@ => JsonView::Bool(false), "error"@ => JsonView::Str(error)],
        ),
        server::failure(error).get("success"@) == Some(JsonView::Bool(false)),
        server::failure(error).get("error"@) == Some(JsonView::Str(error)),
{
    reveal_strlit("success");
    reveal_strlit("error");
    assert("success"@.len() == 7);
    assert("error"@.len() == 5);
}

/// The kind of an entry: a directory, a file, a symbolic link, or something else, in this order.
pub proof fn lemma_kind_names(is_dir: bool, is_file: bool, is_symlink: bool)
    ensures
        is_dir ==> server::kind_name(is_dir, is_file, is_symlink) == "directory"@,
        !is_dir && is_file ==> server::kind_name(is_dir, is_file, is_symlink) == "file"@,
        !is_dir && !is_file && is_symlink ==> server::kind_name(is_dir, is_file, is_symlink) == "symlink"@,
        !is_dir && !is_file && !is_symlink ==> server::kind_name(is_dir, is_file, is_symlink) == "other"@,
{
}

/// A directory is listed entry by entry, each with its name and its kind. An entry whose name is no text
/// is left out, and no other is.
pub proof fn lemma_entries(entries: Seq<DirEntry>, entry: DirEntry)
    ensures
        server::entries_json(Seq::<DirEntry>::empty()).len() == 0,
        entry.name is None ==> server::entries_json(entries.push(entry)) == server::entries_json(entries),
        entry.name is Some ==> server::entries_json(entries.push(entry)) == server::entries_json(
            entries,
        ).push(
            JsonView::Obj(
                map![
                    "name"@ => JsonView::Str(entry.name->0@),
                    "type"@ => JsonView::Str(entry.entry_type@),
                ],
            ),
        ),
{
    assert(entries.push(entry).drop_last() =~= entries);
}

/// Of variables of the same name the last one counts.
pub proof fn lemma_variables(env: Seq<(String, String)>, name: String, value: String, other: Seq<char>)
    ensures
        server::variable(env.push((name, value)), name@) == Some(value@),
        other != name@ ==> server::variable(env.push((name, value)), other) == server::variable(env, other),
        server::variable(Seq::<(String, String)>::empty(), other) is None,
{
    assert(env.push((name, value)).drop_last() =~= env);
}

/// What the server says of itself: its name, its version and the system that it runs on.
pub proof fn lemma_about(os: Seq<char>, arch: Seq<char>, family: Seq<char>, target: Seq<char>, wsl: bool)
    ensures
        ({
            let about = server::about_json(os, arch, family, target, wsl);
            let system = about.get("system"@);
            &&& about.get("name"@) == Some(JsonView::Str("tidewave-cli"@))
            &&& about.get("version"@) == Some(JsonView::Str(crate::acp_relay::VERSION@))
            &&& system is Some
            &&& system->0.get("os"@) == Some(JsonView::Str(os))
            &&& system->0.get("arch"@) == Some(JsonView::Str(arch))
            &&& system->0.get("family"@) == Some(JsonView::Str(family))
            &&& system->0.get("target"@) == Some(JsonView::Str(target))
            &&& system->0.get("wsl"@) == Some(JsonView::Bool(wsl))
            &&& about->Obj_0.dom() == set!["name"@, "version"@, "system"@]
            &&& system->0->Obj_0.dom() == set!["os"@, "arch"@, "family"@, "target"@, "wsl"@]
        }),
{
    reveal_strlit("name");
    reveal_strlit("version");
    reveal_strlit("system");
    reveal_strlit("os");
    reveal_strlit("arch");
    reveal_strlit("family");
    reveal_strlit("target");
    reveal_strlit("wsl");
    assert("name"@.len() == 4);
    assert("version"@.len() == 7);
    assert("system"@.len() == 6);
    assert("os"@.len() == 2);
    assert("arch"@.len() == 4);
    assert("family"@.len() == 6);
    assert("target"@.len() == 6);
    assert("wsl"@.len() == 3);
    assert("family"@[0] == 'f');
    assert("target"@[0] == 't');
    let about = server::about_json(os, arch, family, target, wsl);
    assert(about->Obj_0.dom() =~= set!["name"@, "version"@, "system"@]);
    assert(about.get("system"@)->0->Obj_0.dom() =~= set![
        "os"@,
        "arch"@,
        "family"@,
        "target"@,
        "wsl"@,
    ]);
}

// ---------------------------------------------------------------------------
// What the calls do
// ---------------------------------------------------------------------------

/// The server listens on all addresses only if remote access is allowed, and otherwise on the address
/// of the machine itself.
pub proof fn lemma_bind_call(port: u16, allow_remote_access: bool, r: ([u8; 4], u16))
    requires
        call_ensures(server::get_bind_addr, (port, allow_remote_access), r),
    ensures
        r.1 == port,
        allow_remote_access ==> r.0@ == seq![0u8, 0u8, 0u8, 0u8],
        !allow_remote_access ==> r.0@ == seq![127u8, 0u8, 0u8, 1u8],
{
}

/// Requests are let through if their origin is accepted. What the server says of itself, and whether an
/// origin would be accepted, anybody may ask. Everything else is forbidden.
pub proof fn lemma_origin_calls(
    path: &str,
    origin: &Option<String>,
    config: &ServerConfig,
    valid: bool,
    verified: Result<(), u16>,
    checked: Json,
)
    requires
        call_ensures(server::is_valid_origin, (origin, config), valid),
        call_ensures(server::verify_origin, (path, origin, config), verified),
        call_ensures(server::check_origin, (origin, config), checked),
    ensures
        *origin is None ==> valid,
        *origin is Some ==> valid == (text::texts(config.allowed_origins@).contains(origin->0@)
            || server::is_own(urls::url_parts(origin->0@), config.port, config.https_port)),
        valid || path@ == "/about"@ || path@ == "/check-origin"@ ==> verified is Ok,
        !valid && path@ != "/about"@ && path@ != "/check-origin"@ ==> verified is Err && verified->Err_0
            == 403,
        checked@ == JsonView::Obj(map!["valid"@ => JsonView::Bool(valid)]),
{
}

/// The server allows what its configuration allows and its own origins, in this order, on the port that
/// it was given.
pub proof fn lemma_config_call(config: &Config, port: u16, r: ServerConfig)
    requires
        call_ensures(ServerConfig::new, (config, port), r),
    ensures
        r.port == port,
        r.https_port == config.https_port,
        text::texts(r.allowed_origins@) == text::texts(config.allowed_origins@) + server::own_origins(
            port,
            config.https_port,
        ),
{
}

/// Output and status of a command are told apart by the kind of the chunk: 0 for output, 1 for the
/// status, which is the text of a JSON object. A command that a signal ended has the status -1.
pub proof fn lemma_chunk_calls(
    data: &[u8],
    status: i32,
    code: Option<i32>,
    data_chunk: Vec<u8>,
    status_chunk: Vec<u8>,
    exit: i32,
)
    requires
        call_ensures(server::create_data_chunk, (data,), data_chunk),
        call_ensures(server::create_status_chunk, (status,), status_chunk),
        call_ensures(server::exit_status, (code,), exit),
    ensures
        data_chunk@[0] == 0,
        data_chunk@.skip(5) == data@,
        status_chunk@[0] == 1,
        status_chunk@.skip(5) == vstd::utf8::encode_utf8(
            "{\"status\":"@ + text::signed_decimal(status as int) + "}"@,
        ),
        code is Some ==> exit == code->0,
        code is None ==> exit == -1,
{
    assert(data_chunk@.skip(5) =~= data@);
    let body = vstd::utf8::encode_utf8(server::status_text(status));
    assert(status_chunk@.skip(5) =~= body);
}

/// A command that cannot be run is answered with the status 500 and the reason. It runs in the directory
/// that was given, and without one in the current directory.
pub proof fn lemma_shell_calls(problem: &ShellProblem, cwd: Option<String>, r: (u16, Json), dir: String)
    requires
        call_ensures(server::shell_error, (problem,), r),
        call_ensures(server::dir_or_default, (cwd,), dir),
    ensures
        r.0 == 500,
        r.1@ == JsonView::Obj(map!["error"@ => JsonView::Str(server::shell_problem_text(*problem))]),
        cwd is Some ==> dir@ == cwd->0@,
        cwd is None ==> dir@ == "."@,
{
}

/// A path that cannot be normalized is answered with the reason, and one that is not absolute with the
/// status 400. Any other path is used.
pub proof fn lemma_path_call(normalized: &Result<(), String>, is_absolute: bool, r: Option<FileAnswer>)
    requires
        call_ensures(server::check_path, (normalized, is_absolute), r),
    ensures
        normalized is Err ==> r is Some && r->0@ == FileAnswerView::Json(
            JsonView::Obj(
                map![
                    "success"@ => JsonView::Bool(false),
                    "error"@ => JsonView::Str(normalized->Err_0@),
                ],
            ),
        ),
        normalized is Ok && !is_absolute ==> r is Some && r->0@ == FileAnswerView::Status(400),
        normalized is Ok && is_absolute ==> r is None,
{
}

/// A file that was read is answered with its content and its time, and a failure with the reason.
pub proof fn lemma_read_call(content: String, mtime: u64, error: String, read: FileAnswer, failed: FileAnswer)
    requires
        call_ensures(server::read_answer, (Ok((content, mtime)),), read),
        call_ensures(server::read_answer, (Err(error),), failed),
    ensures
        read@ == FileAnswerView::Json(
            JsonView::Obj(
                map![
                    "success"@ => JsonView::Bool(true),
                    "content"@ => JsonView::Str(content@),
                    "mtime"@ => JsonView::Number(NumberView::PosInt(mtime)),
                ],
            ),
        ),
        failed@ == FileAnswerView::Json(
            JsonView::Obj(
                map!["success"@ => JsonView::Bool(false), "error"@ => JsonView::Str(error@)],
            ),
        ),
{
}

/// A file that was written is answered with the number of bytes and its time. One that exists already is
/// a conflict, and any other failure has its reason.
pub proof fn lemma_write_call(
    bytes: u64,
    mtime: u64,
    error: String,
    written: FileAnswer,
    conflict: FileAnswer,
    failed: FileAnswer,
)
    requires
        call_ensures(server::write_answer, (WriteOutcome::Written { bytes, mtime },), written),
        call_ensures(server::write_answer, (WriteOutcome::Exists,), conflict),
        call_ensures(server::write_answer, (WriteOutcome::Failed(error),), failed),
    ensures
        written@ == FileAnswerView::Json(
            JsonView::Obj(
                map![
                    "success"@ => JsonView::Bool(true),
                    "bytes_written"@ => JsonView::Number(NumberView::PosInt(bytes)),
                    "mtime"@ => JsonView::Number(NumberView::PosInt(mtime)),
                ],
            ),
        ),
        conflict@ == FileAnswerView::Status(409),
        failed@ == FileAnswerView::Json(
            JsonView::Obj(
                map!["success"@ => JsonView::Bool(false), "error"@ => JsonView::Str(error@)],
            ),
        ),
{
}

/// What was done is answered with success alone, and what failed with the reason.
pub proof fn lemma_done_call(error: String, done: FileAnswer, failed: FileAnswer)
    requires
        call_ensures(server::done_answer, (Ok(()),), done),
        call_ensures(server::done_answer, (Err(error),), failed),
    ensures
        done@ == FileAnswerView::Json(JsonView::Obj(map!["success"@ => JsonView::Bool(true)])),
        failed@ == FileAnswerView::Json(
            JsonView::Obj(
                map!["success"@ => JsonView::Bool(false), "error"@ => JsonView::Str(error@)],
            ),
        ),
{
}

/// A file is described by its time and its kind, and a directory by its entries.
pub proof fn lemma_stat_and_list_calls(
    mtime: u64,
    kind: &'static str,
    entries: Vec<DirEntry>,
    error: String,
    described: FileAnswer,
    listed: FileAnswer,
    failed: FileAnswer,
)
    requires
        call_ensures(server::stat_answer, (Ok((mtime, kind)),), described),
        call_ensures(server::list_answer, (Ok(entries),), listed),
        call_ensures(server::stat_answer, (Err(error),), failed) || call_ensures(
            server::list_answer,
            (Err(error),),
            failed,
        ),
    ensures
        described@ == FileAnswerView::Json(
            JsonView::Obj(
                map![
                    "success"@ => JsonView::Bool(true),
                    "mtime"@ => JsonView::Number(NumberView::PosInt(mtime)),
                    "type"@ => JsonView::Str(kind@),
                ],
            ),
        ),
        listed@ == FileAnswerView::Json(
            JsonView::Obj(
                map![
                    "success"@ => JsonView::Bool(true),
                    "entries"@ => JsonView::Arr(server::entries_json(entries@)),
                ],
            ),
        ),
        failed@ == FileAnswerView::Json(
            JsonView::Obj(
                map!["success"@ => JsonView::Bool(false), "error"@ => JsonView::Str(error@)],
            ),
        ),
{
}

/// The time of a file counts from the epoch; one before it is an error.
pub proof fn lemma_mtime_call(since_epoch: Option<u64>, r: Result<u64, String>)
    requires
        call_ensures(server::mtime_seconds, (since_epoch,), r),
    ensures
        since_epoch is Some ==> r is Ok && r->Ok_0 == since_epoch->0,
        since_epoch is None ==> r is Err && r->Err_0@ == "system time error"@,
{
}

/// A command is looked for inside the Windows Subsystem for Linux if the environment names its
/// distribution, in the `PATH` of the environment if that is given, and else in the server's own.
pub proof fn lemma_which_call(
    windows: bool,
    command: &str,
    cwd: Option<String>,
    env: &Option<Vec<(String, String)>>,
    r: WhichPlace,
)
    requires
        call_ensures(server::which_place, (windows, command, cwd, env), r),
    ensures
        ({
            let dir = if cwd is Some {
                cwd->0@
            } else {
                "."@
            };
            let wsl = env is Some && windows && server::variable(env->0@, "WSL_DISTRO_NAME"@) is Some;
            let path = env is Some && server::variable(env->0@, "PATH"@) is Some;
            &&& wsl ==> r is Wsl && r->Wsl_command@ == "which "@ + command@ && r->Wsl_cwd@ == dir
            &&& !wsl && path ==> r is Path && r->paths@ == server::variable(env->0@, "PATH"@)->0
                && r->Path_cwd@ == dir
            &&& !wsl && !path ==> r is OwnPath
        }),
{
}

/// The place of a command is what was printed, without space around it, if the search succeeded and
/// printed anything. It is answered as a text, and as null if there is none.
pub proof fn lemma_printed_call(
    success: bool,
    output: &[u8],
    printed: Option<String>,
    path: Option<String>,
    answer: Json,
)
    requires
        call_ensures(server::printed_path, (success, output), printed),
        call_ensures(server::which_answer, (path,), answer),
    ensures
        printed is Some <==> success && text::trimmed(text::lossy_text(output@)).len() > 0,
        printed is Some ==> printed->0@ == text::trimmed(text::lossy_text(output@)),
        path is Some ==> answer@ == JsonView::Obj(map!["path"@ => JsonView::Str(path->0@)]),
        path is None ==> answer@ == JsonView::Obj(map!["path"@ => JsonView::Null]),
{
}

/// Inside the Windows Subsystem for Linux the server says that it runs on Linux, on the architecture that
/// was printed. Where that cannot be found out the status is 500.
pub proof fn lemma_about_wsl_call(success: bool, output: &[u8], target: &str, r: Result<Json, u16>)
    requires
        call_ensures(server::about_wsl, (success, output, target), r),
    ensures
        success ==> r is Ok && r->Ok_0@ == server::about_json(
            "linux"@,
            text::trimmed(text::lossy_text(output@)),
            "unix"@,
            target@,
            true,
        ),
        !success ==> r is Err && r->Err_0 == 500,
{
}

/// The page loads the client from the given address, or from `https://tidewave.ai`, and names the
/// version. The client's own files are served through the server only if that is switched on with `1`.
pub proof fn lemma_page_calls(
    client_url: Option<String>,
    flag: &Option<String>,
    page: String,
    proxy: Option<String>,
)
    requires
        call_ensures(server::root, (client_url,), page),
        call_ensures(server::client_proxy, (flag, client_url), proxy),
    ensures
        client_url is Some ==> page@ == server::PAGE_HEAD@ + crate::acp_relay::VERSION@
            + server::PAGE_SCRIPT@ + client_url->0@ + server::PAGE_TAIL@,
        client_url is None ==> page@ == server::PAGE_HEAD@ + crate::acp_relay::VERSION@
            + server::PAGE_SCRIPT@ + "https://tidewave.ai"@ + server::PAGE_TAIL@,
        *flag is Some && flag->0@ == "1"@ && client_url is Some ==> proxy is Some && proxy->0@
            == client_url->0@,
        *flag is None || flag->0@ != "1"@ || client_url is None ==> proxy is None,
{
}

/// The other answers are those of their laws.
pub proof fn lemma_other_calls(
    is_dir: bool,
    is_file: bool,
    is_symlink: bool,
    env: &Vec<(String, String)>,
    name: &str,
    parts: &Option<urls::UrlParts>,
    port: u16,
    https_port: Option<u16>,
    kind: &'static str,
    value: Option<String>,
    own: bool,
)
    requires
        call_ensures(server::path_type, (is_dir, is_file, is_symlink), kind),
        call_ensures(server::get_variable, (env, name), value),
        call_ensures(server::matches_server, (parts, port, https_port), own),
    ensures
        kind@ == server::kind_name(is_dir, is_file, is_symlink),
        value is Some <==> server::variable(env@, name@) is Some,
        value is Some ==> value->0@ == server::variable(env@, name@)->0,
        own == server::is_own(urls::opt_parts(*parts), port, https_port),
{
}

/// What the server says of itself is about the system that it is given.
pub proof fn lemma_about_call(os: &str, arch: &str, family: &str, target: &str, wsl: bool, r: Json)
    requires
        call_ensures(server::about, (os, arch, family, target, wsl), r),
    ensures
        r@ == server::about_json(os@, arch@, family@, target@, wsl),
{
}

/// All agents that run are stopped with the server.
pub proof fn lemma_stop_call(state: &crate::acp_relay::Relay, r: Vec<String>, key: Seq<char>)
    requires
        call_ensures(server::agents_to_stop, (state,), r),
        state.wf(),
    ensures
        text::texts(r@).contains(key) <==> state@.processes.contains_key(key),
{
    state.processes.lemma_order();
}

} // verus!
