//! What the HTTP server decides: which origins it accepts, and what it answers about files,
//! commands and itself.

use vstd::prelude::*;

use crate::acp_relay;
use crate::acp_relay::Relay;
use crate::config::Config;
use crate::json;
use crate::json::{Json, JsonView};
use crate::text;
use crate::urls;
use crate::urls::{PartsView, UrlParts};

pub mod laws;

verus! {

// ---------------------------------------------------------------------------
// Addresses and origins
// ---------------------------------------------------------------------------

/// The address that the server listens on: all of them where other machines can connect, else that
/// of the machine itself.
pub fn get_bind_addr(port: u16, allow_remote_access: bool) -> (r: ([u8; 4], u16))
    ensures
        r.1 == port,
        r.0@ == (if allow_remote_access {
            seq![0u8, 0u8, 0u8, 0u8]
        } else {
            seq![127u8, 0u8, 0u8, 1u8]
        }),
{
    if allow_remote_access {
        ([0u8, 0u8, 0u8, 0u8], port)
    } else {
        ([127u8, 0u8, 0u8, 1u8], port)
    }
}

/// What decides which origins are accepted.
#[derive(Debug)]
pub struct ServerConfig {
    pub allowed_origins: Vec<String>,
    pub port: u16,
    pub https_port: Option<u16>,
}

/// The server's own origins.
pub open spec fn own_origins(port: u16, https_port: Option<u16>) -> Seq<Seq<char>> {
    let http = seq![
        "http://localhost:"@ + text::decimal(port as nat),
        "http://127.0.0.1:"@ + text::decimal(port as nat),
    ];
    match https_port {
        Some(p) => http + seq![
            "https://localhost:"@ + text::decimal(p as nat),
            "https://127.0.0.1:"@ + text::decimal(p as nat),
        ],
        None => http,
    }
}

fn origin(prefix: &str, port: u16) -> (r: String)
    ensures
        r@ == prefix@ + text::decimal(port as nat),
{
    text::joined(prefix, text::number_text(port as u64).as_str())
}

impl ServerConfig {
    /// What a configuration and the port that the server listens on say about origins.
    pub fn new(config: &Config, port: u16) -> (r: Self)
        ensures
            r.port == port,
            r.https_port == config.https_port,
            text::texts(r.allowed_origins@) == text::texts(config.allowed_origins@) + own_origins(
                port,
                config.https_port,
            ),
    {
        let mut allowed_origins = text::clone_list(&config.allowed_origins);
        let ghost before = text::texts(allowed_origins@);
        allowed_origins.push(origin("http://localhost:", port));
        allowed_origins.push(origin("http://127.0.0.1:", port));
        match config.https_port {
            Some(p) => {
                allowed_origins.push(origin("https://localhost:", p));
                allowed_origins.push(origin("https://127.0.0.1:", p));
            },
            None => {},
        }
        assert(text::texts(allowed_origins@) =~= before + own_origins(port, config.https_port));
        ServerConfig { allowed_origins, port, https_port: config.https_port }
    }
}

/// Whether a host is a name of this machine.
pub open spec fn is_local_host(host: Seq<char>) -> bool {
    host == "localhost"@ || host == "127.0.0.1"@ || text::ends_with(host, ".localhost"@)
}

/// Whether the parts of an origin are those of this server under a name of this machine.
pub open spec fn is_own(parts: Option<PartsView>, port: u16, https_port: Option<u16>) -> bool {
    match parts {
        Some((scheme, Some(host), origin_port)) => {
            &&& is_local_host(host)
            &&& {
                ||| scheme == "http"@ && (match origin_port {
                    Some(p) => p,
                    None => 80u16,
                }) == port
                ||| scheme == "https"@ && https_port == Some(
                    match origin_port {
                        Some(p) => p,
                        None => 443u16,
                    },
                )
            }
        },
        _ => false,
    }
}

/// Whether the parts of an origin are those of this server under a name of this machine.
pub fn matches_server(parts: &Option<UrlParts>, port: u16, https_port: Option<u16>) -> (r: bool)
    ensures
        r == is_own(urls::opt_parts(*parts), port, https_port),
{
    match parts {
        Some(parts) => match &parts.host {
            Some(host) => {
                let local = text::same_text(host.as_str(), "localhost") || text::same_text(
                    host.as_str(),
                    "127.0.0.1",
                ) || text::has_suffix(host.as_str(), ".localhost");
                let http_port: u16 = match parts.port {
                    Some(p) => p,
                    None => 80,
                };
                let tls_port: u16 = match parts.port {
                    Some(p) => p,
                    None => 443,
                };
                if local && text::same_text(parts.scheme.as_str(), "http") && http_port == port {
                    return true;
                }
                match https_port {
                    Some(p) => local && text::same_text(parts.scheme.as_str(), "https") && tls_port == p,
                    None => false,
                }
            },
            None => false,
        },
        None => false,
    }
}

/// Whether requests from an origin are accepted: those without an origin, those from an allowed one,
/// and those from this server under any name of this machine.
pub open spec fn accepts(
    origin: Option<Seq<char>>,
    allowed: Seq<Seq<char>>,
    port: u16,
    https_port: Option<u16>,
) -> bool {
    match origin {
        None => true,
        Some(origin) => allowed.contains(origin) || is_own(urls::url_parts(origin), port, https_port),
    }
}

/// Whether requests from an origin are accepted.
pub fn is_valid_origin(origin: &Option<String>, config: &ServerConfig) -> (r: bool)
    ensures
        r == accepts(
            json::opt_text(*origin),
            text::texts(config.allowed_origins@),
            config.port,
            config.https_port,
        ),
{
    match origin {
        None => true,
        Some(origin) => {
            if text::list_has(&config.allowed_origins, origin.as_str()) {
                return true;
            }
            matches_server(&urls::parse_url(origin.as_str()), config.port, config.https_port)
        },
    }
}

/// Whether a request is let through. Two pages are open to every origin. `Err` is the status of the
/// refusal.
pub fn verify_origin(path: &str, origin: &Option<String>, config: &ServerConfig) -> (r: Result<(), u16>)
    ensures
        if path@ == "/about"@ || path@ == "/check-origin"@ || accepts(
            json::opt_text(*origin),
            text::texts(config.allowed_origins@),
            config.port,
            config.https_port,
        ) {
            r is Ok
        } else {
            r is Err && r->Err_0 == 403
        },
{
    if text::same_text(path, "/about") || text::same_text(path, "/check-origin") || is_valid_origin(
        origin,
        config,
    ) {
        Ok(())
    } else {
        Err(403)
    }
}

/// The answer to the question whether an origin is accepted.
pub fn check_origin(origin: &Option<String>, config: &ServerConfig) -> (r: Json)
    ensures
        r@ == json::empty_object().with(
            "valid"@,
            JsonView::Bool(
                accepts(
                    json::opt_text(*origin),
                    text::texts(config.allowed_origins@),
                    config.port,
                    config.https_port,
                ),
            ),
        ),
{
    Json::object().with("valid", Json::Bool(is_valid_origin(origin, config)))
}

/// The server's own origins are accepted, whatever the configuration allows besides.
pub proof fn lemma_own_origins_are_accepted(
    configured: Seq<Seq<char>>,
    port: u16,
    https_port: Option<u16>,
    i: int,
)
    requires
        0 <= i < own_origins(port, https_port).len(),
    ensures
        accepts(
            Some(own_origins(port, https_port)[i]),
            configured + own_origins(port, https_port),
            port,
            https_port,
        ),
{
    let own = own_origins(port, https_port);
    let all = configured + own;
    assert(all[configured.len() + i] == own[i]);
}

/// An origin that is configured is accepted.
pub proof fn lemma_configured_origins_are_accepted(
    configured: Seq<Seq<char>>,
    port: u16,
    https_port: Option<u16>,
    i: int,
)
    requires
        0 <= i < configured.len(),
    ensures
        accepts(
            Some(configured[i]),
            configured + own_origins(port, https_port),
            port,
            https_port,
        ),
{
    let all = configured + own_origins(port, https_port);
    assert(all[i] == configured[i]);
}

/// An origin on another machine is refused, unless it is allowed.
pub proof fn lemma_foreign_origin_is_refused(
    origin: Seq<char>,
    allowed: Seq<Seq<char>>,
    port: u16,
    https_port: Option<u16>,
)
    requires
        !allowed.contains(origin),
        match urls::url_parts(origin) {
            Some((_, Some(host), _)) => !is_local_host(host),
            _ => true,
        },
    ensures
        !accepts(Some(origin), allowed, port, https_port),
{
}

// ---------------------------------------------------------------------------
// Output of commands
// ---------------------------------------------------------------------------

/// The four bytes of a number, the highest first.
pub open spec fn be_bytes(n: u32) -> Seq<u8> {
    seq![
        (n / 0x1000000) as u8,
        (n / 0x10000 % 0x100) as u8,
        (n / 0x100 % 0x100) as u8,
        (n % 0x100) as u8,
    ]
}

/// A chunk of output: its kind, the length of its data, and its data. The length is cut to four
/// bytes.
pub open spec fn chunk(kind: u8, data: Seq<u8>) -> Seq<u8> {
    seq![kind] + be_bytes((data.len() % 0x1_0000_0000) as u32) + data
}

fn make_chunk(kind: u8, data: &[u8]) -> (r: Vec<u8>)
    ensures
        r@ == chunk(kind, data@),
{
    let n: u64 = data.len() as u64;
    let len: u32 = (n % 0x1_0000_0000) as u32;
    let mut r: Vec<u8> = Vec::new();
    r.push(kind);
    r.push((len / 0x1000000) as u8);
    r.push((len / 0x10000 % 0x100) as u8);
    r.push((len / 0x100 % 0x100) as u8);
    r.push((len % 0x100) as u8);
    assert(r@ =~= seq![kind] + be_bytes(len));
    let mut i: usize = 0;
    assert(data@.take(0) =~= seq![]);
    assert(r@ =~= seq![kind] + be_bytes(len) + data@.take(0));
    while i < data.len()
        invariant
            i <= data.len(),
            r@ == seq![kind] + be_bytes(len) + data@.take(i as int),
        decreases data.len() - i,
    {
        r.push(data[i]);
        assert(data@.take(i + 1) =~= data@.take(i as int).push(data@[i as int]));
        assert(r@ =~= seq![kind] + be_bytes(len) + data@.take(i + 1));
        i = i + 1;
    }
    assert(data@.take(data@.len() as int) =~= data@);
    r
}

/// A chunk with what a command has written.
pub fn create_data_chunk(data: &[u8]) -> (r: Vec<u8>)
    ensures
        r@ == chunk(0, data@),
{
    make_chunk(0, data)
}

/// The text that tells the exit status of a command.
pub open spec fn status_text(status: i32) -> Seq<char> {
    "{\"status\":"@ + text::signed_decimal(status as int) + "}"@
}

/// A chunk with the exit status of a command.
pub fn create_status_chunk(status: i32) -> (r: Vec<u8>)
    ensures
        r@ == chunk(1, vstd::utf8::encode_utf8(status_text(status))),
{
    let mut text = text::joined("{\"status\":", text::signed_text(status as i64).as_str());
    text.append("}");
    make_chunk(1, text.as_str().as_bytes())
}

/// The exit status that is told of a command that a signal has ended.
pub fn exit_status(code: Option<i32>) -> (r: i32)
    ensures
        code is Some ==> r == code->0,
        code is None ==> r == -1int,
{
    match code {
        Some(code) => code,
        None => -1,
    }
}

/// The kind and the data of the first chunk in a stream, and what follows it.
pub open spec fn first_chunk(stream: Seq<u8>) -> Option<(u8, Seq<u8>, Seq<u8>)> {
    if stream.len() < 5 {
        None
    } else {
        let len = stream[1] * 0x1000000 + stream[2] * 0x10000 + stream[3] * 0x100 + stream[4];
        if stream.len() < 5 + len {
            None
        } else {
            Some((stream[0], stream.subrange(5, 5 + len), stream.skip(5 + len)))
        }
    }
}

/// A client that reads a stream of chunks gets each of them back, where its data is not longer than
/// the length can tell.
pub proof fn lemma_chunk_is_read_back(kind: u8, data: Seq<u8>, rest: Seq<u8>)
    requires
        data.len() < 0x1_0000_0000,
    ensures
        first_chunk(chunk(kind, data) + rest) == Some((kind, data, rest)),
{
    let stream = chunk(kind, data) + rest;
    let n = (data.len() % 0x1_0000_0000) as u32;
    assert(n == data.len());
    assert(stream[1] == be_bytes(n)[0]);
    assert(stream[2] == be_bytes(n)[1]);
    assert(stream[3] == be_bytes(n)[2]);
    assert(stream[4] == be_bytes(n)[3]);
    let len = stream[1] * 0x1000000 + stream[2] * 0x10000 + stream[3] * 0x100 + stream[4];
    assert(len == n);
    assert(stream.subrange(5, 5 + len) =~= data);
    assert(stream.skip(5 + len) =~= rest);
}

/// Why a command cannot be run.
#[derive(Debug)]
pub enum ShellProblem {
    Spawn(String),
    Stdout,
    Stderr,
    Response(String),
}

/// What is told of a command that cannot be run.
pub open spec fn shell_problem_text(problem: ShellProblem) -> Seq<char> {
    match problem {
        ShellProblem::Spawn(e) => "Failed to spawn command: "@ + e@,
        ShellProblem::Stdout => "Failed to get process stdout"@,
        ShellProblem::Stderr => "Failed to get process stderr"@,
        ShellProblem::Response(e) => "Failed to build response: "@ + e@,
    }
}

/// The status and the answer for a command that cannot be run.
pub fn shell_error(problem: &ShellProblem) -> (r: (u16, Json))
    ensures
        r.0 == 500,
        r.1@ == json::empty_object().with("error"@, JsonView::Str(shell_problem_text(*problem))),
{
    let message = match problem {
        ShellProblem::Spawn(e) => text::joined("Failed to spawn command: ", e.as_str()),
        ShellProblem::Stdout => "Failed to get process stdout".to_owned(),
        ShellProblem::Stderr => "Failed to get process stderr".to_owned(),
        ShellProblem::Response(e) => text::joined("Failed to build response: ", e.as_str()),
    };
    (500, Json::object().with("error", Json::String(message)))
}

/// The directory that a command is run in.
pub fn dir_or_default(cwd: Option<String>) -> (r: String)
    ensures
        r@ == (match cwd {
            Some(cwd) => cwd@,
            None => "."@,
        }),
{
    match cwd {
        Some(cwd) => cwd,
        None => ".".to_owned(),
    }
}

// ---------------------------------------------------------------------------
// Files
// ---------------------------------------------------------------------------

/// The answer to a request about a file: JSON, or a status without more.
#[derive(Debug)]
pub enum FileAnswer {
    Json(Json),
    Status(u16),
}

/// The model of a [`FileAnswer`].
pub enum FileAnswerView {
    Json(JsonView),
    Status(u16),
}

impl View for FileAnswer {
    type V = FileAnswerView;

    open spec fn view(&self) -> FileAnswerView {
        match self {
            FileAnswer::Json(v) => FileAnswerView::Json(v@),
            FileAnswer::Status(s) => FileAnswerView::Status(*s),
        }
    }
}

/// The answer to a request that failed.
pub open spec fn failure(error: Seq<char>) -> JsonView {
    json::empty_object().with("success"@, JsonView::Bool(false)).with("error"@, JsonView::Str(error))
}

/// The answer to a request that succeeded, with nothing more to tell.
pub open spec fn success() -> JsonView {
    json::empty_object().with("success"@, JsonView::Bool(true))
}

fn failed(error: &str) -> (r: FileAnswer)
    ensures
        r@ == FileAnswerView::Json(failure(error@)),
{
    FileAnswer::Json(
        Json::object().with("success", Json::Bool(false)).with("error", Json::string(error)),
    )
}

fn succeeded() -> (r: Json)
    ensures
        r@ == success(),
{
    Json::object().with("success", Json::Bool(true))
}

/// Refuses a path: one that cannot be normalized is told of, and one that is not absolute is a bad
/// request. `None` where the path is accepted.
pub fn check_path(normalized: &Result<(), String>, is_absolute: bool) -> (r: Option<FileAnswer>)
    ensures
        match normalized {
            Err(e) => r is Some && r->0@ == FileAnswerView::Json(failure(e@)),
            Ok(_) => if is_absolute {
                r is None
            } else {
                r is Some && r->0@ == FileAnswerView::Status(400)
            },
        },
{
    match normalized {
        Err(e) => Some(failed(e.as_str())),
        Ok(()) => if is_absolute {
            None
        } else {
            Some(FileAnswer::Status(400))
        },
    }
}

/// The answer to reading a file.
pub fn read_answer(outcome: Result<(String, u64), String>) -> (r: FileAnswer)
    ensures
        match outcome {
            Ok((content, mtime)) => r@ == FileAnswerView::Json(
                success().with("content"@, JsonView::Str(content@)).with(
                    "mtime"@,
                    json::uint_json(mtime),
                ),
            ),
            Err(e) => r@ == FileAnswerView::Json(failure(e@)),
        },
{
    match outcome {
        Ok((content, mtime)) => FileAnswer::Json(
            succeeded().with("content", Json::String(content)).with("mtime", Json::uint(mtime)),
        ),
        Err(e) => failed(e.as_str()),
    }
}

/// What came of writing a file.
#[derive(Debug)]
pub enum WriteOutcome {
    Written { bytes: u64, mtime: u64 },
    /// The file was to be new, and exists.
    Exists,
    Failed(String),
}

/// The answer to writing a file.
pub fn write_answer(outcome: WriteOutcome) -> (r: FileAnswer)
    ensures
        match outcome {
            WriteOutcome::Written { bytes, mtime } => r@ == FileAnswerView::Json(
                success().with("bytes_written"@, json::uint_json(bytes)).with(
                    "mtime"@,
                    json::uint_json(mtime),
                ),
            ),
            WriteOutcome::Exists => r@ == FileAnswerView::Status(409),
            WriteOutcome::Failed(e) => r@ == FileAnswerView::Json(failure(e@)),
        },
{
    match outcome {
        WriteOutcome::Written { bytes, mtime } => FileAnswer::Json(
            succeeded().with("bytes_written", Json::uint(bytes)).with("mtime", Json::uint(mtime)),
        ),
        WriteOutcome::Exists => FileAnswer::Status(409),
        WriteOutcome::Failed(e) => failed(e.as_str()),
    }
}

/// The answer to removing a file or making a directory.
pub fn done_answer(outcome: Result<(), String>) -> (r: FileAnswer)
    ensures
        match outcome {
            Ok(_) => r@ == FileAnswerView::Json(success()),
            Err(e) => r@ == FileAnswerView::Json(failure(e@)),
        },
{
    match outcome {
        Ok(()) => FileAnswer::Json(succeeded()),
        Err(e) => failed(e.as_str()),
    }
}

/// The name of what a path stands for.
pub open spec fn kind_name(is_dir: bool, is_file: bool, is_symlink: bool) -> Seq<char> {
    if is_dir {
        "directory"@
    } else if is_file {
        "file"@
    } else if is_symlink {
        "symlink"@
    } else {
        "other"@
    }
}

/// The name of what a path stands for.
pub fn path_type(is_dir: bool, is_file: bool, is_symlink: bool) -> (r: &'static str)
    ensures
        r@ == kind_name(is_dir, is_file, is_symlink),
{
    if is_dir {
        "directory"
    } else if is_file {
        "file"
    } else if is_symlink {
        "symlink"
    } else {
        "other"
    }
}

/// The answer to the question what a path stands for and when it was changed.
pub fn stat_answer(outcome: Result<(u64, &'static str), String>) -> (r: FileAnswer)
    ensures
        match outcome {
            Ok((mtime, kind)) => r@ == FileAnswerView::Json(
                success().with("mtime"@, json::uint_json(mtime)).with(
                    "type"@,
                    JsonView::Str(kind@),
                ),
            ),
            Err(e) => r@ == FileAnswerView::Json(failure(e@)),
        },
{
    match outcome {
        Ok((mtime, kind)) => FileAnswer::Json(
            succeeded().with("mtime", Json::uint(mtime)).with("type", Json::string(kind)),
        ),
        Err(e) => failed(e.as_str()),
    }
}

/// An entry of a directory. Its name is absent where it is not UTF-8.
#[derive(Debug)]
pub struct DirEntry {
    pub name: Option<String>,
    pub entry_type: &'static str,
}

/// The entries of a directory as JSON. Those without a name are left out.
pub open spec fn entries_json(entries: Seq<DirEntry>) -> Seq<JsonView>
    decreases entries.len(),
{
    if entries.len() == 0 {
        seq![]
    } else {
        let rest = entries_json(entries.drop_last());
        match entries.last().name {
            Some(name) => rest.push(
                json::empty_object().with("name"@, JsonView::Str(name@)).with(
                    "type"@,
                    JsonView::Str(entries.last().entry_type@),
                ),
            ),
            None => rest,
        }
    }
}

/// The answer to listing a directory.
pub fn list_answer(outcome: Result<Vec<DirEntry>, String>) -> (r: FileAnswer)
    ensures
        match outcome {
            Ok(entries) => r@ == FileAnswerView::Json(
                success().with("entries"@, JsonView::Arr(entries_json(entries@))),
            ),
            Err(e) => r@ == FileAnswerView::Json(failure(e@)),
        },
{
    match outcome {
        Ok(entries) => {
            let mut items: Vec<Json> = Vec::new();
            let mut i: usize = 0;
            assert(entries@.take(0).len() == 0);
            assert(json::items_view(items@) =~= entries_json(entries@.take(0)));
            while i < entries.len()
                invariant
                    i <= entries.len(),
                    json::items_view(items@) == entries_json(entries@.take(i as int)),
                decreases entries.len() - i,
            {
                let ghost before = items@;
                proof {
                    assert(entries@.take(i + 1).drop_last() =~= entries@.take(i as int));
                    assert(entries@.take(i + 1).last() == entries@[i as int]);
                }
                match &entries[i].name {
                    Some(name) => {
                        items.push(
                            Json::object().with("name", Json::string(name.as_str())).with(
                                "type",
                                Json::string(entries[i].entry_type),
                            ),
                        );
                        proof {
                            assert(items@.drop_last() =~= before);
                        }
                    },
                    None => {},
                }
                i = i + 1;
            }
            assert(entries@.take(entries@.len() as int) =~= entries@);
            FileAnswer::Json(succeeded().with("entries", Json::array(items)))
        },
        Err(e) => failed(e.as_str()),
    }
}

/// The time in seconds since the epoch, or the error for a time before it.
pub fn mtime_seconds(since_epoch: Option<u64>) -> (r: Result<u64, String>)
    ensures
        match since_epoch {
            Some(secs) => r is Ok && r->Ok_0 == secs,
            None => r is Err && r->Err_0@ == "system time error"@,
        },
{
    match since_epoch {
        Some(secs) => Ok(secs),
        None => Err("system time error".to_owned()),
    }
}

// ---------------------------------------------------------------------------
// Programs, and the server itself
// ---------------------------------------------------------------------------

/// Where a program is looked for.
#[derive(Debug)]
pub enum WhichPlace {
    /// Along the search path of the server.
    OwnPath,
    /// Along another search path, from a directory.
    Path { paths: String, cwd: String },
    /// Inside the Windows Subsystem for Linux, by this command.
    Wsl { command: String, cwd: String },
}

/// The value of a variable.
pub open spec fn variable(env: Seq<(String, String)>, name: Seq<char>) -> Option<Seq<char>>
    decreases env.len(),
{
    if env.len() == 0 {
        None
    } else if env.last().0@ == name {
        Some(env.last().1@)
    } else {
        variable(env.drop_last(), name)
    }
}

/// The value of a variable. The last of those with its name counts.
pub fn get_variable(env: &Vec<(String, String)>, name: &str) -> (r: Option<String>)
    ensures
        json::opt_text(r) == variable(env@, name@),
{
    let mut i: usize = env.len();
    assert(env@.take(env@.len() as int) =~= env@);
    while i > 0
        invariant
            i <= env.len(),
            variable(env@, name@) == variable(env@.take(i as int), name@),
        decreases i,
    {
        proof {
            assert(env@.take(i as int).last() == env@[i - 1]);
            assert(env@.take(i as int).drop_last() =~= env@.take(i - 1));
        }
        if text::same_text(env[i - 1].0.as_str(), name) {
            return Some(env[i - 1].1.clone());
        }
        i = i - 1;
    }
    None
}

/// Decides where a program is looked for. `windows` says whether the server runs on Windows.
pub fn which_place(
    windows: bool,
    command: &str,
    cwd: Option<String>,
    env: &Option<Vec<(String, String)>>,
) -> (r: WhichPlace)
    ensures
        ({
            let dir = match cwd {
                Some(cwd) => cwd@,
                None => "."@,
            };
            match env {
                Some(env) => if windows && variable(env@, "WSL_DISTRO_NAME"@) is Some {
                    r matches WhichPlace::Wsl { command: c, cwd: d } && c@ == "which "@ + command@ && d@
                        == dir
                } else {
                    match variable(env@, "PATH"@) {
                        Some(path) => r matches WhichPlace::Path { paths: p, cwd: d } && p@ == path && d@
                            == dir,
                        None => r is OwnPath,
                    }
                },
                None => r is OwnPath,
            }
        }),
{
    match env {
        Some(env) => {
            if windows && get_variable(env, "WSL_DISTRO_NAME").is_some() {
                WhichPlace::Wsl {
                    command: text::joined("which ", command),
                    cwd: dir_or_default(cwd),
                }
            } else {
                match get_variable(env, "PATH") {
                    Some(paths) => WhichPlace::Path { paths, cwd: dir_or_default(cwd) },
                    None => WhichPlace::OwnPath,
                }
            }
        },
        None => WhichPlace::OwnPath,
    }
}

/// The place of a program in the output of the command that looked for it. `None` where the command
/// failed or printed nothing.
pub fn printed_path(success: bool, output: &[u8]) -> (r: Option<String>)
    ensures
        ({
            let path = text::trimmed(text::lossy_text(output@));
            json::opt_text(r) == (if success && path.len() > 0 {
                Some(path)
            } else {
                None
            })
        }),
{
    if !success {
        return None;
    }
    let printed = text::text_lossy(output);
    let path = text::trim(printed.as_str()).to_owned();
    if path.as_str().unicode_len() > 0 {
        Some(path)
    } else {
        None
    }
}

/// The answer to the question where a program is.
pub fn which_answer(path: Option<String>) -> (r: Json)
    ensures
        r@ == json::empty_object().with(
            "path"@,
            match path {
                Some(path) => JsonView::Str(path@),
                None => JsonView::Null,
            },
        ),
{
    let path = match path {
        Some(path) => Json::String(path),
        None => Json::Null,
    };
    Json::object().with("path", path)
}

/// What the server tells of itself and its system.
pub open spec fn about_json(
    os: Seq<char>,
    arch: Seq<char>,
    family: Seq<char>,
    target: Seq<char>,
    wsl: bool,
) -> JsonView {
    json::empty_object().with("name"@, JsonView::Str("tidewave-cli"@)).with(
        "version"@,
        JsonView::Str(acp_relay::VERSION@),
    ).with(
        "system"@,
        json::empty_object().with("os"@, JsonView::Str(os)).with("arch"@, JsonView::Str(arch)).with(
            "family"@,
            JsonView::Str(family),
        ).with("target"@, JsonView::Str(target)).with("wsl"@, JsonView::Bool(wsl)),
    )
}

/// What the server tells of itself and its system.
pub fn about(os: &str, arch: &str, family: &str, target: &str, wsl: bool) -> (r: Json)
    ensures
        r@ == about_json(os@, arch@, family@, target@, wsl),
{
    let system = Json::object().with("os", Json::string(os)).with("arch", Json::string(arch)).with(
        "family",
        Json::string(family),
    ).with("target", Json::string(target)).with("wsl", Json::Bool(wsl));
    Json::object().with("name", Json::string("tidewave-cli")).with(
        "version",
        Json::string(acp_relay::VERSION),
    ).with("system", system)
}

/// What the server tells of itself and of the Windows Subsystem for Linux. `success` and `output` are
/// those of the command that was asked for the architecture; where it failed, the answer is a status.
pub fn about_wsl(success: bool, output: &[u8], target: &str) -> (r: Result<Json, u16>)
    ensures
        match r {
            Ok(body) => success && body@ == about_json(
                "linux"@,
                text::trimmed(text::lossy_text(output@)),
                "unix"@,
                target@,
                true,
            ),
            Err(status) => !success && status == 500,
        },
{
    if !success {
        return Err(500);
    }
    let printed = text::text_lossy(output);
    Ok(about("linux", text::trim(printed.as_str()), "unix", target, true))
}

/// What comes before the version in the page that the server shows.
pub const PAGE_HEAD: &'static str = "<!DOCTYPE html>\n<html>\n  <head>\n    <meta charset=\"UTF-8\" />\n    <meta name=\"viewport\" content=\"width=device-width, initial-scale=1.0\" />\n    <meta name=\"tidewave:source\" content=\"cli\" />\n    <meta name=\"tidewave:version\" content=\"";

/// What comes between the version and the address of the client.
pub const PAGE_SCRIPT: &'static str = "\" />\n    <script type=\"module\" src=\"";

/// What comes after the address of the client.
pub const PAGE_TAIL: &'static str = "/tc/tc.js\"></script>\n  </head>\n  <body></body>\n</html>";

/// The page that the server shows: it loads the client from its address.
pub fn root(client_url: Option<String>) -> (r: String)
    ensures
        r@ == PAGE_HEAD@ + acp_relay::VERSION@ + PAGE_SCRIPT@ + (match client_url {
            Some(url) => url@,
            None => "https://tidewave.ai"@,
        }) + PAGE_TAIL@,
{
    let url = match client_url {
        Some(url) => url,
        None => "https://tidewave.ai".to_owned(),
    };
    let mut page = text::joined(PAGE_HEAD, acp_relay::VERSION);
    page.append(PAGE_SCRIPT);
    page.append(url.as_str());
    page.append(PAGE_TAIL);
    page
}

/// Whether the client is served through this server: its address, where that is asked for.
pub fn client_proxy(flag: &Option<String>, client_url: Option<String>) -> (r: Option<String>)
    ensures
        json::opt_text(r) == (if json::opt_text(*flag) == Some("1"@) {
            json::opt_text(client_url)
        } else {
            None
        }),
{
    match flag {
        Some(flag) => if text::same_text(flag.as_str(), "1") {
            client_url
        } else {
            None
        },
        None => None,
    }
}

/// The agents to be stopped when the server ends.
pub fn agents_to_stop(state: &Relay) -> (r: Vec<String>)
    requires
        state.wf(),
    ensures
        text::texts(r@) == state.processes.order(),
{
    let mut keys: Vec<String> = Vec::new();
    let count: usize = state.processes.len();
    let mut i: usize = 0;
    while i < count
        invariant
            state.wf(),
            i <= count,
            count == state.processes.order().len(),
            keys@.len() == i,
            forall|k: int| 0 <= k < i ==> (#[trigger] keys@[k])@ == state.processes.order()[k],
        decreases count - i,
    {
        keys.push(state.processes.key_at(i).clone());
        i = i + 1;
    }
    assert(text::texts(keys@) =~= state.processes.order());
    keys
}

} // verus!
