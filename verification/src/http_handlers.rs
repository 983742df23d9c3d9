//! What the HTTP handlers for proxying and downloads decide.

use vstd::prelude::*;

use crate::archive;
use crate::json;
use crate::json::{Json, JsonView};
use crate::registry;
use crate::registry::Registry;
use crate::starts;
use crate::starts::StartStep;
use crate::text;
use crate::urls;
use crate::urls::{PartsView, UrlParts};

pub mod laws;

verus! {

broadcast use crate::registry::group_viewed;

// ---------------------------------------------------------------------------
// Proxying
// ---------------------------------------------------------------------------

/// The query of a request to be proxied.
#[derive(Debug)]
pub struct ProxyParams {
    pub url: String,
}

/// Whether a URL is one of the web.
pub open spec fn is_web_url(url: Seq<char>) -> bool {
    text::starts_with(url, "http://"@) || text::starts_with(url, "https://"@)
}

/// Refuses to proxy what is not a URL of the web.
pub fn check_proxy(params: &ProxyParams) -> (r: Result<(), u16>)
    ensures
        if is_web_url(params.url@) {
            r is Ok
        } else {
            r is Err && r->Err_0 == 400
        },
{
    if text::has_prefix(params.url.as_str(), "http://") || text::has_prefix(
        params.url.as_str(),
        "https://",
    ) {
        Ok(())
    } else {
        Err(400)
    }
}

/// The URL that a request for the client's own files goes to.
pub fn client_target(client_url: &str, path: &str, query: &Option<String>) -> (r: String)
    ensures
        r@ == client_url@ + path@ + (match query {
            Some(q) => "?"@ + q@,
            None => seq![],
        }),
{
    let mut url = text::joined(client_url, path);
    match query {
        Some(q) => {
            url.append("?");
            url.append(q.as_str());
            assert(url@ =~= client_url@ + path@ + ("?"@ + q@));
        },
        None => {
            assert(url@ =~= client_url@ + path@ + Seq::<char>::empty());
        },
    }
    url
}

/// The headers of a request that belong to its own connection.
pub open spec fn request_only() -> Seq<Seq<char>> {
    seq![
        "host"@,
        "connection"@,
        "transfer-encoding"@,
        "upgrade"@,
        "accept-encoding"@,
        "content-encoding"@,
        "origin"@,
    ]
}

/// The headers of a response that belong to its own connection.
pub open spec fn response_only() -> Seq<Seq<char>> {
    seq!["connection"@, "transfer-encoding"@, "content-encoding"@, "content-length"@]
}

/// Whether a header of a request is passed on.
pub fn forwards_request_header(name: &str) -> (r: bool)
    ensures
        r == !request_only().contains(name@),
{
    let own = text::same_text(name, "host") || text::same_text(name, "connection") || text::same_text(
        name,
        "transfer-encoding",
    ) || text::same_text(name, "upgrade") || text::same_text(name, "accept-encoding") || text::same_text(
        name,
        "content-encoding",
    ) || text::same_text(name, "origin");
    proof {
        let list = request_only();
        assert(list[0] == "host"@);
        assert(list[1] == "connection"@);
        assert(list[2] == "transfer-encoding"@);
        assert(list[3] == "upgrade"@);
        assert(list[4] == "accept-encoding"@);
        assert(list[5] == "content-encoding"@);
        assert(list[6] == "origin"@);
        if list.contains(name@) {
            let i = list.index_of(name@);
            assert(list[i] == name@);
        }
    }
    !own
}

/// Whether a header of a response is passed on.
pub fn forwards_response_header(name: &str) -> (r: bool)
    ensures
        r == !response_only().contains(name@),
{
    let own = text::same_text(name, "connection") || text::same_text(name, "transfer-encoding")
        || text::same_text(name, "content-encoding") || text::same_text(name, "content-length");
    proof {
        let list = response_only();
        assert(list[0] == "connection"@);
        assert(list[1] == "transfer-encoding"@);
        assert(list[2] == "content-encoding"@);
        assert(list[3] == "content-length"@);
        if list.contains(name@) {
            let i = list.index_of(name@);
            assert(list[i] == name@);
        }
    }
    !own
}

/// The host of a URL, where it is a name under `localhost`.
pub open spec fn local_name(parts: Option<PartsView>) -> Option<Seq<char>> {
    match parts {
        Some((_, Some(host), _)) => if text::ends_with(host, ".localhost"@) {
            Some(host)
        } else {
            None
        },
        _ => None,
    }
}

/// The host of a URL, where it is a name under `localhost`.
pub fn localhost_name(parts: Option<UrlParts>) -> (r: Option<String>)
    ensures
        json::opt_text(r) == local_name(urls::opt_parts(parts)),
{
    match parts {
        Some(parts) => match parts.host {
            Some(host) => if text::has_suffix(host.as_str(), ".localhost") {
                Some(host)
            } else {
                None
            },
            None => None,
        },
        None => None,
    }
}

/// A second attempt: the URL, and the host that the request names.
#[derive(Debug)]
pub struct Retry {
    pub url: String,
    pub host: String,
}

/// The second attempt for a request whose server could not be reached: names under `localhost` that
/// the system does not know stand for the machine itself.
pub fn retry_target(target_url: &str) -> (r: Option<Retry>)
    ensures
        match local_name(urls::url_parts(target_url@)) {
            Some(host) => {
                &&& r is Some
                &&& r->0.host@ == host
                &&& r->0.url@ == urls::url_with_host(target_url@, "127.0.0.1"@)
            },
            None => r is None,
        },
{
    match localhost_name(urls::parse_url(target_url)) {
        Some(host) => Some(Retry { url: urls::with_host(target_url, "127.0.0.1"), host }),
        None => None,
    }
}

/// The class of an error, by what it says.
pub open spec fn error_class(error: Seq<char>) -> Seq<char> {
    if text::has_part(error, "NotValidForName"@) {
        "not-valid-for-name"@
    } else if text::has_part(error, "InvalidCertificate"@) {
        "certificate-error"@
    } else if text::has_part(error, "ConnectionRefused"@) {
        "bad-connection"@
    } else {
        "general"@
    }
}

/// The class of the error of a request that failed, for the header of the answer.
pub fn error_type(error: &str) -> (r: &'static str)
    ensures
        r@ == error_class(error@),
{
    if text::contains_text(error, "NotValidForName") {
        "not-valid-for-name"
    } else if text::contains_text(error, "InvalidCertificate") {
        "certificate-error"
    } else if text::contains_text(error, "ConnectionRefused") {
        "bad-connection"
    } else {
        "general"
    }
}

// ---------------------------------------------------------------------------
// Downloads
// ---------------------------------------------------------------------------

/// The query of a download.
#[derive(Debug)]
pub struct DownloadParams {
    /// The name of the file in the cache.
    pub key: String,
    pub url: String,
    /// Slows the download down.
    pub throttle: Option<u64>,
    /// Whether the file is to be executable.
    pub executable: Option<bool>,
    /// The file to be taken out of an archive.
    pub extract: Option<String>,
    /// Whether the path of the file is wanted as it is inside the Windows Subsystem for Linux.
    pub is_wsl: bool,
}

/// Whether a key stands for a file in the cache, and not for one elsewhere.
pub open spec fn is_cache_key(key: Seq<char>) -> bool {
    &&& !text::has_part(key, "/"@)
    &&& !text::has_part(key, "\\"@)
    &&& !text::has_part(key, ":"@)
    &&& !text::has_part(key, ".."@)
}

/// Refuses a download whose key may stand for a file outside the cache, or whose URL is not one of
/// the web.
pub fn check_download(key: &str, url: &str) -> (r: Result<(), u16>)
    ensures
        if is_cache_key(key@) && is_web_url(url@) {
            r is Ok
        } else {
            r is Err && r->Err_0 == 400
        },
{
    if text::contains_text(key, "/") || text::contains_text(key, "\\") || text::contains_text(key, ":")
        || text::contains_text(key, "..") {
        return Err(400);
    }
    if text::has_prefix(url, "http://") || text::has_prefix(url, "https://") {
        Ok(())
    } else {
        Err(400)
    }
}

/// A key that is accepted is one component of a path.
pub proof fn lemma_cache_key_stays_inside(key: Seq<char>)
    requires
        is_cache_key(key),
    ensures
        !key.contains('/'),
        !key.contains('\\'),
        !key.contains(':'),
        key != ".."@,
{
    reveal_strlit("/");
    reveal_strlit("\\");
    reveal_strlit(":");
    if key.contains('/') {
        let i = key.index_of('/');
        assert(key.subrange(i, i + "/"@.len()) =~= "/"@);
    }
    if key.contains('\\') {
        let i = key.index_of('\\');
        assert(key.subrange(i, i + "\\"@.len()) =~= "\\"@);
    }
    if key.contains(':') {
        let i = key.index_of(':');
        assert(key.subrange(i, i + ":"@.len()) =~= ":"@);
    }
    if key == ".."@ {
        assert(key.subrange(0, 0int + ".."@.len()) =~= ".."@);
    }
}

/// How a download goes.
#[derive(Debug)]
pub enum DownloadProgress {
    Progress { size: u64, total: Option<u64> },
    Done { path: String },
    Error { message: String },
}

/// The model of a [`DownloadProgress`].
pub enum ProgressView {
    Progress { size: u64, total: Option<u64> },
    Done { path: Seq<char> },
    Error { message: Seq<char> },
}

impl View for DownloadProgress {
    type V = ProgressView;

    open spec fn view(&self) -> ProgressView {
        match self {
            DownloadProgress::Progress { size, total } => ProgressView::Progress {
                size: *size,
                total: *total,
            },
            DownloadProgress::Done { path } => ProgressView::Done { path: path@ },
            DownloadProgress::Error { message } => ProgressView::Error { message: message@ },
        }
    }
}

impl DownloadProgress {
    /// The line of JSON that tells the progress.
    pub fn to_line(&self) -> (r: String)
        ensures
            r@ == line_of(self@),
    {
        let mut fields: Vec<(&'static str, String)> = Vec::new();
        match self {
            DownloadProgress::Progress { size, total } => {
                fields.push(("status", Json::string("progress").to_text()));
                fields.push(("size", Json::uint(*size).to_text()));
                match total {
                    Some(total) => {
                        fields.push(("total", Json::uint(*total).to_text()));
                    },
                    None => {},
                }
            },
            DownloadProgress::Done { path } => {
                fields.push(("status", Json::string("done").to_text()));
                fields.push(("path", Json::string(path.as_str()).to_text()));
            },
            DownloadProgress::Error { message } => {
                fields.push(("status", Json::string("error").to_text()));
                fields.push(("message", Json::string(message.as_str()).to_text()));
            },
        }
        assert(json::fields_view(fields@) =~= progress_fields(self@));
        let mut line = json::write_record(fields);
        line.append("\n");
        line
    }
}

/// A download that runs.
#[derive(Debug, Clone, Copy, PartialEq, Eq, Structural)]
pub struct ActiveDownload {
    /// Whether the download has been started.
    pub started: bool,
}

impl View for ActiveDownload {
    type V = bool;

    open spec fn view(&self) -> bool {
        self.started
    }
}

/// The downloads that run, by key.
pub struct DownloadState {
    pub downloads: Registry<ActiveDownload>,
}

impl View for DownloadState {
    type V = Map<Seq<char>, bool>;

    open spec fn view(&self) -> Map<Seq<char>, bool> {
        registry::viewed(self.downloads@)
    }
}

/// Whether a request starts the download of a key.
pub open spec fn starts_download(downloads: Map<Seq<char>, bool>, key: Seq<char>) -> bool {
    !(downloads.contains_key(key) && downloads[key])
}

impl DownloadState {
    /// The table is well formed.
    pub open spec fn wf(&self) -> bool {
        self.downloads.wf()
    }

    /// Nothing is downloaded.
    pub fn new() -> (r: Self)
        ensures
            r.wf(),
            r@ == Map::<Seq<char>, bool>::empty(),
    {
        let r = DownloadState { downloads: Registry::new() };
        assert(r@ =~= Map::<Seq<char>, bool>::empty());
        r
    }

    /// A request for a key listens to the download of that key. Only the first starts it.
    pub fn join(&mut self, key: &str) -> (start: bool)
        requires
            old(self).wf(),
        ensures
            final(self).wf(),
            start == starts_download(old(self)@, key@),
            final(self)@ == old(self)@.insert(key@, true),
    {
        let started = match self.downloads.get(key) {
            Some(download) => download.started,
            None => false,
        };
        self.downloads.insert(key.to_owned(), ActiveDownload { started: true });
        !started
    }

    /// A download has ended.
    pub fn finish(&mut self, key: &str)
        requires
            old(self).wf(),
        ensures
            final(self).wf(),
            final(self)@ == old(self)@.remove(key@),
    {
        let _ = self.downloads.remove(key);
    }
}

/// Requests for one key share its download as long as it runs, whatever else is downloaded; after its
/// end the next request starts it anew.
pub proof fn lemma_download_starts_once(downloads: Map<Seq<char>, bool>, key: Seq<char>, steps: Seq<StartStep>)
    ensures
        (forall|i: int| 0 <= i < steps.len() ==> #[trigger] steps[i] != StartStep::Ended(key))
            ==> !starts_download(starts::after(downloads.insert(key, true), steps), key),
        (forall|i: int| 0 <= i < steps.len() ==> #[trigger] steps[i] != StartStep::Wanted(key))
            ==> starts_download(starts::after(downloads.remove(key), steps), key),
{
    if forall|i: int| 0 <= i < steps.len() ==> #[trigger] steps[i] != StartStep::Ended(key) {
        starts::lemma_shared_until_end(downloads.insert(key, true), steps, key);
    }
    if forall|i: int| 0 <= i < steps.len() ==> #[trigger] steps[i] != StartStep::Wanted(key) {
        starts::lemma_started_after_end(downloads.remove(key), steps, key);
    }
}

/// What a request hears of its download.
#[derive(Debug)]
pub enum Heard {
    Progress(DownloadProgress),
    Failed(String),
    /// The download has ended.
    Closed,
    /// Some news was lost.
    Lagged,
}

/// What a request does with what it hears.
#[derive(Debug)]
pub enum StreamStep {
    /// Send this line and go on.
    Line(String),
    /// Send this line and end.
    Last(String),
    GoOn,
    /// See whether the file is there, and end with [`last_line`].
    Finish,
}

/// The model of a [`StreamStep`].
pub enum StreamView {
    Line(Seq<char>),
    Last(Seq<char>),
    GoOn,
    Finish,
}

impl View for StreamStep {
    type V = StreamView;

    open spec fn view(&self) -> StreamView {
        match self {
            StreamStep::Line(line) => StreamView::Line(line@),
            StreamStep::Last(line) => StreamView::Last(line@),
            StreamStep::GoOn => StreamView::GoOn,
            StreamStep::Finish => StreamView::Finish,
        }
    }
}

/// The fields of the JSON that tells the progress, in their order.
pub open spec fn progress_fields(progress: ProgressView) -> Seq<(Seq<char>, Seq<char>)> {
    match progress {
        ProgressView::Progress { size, total } => {
            let base = seq![
                ("status"@, json::json_text(JsonView::Str("progress"@))),
                ("size"@, json::json_text(json::uint_json(size))),
            ];
            match total {
                Some(total) => base.push(("total"@, json::json_text(json::uint_json(total)))),
                None => base,
            }
        },
        ProgressView::Done { path } => seq![
            ("status"@, json::json_text(JsonView::Str("done"@))),
            ("path"@, json::json_text(JsonView::Str(path))),
        ],
        ProgressView::Error { message } => seq![
            ("status"@, json::json_text(JsonView::Str("error"@))),
            ("message"@, json::json_text(JsonView::Str(message))),
        ],
    }
}

/// The line that tells the progress.
pub open spec fn line_of(progress: ProgressView) -> Seq<char> {
    json::record_text(progress_fields(progress)) + "\n"@
}

/// Decides what a request does with what it hears of its download.
pub fn stream_step(heard: Heard) -> (r: StreamStep)
    ensures
        r@ == (match heard {
            Heard::Progress(progress) => StreamView::Line(line_of(progress@)),
            Heard::Failed(e) => StreamView::Last(line_of(ProgressView::Error { message: e@ })),
            Heard::Closed => StreamView::Finish,
            Heard::Lagged => StreamView::GoOn,
        }),
{
    match heard {
        Heard::Progress(progress) => StreamStep::Line(progress.to_line()),
        Heard::Failed(message) => StreamStep::Last(DownloadProgress::Error { message }.to_line()),
        Heard::Closed => StreamStep::Finish,
        Heard::Lagged => StreamStep::GoOn,
    }
}

/// The last line of a download that has ended: where the file is, or that it is not there.
/// `shown_path` is the path as the client is to see it.
pub fn last_line(exists: bool, path: &str, shown_path: &str) -> (r: String)
    ensures
        r@ == line_of(
            if exists {
                ProgressView::Done { path: shown_path@ }
            } else {
                ProgressView::Error {
                    message: "Download failed: file not found at "@ + text::quoted_text(path@),
                }
            },
        ),
{
    if exists {
        DownloadProgress::Done { path: shown_path.to_owned() }.to_line()
    } else {
        let message = text::joined(
            "Download failed: file not found at ",
            text::quoted(path).as_str(),
        );
        DownloadProgress::Error { message }.to_line()
    }
}

/// The path that the Windows Subsystem for Linux gives for a path, or the path itself where it
/// cannot be asked.
pub fn wsl_path(outcome: Option<(bool, Vec<u8>)>, windows_path: &str) -> (r: String)
    ensures
        r@ == (match outcome {
            Some((true, output)) => text::trimmed(text::lossy_text(output@)),
            _ => windows_path@,
        }),
{
    match outcome {
        Some((true, output)) => {
            let printed = text::text_lossy(output.as_slice());
            text::trim(printed.as_str()).to_owned()
        },
        _ => windows_path.to_owned(),
    }
}

/// Why a download fails.
#[derive(Debug)]
pub enum DownloadProblem {
    CacheDirectory(String),
    TempDirectory(String),
    Request(String),
    Status(String),
    TempFile(String),
    ChunkTimeout,
    Read(String),
    Write(String),
    Flush(String),
    ExtractionTask(String),
    Move(String),
    Metadata(String),
    Permissions(String),
}

/// What is told of a download that fails.
pub open spec fn problem_text(problem: DownloadProblem) -> Seq<char> {
    match problem {
        DownloadProblem::CacheDirectory(e) => "Failed to create cache directory: "@ + e@,
        DownloadProblem::TempDirectory(e) => "Failed to create temp directory: "@ + e@,
        DownloadProblem::Request(e) => "Failed to send request: "@ + e@,
        DownloadProblem::Status(status) => "HTTP error: "@ + status@,
        DownloadProblem::TempFile(e) => "Failed to create temp file: "@ + e@,
        DownloadProblem::ChunkTimeout => "Chunk read timed out after 30 seconds"@,
        DownloadProblem::Read(e) => "Failed to read/decompress: "@ + e@,
        DownloadProblem::Write(e) => "Failed to write to file: "@ + e@,
        DownloadProblem::Flush(e) => "Failed to flush file: "@ + e@,
        DownloadProblem::ExtractionTask(e) => "Extraction task failed: "@ + e@,
        DownloadProblem::Move(e) => "Failed to move downloaded file to final location: "@ + e@,
        DownloadProblem::Metadata(e) => "Failed to get file metadata: "@ + e@,
        DownloadProblem::Permissions(e) => "Failed to set executable permissions: "@ + e@,
    }
}

impl DownloadProblem {
    /// What is told of a download that fails.
    pub fn message(&self) -> (r: String)
        ensures
            r@ == problem_text(*self),
    {
        let (prefix, e) = match self {
            DownloadProblem::CacheDirectory(e) => ("Failed to create cache directory: ", e),
            DownloadProblem::TempDirectory(e) => ("Failed to create temp directory: ", e),
            DownloadProblem::Request(e) => ("Failed to send request: ", e),
            DownloadProblem::Status(status) => ("HTTP error: ", status),
            DownloadProblem::TempFile(e) => ("Failed to create temp file: ", e),
            DownloadProblem::ChunkTimeout => {
                return "Chunk read timed out after 30 seconds".to_owned();
            },
            DownloadProblem::Read(e) => ("Failed to read/decompress: ", e),
            DownloadProblem::Write(e) => ("Failed to write to file: ", e),
            DownloadProblem::Flush(e) => ("Failed to flush file: ", e),
            DownloadProblem::ExtractionTask(e) => ("Extraction task failed: ", e),
            DownloadProblem::Move(e) => ("Failed to move downloaded file to final location: ", e),
            DownloadProblem::Metadata(e) => ("Failed to get file metadata: ", e),
            DownloadProblem::Permissions(e) => ("Failed to set executable permissions: ", e),
        };
        text::joined(prefix, e.as_str())
    }
}

/// How the body of a response is encoded.
#[derive(Debug, Clone, Copy, PartialEq, Eq, Structural)]
pub enum Encoding {
    Brotli,
    Gzip,
    Plain,
}

/// How the body of a response is encoded, by its header.
pub fn encoding_of(header: &Option<String>) -> (r: Encoding)
    ensures
        r == (match json::opt_text(*header) {
            Some(name) => if name == "br"@ {
                Encoding::Brotli
            } else if name == "gzip"@ {
                Encoding::Gzip
            } else {
                Encoding::Plain
            },
            None => Encoding::Plain,
        }),
{
    match header {
        Some(name) => if text::same_text(name.as_str(), "br") {
            Encoding::Brotli
        } else if text::same_text(name.as_str(), "gzip") {
            Encoding::Gzip
        } else {
            Encoding::Plain
        },
        None => Encoding::Plain,
    }
}

/// How many bytes pass between two reports, where the size of a download is not known.
pub const UNKNOWN_SIZE_STEP: u64 = 1048576;

/// How many bytes pass between two reports of a download: a hundredth of its size, where that is
/// known. A size of 0 stands for an unknown one.
pub open spec fn step_of(total_size: u64) -> u64 {
    if total_size > 0 {
        total_size / 100
    } else {
        UNKNOWN_SIZE_STEP
    }
}

/// When the progress of a download is reported.
#[derive(Debug, Clone, Copy, PartialEq, Eq, Structural)]
pub struct Reporter {
    pub total_size: u64,
    pub step: u64,
    /// The number of bytes at which the next report is due.
    pub next_threshold: u64,
}

impl Reporter {
    /// The step is that of the size.
    pub open spec fn wf(self) -> bool {
        self.step == step_of(self.total_size)
    }

    /// The reports of a download of this size. The first is due at once.
    pub fn new(content_length: Option<u64>) -> (r: Self)
        ensures
            r.wf(),
            r.total_size == (match content_length {
                Some(n) => n,
                None => 0,
            }),
            r.next_threshold == 0,
    {
        let total_size: u64 = match content_length {
            Some(n) => n,
            None => 0,
        };
        let step: u64 = if total_size > 0 {
            total_size / 100
        } else {
            UNKNOWN_SIZE_STEP
        };
        Reporter { total_size, step, next_threshold: 0 }
    }

    /// The report that is due after so many bytes, if one is.
    pub fn report(&mut self, network_bytes: u64) -> (r: Option<DownloadProgress>)
        requires
            old(self).wf(),
            network_bytes + old(self).step <= u64::MAX,
        ensures
            final(self).wf(),
            final(self).total_size == old(self).total_size,
            if network_bytes >= old(self).next_threshold {
                &&& r is Some
                &&& r->0@ == (ProgressView::Progress {
                    size: network_bytes,
                    total: if old(self).total_size > 0 {
                        Some(old(self).total_size)
                    } else {
                        None
                    },
                })
                &&& final(self).next_threshold == network_bytes + old(self).step
            } else {
                &&& r is None
                &&& *final(self) == *old(self)
            },
    {
        if network_bytes >= self.next_threshold {
            self.next_threshold = network_bytes + self.step;
            let total = if self.total_size > 0 {
                Some(self.total_size)
            } else {
                None
            };
            Some(DownloadProgress::Progress { size: network_bytes, total })
        } else {
            None
        }
    }
}

/// Between two reports at least a step passes: what was reported at `reported` bytes is not reported
/// again before that.
pub proof fn lemma_reports_are_apart(total_size: u64, reported: u64, next_threshold: u64, size: u64)
    requires
        next_threshold == reported + step_of(total_size),
        size >= next_threshold,
    ensures
        size - reported >= step_of(total_size),
        total_size == 0 ==> size - reported >= 1048576,
{
}

/// The permissions of a file that everybody may execute.
pub fn executable_mode(mode: u32) -> (r: u32)
    ensures
        r == mode | 0o111u32,
{
    mode | 0o111u32
}

/// Making a file executable takes no permission away, and gives those to execute.
pub proof fn lemma_executable_mode(mode: u32)
    ensures
        (mode | 0o111u32) & mode == mode,
        (mode | 0o111u32) & 0o111u32 == 0o111u32,
{
    assert((mode | 0o111u32) & mode == mode) by (bit_vector);
    assert((mode | 0o111u32) & 0o111u32 == 0o111u32) by (bit_vector);
}

/// Whether a file in the directory for partial downloads was left behind: it is partial, and older
/// than an hour.
pub fn is_stale_part(age_secs: u64, extension: &Option<String>) -> (r: bool)
    ensures
        r == (age_secs > 3600 && json::opt_text(*extension) == Some("part"@)),
{
    match extension {
        Some(extension) => age_secs > 3600 && text::same_text(extension.as_str(), "part"),
        None => false,
    }
}

// ---------------------------------------------------------------------------
// Archives
// ---------------------------------------------------------------------------

/// How many entries are listed for a file that is not in an archive.
pub const LISTED_ENTRIES: usize = 20;

/// The path in an archive that is asked for: no `./` and then no `/` at its start.
pub open spec fn wanted_path(extract_path: Seq<char>) -> Seq<char> {
    text::without_prefixes(text::without_prefixes(extract_path, "./"@), "/"@)
}

/// The path of an entry: no `./` at its start.
pub open spec fn entry_path(path: Seq<u8>) -> Seq<char> {
    text::without_prefixes(text::lossy_text(path), "./"@)
}

/// The paths of entries before the first that cannot be read, cut to those that are listed.
pub open spec fn listed(entries: Seq<Result<Seq<u8>, Seq<char>>>) -> Seq<Seq<char>>
    decreases entries.len(),
{
    if entries.len() == 0 {
        seq![]
    } else {
        let rest = listed(entries.drop_last());
        match entries.last() {
            Ok(path) => if rest.len() < LISTED_ENTRIES {
                rest.push(entry_path(path))
            } else {
                rest
            },
            Err(_) => rest,
        }
    }
}

/// Whether an entry ends the search for a path: it is the entry, or it cannot be read.
pub open spec fn ends_search(entry: Result<Seq<u8>, Seq<char>>, wanted: Seq<char>) -> bool {
    match entry {
        Ok(path) => entry_path(path) == wanted,
        Err(_) => true,
    }
}

/// Whether the search for a path ends at a place.
pub open spec fn found_at(entries: Seq<Result<Seq<u8>, Seq<char>>>, wanted: Seq<char>, i: int) -> bool {
    &&& 0 <= i < entries.len()
    &&& ends_search(entries[i], wanted)
    &&& forall|j: int| 0 <= j < i ==> !ends_search(#[trigger] entries[j], wanted)
}

/// What is told of a file that is not in an archive.
pub open spec fn not_found_text(wanted: Seq<char>, entries: Seq<Result<Seq<u8>, Seq<char>>>) -> Seq<char> {
    "File '"@ + wanted + "' not found in archive. Found entries: "@ + text::shown_list(listed(entries))
}

/// Finds the entry for a path among the entries of an archive: its place, or what is told where it
/// is not there.
pub fn find_entry(entries: &Vec<Result<Vec<u8>, String>>, wanted: &str) -> (r: Result<usize, String>)
    ensures
        ({
            let all = archive::paths_view(entries@);
            match r {
                Ok(i) => found_at(all, wanted@, i as int) && all[i as int] is Ok,
                Err(message) => {
                    ||| exists|i: int| #[trigger]
                        found_at(all, wanted@, i) && all[i] is Err && message@
                            == "Failed to read archive entry: "@ + all[i]->Err_0
                    ||| (forall|i: int|
                        0 <= i < all.len() ==> !ends_search(#[trigger] all[i], wanted@)) && message@
                        == not_found_text(wanted@, all)
                },
            }
        }),
{
    let ghost all = archive::paths_view(entries@);
    let mut shown: Vec<String> = Vec::new();
    let mut i: usize = 0;
    proof {
        assert(all.take(0).len() == 0);
        assert(text::texts(shown@) =~= listed(all.take(0)));
    }
    while i < entries.len()
        invariant
            all == archive::paths_view(entries@),
            i <= entries.len(),
            forall|j: int| 0 <= j < i ==> !ends_search(#[trigger] all[j], wanted@),
            text::texts(shown@) == listed(all.take(i as int)),
        decreases entries.len() - i,
    {
        let ghost before = shown@;
        proof {
            assert(all.take(i + 1).drop_last() =~= all.take(i as int));
            assert(all.take(i + 1).last() == all[i as int]);
            assert(text::texts(shown@).len() == shown@.len());
        }
        match &entries[i] {
            Err(e) => {
                assert(all[i as int] == Err::<Seq<u8>, Seq<char>>(e@));
                assert(found_at(all, wanted@, i as int));
                return Err(text::joined("Failed to read archive entry: ", e.as_str()));
            },
            Ok(path) => {
                assert(all[i as int] == Ok::<Seq<u8>, Seq<char>>(path@));
                let name = text::trim_prefixes(text::text_lossy(path.as_slice()).as_str(), "./");
                if text::same_text(name.as_str(), wanted) {
                    assert(found_at(all, wanted@, i as int));
                    return Ok(i);
                }
                if shown.len() < LISTED_ENTRIES {
                    shown.push(name);
                    assert(text::texts(shown@) =~= text::texts(before).push(name@));
                }
            },
        }
        i = i + 1;
    }
    assert(all.take(all.len() as int) =~= all);
    let mut message = text::joined("File '", wanted);
    message.append("' not found in archive. Found entries: ");
    message.append(text::show_list(&shown).as_str());
    Err(message)
}

/// The contents of a file in a gzipped archive, or what is told where they cannot be had.
pub fn extract_from_tarball(bytes: &[u8], extract_path: &str) -> (r: Result<Vec<u8>, String>)
    ensures
        ({
            let wanted = wanted_path(extract_path@);
            match archive::archive_paths(bytes@) {
                Err(e) => r is Err && r->Err_0@ == "Failed to read archive entries: "@ + e,
                Ok(entries) => {
                    ||| exists|i: usize| #[trigger]
                        found_at(entries, wanted, i as int) && match entries[i as int] {
                            Err(e) => r is Err && r->Err_0@ == "Failed to read archive entry: "@ + e,
                            Ok(_) => match archive::archive_contents(bytes@, i) {
                                Ok(contents) => r is Ok && r->Ok_0@ == contents,
                                Err(e) => r is Err && r->Err_0@ == "Failed to read entry contents: "@ + e,
                            },
                        }
                    ||| (forall|i: int|
                        0 <= i < entries.len() ==> !ends_search(#[trigger] entries[i], wanted)) && r is Err
                        && r->Err_0@ == not_found_text(wanted, entries)
                },
            }
        }),
{
    let wanted = text::trim_prefixes(text::trim_prefixes(extract_path, "./").as_str(), "/");
    let entries = match archive::entry_paths(bytes) {
        Ok(entries) => entries,
        Err(e) => {
            return Err(text::joined("Failed to read archive entries: ", e.as_str()));
        },
    };
    let ghost all = archive::paths_view(entries@);
    match find_entry(&entries, wanted.as_str()) {
        Ok(i) => {
            assert(found_at(all, wanted@, i as int));
            match archive::entry_contents(bytes, i) {
                Ok(contents) => Ok(contents),
                Err(e) => Err(text::joined("Failed to read entry contents: ", e.as_str())),
            }
        },
        Err(message) => {
            proof {
                if exists|i: int| #[trigger]
                    found_at(all, wanted@, i) && all[i] is Err && message@
                        == "Failed to read archive entry: "@ + all[i]->Err_0 {
                    let i = choose|i: int| #[trigger]
                        found_at(all, wanted@, i) && all[i] is Err && message@
                            == "Failed to read archive entry: "@ + all[i]->Err_0;
                    let place = i as usize;
                    assert(i < entries@.len());
                    assert(place as int == i);
                    assert(found_at(all, wanted@, place as int));
                }
            }
            Err(message)
        },
    }
}

/// The search for a path ends at one place at most.
pub proof fn lemma_entry_is_unique(
    entries: Seq<Result<Seq<u8>, Seq<char>>>,
    wanted: Seq<char>,
    i: int,
    j: int,
)
    requires
        found_at(entries, wanted, i),
        found_at(entries, wanted, j),
    ensures
        i == j,
{
    if i < j {
        assert(!ends_search(entries[i], wanted));
    } else if j < i {
        assert(!ends_search(entries[j], wanted));
    }
}

/// At most the first few entries are listed for a file that is not there.
pub proof fn lemma_listed_is_short(entries: Seq<Result<Seq<u8>, Seq<char>>>)
    ensures
        listed(entries).len() <= LISTED_ENTRIES,
    decreases entries.len(),
{
    if entries.len() > 0 {
        lemma_listed_is_short(entries.drop_last());
    }
}

} // verus!
