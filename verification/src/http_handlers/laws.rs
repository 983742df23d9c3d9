//! What is passed on, what is refused and what is told, by name.

use vstd::prelude::*;

use crate::archive;
use crate::http_handlers;
use crate::http_handlers::{
    DownloadProblem, DownloadProgress, DownloadState, Encoding, Heard, ProgressView, ProxyParams, Reporter,
    Retry, StreamStep, StreamView,
};
use crate::json;
use crate::json::JsonView;
use crate::text;
use crate::urls;

verus! {

// ---------------------------------------------------------------------------
// Headers
// ---------------------------------------------------------------------------

/// A header of a request is kept back exactly if it is one of these: `host`, `connection`,
/// `transfer-encoding`, `upgrade`, `accept-encoding`, `content-encoding` and `origin`. Every other
/// header is passed on.
pub proof fn lemma_request_headers(name: Seq<char>)
    ensures
        http_handlers::request_only().contains(name) <==> {
            ||| name == "host"@
            ||| name == "connection"@
            ||| name == "transfer-encoding"@
            ||| name == "upgrade"@
            ||| name == "accept-encoding"@
            ||| name == "content-encoding"@
            ||| name == "origin"@
        },
{
    let list = http_handlers::request_only();
    assert(list[0] == "host"@);
    assert(list[1] == "connection"@);
    assert(list[2] == "transfer-encoding"@);
    assert(list[3] == "upgrade"@);
    assert(list[4] == "accept-encoding"@);
    assert(list[5] == "content-encoding"@);
    assert(list[6] == "origin"@);
    if list.contains(name) {
        let i = list.index_of(name);
        assert(list[i] == name);
    }
}

/// The headers that say who asks and what the body is are passed on with a request.
pub proof fn lemma_request_headers_that_stay()
    ensures
        !http_handlers::request_only().contains("content-type"@),
        !http_handlers::request_only().contains("content-length"@),
        !http_handlers::request_only().contains("authorization"@),
        !http_handlers::request_only().contains("accept"@),
        !http_handlers::request_only().contains("cookie"@),
        !http_handlers::request_only().contains("user-agent"@),
        !http_handlers::request_only().contains("referer"@),
{
    lemma_request_headers("content-type"@);
    lemma_request_headers("content-length"@);
    lemma_request_headers("authorization"@);
    lemma_request_headers("accept"@);
    lemma_request_headers("cookie"@);
    lemma_request_headers("user-agent"@);
    lemma_request_headers("referer"@);
    lemma_header_lengths();
    assert("upgrade"@[0] == 'u');
    assert("referer"@[0] == 'r');
    assert("origin"@[0] == 'o');
    assert("accept"@[0] == 'a');
    assert("cookie"@[0] == 'c');
    assert("connection"@[0] == 'c');
    assert("user-agent"@[0] == 'u');
}

proof fn lemma_header_lengths()
    ensures
        "host"@.len() == 4,
        "connection"@.len() == 10,
        "transfer-encoding"@.len() == 17,
        "upgrade"@.len() == 7,
        "accept-encoding"@.len() == 15,
        "content-encoding"@.len() == 16,
        "origin"@.len() == 6,
        "content-type"@.len() == 12,
        "content-length"@.len() == 14,
        "authorization"@.len() == 13,
        "accept"@.len() == 6,
        "cookie"@.len() == 6,
        "set-cookie"@.len() == 10,
        "user-agent"@.len() == 10,
        "referer"@.len() == 7,
        "location"@.len() == 8,
        "upgrade"@[0] == 'u',
        "referer"@[0] == 'r',
        "origin"@[0] == 'o',
        "accept"@[0] == 'a',
        "cookie"@[0] == 'c',
        "connection"@[0] == 'c',
        "user-agent"@[0] == 'u',
        "set-cookie"@[0] == 's',
{
    reveal_strlit("host");
    reveal_strlit("connection");
    reveal_strlit("transfer-encoding");
    reveal_strlit("upgrade");
    reveal_strlit("accept-encoding");
    reveal_strlit("content-encoding");
    reveal_strlit("origin");
    reveal_strlit("content-type");
    reveal_strlit("content-length");
    reveal_strlit("authorization");
    reveal_strlit("accept");
    reveal_strlit("cookie");
    reveal_strlit("set-cookie");
    reveal_strlit("user-agent");
    reveal_strlit("referer");
    reveal_strlit("location");
}

/// A header of a response is kept back exactly if it is one of these: `connection`,
/// `transfer-encoding`, `content-encoding` and `content-length`. Every other header is passed on.
pub proof fn lemma_response_headers(name: Seq<char>)
    ensures
        http_handlers::response_only().contains(name) <==> {
            ||| name == "connection"@
            ||| name == "transfer-encoding"@
            ||| name == "content-encoding"@
            ||| name == "content-length"@
        },
{
    let list = http_handlers::response_only();
    assert(list[0] == "connection"@);
    assert(list[1] == "transfer-encoding"@);
    assert(list[2] == "content-encoding"@);
    assert(list[3] == "content-length"@);
    if list.contains(name) {
        let i = list.index_of(name);
        assert(list[i] == name);
    }
}

/// The headers that say what the body is, and those by which a server speaks with a browser, are passed
/// on with a response.
pub proof fn lemma_response_headers_that_stay()
    ensures
        !http_handlers::response_only().contains("content-type"@),
        !http_handlers::response_only().contains("set-cookie"@),
        !http_handlers::response_only().contains("location"@),
{
    lemma_response_headers("content-type"@);
    lemma_response_headers("set-cookie"@);
    lemma_response_headers("location"@);
    lemma_header_lengths();
}

// ---------------------------------------------------------------------------
// URLs and errors
// ---------------------------------------------------------------------------

/// A URL of the web begins with `http://` or `https://`; what follows does not matter.
pub proof fn lemma_web_urls(rest: Seq<char>, url: Seq<char>)
    ensures
        http_handlers::is_web_url("http://"@ + rest),
        http_handlers::is_web_url("https://"@ + rest),
        http_handlers::is_web_url(url) ==> url == "http://"@ + url.skip(7) || url == "https://"@ + url.skip(8),
{
    reveal_strlit("http://");
    reveal_strlit("https://");
    lemma_prefix("http://"@, rest);
    lemma_prefix("https://"@, rest);
    if text::starts_with(url, "http://"@) {
        assert(url =~= url.take(7) + url.skip(7));
    }
    if text::starts_with(url, "https://"@) {
        assert(url =~= url.take(8) + url.skip(8));
    }
}

proof fn lemma_prefix(prefix: Seq<char>, rest: Seq<char>)
    ensures
        text::starts_with(prefix + rest, prefix),
{
    assert((prefix + rest).take(prefix.len() as int) =~= prefix);
}

/// A host stands for the machine itself if it is a name under `localhost`; `localhost` alone does not
/// need to, nor does a URL without a host or a text that is no URL.
pub proof fn lemma_local_names(scheme: Seq<char>, name: Seq<char>, port: Option<u16>, host: Seq<char>)
    ensures
        http_handlers::local_name(Some((scheme, Some(name + ".localhost"@), port))) == Some(
            name + ".localhost"@,
        ),
        http_handlers::local_name(Some((scheme, Some("localhost"@), port))) is None,
        http_handlers::local_name(Some((scheme, None, port))) is None,
        http_handlers::local_name(None) is None,
        http_handlers::local_name(Some((scheme, Some(host), port))) is Some ==> http_handlers::local_name(
            Some((scheme, Some(host), port)),
        ) == Some(host) && exists|before: Seq<char>| host == #[trigger] (before + ".localhost"@),
{
    let suffix = ".localhost"@;
    assert((name + suffix).skip((name + suffix).len() - suffix.len()) =~= suffix);
    reveal_strlit(".localhost");
    reveal_strlit("localhost");
    assert("localhost"@.len() == 9);
    assert(suffix.len() == 10);
    if text::ends_with(host, suffix) {
        assert(host =~= host.take(host.len() - suffix.len()) + suffix);
    }
}

/// The class of an error: what is said of the name of a certificate counts before the certificate, and
/// that before the connection.
pub proof fn lemma_error_classes(error: Seq<char>)
    ensures
        ({
            let name = text::has_part(error, "NotValidForName"@);
            let certificate = text::has_part(error, "InvalidCertificate"@);
            let connection = text::has_part(error, "ConnectionRefused"@);
            let class = http_handlers::error_class(error);
            &&& name ==> class == "not-valid-for-name"@
            &&& !name && certificate ==> class == "certificate-error"@
            &&& !name && !certificate && connection ==> class == "bad-connection"@
            &&& !name && !certificate && !connection ==> class == "general"@
        }),
{
}

// ---------------------------------------------------------------------------
// Downloads
// ---------------------------------------------------------------------------

/// A key is accepted exactly if it holds none of these: a slash, a backslash, a colon, two dots.
pub proof fn lemma_cache_keys(key: Seq<char>)
    ensures
        http_handlers::is_cache_key(key) <==> {
            &&& !key.contains('/')
            &&& !key.contains('\\')
            &&& !key.contains(':')
            &&& forall|i: int|
                #![trigger key[i]]
                0 <= i < key.len() - 1 ==> !(key[i] == '.' && key[i + 1] == '.')
        },
{
    reveal_strlit("/");
    reveal_strlit("\\");
    reveal_strlit(":");
    reveal_strlit("..");
    assert("/"@ =~= seq!['/']);
    assert("\\"@ =~= seq!['\\']);
    assert(":"@ =~= seq![':']);
    lemma_single(key, '/', "/"@);
    lemma_single(key, '\\', "\\"@);
    lemma_single(key, ':', ":"@);
    if text::has_part(key, ".."@) {
        let i = choose|i: int|
            0 <= i <= key.len() - ".."@.len() && #[trigger] key.subrange(i, i + ".."@.len()) == ".."@;
        assert(key.subrange(i, i + 2)[0] == key[i]);
        assert(key.subrange(i, i + 2)[1] == key[i + 1]);
    } else {
        assert forall|i: int|
            #![trigger key[i]]
            0 <= i < key.len() - 1 implies !(key[i] == '.' && key[i + 1] == '.') by {
            if key[i] == '.' && key[i + 1] == '.' {
                assert(key.subrange(i, i + ".."@.len()) =~= ".."@);
            }
        }
    }
}

proof fn lemma_single(key: Seq<char>, c: char, part: Seq<char>)
    requires
        part == seq![c],
    ensures
        text::has_part(key, part) <==> key.contains(c),
{
    if key.contains(c) {
        let i = key.index_of(c);
        assert(key.subrange(i, i + part.len()) =~= part);
    }
    if text::has_part(key, part) {
        let i = choose|i: int|
            0 <= i <= key.len() - part.len() && #[trigger] key.subrange(i, i + part.len()) == part;
        assert(key.subrange(i, i + 1)[0] == key[i]);
    }
}

/// The fields of each line that tells how a download goes, in their order.
pub proof fn lemma_progress_fields(size: u64, total: u64, path: Seq<char>, message: Seq<char>)
    ensures
        http_handlers::progress_fields((ProgressView::Progress { size, total: None })) == seq![
            ("status"@, json::json_text(JsonView::Str("progress"@))),
            ("size"@, json::json_text(json::uint_json(size))),
        ],
        http_handlers::progress_fields((ProgressView::Progress { size, total: Some(total) })) == seq![
            ("status"@, json::json_text(JsonView::Str("progress"@))),
            ("size"@, json::json_text(json::uint_json(size))),
            ("total"@, json::json_text(json::uint_json(total))),
        ],
        http_handlers::progress_fields((ProgressView::Done { path })) == seq![
            ("status"@, json::json_text(JsonView::Str("done"@))),
            ("path"@, json::json_text(JsonView::Str(path))),
        ],
        http_handlers::progress_fields((ProgressView::Error { message })) == seq![
            ("status"@, json::json_text(JsonView::Str("error"@))),
            ("message"@, json::json_text(JsonView::Str(message))),
        ],
{
}

/// Each piece of news is a record on a line of its own.
pub proof fn lemma_progress_line(progress: ProgressView)
    ensures
        http_handlers::line_of(progress) == json::record_text(http_handlers::progress_fields(progress)) + seq![
            '\n',
        ],
{
    reveal_strlit("\n");
    assert("\n"@ =~= seq!['\n']);
}

/// What a failed download says of each step that can fail.
pub proof fn lemma_download_problems(e: String)
    ensures
        http_handlers::problem_text(DownloadProblem::CacheDirectory(e))
            == "Failed to create cache directory: "@ + e@,
        http_handlers::problem_text(DownloadProblem::TempDirectory(e))
            == "Failed to create temp directory: "@ + e@,
        http_handlers::problem_text(DownloadProblem::Request(e)) == "Failed to send request: "@ + e@,
        http_handlers::problem_text(DownloadProblem::Status(e)) == "HTTP error: "@ + e@,
        http_handlers::problem_text(DownloadProblem::TempFile(e)) == "Failed to create temp file: "@ + e@,
        http_handlers::problem_text(DownloadProblem::ChunkTimeout)
            == "Chunk read timed out after 30 seconds"@,
        http_handlers::problem_text(DownloadProblem::Read(e)) == "Failed to read/decompress: "@ + e@,
        http_handlers::problem_text(DownloadProblem::Write(e)) == "Failed to write to file: "@ + e@,
        http_handlers::problem_text(DownloadProblem::Flush(e)) == "Failed to flush file: "@ + e@,
        http_handlers::problem_text(DownloadProblem::ExtractionTask(e)) == "Extraction task failed: "@ + e@,
        http_handlers::problem_text(DownloadProblem::Move(e))
            == "Failed to move downloaded file to final location: "@ + e@,
        http_handlers::problem_text(DownloadProblem::Metadata(e)) == "Failed to get file metadata: "@ + e@,
        http_handlers::problem_text(DownloadProblem::Permissions(e))
            == "Failed to set executable permissions: "@ + e@,
{
}

/// A download is reported a hundred times at most if its size is known, and once in a mebibyte if it is
/// not.
pub proof fn lemma_report_step(total_size: u64)
    ensures
        http_handlers::step_of(0) == 1024 * 1024,
        total_size > 0 ==> 100 * http_handlers::step_of(total_size) <= total_size,
        total_size > 0 ==> total_size < 100 * (http_handlers::step_of(total_size) + 1),
{
}

/// A download starts if none runs under its key.
pub proof fn lemma_download_starts(downloads: Map<Seq<char>, bool>, key: Seq<char>)
    ensures
        http_handlers::starts_download(downloads, key) <==> !downloads.contains_key(key) || !downloads[key],
{
}

// ---------------------------------------------------------------------------
// Archives
// ---------------------------------------------------------------------------

/// The path of the file that is wanted does not begin with `./`, and its own slashes in front do not
/// count; a path without them is looked for as it is.
pub proof fn lemma_wanted_path(path: Seq<char>)
    ensures
        !text::starts_with(path, "./"@) && !text::starts_with(path, "/"@) ==> http_handlers::wanted_path(path)
            == path,
        http_handlers::wanted_path("./"@ + path) == http_handlers::wanted_path(path),
        !text::starts_with(path, "./"@) && !text::starts_with("/"@ + path, "./"@)
            ==> http_handlers::wanted_path("/"@ + path) == http_handlers::wanted_path(path),
{
    reveal_strlit("./");
    reveal_strlit("/");
    let dotted = "./"@ + path;
    assert(dotted.take(2) =~= "./"@);
    assert(dotted.skip(2) =~= path);
    let slashed = "/"@ + path;
    assert(slashed.take(1) =~= "/"@);
    assert(slashed.skip(1) =~= path);
}

/// A search ends at the entry that is wanted, or at one that cannot be read.
pub proof fn lemma_search_ends(path: Seq<u8>, error: Seq<char>, wanted: Seq<char>)
    ensures
        http_handlers::ends_search(Ok(path), wanted) <==> http_handlers::entry_path(path) == wanted,
        http_handlers::ends_search(Err(error), wanted),
{
}

/// The entries that are listed for a file that is not there: the first twenty that can be read, in
/// their order.
pub proof fn lemma_listed_entries(
    entries: Seq<Result<Seq<u8>, Seq<char>>>,
    path: Seq<u8>,
    error: Seq<char>,
)
    ensures
        http_handlers::listed(Seq::<Result<Seq<u8>, Seq<char>>>::empty()).len() == 0,
        http_handlers::listed(entries).len() < 20 ==> http_handlers::listed(entries.push(Ok(path)))
            == http_handlers::listed(entries).push(http_handlers::entry_path(path)),
        http_handlers::listed(entries).len() >= 20 ==> http_handlers::listed(entries.push(Ok(path)))
            == http_handlers::listed(entries),
        http_handlers::listed(entries.push(Err(error))) == http_handlers::listed(entries),
{
    assert(entries.push(Ok(path)).drop_last() =~= entries);
    assert(entries.push(Err(error)).drop_last() =~= entries);
}

/// What is said of a file that is not in an archive: its name, and the entries that are there.
pub proof fn lemma_not_found_text(wanted: Seq<char>, entries: Seq<Result<Seq<u8>, Seq<char>>>)
    ensures
        http_handlers::not_found_text(wanted, entries) == "File '"@ + wanted
            + "' not found in archive. Found entries: "@ + text::shown_list(http_handlers::listed(entries)),
{
}

// ---------------------------------------------------------------------------
// What the calls do
// ---------------------------------------------------------------------------

/// A header of a request is passed on unless it is `host`, `connection`, `transfer-encoding`, `upgrade`,
/// `accept-encoding`, `content-encoding` or `origin`.
pub proof fn lemma_request_header_call(name: &str, passed_on: bool)
    requires
        call_ensures(http_handlers::forwards_request_header, (name,), passed_on),
    ensures
        !passed_on <==> {
            ||| name@ == "host"@
            ||| name@ == "connection"@
            ||| name@ == "transfer-encoding"@
            ||| name@ == "upgrade"@
            ||| name@ == "accept-encoding"@
            ||| name@ == "content-encoding"@
            ||| name@ == "origin"@
        },
        name@ == "content-type"@ || name@ == "authorization"@ || name@ == "cookie"@ || name@
            == "content-length"@ ==> passed_on,
{
    lemma_request_headers(name@);
    lemma_request_headers_that_stay();
}

/// A header of a response is passed on unless it is `connection`, `transfer-encoding`,
/// `content-encoding` or `content-length`.
pub proof fn lemma_response_header_call(name: &str, passed_on: bool)
    requires
        call_ensures(http_handlers::forwards_response_header, (name,), passed_on),
    ensures
        !passed_on <==> {
            ||| name@ == "connection"@
            ||| name@ == "transfer-encoding"@
            ||| name@ == "content-encoding"@
            ||| name@ == "content-length"@
        },
        name@ == "content-type"@ || name@ == "set-cookie"@ || name@ == "location"@ ==> passed_on,
{
    lemma_response_headers(name@);
    lemma_response_headers_that_stay();
}

/// Only URLs of the web are proxied and downloaded; anything else is a bad request, and so is a key that
/// may stand for a file outside the cache.
pub proof fn lemma_check_calls(
    params: &ProxyParams,
    key: &str,
    url: &str,
    proxied: Result<(), u16>,
    downloaded: Result<(), u16>,
)
    requires
        call_ensures(http_handlers::check_proxy, (params,), proxied),
        call_ensures(http_handlers::check_download, (key, url), downloaded),
    ensures
        proxied is Ok <==> text::starts_with(params.url@, "http://"@) || text::starts_with(
            params.url@,
            "https://"@,
        ),
        proxied is Err ==> proxied->Err_0 == 400,
        downloaded is Ok <==> (text::starts_with(url@, "http://"@) || text::starts_with(url@, "https://"@))
            && !text::has_part(key@, "/"@) && !text::has_part(key@, "\\"@) && !text::has_part(key@, ":"@)
            && !text::has_part(key@, ".."@),
        downloaded is Err ==> downloaded->Err_0 == 400,
{
}

/// A request for the client's own files goes to the client's address with its path, and with its query
/// where it has one.
pub proof fn lemma_client_target_call(client_url: &str, path: &str, query: &Option<String>, r: String)
    requires
        call_ensures(http_handlers::client_target, (client_url, path, query), r),
    ensures
        *query is None ==> r@ == client_url@ + path@,
        *query is Some ==> r@ == client_url@ + path@ + "?"@ + query->0@,
{
    assert(client_url@ + path@ + Seq::<char>::empty() =~= client_url@ + path@);
    if *query is Some {
        assert(client_url@ + path@ + ("?"@ + query->0@) =~= client_url@ + path@ + "?"@ + query->0@);
    }
}

/// A request for a name under `localhost` that cannot be reached is tried again on the machine itself,
/// under the same name. No other request is.
pub proof fn lemma_retry_call(target_url: &str, r: Option<Retry>)
    requires
        call_ensures(http_handlers::retry_target, (target_url,), r),
    ensures
        match urls::url_parts(target_url@) {
            Some((_, Some(host), _)) => {
                &&& r is Some <==> text::ends_with(host, ".localhost"@)
                &&& r is Some ==> r->0.host@ == host && r->0.url@ == urls::url_with_host(
                    target_url@,
                    "127.0.0.1"@,
                )
            },
            _ => r is None,
        },
{
}

/// What a request hears of its download is told line by line. A failure is the last line, the end leads
/// to a look at the file, and lost news are passed over.
pub proof fn lemma_stream_calls(
    progress: DownloadProgress,
    error: String,
    line: StreamStep,
    last: StreamStep,
    finish: StreamStep,
    lagged: StreamStep,
)
    requires
        call_ensures(http_handlers::stream_step, (Heard::Progress(progress),), line),
        call_ensures(http_handlers::stream_step, (Heard::Failed(error),), last),
        call_ensures(http_handlers::stream_step, (Heard::Closed,), finish),
        call_ensures(http_handlers::stream_step, (Heard::Lagged,), lagged),
    ensures
        line@ == StreamView::Line(http_handlers::line_of(progress@)),
        last@ == StreamView::Last(http_handlers::line_of((ProgressView::Error { message: error@ }))),
        finish@ is Finish,
        lagged@ is GoOn,
{
}

/// The last line says where the file is, as the client sees it, or that it is not where it should be.
pub proof fn lemma_last_line_call(exists: bool, path: &str, shown_path: &str, r: String)
    requires
        call_ensures(http_handlers::last_line, (exists, path, shown_path), r),
    ensures
        exists ==> r@ == http_handlers::line_of((ProgressView::Done { path: shown_path@ })),
        !exists ==> r@ == http_handlers::line_of(
            (ProgressView::Error {
                message: "Download failed: file not found at "@ + text::quoted_text(path@),
            }),
        ),
{
}

/// A path is shown as the Windows Subsystem for Linux names it, if that could be asked, and else as it
/// is.
pub proof fn lemma_wsl_path_call(outcome: Option<(bool, Vec<u8>)>, windows_path: &str, r: String)
    requires
        call_ensures(http_handlers::wsl_path, (outcome, windows_path), r),
    ensures
        outcome is Some && (outcome->0).0 ==> r@ == text::trimmed(text::lossy_text((outcome->0).1@)),
        outcome is None || !(outcome->0).0 ==> r@ == windows_path@,
{
}

/// A body is read as brotli or gzip if its header says so, and else as it is.
pub proof fn lemma_encoding_call(header: &Option<String>, r: Encoding)
    requires
        call_ensures(http_handlers::encoding_of, (header,), r),
    ensures
        r == Encoding::Brotli <==> *header is Some && header->0@ == "br"@,
        r == Encoding::Gzip <==> *header is Some && header->0@ == "gzip"@,
{
    reveal_strlit("br");
    reveal_strlit("gzip");
    assert("br"@.len() == 2);
    assert("gzip"@.len() == 4);
}

/// A report says how many bytes have come, and of how many where that is known. It is due when enough
/// bytes have come since the last one, and not before.
pub proof fn lemma_report_call(reporter: &mut Reporter, network_bytes: u64, r: Option<DownloadProgress>)
    requires
        call_ensures(Reporter::report, (reporter, network_bytes), r),
    ensures
        r is Some <==> network_bytes >= old(reporter).next_threshold,
        r is Some && old(reporter).total_size > 0 ==> r->0@ == (ProgressView::Progress {
            size: network_bytes,
            total: Some(old(reporter).total_size),
        }),
        r is Some && old(reporter).total_size == 0 ==> r->0@ == (ProgressView::Progress {
            size: network_bytes,
            total: None,
        }),
        r is Some ==> final(reporter).next_threshold == network_bytes + old(reporter).step,
        r is None ==> *final(reporter) == *old(reporter),
{
}

/// Reports of a download begin with its first byte.
pub proof fn lemma_reporter_call(content_length: Option<u64>, r: Reporter)
    requires
        call_ensures(Reporter::new, (content_length,), r),
    ensures
        r.next_threshold == 0,
        content_length is Some ==> r.total_size == content_length->0,
        content_length is None ==> r.total_size == 0,
        r.total_size == 0 ==> r.step == 1048576,
        r.total_size > 0 ==> r.step == r.total_size / 100,
{
}

/// A partial file is left behind if it is older than an hour.
pub proof fn lemma_stale_call(age_secs: u64, extension: &Option<String>, r: bool)
    requires
        call_ensures(http_handlers::is_stale_part, (age_secs, extension), r),
    ensures
        r <==> age_secs > 60 * 60 && *extension is Some && extension->0@ == "part"@,
{
}

/// A download is started by the first request for its key, and joined by the others until it ends.
pub proof fn lemma_download_calls(state: &mut DownloadState, key: &str, start: bool)
    requires
        call_ensures(DownloadState::join, (state, key), start),
    ensures
        start <==> !old(state)@.contains_key(key@) || !old(state)@[key@],
        final(state)@ == old(state)@.insert(key@, true),
{
}

/// The file that is taken from an archive is the first entry of its name. What cannot be read before it
/// is the error.
pub proof fn lemma_extract_call(bytes: &[u8], extract_path: &str, r: Result<Vec<u8>, String>)
    requires
        call_ensures(http_handlers::extract_from_tarball, (bytes, extract_path), r),
    ensures
        archive::archive_paths(bytes@) is Err ==> r is Err && r->Err_0@ == "Failed to read archive entries: "@
            + archive::archive_paths(bytes@)->Err_0,
        r is Ok ==> archive::archive_paths(bytes@) is Ok && exists|i: usize|
            #![trigger archive::archive_contents(bytes@, i)]
            i < archive::archive_paths(bytes@)->Ok_0.len() && archive::archive_paths(bytes@)->Ok_0[i as int]
                is Ok && http_handlers::entry_path(
                archive::archive_paths(bytes@)->Ok_0[i as int]->Ok_0,
            ) == http_handlers::wanted_path(extract_path@) && archive::archive_contents(bytes@, i) == Ok::<
                Seq<u8>,
                Seq<char>,
            >(r->Ok_0@),
{
}

/// The texts of errors, of lines and of failed downloads are those of their laws, and a file is made
/// executable for everybody.
pub proof fn lemma_text_calls(
    error: &str,
    progress: &DownloadProgress,
    problem: &DownloadProblem,
    mode: u32,
    class: &'static str,
    line: String,
    text: String,
    executable: u32,
)
    requires
        call_ensures(http_handlers::error_type, (error,), class),
        call_ensures(DownloadProgress::to_line, (progress,), line),
        call_ensures(DownloadProblem::message, (problem,), text),
        call_ensures(http_handlers::executable_mode, (mode,), executable),
    ensures
        class@ == http_handlers::error_class(error@),
        line@ == http_handlers::line_of(progress@),
        text@ == http_handlers::problem_text(*problem),
        executable & 0o111u32 == 0o111u32,
        executable & mode == mode,
        executable & !0o111u32 == mode & !0o111u32,
{
    assert((mode | 0o111u32) & 0o111u32 == 0o111u32) by (bit_vector);
    assert((mode | 0o111u32) & mode == mode) by (bit_vector);
    assert((mode | 0o111u32) & !0o111u32 == mode & !0o111u32) by (bit_vector);
}

/// What is taken from an archive is the contents of the entry that is found. An entry that cannot be read
/// is an error with the reason.
pub proof fn lemma_extract_found_call(
    bytes: &[u8],
    extract_path: &str,
    r: Result<Vec<u8>, String>,
    i: usize,
)
    requires
        call_ensures(http_handlers::extract_from_tarball, (bytes, extract_path), r),
        archive::archive_paths(bytes@) is Ok,
        http_handlers::found_at(
            archive::archive_paths(bytes@)->Ok_0,
            http_handlers::wanted_path(extract_path@),
            i as int,
        ),
    ensures
        ({
            let entry = archive::archive_paths(bytes@)->Ok_0[i as int];
            let contents = archive::archive_contents(bytes@, i);
            &&& entry is Err ==> r is Err && r->Err_0@ == "Failed to read archive entry: "@ + entry->Err_0
            &&& entry is Ok && contents is Ok ==> r is Ok && r->Ok_0@ == contents->Ok_0
            &&& entry is Ok && contents is Err ==> r is Err && r->Err_0@
                == "Failed to read entry contents: "@ + contents->Err_0
        }),
{
    let entries = archive::archive_paths(bytes@)->Ok_0;
    let wanted = http_handlers::wanted_path(extract_path@);
    assert(http_handlers::ends_search(entries[i as int], wanted));
    assert forall|k: usize| #[trigger] http_handlers::found_at(entries, wanted, k as int) implies k == i by {
        if k < i {
            assert(!http_handlers::ends_search(entries[k as int], wanted));
        }
        if i < k {
            assert(!http_handlers::ends_search(entries[i as int], wanted));
        }
    }
}

} // verus!
