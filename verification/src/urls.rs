//! URLs as the logic needs them: their scheme, host and port.

use vstd::prelude::*;

use crate::json;

verus! {

/// The scheme, the host and the port of a URL. The port is absent where it is the scheme's usual
/// one.
#[derive(Debug)]
pub struct UrlParts {
    pub scheme: String,
    pub host: Option<String>,
    pub port: Option<u16>,
}

/// The model of [`UrlParts`].
pub type PartsView = (Seq<char>, Option<Seq<char>>, Option<u16>);

impl View for UrlParts {
    type V = PartsView;

    open spec fn view(&self) -> PartsView {
        (self.scheme@, json::opt_text(self.host), self.port)
    }
}

/// The model of parts that may be missing.
pub open spec fn opt_parts(parts: Option<UrlParts>) -> Option<PartsView> {
    match parts {
        Some(parts) => Some(parts@),
        None => None,
    }
}

/// The scheme, the host and the port that `Url::parse` finds in a text, where it is a URL.
pub uninterp spec fn url_parts(text: Seq<char>) -> Option<(Seq<char>, Option<Seq<char>>, Option<u16>)>;

/// `Url::parse`, and the `scheme`, `host_str` and `port` of its result, which depend on the text
/// alone. `None` where the text is no URL.
#[verifier::external_body]
pub(crate) fn parse_url(text: &str) -> (r: Option<UrlParts>)
    ensures
        opt_parts(r) == url_parts(text@),
{
    reqwest::Url::parse(text).ok().map(|url| UrlParts {
        scheme: url.scheme().to_string(),
        host: url.host_str().map(|host| host.to_string()),
        port: url.port(),
    })
}

/// The URL that `Url::set_host` makes of a URL.
pub uninterp spec fn url_with_host(text: Seq<char>, host: Seq<char>) -> Seq<char>;

/// `Url::set_host`: the URL with another host, as a text. It depends on the two texts alone. A host
/// that the URL cannot have leaves it as it is, and what is no URL gives no text.
#[verifier::external_body]
pub(crate) fn with_host(text: &str, host: &str) -> (r: String)
    ensures
        r@ == url_with_host(text@, host@),
{
    let url = reqwest::Url::parse(text).map(|mut url| {
        url.set_host(Some(host)).ok();
        url
    });
    url.map(|url| url.to_string()).unwrap_or_default()
}

} // verus!
