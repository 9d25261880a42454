//! The parts of a URL that the shell's rules read.

use vstd::prelude::*;

verus! {

/// Scheme, host and port of a URL.
pub struct UrlParts {
    pub scheme: String,
    /// The host, where the URL has one.
    pub host: Option<String>,
    /// The port, written or known for the scheme.
    pub port: Option<u16>,
}

/// The texts of [`UrlParts`].
pub struct UrlView {
    pub scheme: Seq<char>,
    pub host: Option<Seq<char>>,
    pub port: Option<u16>,
}

impl View for UrlParts {
    type V = UrlView;

    open spec fn view(&self) -> UrlView {
        UrlView {
            scheme: self.scheme@,
            host: crate::paths::optional_text(self.host),
            port: self.port,
        }
    }
}

/// What `reqwest::Url::parse` reads from a text, or the message of its error.
pub uninterp spec fn url_parse(text: Seq<char>) -> Result<UrlView, Seq<char>>;

/// Reads a URL, by `reqwest::Url::parse`, and hands out what its `scheme`,
/// `host_str` and `port_or_known_default` return, or the text of the error.
///
/// Trusted of it: all of these are a function of the text.
#[verifier::external_body]
pub(crate) fn read_url(text: &str) -> (url: Result<UrlParts, String>)
    ensures
        match url {
            Ok(parts) => url_parse(text@) == Ok::<UrlView, Seq<char>>(parts@),
            Err(message) => url_parse(text@) == Err::<UrlView, Seq<char>>(message@),
        },
{
    match reqwest::Url::parse(text) {
        Ok(url) => Ok(
            UrlParts {
                scheme: url.scheme().to_string(),
                host: url.host_str().map(str::to_string),
                port: url.port_or_known_default(),
            },
        ),
        Err(error) => Err(error.to_string()),
    }
}

impl UrlParts {
    /// Reads a URL.
    pub fn parse(text: &str) -> (url: Result<UrlParts, String>)
        ensures
            match url {
                Ok(parts) => url_parse(text@) == Ok::<UrlView, Seq<char>>(parts@),
                Err(message) => url_parse(text@) == Err::<UrlView, Seq<char>>(message@),
            },
    {
        read_url(text)
    }
}

} // verus!
