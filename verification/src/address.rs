//! Addresses of the web: the parts of a URL that the library decides by.
use vstd::prelude::*;

use crate::text::{decimal, opt_view};

verus! {

/// The parts of a URL.
#[derive(Clone, Debug)]
pub struct UrlParts {
    pub scheme: String,
    pub host: Option<String>,
    pub username: String,
    pub password: Option<String>,
}

/// The model of the parts of a URL.
pub struct UrlV {
    pub scheme: Seq<char>,
    pub host: Option<Seq<char>>,
    pub username: Seq<char>,
    pub password: Option<Seq<char>>,
}

impl View for UrlParts {
    type V = UrlV;

    open spec fn view(&self) -> UrlV {
        UrlV {
            scheme: self.scheme@,
            host: opt_view(self.host),
            username: self.username@,
            password: opt_view(self.password),
        }
    }
}

/// The parts of the URL that `url::Url::parse` reads from a text.
pub uninterp spec fn url_parsed(text: Seq<char>) -> Option<UrlV>;

/// A URL of this machine: `http`, the address 127.0.0.1, a port, and a path with
/// whatever follows it.
pub open spec fn is_local_url(text: Seq<char>) -> bool {
    exists|port: u16, rest: Seq<char>| text == #[trigger] local_url(port, rest)
}

/// The URL of this machine with this port and this path behind its first slash.
pub open spec fn local_url(port: u16, rest: Seq<char>) -> Seq<char> {
    "http://127.0.0.1:"@ + decimal(port as nat) + "/"@ + rest
}

/// The parts of a URL of this machine.
pub open spec fn local_parts() -> UrlV {
    UrlV { scheme: "http"@, host: Some("127.0.0.1"@), username: Seq::empty(), password: None }
}

/// How long a URL of this machine may be to be sure to be read: the crate refuses
/// one that takes more than 4 GB once it is encoded.
pub const MAX_URL_CHARS: usize = 65536;

/// What is read from a text: from a URL of this machine its parts.
pub open spec fn reads_local(text: Seq<char>, parsed: Option<UrlV>) -> bool {
    is_local_url(text) && text.len() <= MAX_URL_CHARS ==> parsed == Some(local_parts())
}

/// Outside function: `url::Url::parse`, with the scheme, the host, the user
/// name and the password of the URL that it reads. An `http` URL that names
/// 127.0.0.1, a port and a path is always read: the account ends at the first
/// slash, and a path can hold whatever it likes.
#[verifier::external_body]
pub(crate) fn parse_url(text: &str) -> (r: Option<UrlParts>)
    ensures
        match r {
            Some(parts) => url_parsed(text@) == Some(parts@),
            None => url_parsed(text@) is None,
        },
        reads_local(text@, match r {
            Some(parts) => Some(parts@),
            None => None,
        }),
{
    url::Url::parse(text).ok().map(|url| UrlParts {
        scheme: url.scheme().to_string(),
        host: url.host_str().map(str::to_string),
        username: url.username().to_string(),
        password: url.password().map(str::to_string),
    })
}

} // verus!
