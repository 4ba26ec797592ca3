//! URLs as the parts that the client's rules read.

use crate::text::same_text;
use vstd::prelude::*;

verus! {

/// The host of a URL.
#[derive(Clone, Debug, PartialEq, Eq)]
pub enum UrlHost {
    Domain(String),
    Ipv4(u32),
    Ipv6(u128),
}

/// A [`UrlHost`] with its name as a sequence of characters.
pub enum UrlHostView {
    Domain(Seq<char>),
    Ipv4(u32),
    Ipv6(u128),
}

impl View for UrlHost {
    type V = UrlHostView;

    open spec fn view(&self) -> UrlHostView {
        match *self {
            UrlHost::Domain(domain) => UrlHostView::Domain(domain@),
            UrlHost::Ipv4(address) => UrlHostView::Ipv4(address),
            UrlHost::Ipv6(address) => UrlHostView::Ipv6(address),
        }
    }
}

impl UrlHost {
    /// Whether two hosts are the same.
    pub fn same_host(&self, other: &UrlHost) -> (same: bool)
        ensures
            same == (self@ == other@),
    {
        match (self, other) {
            (UrlHost::Domain(a), UrlHost::Domain(b)) => same_text(a.as_str(), b.as_str()),
            (UrlHost::Ipv4(a), UrlHost::Ipv4(b)) => *a == *b,
            (UrlHost::Ipv6(a), UrlHost::Ipv6(b)) => *a == *b,
            _ => false,
        }
    }
}

/// A parsed URL: its serialization and the parts that the rules read.
#[derive(Clone, Debug, PartialEq, Eq)]
pub struct WebUrl {
    /// The serialization.
    pub text: String,
    /// The serialization without the fragment.
    pub page: String,
    pub scheme: String,
    pub username: String,
    pub has_password: bool,
    /// The host, and the text that stands for it in the serialization.
    pub host: Option<(UrlHost, String)>,
    /// The port, or the scheme's own.
    pub port: Option<u16>,
}

/// A [`WebUrl`] with its texts as sequences of characters.
#[verifier::ext_equal]
pub struct WebUrlView {
    pub text: Seq<char>,
    pub page: Seq<char>,
    pub scheme: Seq<char>,
    pub username: Seq<char>,
    pub has_password: bool,
    pub host: Option<(UrlHostView, Seq<char>)>,
    pub port: Option<u16>,
}

impl View for WebUrl {
    type V = WebUrlView;

    open spec fn view(&self) -> WebUrlView {
        WebUrlView {
            text: self.text@,
            page: self.page@,
            scheme: self.scheme@,
            username: self.username@,
            has_password: self.has_password,
            host: match self.host {
                Some((host, text)) => Some((host@, text@)),
                None => None,
            },
            port: self.port,
        }
    }
}

/// What a parsed URL says of itself, but for what kind of host it has.
#[derive(Clone, Debug, PartialEq, Eq)]
pub struct UrlParts {
    pub text: String,
    pub page: String,
    pub scheme: String,
    pub username: String,
    pub has_password: bool,
    pub host_text: Option<String>,
    pub port: Option<u16>,
}

/// [`UrlParts`] with their texts as sequences of characters.
pub struct UrlPartsView {
    pub text: Seq<char>,
    pub page: Seq<char>,
    pub scheme: Seq<char>,
    pub username: Seq<char>,
    pub has_password: bool,
    pub host_text: Option<Seq<char>>,
    pub port: Option<u16>,
}

impl View for UrlParts {
    type V = UrlPartsView;

    open spec fn view(&self) -> UrlPartsView {
        UrlPartsView {
            text: self.text@,
            page: self.page@,
            scheme: self.scheme@,
            username: self.username@,
            has_password: self.has_password,
            host_text: match self.host_text {
                Some(text) => Some(text@),
                None => None,
            },
            port: self.port,
        }
    }
}

/// What the URL parser makes of a text, against a base where one is given, or
/// the words of its error.
pub uninterp spec fn parsed_parts(base: Option<Seq<char>>, text: Seq<char>) -> Result<
    UrlPartsView,
    Seq<char>,
>;

/// `url::ParseOptions::parse` with a base URL or none, which is what
/// `url::Url::join` and `url::Url::parse` are. A function of its arguments,
/// named [`parsed_parts`]; a base that is no URL fails with its own error.
#[verifier::external_body]
fn parse_with_base(base: Option<&str>, text: &str) -> (parsed: Result<UrlParts, String>)
    ensures
        match parsed {
            Ok(parsed) => parsed_parts(base_view(base), text@) == Ok::<UrlPartsView, Seq<char>>(
                parsed@,
            ),
            Err(error) => parsed_parts(base_view(base), text@) == Err::<UrlPartsView, Seq<char>>(
                error@,
            ),
        },
{
    let base = base.map(url::Url::parse).transpose().map_err(|error| error.to_string())?;
    let url = url::Url::options().base_url(base.as_ref()).parse(text).map_err(|e| e.to_string())?;
    Ok(UrlParts {
        page: url[..url::Position::AfterQuery].into(),
        scheme: url.scheme().into(),
        username: url.username().into(),
        has_password: url.password().is_some(),
        host_text: url.host_str().map(String::from),
        port: url.port_or_known_default(),
        text: url.into(),
    })
}

/// What the host of a text is, parsed as a URL against a base where one is
/// given; none where it does not parse or has no host.
pub uninterp spec fn host_in_url(base: Option<Seq<char>>, text: Seq<char>) -> Option<UrlHostView>;

/// `url::Url::host` of what `url::ParseOptions::parse` makes of a text. A
/// function of its arguments, named [`host_in_url`].
#[verifier::external_body]
fn host_with_base(base: Option<&str>, text: &str) -> (host: Option<UrlHost>)
    ensures
        match host {
            Some(host) => host_in_url(base_view(base), text@) == Some(host@),
            None => host_in_url(base_view(base), text@) is None,
        },
{
    let base = base.map(url::Url::parse).transpose().ok()?;
    let url = url::Url::options().base_url(base.as_ref()).parse(text).ok()?;
    Some(match url.host()? {
        url::Host::Domain(domain) => UrlHost::Domain(domain.into()),
        url::Host::Ipv4(address) => UrlHost::Ipv4(address.into()),
        url::Host::Ipv6(address) => UrlHost::Ipv6(address.into()),
    })
}

/// What a text is as a URL, against a base where one is given, or the words of
/// the parser's error.
pub open spec fn parsed_url(base: Option<Seq<char>>, text: Seq<char>) -> Result<
    WebUrlView,
    Seq<char>,
> {
    match parsed_parts(base, text) {
        Err(error) => Err(error),
        Ok(parts) => Ok(
            WebUrlView {
                text: parts.text,
                page: parts.page,
                scheme: parts.scheme,
                username: parts.username,
                has_password: parts.has_password,
                host: match (host_in_url(base, text), parts.host_text) {
                    (Some(host), Some(text)) => Some((host, text)),
                    _ => None,
                },
                port: parts.port,
            },
        ),
    }
}

/// Reads a text as a URL, against a base where one is given.
fn read_url(base: Option<&str>, text: &str) -> (parsed: Result<WebUrl, String>)
    ensures
        match parsed {
            Ok(parsed) => parsed_url(base_view(base), text@) == Ok::<WebUrlView, Seq<char>>(
                parsed@,
            ),
            Err(error) => parsed_url(base_view(base), text@) == Err::<WebUrlView, Seq<char>>(
                error@,
            ),
        },
{
    match parse_with_base(base, text) {
        Err(error) => Err(error),
        Ok(parts) => {
            let host = match (host_with_base(base, text), parts.host_text) {
                (Some(host), Some(text)) => Some((host, text)),
                _ => None,
            };
            Ok(
                WebUrl {
                    text: parts.text,
                    page: parts.page,
                    scheme: parts.scheme,
                    username: parts.username,
                    has_password: parts.has_password,
                    host,
                    port: parts.port,
                },
            )
        },
    }
}

/// A base text as a sequence of characters.
pub open spec fn base_view(base: Option<&str>) -> Option<Seq<char>> {
    match base {
        Some(base) => Some(base@),
        None => None,
    }
}

impl WebUrl {
    /// Parses an absolute URL.
    pub fn parse(text: &str) -> (parsed: Result<WebUrl, String>)
        ensures
            match parsed {
                Ok(parsed) => parsed_url(None, text@) == Ok::<WebUrlView, Seq<char>>(parsed@),
                Err(error) => parsed_url(None, text@) == Err::<WebUrlView, Seq<char>>(error@),
            },
    {
        read_url(None, text)
    }

    /// Parses a reference against this URL.
    pub fn join(&self, reference: &str) -> (parsed: Result<WebUrl, String>)
        ensures
            match parsed {
                Ok(parsed) => parsed_url(Some(self.text@), reference@) == Ok::<
                    WebUrlView,
                    Seq<char>,
                >(parsed@),
                Err(error) => parsed_url(Some(self.text@), reference@) == Err::<
                    WebUrlView,
                    Seq<char>,
                >(error@),
            },
    {
        read_url(Some(self.text.as_str()), reference)
    }

    /// The serialization.
    pub fn as_str(&self) -> (text: &str)
        ensures
            text@ == self.text@,
    {
        self.text.as_str()
    }

    /// A copy.
    pub fn copy(&self) -> (copy: WebUrl)
        ensures
            copy@ == self@,
    {
        let host = match &self.host {
            Some((host, text)) => {
                let host = match host {
                    UrlHost::Domain(domain) => UrlHost::Domain(domain.clone()),
                    UrlHost::Ipv4(address) => UrlHost::Ipv4(*address),
                    UrlHost::Ipv6(address) => UrlHost::Ipv6(*address),
                };
                Some((host, text.clone()))
            },
            None => None,
        };
        WebUrl {
            text: self.text.clone(),
            page: self.page.clone(),
            scheme: self.scheme.clone(),
            username: self.username.clone(),
            has_password: self.has_password,
            host,
            port: self.port,
        }
    }
}

/// Two URLs of the same scheme, host and port.
pub open spec fn one_origin(a: WebUrlView, b: WebUrlView) -> bool {
    &&& a.scheme == b.scheme
    &&& a.port == b.port
    &&& match (a.host, b.host) {
        (Some(a), Some(b)) => a.0 == b.0,
        (None, None) => true,
        _ => false,
    }
}

/// Whether two URLs have the same scheme, host and port.
pub fn same_origin(a: &WebUrl, b: &WebUrl) -> (same: bool)
    ensures
        same == one_origin(a@, b@),
{
    let hosts = match (&a.host, &b.host) {
        (Some(a), Some(b)) => a.0.same_host(&b.0),
        (None, None) => true,
        _ => false,
    };
    let ports = match (a.port, b.port) {
        (Some(a), Some(b)) => a == b,
        (None, None) => true,
        _ => false,
    };
    hosts && ports && same_text(a.scheme.as_str(), b.scheme.as_str())
}

} // verus!
