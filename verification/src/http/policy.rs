//! What a client may reach, accept and spend.

use crate::http::error::{HttpError, HttpErrorView};
use crate::http::network::{
    is_localhost_name, is_public_ip, parse_address, trim_trailing_dots, write_address, IpAddress,
};
use crate::http::span::Span;
use crate::http::web_url::{UrlHost, UrlHostView};
use crate::text::{chars_of, decimal, ends_with, join2, join3, same_text, string_of, to_lower, trim};
use crate::text_set::TextSet;
use vstd::prelude::*;

verus! {

/// Most redirect hops that a policy may allow.
pub const HARD_MAX_REDIRECTS: usize = 10;

/// Most bytes that a policy may allow a request.
pub const HARD_MAX_REQUEST_BYTES: usize = 8_388_608;

/// Most bytes that a policy may allow a response body.
pub const HARD_MAX_RESPONSE_BYTES: usize = 67_108_864;

/// Most bytes that a policy may allow response headers.
pub const HARD_MAX_HEADER_BYTES: usize = 131_072;

/// Most calls that a policy may allow at a time.
pub const HARD_MAX_CONCURRENCY: usize = 32;

/// Most hops that a policy may allow in a window.
pub const HARD_MAX_REQUESTS_PER_WINDOW: usize = 10_000;

/// Longest timeout that a policy may set, in seconds.
pub const HARD_MAX_TIMEOUT_SECS: u64 = 120;

/// Longest rate window that a policy may set, in seconds.
pub const HARD_MAX_RATE_WINDOW_SECS: u64 = 86_400;

/// What the host parser makes of a text, or the words of its error.
pub uninterp spec fn parsed_host(text: Seq<char>) -> Result<UrlHostView, Seq<char>>;

/// `url::Host::parse`: a function of the text, named [`parsed_host`].
#[verifier::external_body]
fn parse_host(text: &str) -> (host: Result<UrlHost, String>)
    ensures
        match host {
            Ok(host) => parsed_host(text@) == Ok::<UrlHostView, Seq<char>>(host@),
            Err(error) => parsed_host(text@) == Err::<UrlHostView, Seq<char>>(error@),
        },
{
    match url::Host::parse(text) {
        Ok(url::Host::Domain(domain)) => Ok(UrlHost::Domain(domain)),
        Ok(url::Host::Ipv4(address)) => Ok(UrlHost::Ipv4(address.into())),
        Ok(url::Host::Ipv6(address)) => Ok(UrlHost::Ipv6(address.into())),
        Err(error) => Err(error.to_string()),
    }
}

/// A character that cannot stand in an exact host: ASCII white space, or a
/// delimiter of URLs.
pub open spec fn host_breaker(c: char) -> bool {
    let code = c as u32;
    ||| code == 0x20
    ||| code == 0x9
    ||| code == 0xa
    ||| code == 0xc
    ||| code == 0xd
    ||| c == '/'
    ||| c == '@'
    ||| c == '?'
    ||| c == '#'
}

/// The text holds a character that cannot stand in an exact host.
pub open spec fn breaks_host(text: Seq<char>) -> bool {
    exists|i: int| 0 <= i < text.len() && host_breaker(#[trigger] text[i])
}

fn has_host_breaker(text: &str) -> (found: bool)
    ensures
        found == breaks_host(text@),
{
    let chars = chars_of(text);
    let mut i: usize = 0;
    while i < chars.len()
        invariant
            i <= chars@.len(),
            chars@ == text@,
            forall|j: int| 0 <= j < i ==> !host_breaker(#[trigger] chars@[j]),
        decreases chars@.len() - i,
    {
        let c = chars[i];
        let code: u32 = c as u32;
        if code == 0x20 || code == 0x9 || code == 0xa || code == 0xc || code == 0xd || c == '/' || c
            == '@' || c == '?' || c == '#' {
            assert(host_breaker(text@[i as int]));
            return true;
        }
        i += 1;
    }
    false
}

/// The text is an IPv4 address in dotted decimal.
pub open spec fn dotted_decimal(text: Seq<char>) -> bool {
    exists|address: u32| text == #[trigger] crate::http::network::ipv4_text(address)
}

/// The one form in which a host is granted and compared, or why there is none.
/// An address literal is written in its usual form. A name goes through the
/// URL parser's host rules, loses trailing dots and is put in lower case.
pub open spec fn canonical(value: Seq<char>) -> Result<Seq<char>, HttpErrorView> {
    let host = crate::text::trim_text(value);
    if host.len() == 0 || breaks_host(host) {
        Err(HttpErrorView::InvalidPolicy("invalid exact host `"@ + host + "`"@))
    } else if dotted_decimal(host) {
        Ok(host)
    } else if crate::http::network::ipv6_value(host) is Some {
        Ok(crate::http::network::ipv6_text(crate::http::network::ipv6_value(host)->0))
    } else {
        match parsed_host(host) {
            Err(error) => Err(HttpErrorView::InvalidPolicy("invalid exact host: "@ + error)),
            Ok(parsed) => canonical_form(parsed),
        }
    }
}

/// The granted form of a parsed host.
pub open spec fn canonical_form(host: UrlHostView) -> Result<Seq<char>, HttpErrorView> {
    let text = match host {
        UrlHostView::Domain(domain) => crate::text::lower_text(
            crate::http::network::without_trailing_dots(domain),
        ),
        UrlHostView::Ipv4(address) => crate::http::network::ipv4_text(address),
        UrlHostView::Ipv6(address) => crate::http::network::ipv6_text(address),
    };
    if text.len() == 0 {
        Err(HttpErrorView::InvalidPolicy("host cannot be empty"@))
    } else {
        Ok(text)
    }
}

/// Computes the granted form of a parsed host.
pub fn canonical_parsed_host(host: &UrlHost) -> (form: Result<String, HttpError>)
    ensures
        match canonical_form(host@) {
            Ok(text) => form matches Ok(form) && form@ == text,
            Err(error) => crate::http::error::fails_with(form, error),
        },
{
    let text = match host {
        UrlHost::Domain(domain) => to_lower(trim_trailing_dots(domain.as_str()).as_str()),
        UrlHost::Ipv4(address) => write_address(IpAddress::V4(*address)),
        UrlHost::Ipv6(address) => write_address(IpAddress::V6(*address)),
    };
    if text.as_str().is_empty() {
        Err(HttpError::InvalidPolicy("host cannot be empty".to_owned()))
    } else {
        Ok(text)
    }
}

/// Computes the granted form of a host.
pub fn canonical_host(value: &str) -> (form: Result<String, HttpError>)
    ensures
        match canonical(value@) {
            Ok(text) => form matches Ok(form) && form@ == text,
            Err(error) => crate::http::error::fails_with(form, error),
        },
{
    let host = trim(value);
    if host.as_str().is_empty() || has_host_breaker(host.as_str()) {
        return Err(HttpError::InvalidPolicy(join3("invalid exact host `", host.as_str(), "`")));
    }
    if let Some(address) = parse_address(host.as_str()) {
        return Ok(write_address(address));
    }
    match parse_host(host.as_str()) {
        Ok(parsed) => canonical_parsed_host(&parsed),
        Err(error) => Err(
            HttpError::InvalidPolicy(join2("invalid exact host: ", error.as_str())),
        ),
    }
}

/// Exact hosts, in their canonical form. A granted host does not grant the
/// names under it.
#[derive(Clone, Debug, PartialEq, Eq)]
pub struct ExactHostAllowlist {
    hosts: TextSet,
}

/// What becomes of one host that is to be granted.
pub open spec fn grant(value: Seq<char>, outcome: Result<Seq<char>, HttpErrorView>) -> bool {
    match canonical(value) {
        Err(error) => outcome == Err::<Seq<char>, HttpErrorView>(error),
        Ok(host) => if crate::http::network::localhost_name(host) {
            outcome == Err::<Seq<char>, HttpErrorView>(
                HttpErrorView::InvalidPolicy("localhost cannot be granted network access"@),
            )
        } else {
            match outcome {
                Ok(granted) => granted == host && (crate::http::network::no_literal(host)
                    || exists|address: IpAddress| #[trigger]
                    crate::http::network::literal_of(host, address)
                        && crate::http::network::is_public(address)),
                Err(HttpErrorView::AddressDenied(address)) => crate::http::network::literal_of(
                    host,
                    address,
                ) && !crate::http::network::is_public(address),
                Err(_) => false,
            }
        },
    }
}

/// The host is not one of the machine itself, nor the literal of an address that is
/// not public.
pub open spec fn was_granted(host: Seq<char>) -> bool {
    &&& !crate::http::network::localhost_name(host)
    &&& forall|address: IpAddress| #[trigger]
        crate::http::network::literal_of(host, address) ==> crate::http::network::is_public(address)
}

/// The text is an IPv6 address in its usual form.
pub open spec fn usual_ipv6(text: Seq<char>) -> bool {
    exists|address: u128| text == #[trigger] crate::http::network::ipv6_text(address)
}

/// The text has the form of a host that is granted: that of an address, or lower case
/// without dots behind.
pub open spec fn has_form(host: Seq<char>) -> bool {
    ||| dotted_decimal(host)
    ||| usual_ipv6(host)
    ||| host.len() > 0 && crate::text::lower_text(
        crate::http::network::without_trailing_dots(host),
    ) == host
}

proof fn lemma_dots_stay_away(text: Seq<char>)
    ensures
        crate::http::network::without_trailing_dots(
            crate::text::lower_text(crate::http::network::without_trailing_dots(text)),
        ) == crate::text::lower_text(crate::http::network::without_trailing_dots(text)),
    decreases text.len(),
{
    if text.len() > 0 && text.last() == '.' {
        lemma_dots_stay_away(text.drop_last());
    } else if text.len() > 0 {
        let lower = crate::text::lower_text(text);
        assert(lower.last() == crate::text::lower_char(text.last()));
    }
}

/// The canonical form of a host has the form of one that is granted.
proof fn lemma_canonical_has_form(value: Seq<char>, host: Seq<char>)
    requires
        canonical(value) == Ok::<Seq<char>, HttpErrorView>(host),
    ensures
        has_form(host),
{
    let text = crate::text::trim_text(value);
    if !dotted_decimal(text) {
        if crate::http::network::ipv6_value(text) is Some {
            assert(host == crate::http::network::ipv6_text(
                crate::http::network::ipv6_value(text)->0,
            ));
        } else {
            match parsed_host(text)->Ok_0 {
                UrlHostView::Domain(domain) => {
                    let name = crate::http::network::without_trailing_dots(domain);
                    lemma_dots_stay_away(domain);
                    assert(crate::text::lower_text(crate::text::lower_text(name))
                        =~= crate::text::lower_text(name));
                },
                UrlHostView::Ipv4(address) => {
                    assert(host == crate::http::network::ipv4_text(address));
                },
                UrlHostView::Ipv6(address) => {
                    assert(host == crate::http::network::ipv6_text(address));
                },
            }
        }
    }
}

/// The parsers leave a text as it is: as the address whose usual form it is, or as a
/// domain of that name, without white space around it and without delimiters of URLs.
/// Dotted decimal is always so.
pub open spec fn reads_as_itself(host: Seq<char>) -> bool {
    dotted_decimal(host) || {
        &&& host.len() > 0
        &&& crate::text::trim_text(host) == host
        &&& !breaks_host(host)
        &&& {
            ||| exists|address: u128| #[trigger]
                crate::http::network::ipv6_text(address) == host
                    && crate::http::network::ipv6_value(host) == Some(address)
            ||| !usual_ipv6(host) && crate::http::network::ipv6_value(host) is None && parsed_host(
                host,
            ) == Ok::<UrlHostView, Seq<char>>(UrlHostView::Domain(host))
        }
    }
}

/// Every host that an allowlist yields is allowed under the name that it yields, if
/// the parsers leave that name as it is. It is not one of the machine itself, nor an
/// address that is not public.
pub proof fn law_yielded_hosts_are_allowed(list: ExactHostAllowlist, host: Seq<char>)
    requires
        list.wf(),
        list.granted().contains(host),
        reads_as_itself(host),
    ensures
        canonical(host) matches Ok(form) && form == host && list.granted().contains(form),
        was_granted(host),
{
    if dotted_decimal(host) {
        let address = choose|address: u32|
            host == #[trigger] crate::http::network::ipv4_text(address);
        crate::http::network::lemma_ipv4_characters(address);
        assert(crate::text::trim_start_text(host) == host);
        assert(crate::text::trim_end_text(host) == host);
        if breaks_host(host) {
            let i = choose|i: int| 0 <= i < host.len() && host_breaker(#[trigger] host[i]);
            assert(host[i] == crate::http::network::ipv4_text(address)[i]);
        }
    }
}

/// Checks one host that is to be granted.
fn check_grant(value: &str) -> (outcome: Result<String, HttpError>)
    ensures
        match outcome {
            Ok(host) => grant(value@, Ok(host@)),
            Err(error) => grant(value@, Err(error@)),
        },
{
    let host = match canonical_host(value) {
        Ok(host) => host,
        Err(error) => {
            return Err(error);
        },
    };
    if is_localhost_name(host.as_str()) {
        return Err(
            HttpError::InvalidPolicy("localhost cannot be granted network access".to_owned()),
        );
    }
    match parse_address(host.as_str()) {
        Some(address) => {
            if !is_public_ip(address) {
                return Err(HttpError::AddressDenied(address));
            }
            assert(crate::http::network::literal_of(host@, address));
        },
        None => {},
    }
    Ok(host)
}

impl ExactHostAllowlist {
    /// The granted hosts in their canonical form.
    pub closed spec fn granted(&self) -> Set<Seq<char>> {
        self.hosts@
    }

    /// How many hosts are granted.
    pub closed spec fn count(&self) -> nat {
        self.hosts.in_order().len()
    }

    /// The hosts ascend, and each was granted in its canonical form.
    pub closed spec fn wf(&self) -> bool {
        &&& self.hosts.wf()
        &&& forall|host: Seq<char>| #[trigger]
            self.hosts@.contains(host) ==> has_form(host) && was_granted(host)
    }

    /// Grants exact host names or public address literals. The first host that
    /// cannot be granted decides the error; an empty list is an error too.
    pub fn new(hosts: &[&str]) -> (list: Result<Self, HttpError>)
        ensures
            match list {
                Ok(list) => {
                    &&& list.wf()
                    &&& 0 < list.count() <= hosts@.len()
                    &&& forall|i: int|
                        0 <= i < hosts@.len() ==> canonical(#[trigger] hosts@[i]@) is Ok && grant(
                            hosts@[i]@,
                            canonical(hosts@[i]@),
                        ) && list.granted().contains(canonical(hosts@[i]@)->Ok_0)
                    &&& forall|host: Seq<char>| #[trigger]
                        list.granted().contains(host) ==> exists|i: int|
                            0 <= i < hosts@.len() && canonical(#[trigger] hosts@[i]@) == Ok::<
                                Seq<char>,
                                HttpErrorView,
                            >(host)
                },
                Err(error) => {
                    ||| hosts@.len() == 0 && error@ == HttpErrorView::InvalidPolicy(
                        "at least one exact host is required"@,
                    )
                    ||| exists|i: int|
                        0 <= i < hosts@.len() && #[trigger] grant(hosts@[i]@, Err(error@)) && forall|
                            j: int,
                        |
                            0 <= j < i ==> canonical(#[trigger] hosts@[j]@) is Ok && grant(
                                hosts@[j]@,
                                canonical(hosts@[j]@),
                            )
                },
            },
    {
        let mut granted = TextSet::new();
        let mut i: usize = 0;
        while i < hosts.len()
            invariant
                i <= hosts@.len(),
                granted.wf(),
                granted.in_order().len() <= i,
                i > 0 ==> granted.in_order().len() > 0,
                forall|host: Seq<char>| #[trigger]
                    granted@.contains(host) ==> has_form(host) && was_granted(host),
                forall|j: int|
                    0 <= j < i ==> canonical(#[trigger] hosts@[j]@) is Ok && grant(
                        hosts@[j]@,
                        canonical(hosts@[j]@),
                    ) && granted@.contains(canonical(hosts@[j]@)->Ok_0),
                forall|host: Seq<char>| #[trigger]
                    granted@.contains(host) ==> exists|j: int|
                        0 <= j < i && canonical(#[trigger] hosts@[j]@) == Ok::<
                            Seq<char>,
                            HttpErrorView,
                        >(host),
            decreases hosts@.len() - i,
        {
            let host = match check_grant(hosts[i]) {
                Ok(host) => host,
                Err(error) => {
                    assert(grant(hosts@[i as int]@, Err(error@)));
                    return Err(error);
                },
            };
            let ghost text = host@;
            let ghost before = granted@;
            assert(canonical(hosts@[i as int]@) == Ok::<Seq<char>, HttpErrorView>(text));
            let _ = granted.insert(host);
            proof {
                lemma_canonical_has_form(hosts@[i as int]@, text);
                assert(was_granted(text)) by {
                    if !crate::http::network::no_literal(text) {
                        let address = choose|address: IpAddress| #[trigger]
                            crate::http::network::literal_of(text, address)
                                && crate::http::network::is_public(address);
                        assert forall|other: IpAddress| #[trigger]
                            crate::http::network::literal_of(
                                text,
                                other,
                            ) implies crate::http::network::is_public(other) by {
                            crate::http::network::law_a_literal_names_one_address(
                                text,
                                address,
                                other,
                            );
                        }
                    }
                }
                assert forall|host: Seq<char>| #[trigger] granted@.contains(host) implies exists|
                    j: int,
                |
                    0 <= j < i + 1 && canonical(#[trigger] hosts@[j]@) == Ok::<
                        Seq<char>,
                        HttpErrorView,
                    >(host) by {
                    if before.contains(host) {
                        let j = choose|j: int|
                            0 <= j < i && canonical(#[trigger] hosts@[j]@) == Ok::<
                                Seq<char>,
                                HttpErrorView,
                            >(host);
                        assert(canonical(hosts@[j]@) == Ok::<Seq<char>, HttpErrorView>(host));
                    } else {
                        assert(host == text);
                        assert(canonical(hosts@[i as int]@) == Ok::<Seq<char>, HttpErrorView>(
                            host,
                        ));
                    }
                }
            }
            i += 1;
        }
        if hosts.len() == 0 {
            return Err(HttpError::InvalidPolicy("at least one exact host is required".to_owned()));
        }
        Ok(ExactHostAllowlist { hosts: granted })
    }

    /// Whether this exact host was granted.
    pub fn allows(&self, host: &str) -> (allowed: bool)
        requires
            self.wf(),
        ensures
            allowed == (canonical(host@) matches Ok(form) && self.granted().contains(form)),
    {
        match canonical_host(host) {
            Ok(form) => self.hosts.contains(form.as_str()),
            Err(_) => false,
        }
    }

    /// The granted hosts in ascending order.
    pub fn iter(&self) -> (hosts: &Vec<String>)
        requires
            self.wf(),
        ensures
            crate::text_set::texts_ascend(hosts@),
            hosts@.len() == self.count(),
            forall|host: Seq<char>| #[trigger]
                self.granted().contains(host) <==> crate::text_set::holds_text(hosts@, host),
    {
        self.hosts.items()
    }
}

/// The URL schemes that a client may use.
#[derive(Clone, Copy, Debug, PartialEq, Eq, Structural)]
pub enum SchemePolicy {
    HttpsOnly,
    HttpAndHttps,
}

impl SchemePolicy {
    /// The scheme may be used.
    pub open spec fn permits(self, scheme: Seq<char>) -> bool {
        scheme == "https"@ || (self == SchemePolicy::HttpAndHttps && scheme == "http"@)
    }

    /// Whether a scheme may be used.
    pub fn allows(self, scheme: &str) -> (allowed: bool)
        ensures
            allowed == self.permits(scheme@),
    {
        same_text(scheme, "https") || (self == SchemePolicy::HttpAndHttps && same_text(
            scheme,
            "http",
        ))
    }
}

/// A character of a media-type token.
pub open spec fn media_char(c: char) -> bool {
    ||| 'a' <= c <= 'z'
    ||| 'A' <= c <= 'Z'
    ||| '0' <= c <= '9'
    ||| c == '!'
    ||| c == '#'
    ||| c == '$'
    ||| c == '&'
    ||| c == '^'
    ||| c == '_'
    ||| c == '.'
    ||| c == '+'
    ||| c == '-'
}

/// A media-type token: one or more token characters.
pub open spec fn media_token(text: Seq<char>) -> bool {
    text.len() > 0 && forall|i: int| 0 <= i < text.len() ==> media_char(#[trigger] text[i])
}

fn is_media_char(c: char) -> (fits: bool)
    ensures
        fits == media_char(c),
{
    ('a' <= c && c <= 'z') || ('A' <= c && c <= 'Z') || ('0' <= c && c <= '9') || c == '!' || c
        == '#' || c == '$' || c == '&' || c == '^' || c == '_' || c == '.' || c == '+' || c == '-'
}

fn is_media_token(text: &str) -> (fits: bool)
    ensures
        fits == media_token(text@),
{
    let chars = chars_of(text);
    let mut i: usize = 0;
    while i < chars.len()
        invariant
            i <= chars@.len(),
            chars@ == text@,
            forall|j: int| 0 <= j < i ==> media_char(#[trigger] chars@[j]),
        decreases chars@.len() - i,
    {
        if !is_media_char(chars[i]) {
            assert(!media_char(text@[i as int]));
            return false;
        }
        i += 1;
    }
    chars.len() > 0
}

/// The text is a token, a slash at `at`, and a token.
pub open spec fn slash_at(text: Seq<char>, at: int) -> bool {
    &&& 0 <= at < text.len()
    &&& text[at] == '/'
    &&& media_token(text.take(at))
    &&& media_token(text.skip(at + 1))
}

/// The text is a media type without parameters.
pub open spec fn media_type(text: Seq<char>) -> bool {
    exists|at: int| slash_at(text, at)
}

/// The place of the slash in a media type.
fn find_slash(text: &str) -> (at: Option<usize>)
    ensures
        match at {
            Some(at) => slash_at(text@, at as int),
            None => !media_type(text@),
        },
{
    let chars = chars_of(text);
    let mut at: usize = 0;
    while at < chars.len() && chars[at] != '/'
        invariant
            at <= chars@.len(),
            chars@ == text@,
            forall|j: int| 0 <= j < at ==> chars@[j] != '/',
        decreases chars@.len() - at,
    {
        at += 1;
    }
    if at == chars.len() {
        return None;
    }
    let category = string_of(&chars, 0, at);
    let subtype = string_of(&chars, at + 1, chars.len());
    assert(category@ =~= text@.take(at as int));
    assert(subtype@ =~= text@.skip(at + 1));
    if is_media_token(category.as_str()) && is_media_token(subtype.as_str()) {
        Some(at)
    } else {
        proof {
            if media_type(text@) {
                let other = choose|other: int| slash_at(text@, other);
                if other > at {
                    assert(text@.take(other)[at as int] == '/');
                    assert(!media_char('/'));
                }
                assert(other == at);
            }
        }
        None
    }
}

/// A text in the form in which media types are compared.
pub open spec fn folded(value: Seq<char>) -> Seq<char> {
    crate::text::lower_text(crate::text::trim_text(value))
}

/// The compared form of a media type, or why the text is none.
pub open spec fn canonical_media(value: Seq<char>) -> Result<Seq<char>, HttpErrorView> {
    if media_type(folded(value)) {
        Ok(folded(value))
    } else {
        Err(HttpErrorView::InvalidPolicy("invalid media type `"@ + folded(value) + "`"@))
    }
}

fn fold(value: &str) -> (text: String)
    ensures
        text@ == folded(value@),
{
    to_lower(trim(value).as_str())
}

fn canonical_media_type(value: &str) -> (form: Result<String, HttpError>)
    ensures
        match canonical_media(value@) {
            Ok(text) => form matches Ok(form) && form@ == text,
            Err(error) => crate::http::error::fails_with(form, error),
        },
{
    let value = fold(value);
    match find_slash(value.as_str()) {
        Some(_) => Ok(value),
        None => Err(
            HttpError::InvalidPolicy(join3("invalid media type `", value.as_str(), "`")),
        ),
    }
}

/// One rule for media types.
#[derive(Clone, Debug, PartialEq, Eq)]
pub enum ContentTypeRule {
    /// One media type.
    Exact(String),
    /// Every subtype of one top-level type.
    Type(String),
    /// Every subtype with one structured suffix.
    StructuredSuffix(String),
}

impl ContentTypeRule {
    /// The rule accepts the media type, which is in its compared form.
    pub open spec fn accepts(&self, media: Seq<char>) -> bool {
        match *self {
            ContentTypeRule::Exact(expected) => media == expected@,
            ContentTypeRule::Type(expected) => exists|at: int|
                #![trigger slash_at(media, at)]
                slash_at(media, at) && media.take(at) == expected@,
            ContentTypeRule::StructuredSuffix(expected) => exists|at: int|
                #![trigger slash_at(media, at)]
                slash_at(media, at) && crate::text::has_suffix(
                    media.skip(at + 1),
                    "+"@ + expected@,
                ),
        }
    }

    /// A rule for one media type.
    pub fn exact(value: &str) -> (rule: Result<ContentTypeRule, HttpError>)
        ensures
            match canonical_media(value@) {
                Ok(text) => rule matches Ok(ContentTypeRule::Exact(expected)) && expected@ == text,
                Err(error) => crate::http::error::fails_with(rule, error),
            },
    {
        match canonical_media_type(value) {
            Ok(value) => Ok(ContentTypeRule::Exact(value)),
            Err(error) => Err(error),
        }
    }

    /// A rule for every subtype of one top-level type; `*` is not one.
    pub fn type_wildcard(value: &str) -> (rule: Result<ContentTypeRule, HttpError>)
        ensures
            if media_token(folded(value@)) {
                rule matches Ok(ContentTypeRule::Type(expected)) && expected@ == folded(value@)
            } else {
                crate::http::error::fails_with(
                    rule,
                    HttpErrorView::InvalidPolicy(
                        "invalid content-type category `"@ + folded(value@) + "`"@,
                    ),
                )
            },
    {
        let value = fold(value);
        if !is_media_token(value.as_str()) {
            return Err(
                HttpError::InvalidPolicy(
                    join3("invalid content-type category `", value.as_str(), "`"),
                ),
            );
        }
        Ok(ContentTypeRule::Type(value))
    }

    /// A rule for every subtype with one structured suffix.
    pub fn structured_suffix(value: &str) -> (rule: Result<ContentTypeRule, HttpError>)
        ensures
            if media_token(folded(value@)) {
                rule matches Ok(ContentTypeRule::StructuredSuffix(expected)) && expected@ == folded(
                    value@,
                )
            } else {
                crate::http::error::fails_with(
                    rule,
                    HttpErrorView::InvalidPolicy(
                        "invalid content-type suffix `"@ + folded(value@) + "`"@,
                    ),
                )
            },
    {
        let value = fold(value);
        if !is_media_token(value.as_str()) {
            return Err(
                HttpError::InvalidPolicy(
                    join3("invalid content-type suffix `", value.as_str(), "`"),
                ),
            );
        }
        Ok(ContentTypeRule::StructuredSuffix(value))
    }

    /// Whether the rule accepts a media type in its compared form.
    pub fn matches(&self, media: &str) -> (accepted: bool)
        requires
            media_type(media@),
        ensures
            accepted == self.accepts(media@),
    {
        let at: usize = match find_slash(media) {
            Some(at) => at,
            None => {
                return false;
            },
        };
        let chars = chars_of(media);
        proof {
            lemma_one_slash(media@, at as int);
        }
        match self {
            ContentTypeRule::Exact(expected) => same_text(media, expected.as_str()),
            ContentTypeRule::Type(expected) => {
                let category = string_of(&chars, 0, at);
                assert(category@ =~= media@.take(at as int));
                same_text(category.as_str(), expected.as_str())
            },
            ContentTypeRule::StructuredSuffix(expected) => {
                assert(at < chars.len());
                let subtype = string_of(&chars, at + 1, chars.len());
                assert(subtype@ =~= media@.skip(at + 1));
                ends_with(subtype.as_str(), join2("+", expected.as_str()).as_str())
            },
        }
    }
}

/// A media type has one slash.
proof fn lemma_one_slash(text: Seq<char>, at: int)
    requires
        slash_at(text, at),
    ensures
        forall|other: int| #[trigger] slash_at(text, other) ==> other == at,
{
    assert forall|other: int| #[trigger] slash_at(text, other) implies other == at by {
        if other < at {
            assert(text.take(at)[other] == '/');
            assert(media_char(text.take(at)[other]));
        } else if other > at {
            assert(text.take(other)[at] == '/');
            assert(media_char(text.take(other)[at]));
        }
    }
}

/// The media types that a client accepts.
#[derive(Clone, Debug, PartialEq, Eq)]
pub struct ContentTypePolicy {
    rules: Vec<ContentTypeRule>,
    allow_missing: bool,
}

/// A text up to its first semicolon.
pub open spec fn before_parameters(value: Seq<char>) -> Seq<char>
    decreases value.len(),
{
    if value.len() == 0 || value[0] == ';' {
        Seq::empty()
    } else {
        seq![value[0]] + before_parameters(value.skip(1))
    }
}

fn drop_parameters(value: &str) -> (media: String)
    ensures
        media@ == before_parameters(value@),
{
    let chars = chars_of(value);
    let mut to: usize = 0;
    assert(chars@.skip(0) =~= chars@);
    assert(chars@.subrange(0, 0) + before_parameters(chars@) =~= before_parameters(chars@));
    while to < chars.len() && chars[to] != ';'
        invariant
            to <= chars@.len(),
            chars@.subrange(0, to as int) + before_parameters(chars@.skip(to as int))
                == before_parameters(chars@),
        decreases chars@.len() - to,
    {
        proof {
            let rest = chars@.skip(to as int);
            assert(rest.skip(1) =~= chars@.skip(to + 1));
            assert(chars@.subrange(0, to as int) + before_parameters(rest) =~= chars@.subrange(
                0,
                to + 1,
            ) + before_parameters(rest.skip(1)));
        }
        to += 1;
    }
    assert(chars@.subrange(0, to as int) + Seq::<char>::empty() =~= chars@.subrange(0, to as int));
    string_of(&chars, 0, to)
}

impl ContentTypePolicy {
    /// The rules.
    pub closed spec fn spec_rules(&self) -> Seq<ContentTypeRule> {
        self.rules@
    }

    /// Whether a response needs no content type.
    pub closed spec fn missing_allowed(&self) -> bool {
        self.allow_missing
    }

    /// Some rule accepts the media type.
    pub open spec fn accepts(&self, media: Seq<char>) -> bool {
        exists|i: int|
            0 <= i < self.spec_rules().len() && (#[trigger] self.spec_rules()[i]).accepts(media)
    }

    /// What becomes of a response with this content type.
    pub open spec fn verdict(&self, value: Option<Seq<char>>) -> Result<
        Option<Seq<char>>,
        HttpErrorView,
    > {
        match value {
            None => if self.missing_allowed() {
                Ok(None)
            } else {
                Err(HttpErrorView::ContentTypeMissing)
            },
            Some(value) => match canonical_media(before_parameters(value)) {
                Err(error) => Err(error),
                Ok(media) => if self.accepts(media) {
                    Ok(Some(media))
                } else {
                    Err(HttpErrorView::ContentTypeDenied(media))
                },
            },
        }
    }

    /// A policy of one or more rules.
    pub fn new(rules: Vec<ContentTypeRule>, allow_missing: bool) -> (policy: Result<
        ContentTypePolicy,
        HttpError,
    >)
        ensures
            if rules@.len() == 0 {
                crate::http::error::fails_with(
                    policy,
                    HttpErrorView::InvalidPolicy("at least one content-type rule is required"@),
                )
            } else {
                policy matches Ok(policy) && policy.spec_rules() == rules@
                    && policy.missing_allowed() == allow_missing
            },
    {
        if rules.len() == 0 {
            return Err(
                HttpError::InvalidPolicy("at least one content-type rule is required".to_owned()),
            );
        }
        Ok(ContentTypePolicy { rules, allow_missing })
    }

    /// JSON, and what is structured as JSON.
    pub fn json() -> (policy: ContentTypePolicy)
        ensures
            !policy.missing_allowed(),
            policy.spec_rules().len() == 2,
            policy.spec_rules()[0] matches ContentTypeRule::Exact(text) && text@
                == "application/json"@,
            policy.spec_rules()[1] matches ContentTypeRule::StructuredSuffix(text) && text@
                == "json"@,
    {
        let mut rules: Vec<ContentTypeRule> = Vec::new();
        rules.push(ContentTypeRule::Exact("application/json".to_owned()));
        rules.push(ContentTypeRule::StructuredSuffix("json".to_owned()));
        ContentTypePolicy { rules, allow_missing: false }
    }

    /// Checks the content type of a response and hands back its media type.
    pub fn validate(&self, value: Option<&str>) -> (checked: Result<Option<String>, HttpError>)
        ensures
            match self.verdict(crate::http::web_url::base_view(value)) {
                Ok(None) => checked == Ok::<Option<String>, HttpError>(None),
                Ok(Some(media)) => checked matches Ok(Some(text)) && text@ == media,
                Err(error) => crate::http::error::fails_with(checked, error),
            },
    {
        let present = match value {
            Some(present) => present,
            None => {
                return if self.allow_missing {
                    Ok(None)
                } else {
                    Err(HttpError::ContentTypeMissing)
                };
            },
        };
        let media = match canonical_media_type(drop_parameters(present).as_str()) {
            Ok(media) => media,
            Err(error) => {
                return Err(error);
            },
        };
        let mut i: usize = 0;
        while i < self.rules.len()
            invariant
                i <= self.rules@.len(),
                media_type(media@),
                value == Some(present),
                canonical_media(before_parameters(present@)) == Ok::<Seq<char>, HttpErrorView>(
                    media@,
                ),
                forall|j: int| 0 <= j < i ==> !(#[trigger] self.rules@[j]).accepts(media@),
            decreases self.rules@.len() - i,
        {
            if self.rules[i].matches(media.as_str()) {
                assert(self.spec_rules()[i as int].accepts(media@));
                return Ok(Some(media));
            }
            i += 1;
        }
        Err(HttpError::ContentTypeDenied(media))
    }
}

/// How many hops may start in a sliding window.
#[derive(Clone, Copy, Debug, PartialEq, Eq, Structural)]
pub struct RateLimit {
    pub requests: usize,
    pub window: Span,
}

/// What is wrong with a rate limit.
pub open spec fn rate_error(requests: usize, window: Span) -> Option<HttpErrorView> {
    if requests == 0 || requests > HARD_MAX_REQUESTS_PER_WINDOW {
        Some(HttpErrorView::InvalidPolicy("rate limit must be between 1 and 10000"@))
    } else if window.nanos == 0 || window.nanos > HARD_MAX_RATE_WINDOW_SECS
        * crate::http::span::NANOS_PER_SECOND {
        Some(
            HttpErrorView::InvalidPolicy(
                "rate window must be greater than zero and at most 86400s"@,
            ),
        )
    } else {
        None
    }
}

impl RateLimit {
    /// The limit is one that a policy may set.
    pub open spec fn wf(self) -> bool {
        rate_error(self.requests, self.window) is None
    }

    /// Checks a rate limit.
    pub fn new(requests: usize, window: Span) -> (limit: Result<RateLimit, HttpError>)
        ensures
            match rate_error(requests, window) {
                Some(error) => crate::http::error::fails_with(limit, error),
                None => limit == Ok::<RateLimit, HttpError>(RateLimit { requests, window }),
            },
    {
        if requests == 0 || requests > HARD_MAX_REQUESTS_PER_WINDOW {
            return Err(
                HttpError::InvalidPolicy("rate limit must be between 1 and 10000".to_owned()),
            );
        }
        if window.nanos == 0 || window.nanos > Span::from_secs(HARD_MAX_RATE_WINDOW_SECS).nanos {
            return Err(
                HttpError::InvalidPolicy(
                    "rate window must be greater than zero and at most 86400s".to_owned(),
                ),
            );
        }
        Ok(RateLimit { requests, window })
    }
}

/// Budgets of bytes, time, hops and parallel calls.
#[derive(Clone, Copy, Debug, PartialEq, Eq, Structural)]
pub struct HttpLimits {
    /// For the URL, headers and body of a request.
    pub max_request_bytes: usize,
    /// For the headers of a response.
    pub max_response_header_bytes: usize,
    /// For the body of a response.
    pub max_response_bytes: usize,
    /// Redirect hops.
    pub max_redirects: usize,
    /// Calls at a time.
    pub max_concurrent: usize,
    pub resolve_timeout: Span,
    pub connect_timeout: Span,
    pub request_timeout: Span,
    pub rate: RateLimit,
}

impl Default for HttpLimits {
    fn default() -> (limits: HttpLimits)
        ensures
            limits.max_request_bytes == 262_144,
            limits.max_response_header_bytes == 32_768,
            limits.max_response_bytes == 4_194_304,
            limits.max_redirects == 5,
            limits.max_concurrent == 4,
            limits.resolve_timeout == (Span { nanos: 4_000_000_000 }),
            limits.connect_timeout == (Span { nanos: 4_000_000_000 }),
            limits.request_timeout == (Span { nanos: 10_000_000_000 }),
            limits.rate == (RateLimit { requests: 30, window: Span { nanos: 60_000_000_000 } }),
            limits.error() is None,
    {
        HttpLimits {
            max_request_bytes: 262_144,
            max_response_header_bytes: 32_768,
            max_response_bytes: 4_194_304,
            max_redirects: 5,
            max_concurrent: 4,
            resolve_timeout: Span::from_secs(4),
            connect_timeout: Span::from_secs(4),
            request_timeout: Span::from_secs(10),
            rate: RateLimit { requests: 30, window: Span::from_secs(60) },
        }
    }
}

/// What is wrong with a byte budget.
pub open spec fn size_error(name: Seq<char>, value: usize, maximum: usize) -> Option<
    HttpErrorView,
> {
    if value == 0 || value > maximum {
        Some(
            HttpErrorView::InvalidPolicy(
                name + " must be between 1 and "@ + crate::text::decimal_text(maximum as nat),
            ),
        )
    } else {
        None
    }
}

fn validate_size(name: &str, value: usize, maximum: usize) -> (checked: Result<(), HttpError>)
    ensures
        match size_error(name@, value, maximum) {
            Some(error) => crate::http::error::fails_with(checked, error),
            None => checked is Ok,
        },
{
    if value == 0 || value > maximum {
        return Err(
            HttpError::InvalidPolicy(
                join3(name, " must be between 1 and ", decimal(maximum as u64).as_str()),
            ),
        );
    }
    Ok(())
}

/// What is wrong with a timeout.
pub open spec fn timeout_error(name: Seq<char>, value: Span) -> Option<HttpErrorView> {
    if value.nanos == 0 || value.nanos > HARD_MAX_TIMEOUT_SECS
        * crate::http::span::NANOS_PER_SECOND {
        Some(
            HttpErrorView::InvalidPolicy(
                name + " must be greater than zero and at most 120s"@,
            ),
        )
    } else {
        None
    }
}

fn validate_duration(name: &str, value: Span) -> (checked: Result<(), HttpError>)
    ensures
        match timeout_error(name@, value) {
            Some(error) => crate::http::error::fails_with(checked, error),
            None => checked is Ok,
        },
{
    if value.nanos == 0 || value.nanos > Span::from_secs(HARD_MAX_TIMEOUT_SECS).nanos {
        return Err(
            HttpError::InvalidPolicy(join2(name, " must be greater than zero and at most 120s")),
        );
    }
    Ok(())
}

impl HttpLimits {
    /// The first budget that a policy may not set.
    pub open spec fn error(&self) -> Option<HttpErrorView> {
        let request = size_error(
            "request byte limit"@,
            self.max_request_bytes,
            HARD_MAX_REQUEST_BYTES,
        );
        let header = size_error(
            "response header byte limit"@,
            self.max_response_header_bytes,
            HARD_MAX_HEADER_BYTES,
        );
        let response = size_error(
            "response byte limit"@,
            self.max_response_bytes,
            HARD_MAX_RESPONSE_BYTES,
        );
        let resolve = timeout_error("resolve timeout"@, self.resolve_timeout);
        let connect = timeout_error("connect timeout"@, self.connect_timeout);
        let whole = timeout_error("request timeout"@, self.request_timeout);
        if request is Some {
            request
        } else if header is Some {
            header
        } else if response is Some {
            response
        } else if self.max_redirects > HARD_MAX_REDIRECTS {
            Some(HttpErrorView::InvalidPolicy("redirect limit cannot exceed 10"@))
        } else if self.max_concurrent == 0 || self.max_concurrent > HARD_MAX_CONCURRENCY {
            Some(HttpErrorView::InvalidPolicy("concurrency must be between 1 and 32"@))
        } else if resolve is Some {
            resolve
        } else if connect is Some {
            connect
        } else if whole is Some {
            whole
        } else {
            rate_error(self.rate.requests, self.rate.window)
        }
    }

    /// Checks the budgets.
    pub fn validate(&self) -> (checked: Result<(), HttpError>)
        ensures
            match self.error() {
                Some(error) => crate::http::error::fails_with(checked, error),
                None => checked is Ok,
            },
    {
        if let Err(error) = validate_size(
            "request byte limit",
            self.max_request_bytes,
            HARD_MAX_REQUEST_BYTES,
        ) {
            return Err(error);
        }
        if let Err(error) = validate_size(
            "response header byte limit",
            self.max_response_header_bytes,
            HARD_MAX_HEADER_BYTES,
        ) {
            return Err(error);
        }
        if let Err(error) = validate_size(
            "response byte limit",
            self.max_response_bytes,
            HARD_MAX_RESPONSE_BYTES,
        ) {
            return Err(error);
        }
        if self.max_redirects > HARD_MAX_REDIRECTS {
            return Err(HttpError::InvalidPolicy("redirect limit cannot exceed 10".to_owned()));
        }
        if self.max_concurrent == 0 || self.max_concurrent > HARD_MAX_CONCURRENCY {
            return Err(HttpError::InvalidPolicy("concurrency must be between 1 and 32".to_owned()));
        }
        if let Err(error) = validate_duration("resolve timeout", self.resolve_timeout) {
            return Err(error);
        }
        if let Err(error) = validate_duration("connect timeout", self.connect_timeout) {
            return Err(error);
        }
        if let Err(error) = validate_duration("request timeout", self.request_timeout) {
            return Err(error);
        }
        match RateLimit::new(self.rate.requests, self.rate.window) {
            Ok(_) => Ok(()),
            Err(error) => Err(error),
        }
    }
}

/// The rules for every request and every hop.
#[derive(Clone, Debug)]
pub struct HttpPolicy {
    hosts: ExactHostAllowlist,
    schemes: SchemePolicy,
    content_types: ContentTypePolicy,
    limits: HttpLimits,
    allow_https_downgrade: bool,
}

impl HttpPolicy {
    /// The granted hosts.
    pub closed spec fn spec_hosts(&self) -> ExactHostAllowlist {
        self.hosts
    }

    /// The schemes that may be used.
    pub closed spec fn spec_schemes(&self) -> SchemePolicy {
        self.schemes
    }

    /// The media types that are accepted.
    pub closed spec fn spec_content_types(&self) -> ContentTypePolicy {
        self.content_types
    }

    /// The budgets.
    pub closed spec fn spec_limits(&self) -> HttpLimits {
        self.limits
    }

    /// Whether HTTPS may redirect to HTTP.
    pub closed spec fn downgrade_allowed(&self) -> bool {
        self.allow_https_downgrade
    }

    /// Every budget is one that a policy may set.
    pub open spec fn wf(&self) -> bool {
        &&& self.spec_hosts().wf()
        &&& self.spec_limits().error() is None
    }

    /// HTTPS only, the default budgets, and no downgrade.
    pub fn new(hosts: ExactHostAllowlist, content_types: ContentTypePolicy) -> (policy: HttpPolicy)
        requires
            hosts.wf(),
        ensures
            policy.wf(),
            policy.spec_hosts() == hosts,
            policy.spec_schemes() == SchemePolicy::HttpsOnly,
            policy.spec_content_types() == content_types,
            HttpLimits::default.ensures((), policy.spec_limits()),
            !policy.downgrade_allowed(),
    {
        HttpPolicy {
            hosts,
            schemes: SchemePolicy::HttpsOnly,
            content_types,
            limits: HttpLimits::default(),
            allow_https_downgrade: false,
        }
    }

    /// Chooses the schemes.
    pub fn with_schemes(self, schemes: SchemePolicy) -> (policy: HttpPolicy)
        ensures
            policy.spec_schemes() == schemes,
            policy.spec_hosts() == self.spec_hosts(),
            policy.spec_content_types() == self.spec_content_types(),
            policy.spec_limits() == self.spec_limits(),
            policy.downgrade_allowed() == self.downgrade_allowed(),
    {
        HttpPolicy { schemes, ..self }
    }

    /// Sets the budgets, if a policy may set them.
    pub fn with_limits(self, limits: HttpLimits) -> (policy: Result<HttpPolicy, HttpError>)
        ensures
            match limits.error() {
                Some(error) => crate::http::error::fails_with(policy, error),
                None => policy matches Ok(policy) && {
                    &&& policy.spec_limits() == limits
                    &&& policy.spec_schemes() == self.spec_schemes()
                    &&& policy.spec_hosts() == self.spec_hosts()
                    &&& policy.spec_content_types() == self.spec_content_types()
                    &&& policy.downgrade_allowed() == self.downgrade_allowed()
                },
            },
    {
        match limits.validate() {
            Ok(()) => Ok(HttpPolicy { limits, ..self }),
            Err(error) => Err(error),
        }
    }

    /// Chooses whether HTTPS may redirect to HTTP.
    pub fn allowing_https_downgrade(self, allow: bool) -> (policy: HttpPolicy)
        ensures
            policy.downgrade_allowed() == allow,
            policy.spec_schemes() == self.spec_schemes(),
            policy.spec_hosts() == self.spec_hosts(),
            policy.spec_content_types() == self.spec_content_types(),
            policy.spec_limits() == self.spec_limits(),
    {
        HttpPolicy { allow_https_downgrade: allow, ..self }
    }

    /// The granted hosts.
    pub fn hosts(&self) -> (hosts: &ExactHostAllowlist)
        ensures
            *hosts == self.spec_hosts(),
    {
        &self.hosts
    }

    /// The budgets.
    pub fn limits(&self) -> (limits: &HttpLimits)
        ensures
            *limits == self.spec_limits(),
    {
        &self.limits
    }

    /// The schemes that may be used.
    pub fn schemes(&self) -> (schemes: SchemePolicy)
        ensures
            schemes == self.spec_schemes(),
    {
        self.schemes
    }

    /// The media types that are accepted.
    pub fn content_types(&self) -> (content_types: &ContentTypePolicy)
        ensures
            *content_types == self.spec_content_types(),
    {
        &self.content_types
    }

    /// Whether HTTPS may redirect to HTTP.
    pub fn allows_downgrade(&self) -> (allowed: bool)
        ensures
            allowed == self.downgrade_allowed(),
    {
        self.allow_https_downgrade
    }
}

/// No policy lets a client go over the hard maxima.
pub proof fn law_policies_stay_under_the_hard_maxima(policy: HttpPolicy)
    requires
        policy.wf(),
    ensures
        0 < policy.spec_limits().max_request_bytes <= HARD_MAX_REQUEST_BYTES,
        0 < policy.spec_limits().max_response_header_bytes <= HARD_MAX_HEADER_BYTES,
        0 < policy.spec_limits().max_response_bytes <= HARD_MAX_RESPONSE_BYTES,
        policy.spec_limits().max_redirects <= HARD_MAX_REDIRECTS,
        0 < policy.spec_limits().max_concurrent <= HARD_MAX_CONCURRENCY,
        policy.spec_limits().rate.wf(),
{
}

/// A granted address literal is public: a host that the allowlist took and
/// that is an address cannot be local, private or reserved.
pub proof fn law_granted_literals_are_public(value: Seq<char>, host: Seq<char>, address: IpAddress)
    requires
        canonical(value) == Ok::<Seq<char>, HttpErrorView>(host),
        grant(value, Ok(host)),
        crate::http::network::literal_of(host, address),
    ensures
        crate::http::network::is_public(address),
{
    let other = choose|other: IpAddress| #[trigger]
        crate::http::network::literal_of(host, other) && crate::http::network::is_public(other);
    crate::http::network::law_a_literal_names_one_address(host, address, other);
}

/// A policy may set budgets if and only if each of them is above zero and within its hard
/// maximum; no redirects at all may be allowed too.
pub proof fn law_budgets_are_accepted_up_to_the_hard_maxima(limits: HttpLimits)
    ensures
        limits.error() is None <==> {
            &&& 1 <= limits.max_request_bytes <= 8_388_608
            &&& 1 <= limits.max_response_header_bytes <= 131_072
            &&& 1 <= limits.max_response_bytes <= 67_108_864
            &&& limits.max_redirects <= 10
            &&& 1 <= limits.max_concurrent <= 32
            &&& 0 < limits.resolve_timeout.nanos <= 120_000_000_000
            &&& 0 < limits.connect_timeout.nanos <= 120_000_000_000
            &&& 0 < limits.request_timeout.nanos <= 120_000_000_000
            &&& 1 <= limits.rate.requests <= 10_000
            &&& 0 < limits.rate.window.nanos <= 86_400_000_000_000
        },
{
}

/// HTTPS may be used under every policy, HTTP if it was granted, and no other scheme.
pub proof fn law_schemes_are_granted(schemes: SchemePolicy, scheme: Seq<char>)
    ensures
        schemes.permits(scheme) ==> scheme == "https"@ || scheme == "http"@,
        schemes.permits("https"@),
        SchemePolicy::HttpAndHttps.permits("http"@),
        !SchemePolicy::HttpsOnly.permits("http"@),
{
    reveal_strlit("https");
    reveal_strlit("http");
    assert("https"@.len() != "http"@.len());
}

/// A list allows a host if and only if the form of the host is that of one of the hosts
/// that the list was made of. Names under a host, or above it, have another form.
pub proof fn law_exact_hosts_are_allowed(
    hosts: &[&str],
    list: ExactHostAllowlist,
    host: &str,
    allowed: bool,
)
    requires
        call_ensures(ExactHostAllowlist::new, (hosts,), Ok(list)),
        call_ensures(ExactHostAllowlist::allows, (&list, host), allowed),
    ensures
        hosts@.len() > 0,
        allowed <==> canonical(host@) is Ok && exists|i: int|
            0 <= i < hosts@.len() && canonical(#[trigger] hosts@[i]@) == canonical(host@),
        forall|i: int| 0 <= i < hosts@.len() ==> canonical(#[trigger] hosts@[i]@) is Ok,
{
    if canonical(host@) is Ok {
        let form = canonical(host@)->Ok_0;
        if list.granted().contains(form) {
            let i = choose|i: int|
                0 <= i < hosts@.len() && canonical(#[trigger] hosts@[i]@) == Ok::<
                    Seq<char>,
                    HttpErrorView,
                >(form);
            assert(canonical(hosts@[i]@) == canonical(host@));
        }
        if exists|i: int| 0 <= i < hosts@.len() && canonical(#[trigger] hosts@[i]@) == canonical(
            host@,
        ) {
            let i = choose|i: int|
                0 <= i < hosts@.len() && canonical(#[trigger] hosts@[i]@) == canonical(host@);
            assert(list.granted().contains(canonical(hosts@[i]@)->Ok_0));
        }
    }
}

/// A host with white space, a slash, a question mark, an at or a hash in it has no form. A
/// name is compared as the parser reads it, in lower case and without dots behind, and an
/// address as it is usually written.
pub proof fn law_hosts_have_one_form(value: Seq<char>, i: int)
    ensures
        canonical(value) is Ok ==> crate::text::trim_text(value).len() > 0,
        canonical(value) is Ok && 0 <= i < crate::text::trim_text(value).len() ==> {
            let c = crate::text::trim_text(value)[i];
            c != ' ' && c != '\t' && c != '\n' && c != '\r' && c != '/' && c != '?' && c != '@' && c
                != '#'
        },
        dotted_decimal(value) ==> canonical(value) == Ok::<Seq<char>, HttpErrorView>(value),
        canonical(value) matches Ok(form) ==> form.len() > 0 || usual_ipv6(form),
        canonical(value) == canonical(crate::text::trim_text(value)),
        canonical(value) matches Ok(form) ==> (0 <= i < form.len() && !usual_ipv6(form)
            ==> !('A' <= form[i] <= 'Z')),
{
    let host = crate::text::trim_text(value);
    crate::text::law_only_white_space_is_trimmed(value);
    assert(crate::text::trim_text(host) == host) by {
        assert(crate::text::trim_start_text(host) == host);
        assert(crate::text::trim_end_text(host) == host);
    }
    if canonical(value) is Ok && 0 <= i < host.len() {
        assert(!host_breaker(host[i]));
    }
    if dotted_decimal(value) {
        let address = choose|address: u32|
            value == #[trigger] crate::http::network::ipv4_text(address);
        crate::http::network::lemma_ipv4_characters(address);
        assert(crate::text::trim_start_text(value) == value);
        assert(crate::text::trim_end_text(value) == value);
        if breaks_host(value) {
            let k = choose|k: int| 0 <= k < value.len() && host_breaker(#[trigger] value[k]);
            assert(value[k] == crate::http::network::ipv4_text(address)[k]);
        }
    }
    if let Ok(form) = canonical(value) {
        if 0 <= i < form.len() && !usual_ipv6(form) {
            if dotted_decimal(form) {
                let address = choose|address: u32|
                    form == #[trigger] crate::http::network::ipv4_text(address);
                crate::http::network::lemma_ipv4_characters(address);
                assert(form[i] == crate::http::network::ipv4_text(address)[i]);
            } else {
                let domain = crate::http::network::without_trailing_dots(
                    parsed_host(host)->Ok_0->Domain_0,
                );
                crate::text::law_lower_case_is_settled(domain, i);
            }
        }
    }
}

/// What stands behind the first semicolon of a content type does not matter.
pub proof fn law_parameters_are_ignored(media: Seq<char>, parameters: Seq<char>)
    requires
        forall|i: int| 0 <= i < media.len() ==> #[trigger] media[i] != ';',
    ensures
        before_parameters(media) == media,
        before_parameters(media + seq![';'] + parameters) == media,
    decreases media.len(),
{
    let whole = media + seq![';'] + parameters;
    if media.len() > 0 {
        law_parameters_are_ignored(media.skip(1), parameters);
        assert(whole.skip(1) =~= media.skip(1) + seq![';'] + parameters);
        assert(seq![media[0]] + media.skip(1) =~= media);
    } else {
        assert(whole[0] == ';');
        assert(before_parameters(whole) =~= media);
    }
}

/// A media type that is accepted has one slash between two tokens. A rule for one type
/// accepts that type alone, one for a category all types that begin with it and a slash,
/// and one for a suffix all types that end with a plus and it.
pub proof fn law_rules_accept_what_they_name(rule: ContentTypeRule, media: Seq<char>)
    requires
        media_type(media),
    ensures
        match rule {
            ContentTypeRule::Exact(expected) => rule.accepts(media) <==> media == expected@,
            ContentTypeRule::Type(expected) => rule.accepts(media) && media_token(expected@)
                ==> exists|subtype: Seq<char>| media == #[trigger] (expected@ + "/"@ + subtype),
            ContentTypeRule::StructuredSuffix(expected) => rule.accepts(media) ==> exists|
                front: Seq<char>,
            | media == #[trigger] (front + ("+"@ + expected@)),
        },
        match rule {
            ContentTypeRule::Type(expected) => media_token(expected@) && (exists|
                subtype: Seq<char>,
            | media == #[trigger] (expected@ + "/"@ + subtype)) ==> rule.accepts(media),
            _ => true,
        },
{
    reveal_strlit("/");
    let at = choose|at: int| slash_at(media, at);
    match rule {
        ContentTypeRule::Exact(_) => {},
        ContentTypeRule::Type(expected) => {
            if rule.accepts(media) && media_token(expected@) {
                let here = choose|here: int|
                    slash_at(media, here) && media.take(here) == expected@;
                let subtype = media.skip(here + 1);
                assert(media =~= expected@ + "/"@ + subtype);
            }
            if media_token(expected@) && exists|subtype: Seq<char>|
                media == #[trigger] (expected@ + "/"@ + subtype) {
                let subtype = choose|subtype: Seq<char>|
                    media == #[trigger] (expected@ + "/"@ + subtype);
                let here = expected@.len() as int;
                assert(media[here] == '/');
                assert(media.take(here) =~= expected@);
                if at < here {
                    assert(media[at] == expected@[at]);
                    assert(media_char('/'));
                }
                if at > here {
                    assert(media.take(at)[here] == '/');
                    assert(media_char('/'));
                }
                assert(slash_at(media, here));
            }
        },
        ContentTypeRule::StructuredSuffix(expected) => {
            if rule.accepts(media) {
                let here = choose|here: int|
                    slash_at(media, here) && crate::text::has_suffix(
                        media.skip(here + 1),
                        "+"@ + expected@,
                    );
                let tail = "+"@ + expected@;
                let front = media.take(media.len() - tail.len());
                assert(media.skip(here + 1).skip(media.skip(here + 1).len() - tail.len())
                    =~= media.skip(media.len() - tail.len()));
                assert(media =~= front + tail);
            }
        },
    }
}

/// A token of a media type is made of letters, digits and a few marks, none of which is a
/// slash, a semicolon, a star or white space.
pub proof fn law_media_tokens_have_no_delimiters(c: char)
    ensures
        media_char(c) <==> {
            ||| ('a' <= c && c <= 'z') || ('A' <= c && c <= 'Z')
            ||| ('0' <= c && c <= '9')
            ||| seq!['!', '#', '$', '&', '+', '-', '.', '^', '_'].contains(c)
        },
        media_char(c) ==> c != '/' && c != ';' && c != '*' && c != ' ' && c != ',' && c != '"',
{
    let marks = seq!['!', '#', '$', '&', '+', '-', '.', '^', '_'];
    assert(marks[0] == '!' && marks[1] == '#' && marks[2] == '$' && marks[3] == '&' && marks[4]
        == '+' && marks[5] == '-' && marks[6] == '.' && marks[7] == '^' && marks[8] == '_');
}

/// A response without a content type is accepted if and only if the policy lets it be
/// missing. With one it is accepted if and only if the type, without parameters, without
/// white space around it and in lower case, is a media type that one of the rules accepts.
pub proof fn law_content_types_are_accepted_by_a_rule(
    policy: ContentTypePolicy,
    value: Seq<char>,
)
    ensures
        policy.verdict(None) is Ok <==> policy.missing_allowed(),
        policy.verdict(None) matches Ok(media) ==> media is None,
        ({
            let media = crate::text::lower_text(
                crate::text::trim_text(before_parameters(value)),
            );
            &&& policy.verdict(Some(value)) is Ok <==> media_type(media) && exists|i: int|
                0 <= i < policy.spec_rules().len() && (#[trigger] policy.spec_rules()[i]).accepts(
                    media,
                )
            &&& policy.verdict(Some(value)) matches Ok(found) ==> found == Some(media)
        }),
{
}

/// The rules for JSON accept `application/json`, and a type with the suffix alone besides.
pub proof fn law_json_is_json(policy: ContentTypePolicy, media: Seq<char>)
    requires
        call_ensures(ContentTypePolicy::json, (), policy),
        media_type(media),
        policy.accepts(media),
    ensures
        media == "application/json"@ || exists|front: Seq<char>|
            media == #[trigger] (front + "+json"@),
        policy.verdict(None) is Err,
{
    let i = choose|i: int|
        0 <= i < policy.spec_rules().len() && (#[trigger] policy.spec_rules()[i]).accepts(media);
    law_rules_accept_what_they_name(policy.spec_rules()[i], media);
    if i == 1 {
        reveal_strlit("+");
        reveal_strlit("json");
        reveal_strlit("+json");
        assert("+"@ + "json"@ =~= "+json"@);
    }
}

/// A new policy lets HTTPS alone be used and no redirect leave it. To change one rule of a
/// policy leaves all others as they are.
pub proof fn law_policies_are_changed_rule_by_rule(
    hosts: ExactHostAllowlist,
    types: ContentTypePolicy,
    policy: HttpPolicy,
    schemes: SchemePolicy,
    with_schemes: HttpPolicy,
    limits: HttpLimits,
    with_limits: Result<HttpPolicy, HttpError>,
    allow: bool,
    with_downgrade: HttpPolicy,
)
    requires
        call_ensures(HttpPolicy::new, (hosts, types), policy),
        call_ensures(HttpPolicy::with_schemes, (policy, schemes), with_schemes),
        call_ensures(HttpPolicy::with_limits, (policy, limits), with_limits),
        call_ensures(HttpPolicy::allowing_https_downgrade, (policy, allow), with_downgrade),
    ensures
        policy.spec_hosts() == hosts && policy.spec_content_types() == types,
        !policy.downgrade_allowed(),
        !policy.spec_schemes().permits("http"@),
        policy.spec_limits().max_redirects == 5,
        policy.spec_limits().max_concurrent == 4,
        policy.spec_limits().max_response_bytes == 4_194_304,
        with_schemes.spec_schemes() == schemes,
        with_schemes.spec_hosts() == hosts && with_schemes.spec_content_types() == types
            && with_schemes.spec_limits() == policy.spec_limits()
            && !with_schemes.downgrade_allowed(),
        with_limits is Ok <==> limits.error() is None,
        with_limits matches Ok(made) ==> made.spec_limits() == limits && made.spec_hosts() == hosts
            && made.spec_content_types() == types && made.spec_schemes() == policy.spec_schemes()
            && !made.downgrade_allowed(),
        with_downgrade.downgrade_allowed() == allow,
        with_downgrade.spec_hosts() == hosts && with_downgrade.spec_content_types() == types
            && with_downgrade.spec_limits() == policy.spec_limits()
            && with_downgrade.spec_schemes() == policy.spec_schemes(),
{
    law_schemes_are_granted(policy.spec_schemes(), "http"@);
}

/// Where nothing else is set a request has a quarter of a mebibyte, a response four, there
/// are five redirects, four calls at a time and thirty hops a minute, and the time to
/// resolve, to connect and for all of it is four, four and ten seconds.
pub proof fn law_usual_budgets_are_these(limits: HttpLimits)
    requires
        call_ensures(HttpLimits::default, (), limits),
    ensures
        limits.max_request_bytes == 256 * 1_024,
        limits.max_response_header_bytes == 32 * 1_024,
        limits.max_response_bytes == 4 * 1_024 * 1_024,
        limits.max_redirects == 5,
        limits.max_concurrent == 4,
        limits.resolve_timeout.nanos == 4 * 1_000_000_000,
        limits.connect_timeout.nanos == 4 * 1_000_000_000,
        limits.request_timeout.nanos == 10 * 1_000_000_000,
        limits.rate.requests == 30,
        limits.rate.window.nanos == 60 * 1_000_000_000,
{
}

/// A rule that is made from a media type accepts it, written in any case and with white
/// space around it, and one that is made from a category or a suffix names it in lower case.
/// What is no token, such as a star, makes no rule.
pub proof fn law_rules_are_made_from_what_they_name(
    value: &str,
    exact: Result<ContentTypeRule, HttpError>,
    category: Result<ContentTypeRule, HttpError>,
    suffix: Result<ContentTypeRule, HttpError>,
)
    requires
        call_ensures(ContentTypeRule::exact, (value,), exact),
        call_ensures(ContentTypeRule::type_wildcard, (value,), category),
        call_ensures(ContentTypeRule::structured_suffix, (value,), suffix),
    ensures
        ({
            let text = crate::text::lower_text(crate::text::trim_text(value@));
            &&& exact is Ok <==> media_type(text)
            &&& exact matches Ok(rule) ==> rule.accepts(text)
            &&& category is Ok <==> media_token(text)
            &&& category matches Ok(rule) ==> (rule matches ContentTypeRule::Type(named) && named@
                == text)
            &&& suffix is Ok <==> media_token(text)
            &&& suffix matches Ok(rule) ==> (rule matches ContentTypeRule::StructuredSuffix(named)
                && named@ == text)
        }),
{
}

} // verus!
