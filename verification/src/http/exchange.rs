//! The rules of one hop: what may be sent, where it may go, what may come
//! back, and where a redirect leads.

use crate::http::error::{HttpError, HttpErrorView};
use crate::http::network::{
    is_localhost_name, is_public_ip, sort_addresses, write_address, IpAddress,
};
use crate::http::policy::{canonical_host, HttpPolicy};
use crate::http::request::{
    utf8_text, HeaderBytes, HeaderView, HttpMethod, RequestHeader, RequestView,
};
use crate::http::transport::{
    ResolveRequest, ResolvedEndpoint, TransportHeader, TransportRequest,
};
use crate::http::web_url::{same_origin, UrlHost, UrlHostView, WebUrl, WebUrlView};
use crate::text::{byte_len, chars_of, decimal, join3, same_text, to_lower, trim};
use vstd::prelude::*;

verus! {

/// A request on its way: what the next hop sends.
#[derive(Debug)]
pub struct Hop {
    pub method: HttpMethod,
    pub url: WebUrl,
    pub headers: Vec<RequestHeader>,
    pub body: Vec<u8>,
}

impl View for Hop {
    type V = RequestView;

    open spec fn view(&self) -> RequestView {
        RequestView {
            method: self.method,
            url: self.url@,
            headers: crate::http::request::header_views(self.headers@),
            body: self.body@,
        }
    }
}

/// How many bytes headers take on the wire, four for the punctuation of each.
pub open spec fn headers_size(headers: Seq<HeaderView>) -> int
    decreases headers.len(),
{
    if headers.len() == 0 {
        0
    } else {
        headers_size(headers.drop_last()) + crate::text::utf8_len(headers.last().name)
            + crate::text::utf8_len(headers.last().value) + 4
    }
}

/// How many bytes a request takes: method, URL, body and headers.
pub open spec fn request_size(request: RequestView) -> int {
    (if request.method == HttpMethod::Get {
        3int
    } else {
        4
    }) + crate::text::utf8_len(request.url.text) + request.body.len() + headers_size(
        request.headers,
    )
}

proof fn lemma_headers_size_grows(headers: Seq<HeaderView>, k: int)
    requires
        0 <= k <= headers.len(),
    ensures
        0 <= headers_size(headers.take(k)) <= headers_size(headers),
    decreases headers.len() - k,
{
    if k < headers.len() {
        lemma_headers_size_grows(headers, k + 1);
        assert(headers.take(k + 1).drop_last() =~= headers.take(k));
    } else {
        assert(headers.take(k) =~= headers);
        lemma_headers_size_positive(headers);
    }
    lemma_headers_size_positive(headers.take(k));
}

proof fn lemma_headers_size_positive(headers: Seq<HeaderView>)
    ensures
        0 <= headers_size(headers),
    decreases headers.len(),
{
    if headers.len() > 0 {
        lemma_headers_size_positive(headers.drop_last());
    }
}

/// `a + b`, unless it does not fit.
fn checked_sum(a: usize, b: usize) -> (sum: Option<usize>)
    ensures
        sum == if a + b <= usize::MAX {
            Some((a + b) as usize)
        } else {
            None
        },
{
    a.checked_add(b)
}

/// Checks the size of a request.
pub fn validate_request_size(hop: &Hop, limit: usize) -> (checked: Result<(), HttpError>)
    ensures
        if request_size(hop@) > limit {
            crate::http::error::fails_with(checked, HttpErrorView::RequestTooLarge { limit })
        } else {
            checked is Ok
        },
{
    let method_bytes: usize = match hop.method {
        HttpMethod::Get => 3,
        HttpMethod::Head => 4,
        HttpMethod::Post => 4,
    };
    let ghost headers = hop@.headers;
    proof {
        lemma_headers_size_positive(headers);
    }
    let mut bytes: usize = match checked_sum(method_bytes, byte_len(hop.url.text.as_str())) {
        Some(bytes) => bytes,
        None => {
            return Err(HttpError::RequestTooLarge { limit });
        },
    };
    bytes =
    match checked_sum(bytes, hop.body.len()) {
        Some(bytes) => bytes,
        None => {
            return Err(HttpError::RequestTooLarge { limit });
        },
    };
    let ghost fixed = bytes as int;
    let mut i: usize = 0;
    while i < hop.headers.len()
        invariant
            i <= hop.headers@.len(),
            headers == hop@.headers,
            headers.len() == hop.headers@.len(),
            fixed + headers_size(headers) == request_size(hop@),
            bytes == fixed + headers_size(headers.take(i as int)),
        decreases hop.headers@.len() - i,
    {
        let name: usize = byte_len(hop.headers[i].name());
        let value: usize = byte_len(hop.headers[i].value());
        proof {
            assert(headers[i as int] == hop.headers@[i as int]@);
            assert(headers.take(i + 1).drop_last() =~= headers.take(i as int));
            assert(headers.take(i + 1).last() == headers[i as int]);
            lemma_headers_size_grows(headers, i + 1);
        }
        bytes =
        match checked_sum(bytes, name) {
            Some(bytes) => bytes,
            None => {
                return Err(HttpError::RequestTooLarge { limit });
            },
        };
        bytes =
        match checked_sum(bytes, value) {
            Some(bytes) => bytes,
            None => {
                return Err(HttpError::RequestTooLarge { limit });
            },
        };
        bytes =
        match checked_sum(bytes, 4) {
            Some(bytes) => bytes,
            None => {
                return Err(HttpError::RequestTooLarge { limit });
            },
        };
        i += 1;
    }
    assert(headers.take(headers.len() as int) =~= headers);
    if bytes > limit {
        return Err(HttpError::RequestTooLarge { limit });
    }
    Ok(())
}

/// Where a hop goes, before the name is resolved.
#[derive(Debug)]
pub struct Target {
    /// The host as the URL has it.
    pub transport_host: String,
    /// The granted form of the host.
    pub canonical: String,
    pub port: u16,
    /// The address, where the URL has one in place of a name.
    pub literal: Option<IpAddress>,
}

/// A [`Target`] with its texts as sequences of characters.
pub struct TargetView {
    pub transport_host: Seq<char>,
    pub canonical: Seq<char>,
    pub port: u16,
    pub literal: Option<IpAddress>,
}

impl View for Target {
    type V = TargetView;

    open spec fn view(&self) -> TargetView {
        TargetView {
            transport_host: self.transport_host@,
            canonical: self.canonical@,
            port: self.port,
            literal: self.literal,
        }
    }
}

/// The granted form of the host of a URL.
pub open spec fn canonical_url_host(host: UrlHostView) -> Result<Seq<char>, HttpErrorView> {
    match host {
        UrlHostView::Domain(domain) => crate::http::policy::canonical(domain),
        UrlHostView::Ipv4(address) => Ok(
            crate::http::network::address_text(IpAddress::V4(address)),
        ),
        UrlHostView::Ipv6(address) => Ok(
            crate::http::network::address_text(IpAddress::V6(address)),
        ),
    }
}

/// The address that a URL has in place of a name.
pub open spec fn literal_host(host: UrlHostView) -> Option<IpAddress> {
    match host {
        UrlHostView::Domain(_) => None,
        UrlHostView::Ipv4(address) => Some(IpAddress::V4(address)),
        UrlHostView::Ipv6(address) => Some(IpAddress::V6(address)),
    }
}

/// Where a URL may lead, or why nowhere: the scheme, embedded credentials, the
/// host, names of the machine itself, the allowlist and the port are checked
/// in this order.
pub open spec fn target(policy: HttpPolicy, url: WebUrlView) -> Result<TargetView, HttpErrorView> {
    if !policy.spec_schemes().permits(url.scheme) {
        Err(HttpErrorView::SchemeDenied(url.scheme))
    } else if url.username.len() != 0 || url.has_password {
        Err(HttpErrorView::InvalidUrl("embedded credentials are not allowed"@))
    } else {
        match url.host {
            None => Err(HttpErrorView::InvalidUrl("URL has no host"@)),
            Some((host, text)) => match canonical_url_host(host) {
                Err(error) => Err(error),
                Ok(form) => if crate::http::network::localhost_name(form) {
                    Err(HttpErrorView::LocalhostDenied(form))
                } else if !granted(policy, form) {
                    Err(HttpErrorView::HostDenied(form))
                } else {
                    match url.port {
                        Some(port) => if port == 0 {
                            Err(HttpErrorView::InvalidUrl("URL has no usable port"@))
                        } else {
                            Ok(
                                TargetView {
                                    transport_host: text,
                                    canonical: form,
                                    port,
                                    literal: literal_host(host),
                                },
                            )
                        },
                        None => Err(HttpErrorView::InvalidUrl("URL has no usable port"@)),
                    }
                },
            },
        }
    }
}

/// The host is on the allowlist.
pub open spec fn granted(policy: HttpPolicy, host: Seq<char>) -> bool {
    crate::http::policy::canonical(host) matches Ok(form)
        && policy.spec_hosts().granted().contains(form)
}

/// The policy lets a client ask this: the host, in its granted form, of a URL that
/// it may follow.
pub open spec fn askable(policy: HttpPolicy, request: ResolveRequest) -> bool {
    exists|url: WebUrlView|
        (#[trigger] target(policy, url)) matches Ok(target) && target.literal is None
            && request.host@ == target.canonical && request.port == target.port
            && request.timeout == policy.spec_limits().resolve_timeout
}

/// The policy lets a client send this: a request within its size, to a URL that it
/// may follow, pinned to the port of the URL and to addresses that are all public,
/// and within its timeouts.
pub open spec fn sendable(policy: HttpPolicy, request: TransportRequest) -> bool {
    &&& target(policy, request.url@) matches Ok(target) && request.endpoint.host@
        == target.transport_host && request.endpoint.port == target.port && (
    target.literal matches Some(address) ==> request.endpoint.addresses@ == seq![address])
    &&& request.endpoint.addresses@.len() > 0
    &&& forall|i: int|
        0 <= i < request.endpoint.addresses@.len() ==> crate::http::network::is_public(
            #[trigger] request.endpoint.addresses@[i],
        )
    &&& request_size(request.hop()) <= policy.spec_limits().max_request_bytes
    &&& request.connect_timeout == policy.spec_limits().connect_timeout
    &&& request.request_timeout == policy.spec_limits().request_timeout
}

/// Finds where a URL may lead.
pub fn find_target(policy: &HttpPolicy, url: &WebUrl) -> (found: Result<Target, HttpError>)
    requires
        policy.wf(),
    ensures
        match target(*policy, url@) {
            Ok(view) => found matches Ok(found) && found@ == view,
            Err(error) => crate::http::error::fails_with(found, error),
        },
{
    if !policy.schemes().allows(url.scheme.as_str()) {
        return Err(HttpError::SchemeDenied(url.scheme.clone()));
    }
    if !url.username.as_str().is_empty() || url.has_password {
        return Err(HttpError::InvalidUrl("embedded credentials are not allowed".to_owned()));
    }
    let (host, text) = match &url.host {
        Some(host) => (&host.0, &host.1),
        None => {
            return Err(HttpError::InvalidUrl("URL has no host".to_owned()));
        },
    };
    let form = match host {
        UrlHost::Domain(domain) => match canonical_host(domain.as_str()) {
            Ok(form) => form,
            Err(error) => {
                return Err(error);
            },
        },
        UrlHost::Ipv4(address) => write_address(IpAddress::V4(*address)),
        UrlHost::Ipv6(address) => write_address(IpAddress::V6(*address)),
    };
    if is_localhost_name(form.as_str()) {
        return Err(HttpError::LocalhostDenied(form));
    }
    if !policy.hosts().allows(form.as_str()) {
        return Err(HttpError::HostDenied(form));
    }
    let port: u16 = match url.port {
        Some(port) => if port == 0 {
            return Err(HttpError::InvalidUrl("URL has no usable port".to_owned()));
        } else {
            port
        },
        None => {
            return Err(HttpError::InvalidUrl("URL has no usable port".to_owned()));
        },
    };
    let literal = match host {
        UrlHost::Domain(_) => None,
        UrlHost::Ipv4(address) => Some(IpAddress::V4(*address)),
        UrlHost::Ipv6(address) => Some(IpAddress::V6(*address)),
    };
    Ok(Target { transport_host: text.clone(), canonical: form, port, literal })
}

/// What a target is pinned to, for the addresses that its host resolved to.
/// Every address has to be public; of those that are not, the first in order is
/// reported.
pub open spec fn pinned_to(
    target: TargetView,
    addresses: Seq<IpAddress>,
    pinned: Result<ResolvedEndpoint, HttpError>,
) -> bool {
    match pinned {
        Ok(endpoint) => {
            &&& addresses.len() > 0
            &&& endpoint.host@ == target.transport_host
            &&& endpoint.port == target.port
            &&& crate::http::network::ascending(endpoint.addresses@)
            &&& crate::http::network::same_members(endpoint.addresses@, addresses)
            &&& forall|i: int|
                0 <= i < endpoint.addresses@.len() ==> crate::http::network::is_public(
                    #[trigger] endpoint.addresses@[i],
                )
        },
        Err(HttpError::AddressDenied(address)) => {
            &&& addresses.contains(address)
            &&& !crate::http::network::is_public(address)
            &&& forall|other: IpAddress| #[trigger]
                addresses.contains(other) && crate::http::network::address_before(other, address)
                    ==> crate::http::network::is_public(other)
        },
        Err(error) => addresses.len() == 0 && error@ == HttpErrorView::Resolve(
            "host resolved to no addresses"@,
        ),
    }
}

/// The endpoint of a target for the addresses that its host resolved to.
pub fn pin_endpoint(target: &Target, addresses: &Vec<IpAddress>) -> (pinned: Result<
    ResolvedEndpoint,
    HttpError,
>)
    ensures
        pinned_to(target@, addresses@, pinned),
{
    if addresses.len() == 0 {
        return Err(HttpError::Resolve("host resolved to no addresses".to_owned()));
    }
    let sorted = sort_addresses(addresses);
    let mut i: usize = 0;
    while i < sorted.len()
        invariant
            i <= sorted@.len(),
            crate::http::network::ascending(sorted@),
            crate::http::network::same_members(sorted@, addresses@),
            forall|j: int|
                0 <= j < i ==> crate::http::network::is_public(#[trigger] sorted@[j]),
        decreases sorted@.len() - i,
    {
        if !is_public_ip(sorted[i]) {
            proof {
                let address = sorted@[i as int];
                assert(sorted@.contains(address));
                assert forall|other: IpAddress| #[trigger]
                    addresses@.contains(other) && crate::http::network::address_before(
                        other,
                        address,
                    ) implies crate::http::network::is_public(other) by {
                    assert(sorted@.contains(other));
                    let j = choose|j: int| 0 <= j < sorted@.len() && sorted@[j] == other;
                    if j > i {
                        assert(crate::http::network::address_before(
                            sorted@[i as int],
                            sorted@[j],
                        ));
                    }
                }
            }
            return Err(HttpError::AddressDenied(sorted[i]));
        }
        i += 1;
    }
    Ok(
        ResolvedEndpoint {
            host: target.transport_host.clone(),
            port: target.port,
            addresses: sorted,
        },
    )
}

/// A character of a response header name.
pub open spec fn response_name_char(c: char) -> bool {
    ('a' <= c <= 'z') || ('A' <= c <= 'Z') || ('0' <= c <= '9') || c == '-'
}

/// The text is a response header name.
pub open spec fn response_name(text: Seq<char>) -> bool {
    text.len() > 0 && forall|i: int|
        0 <= i < text.len() ==> response_name_char(#[trigger] text[i])
}

fn is_response_name(text: &str) -> (fits: bool)
    ensures
        fits == response_name(text@),
{
    let chars = chars_of(text);
    let mut i: usize = 0;
    while i < chars.len()
        invariant
            i <= chars@.len(),
            chars@ == text@,
            forall|j: int| 0 <= j < i ==> response_name_char(#[trigger] chars@[j]),
        decreases chars@.len() - i,
    {
        let c = chars[i];
        if !(('a' <= c && c <= 'z') || ('A' <= c && c <= 'Z') || ('0' <= c && c <= '9') || c
            == '-') {
            assert(!response_name_char(text@[i as int]));
            return false;
        }
        i += 1;
    }
    chars.len() > 0
}

/// The first thing that is wrong with response headers, when `used` bytes of
/// the budget are gone.
pub open spec fn headers_error(headers: Seq<HeaderBytes>, used: int, limit: usize) -> Option<
    HttpErrorView,
>
    decreases headers.len(),
{
    if headers.len() == 0 {
        None
    } else if !response_name(headers[0].name) {
        Some(HttpErrorView::Transport("response contains an invalid header name"@))
    } else {
        let now = used + crate::text::utf8_len(headers[0].name) + headers[0].value.len() + 4;
        if now > limit {
            Some(HttpErrorView::ResponseHeadersTooLarge { limit })
        } else {
            headers_error(headers.skip(1), now, limit)
        }
    }
}

/// Checks response headers against their budget.
pub fn validate_response_headers(headers: &Vec<TransportHeader>, limit: usize) -> (checked: Result<
    (),
    HttpError,
>)
    ensures
        match headers_error(crate::http::transport::byte_views(headers@), 0, limit) {
            Some(error) => crate::http::error::fails_with(checked, error),
            None => checked is Ok,
        },
{
    let ghost views = crate::http::transport::byte_views(headers@);
    let mut bytes: usize = 0;
    let mut i: usize = 0;
    assert(views.skip(0) =~= views);
    while i < headers.len()
        invariant
            i <= headers@.len(),
            views == crate::http::transport::byte_views(headers@),
            headers_error(views, 0, limit) == headers_error(
                views.skip(i as int),
                bytes as int,
                limit,
            ),
        decreases headers@.len() - i,
    {
        let header = &headers[i];
        assert(views.skip(i as int)[0] == header@);
        assert(views.skip(i as int).skip(1) =~= views.skip(i + 1));
        if !is_response_name(header.name.as_str()) {
            return Err(HttpError::Transport("response contains an invalid header name".to_owned()));
        }
        let name: usize = byte_len(header.name.as_str());
        bytes =
        match checked_sum(bytes, name) {
            Some(bytes) => bytes,
            None => {
                return Err(HttpError::ResponseHeadersTooLarge { limit });
            },
        };
        bytes =
        match checked_sum(bytes, header.value.len()) {
            Some(bytes) => bytes,
            None => {
                return Err(HttpError::ResponseHeadersTooLarge { limit });
            },
        };
        bytes =
        match checked_sum(bytes, 4) {
            Some(bytes) => bytes,
            None => {
                return Err(HttpError::ResponseHeadersTooLarge { limit });
            },
        };
        if bytes > limit {
            return Err(HttpError::ResponseHeadersTooLarge { limit });
        }
        i += 1;
    }
    Ok(())
}

/// The values of the headers with a name, whatever the case of its letters.
pub open spec fn values_named(headers: Seq<HeaderBytes>, name: Seq<char>) -> Seq<Seq<u8>>
    decreases headers.len(),
{
    if headers.len() == 0 {
        Seq::empty()
    } else if crate::http::request::same_name(headers.last().name, name) {
        values_named(headers.drop_last(), name).push(headers.last().value)
    } else {
        values_named(headers.drop_last(), name)
    }
}

/// The one value of a header as text. More than one, or one that is not UTF-8,
/// is an error.
pub open spec fn unique_value(headers: Seq<HeaderBytes>, name: Seq<char>) -> Result<
    Option<Seq<char>>,
    HttpErrorView,
> {
    let values = values_named(headers, name);
    if values.len() == 0 {
        Ok(None)
    } else if values.len() > 1 {
        Err(
            HttpErrorView::Transport(
                "response contains repeated `"@ + name + "` headers"@,
            ),
        )
    } else if vstd::utf8::valid_utf8(values[0]) {
        Ok(Some(vstd::utf8::decode_utf8(values[0])))
    } else {
        Err(HttpErrorView::Transport("response `"@ + name + "` header is not UTF-8"@))
    }
}

proof fn lemma_values_grow(headers: Seq<HeaderBytes>, name: Seq<char>, k: int)
    requires
        0 <= k <= headers.len(),
    ensures
        values_named(headers.take(k), name).len() <= values_named(headers, name).len(),
    decreases headers.len() - k,
{
    if k < headers.len() {
        assert(headers.take(k + 1).drop_last() =~= headers.take(k));
        lemma_values_grow(headers, name, k + 1);
    } else {
        assert(headers.take(k) =~= headers);
    }
}

/// Reads the one value of a header as text.
pub fn unique_utf8_header<'a>(headers: &'a Vec<TransportHeader>, name: &str) -> (value: Result<
    Option<&'a str>,
    HttpError,
>)
    ensures
        match unique_value(crate::http::transport::byte_views(headers@), name@) {
            Ok(text) => value matches Ok(value) && crate::http::web_url::base_view(value) == text,
            Err(error) => crate::http::error::fails_with(value, error),
        },
{
    let ghost views = crate::http::transport::byte_views(headers@);
    let wanted = to_lower(name);
    let mut found: Option<usize> = None;
    let mut i: usize = 0;
    while i < headers.len()
        invariant
            i <= headers@.len(),
            views == crate::http::transport::byte_views(headers@),
            wanted@ == crate::text::lower_text(name@),
            match found {
                Some(at) => at < i && values_named(views.take(i as int), name@)
                    =~= seq![views[at as int].value],
                None => values_named(views.take(i as int), name@).len() == 0,
            },
        decreases headers@.len() - i,
    {
        proof {
            assert(views.take(i + 1).drop_last() =~= views.take(i as int));
            assert(views.take(i + 1).last() == headers@[i as int]@);
        }
        if same_text(to_lower(headers[i].name.as_str()).as_str(), wanted.as_str()) {
            if found.is_some() {
                proof {
                    lemma_values_grow(views, name@, i + 1);
                }
                return Err(
                    HttpError::Transport(
                        join3("response contains repeated `", name, "` headers"),
                    ),
                );
            }
            found = Some(i);
        }
        i += 1;
    }
    assert(views.take(views.len() as int) =~= views);
    match found {
        None => Ok(None),
        Some(at) => {
            assert(views[at as int].value == headers@[at as int].value@);
            match utf8_text(&headers[at].value) {
                Some(text) => Ok(Some(text)),
                None => Err(
                    HttpError::Transport(join3("response `", name, "` header is not UTF-8")),
                ),
            }
        },
    }
}

/// The number that digits spell.
pub open spec fn digits_value(text: Seq<char>) -> int
    decreases text.len(),
{
    if text.len() == 0 {
        0
    } else {
        digits_value(text.drop_last()) * 10 + (text.last() as int - '0' as int)
    }
}

/// One or more digits.
pub open spec fn all_digits(text: Seq<char>) -> bool {
    text.len() > 0 && forall|i: int| 0 <= i < text.len() ==> '0' <= #[trigger] text[i] <= '9'
}

/// A whole number that fits 64 bits, with or without a plus in front.
pub open spec fn whole_number(text: Seq<char>) -> Option<u64> {
    let digits = if text.len() > 0 && text[0] == '+' {
        text.skip(1)
    } else {
        text
    };
    if all_digits(digits) && digits_value(digits) <= u64::MAX {
        Some(digits_value(digits) as u64)
    } else {
        None
    }
}

proof fn lemma_digits_value_grows(text: Seq<char>, k: int)
    requires
        0 <= k <= text.len(),
        forall|i: int| 0 <= i < text.len() ==> '0' <= #[trigger] text[i] <= '9',
    ensures
        0 <= digits_value(text.take(k)) <= digits_value(text),
    decreases text.len() - k,
{
    if k < text.len() {
        lemma_digits_value_grows(text, k + 1);
        assert(text.take(k + 1).drop_last() =~= text.take(k));
        lemma_digits_value_positive(text.take(k));
    } else {
        assert(text.take(k) =~= text);
        lemma_digits_value_positive(text);
    }
}

proof fn lemma_digits_value_positive(text: Seq<char>)
    requires
        forall|i: int| 0 <= i < text.len() ==> '0' <= #[trigger] text[i] <= '9',
    ensures
        0 <= digits_value(text),
    decreases text.len(),
{
    if text.len() > 0 {
        assert forall|i: int| 0 <= i < text.drop_last().len() implies '0'
            <= #[trigger] text.drop_last()[i] <= '9' by {
            assert('0' <= text[i] <= '9');
        }
        lemma_digits_value_positive(text.drop_last());
        assert('0' <= text[text.len() - 1] <= '9');
    }
}

/// Reads a whole number.
pub fn parse_whole_number(text: &str) -> (value: Option<u64>)
    ensures
        value == whole_number(text@),
{
    let chars = chars_of(text);
    let from: usize = if chars.len() > 0 && chars[0] == '+' {
        1
    } else {
        0
    };
    let ghost digits = if text@.len() > 0 && text@[0] == '+' { text@.skip(1) } else { text@ };
    assert(digits =~= chars@.skip(from as int));
    if from == chars.len() {
        return None;
    }
    let mut i: usize = from;
    while i < chars.len()
        invariant
            from <= i <= chars@.len(),
            digits == chars@.skip(from as int),
            forall|j: int| 0 <= j < i - from ==> '0' <= #[trigger] digits[j] <= '9',
            whole_number(text@) is Some ==> all_digits(digits),
        decreases chars@.len() - i,
    {
        if chars[i] < '0' || chars[i] > '9' {
            assert(!('0' <= digits[i - from] <= '9'));
            return None;
        }
        assert(digits[i - from] == chars@[i as int]);
        i += 1;
    }
    let mut value: u64 = 0;
    i = from;
    assert(digits.take(0).len() == 0);
    while i < chars.len()
        invariant
            from <= i <= chars@.len(),
            digits == chars@.skip(from as int),
            forall|j: int| 0 <= j < digits.len() ==> '0' <= #[trigger] digits[j] <= '9',
            value == digits_value(digits.take(i - from)),
            whole_number(text@) is Some ==> digits_value(digits) <= u64::MAX,
        decreases chars@.len() - i,
    {
        let ghost next = digits.take(i - from + 1);
        proof {
            assert(digits[i - from] == chars@[i as int]);
            assert(next.drop_last() =~= digits.take(i - from));
            assert(next.last() == chars@[i as int]);
            lemma_digits_value_grows(digits, i - from + 1);
        }
        let digit: u64 = (chars[i] as u32 - 48) as u64;
        let tens: u64 = match value.checked_mul(10) {
            Some(tens) => tens,
            None => {
                return None;
            },
        };
        value =
        match tens.checked_add(digit) {
            Some(value) => value,
            None => {
                return None;
            },
        };
        i += 1;
    }
    assert(digits.take(digits.len() as int) =~= digits);
    Some(value)
}

/// The declared length of a response body.
pub open spec fn declared_length(headers: Seq<HeaderBytes>) -> Result<Option<u64>, HttpErrorView> {
    match unique_value(headers, "content-length"@) {
        Err(error) => Err(error),
        Ok(None) => Ok(None),
        Ok(Some(text)) => match whole_number(crate::text::trim_text(text)) {
            Some(length) => Ok(Some(length)),
            None => Err(HttpErrorView::Transport("invalid Content-Length header"@)),
        },
    }
}

/// Reads the declared length of a response body.
pub fn content_length(headers: &Vec<TransportHeader>) -> (length: Result<Option<u64>, HttpError>)
    ensures
        match declared_length(crate::http::transport::byte_views(headers@)) {
            Ok(view) => length == Ok::<Option<u64>, HttpError>(view),
            Err(error) => crate::http::error::fails_with(length, error),
        },
{
    match unique_utf8_header(headers, "content-length") {
        Err(error) => Err(error),
        Ok(None) => Ok(None),
        Ok(Some(text)) => match parse_whole_number(trim(text).as_str()) {
            Some(length) => Ok(Some(length)),
            None => Err(HttpError::Transport("invalid Content-Length header".to_owned())),
        },
    }
}

/// What is wrong with the encoding of a response: only none, or `identity`, is
/// accepted.
pub open spec fn encoding_error(headers: Seq<HeaderBytes>) -> Option<HttpErrorView> {
    match unique_value(headers, "content-encoding"@) {
        Err(error) => Some(error),
        Ok(None) => None,
        Ok(Some(text)) => {
            let value = crate::text::trim_text(text);
            if value.len() == 0 || crate::text::lower_text(value) == "identity"@ {
                None
            } else {
                Some(HttpErrorView::ContentEncodingDenied(value))
            }
        },
    }
}

/// Checks the encoding of a response.
pub fn validate_content_encoding(headers: &Vec<TransportHeader>) -> (checked: Result<
    (),
    HttpError,
>)
    ensures
        match encoding_error(crate::http::transport::byte_views(headers@)) {
            Some(error) => crate::http::error::fails_with(checked, error),
            None => checked is Ok,
        },
{
    match unique_utf8_header(headers, "content-encoding") {
        Err(error) => Err(error),
        Ok(None) => Ok(()),
        Ok(Some(text)) => {
            let value = trim(text);
            if value.as_str().is_empty() || same_text(
                to_lower(value.as_str()).as_str(),
                "identity",
            ) {
                Ok(())
            } else {
                Err(HttpError::ContentEncodingDenied(value))
            }
        },
    }
}

/// The media type of a response that may be read, or why it may not: its
/// encoding, its declared length and its content type are checked in this
/// order.
pub open spec fn response_verdict(policy: HttpPolicy, headers: Seq<HeaderBytes>) -> Result<
    Option<Seq<char>>,
    HttpErrorView,
> {
    if encoding_error(headers) is Some {
        Err(encoding_error(headers)->0)
    } else {
        match declared_length(headers) {
            Err(error) => Err(error),
            Ok(length) => if length is Some && length->0 > policy.spec_limits().max_response_bytes {
                Err(
                    HttpErrorView::ResponseTooLarge {
                        limit: policy.spec_limits().max_response_bytes,
                    },
                )
            } else {
                match unique_value(headers, "content-type"@) {
                    Err(error) => Err(error),
                    Ok(value) => policy.spec_content_types().verdict(value),
                }
            },
        }
    }
}

proof fn lemma_lower_is_lower(text: Seq<char>)
    ensures
        crate::text::lower_text(crate::text::lower_text(text)) == crate::text::lower_text(text),
{
    assert(crate::text::lower_text(crate::text::lower_text(text)) =~= crate::text::lower_text(
        text,
    ));
}

proof fn lemma_values_of_lower_names(headers: Seq<HeaderBytes>, name: Seq<char>)
    ensures
        values_named(crate::http::request::lower_names(headers), name) == values_named(
            headers,
            name,
        ),
    decreases headers.len(),
{
    let lower = crate::http::request::lower_names(headers);
    if headers.len() > 0 {
        lemma_lower_is_lower(headers.last().name);
        assert(lower.drop_last() =~= crate::http::request::lower_names(headers.drop_last()));
        assert(lower.last() == crate::http::request::lower_name(headers.last()));
        lemma_values_of_lower_names(headers.drop_last(), name);
    }
}

proof fn lemma_lower_name_fits(name: Seq<char>)
    ensures
        response_name(crate::text::lower_text(name)) == response_name(name),
        response_name(name) ==> crate::text::utf8_len(crate::text::lower_text(name))
            == crate::text::utf8_len(name),
{
    let lower = crate::text::lower_text(name);
    assert forall|i: int| 0 <= i < name.len() implies response_name_char(lower[i])
        == response_name_char(#[trigger] name[i]) by {
        assert(lower[i] == crate::text::lower_char(name[i]));
    }
    if response_name(lower) {
        assert forall|i: int| 0 <= i < name.len() implies response_name_char(
            #[trigger] name[i],
        ) by {
            assert(response_name_char(lower[i]));
        }
    }
    if response_name(name) {
        assert forall|i: int| 0 <= i < lower.len() implies response_name_char(
            #[trigger] lower[i],
        ) by {
            assert(response_name_char(name[i]));
        }
        lemma_name_length(name);
        lemma_name_length(lower);
    }
}

/// Names are ASCII, one byte for each character.
proof fn lemma_name_length(name: Seq<char>)
    requires
        response_name(name),
    ensures
        crate::text::utf8_len(name) == name.len(),
{
    assert forall|i: int| 0 <= i < name.len() implies '\0' <= #[trigger] name[i] <= '\u{7f}' by {
        assert(response_name_char(name[i]));
    }
    vstd::utf8::is_ascii_chars_encode_utf8(name);
}

/// Names in lower case stay as they are.
pub proof fn lemma_lower_names_stay(headers: Seq<HeaderBytes>)
    ensures
        crate::http::request::lower_names(crate::http::request::lower_names(headers))
            == crate::http::request::lower_names(headers),
{
    let lower = crate::http::request::lower_names(headers);
    assert forall|i: int| 0 <= i < headers.len() implies crate::http::request::lower_name(
        #[trigger] lower[i],
    ) == lower[i] by {
        lemma_lower_is_lower(headers[i].name);
        assert(lower[i] == crate::http::request::lower_name(headers[i]));
    }
    assert(crate::http::request::lower_names(lower) =~= lower);
}

/// The case of names does not matter to the checks of a response.
pub proof fn lemma_lower_names_pass(
    policy: HttpPolicy,
    headers: Seq<HeaderBytes>,
    used: int,
    limit: usize,
)
    ensures
        headers_error(crate::http::request::lower_names(headers), used, limit) == headers_error(
            headers,
            used,
            limit,
        ),
        response_verdict(policy, crate::http::request::lower_names(headers)) == response_verdict(
            policy,
            headers,
        ),
    decreases headers.len(),
{
    let lower = crate::http::request::lower_names(headers);
    lemma_values_of_lower_names(headers, "content-encoding"@);
    lemma_values_of_lower_names(headers, "content-length"@);
    lemma_values_of_lower_names(headers, "content-type"@);
    if headers.len() > 0 {
        assert(lower[0] == crate::http::request::lower_name(headers[0]));
        assert(lower.skip(1) =~= crate::http::request::lower_names(headers.skip(1)));
        lemma_lower_name_fits(headers[0].name);
        lemma_lower_names_pass(
            policy,
            headers.skip(1),
            used + crate::text::utf8_len(headers[0].name) + headers[0].value.len() + 4,
            limit,
        );
    }
}

/// Checks the head of a response that is no redirect.
pub fn validate_response(policy: &HttpPolicy, headers: &Vec<TransportHeader>) -> (checked: Result<
    Option<String>,
    HttpError,
>)
    ensures
        match response_verdict(*policy, crate::http::transport::byte_views(headers@)) {
            Ok(media) => checked matches Ok(text) && crate::http::request::text_view(text) == media,
            Err(error) => crate::http::error::fails_with(checked, error),
        },
{
    if let Err(error) = validate_content_encoding(headers) {
        return Err(error);
    }
    let limit: usize = policy.limits().max_response_bytes;
    match content_length(headers) {
        Err(error) => {
            return Err(error);
        },
        Ok(Some(length)) => {
            if length > limit as u64 {
                return Err(HttpError::ResponseTooLarge { limit });
            }
        },
        Ok(None) => {},
    }
    match unique_utf8_header(headers, "content-type") {
        Err(error) => Err(error),
        Ok(value) => policy.content_types().validate(value),
    }
}

/// The statuses that send a client elsewhere.
pub open spec fn redirects(status: u16) -> bool {
    status == 301 || status == 302 || status == 303 || status == 307 || status == 308
}

/// Whether a status sends a client elsewhere.
pub fn is_redirect(status: u16) -> (redirect: bool)
    ensures
        redirect == redirects(status),
{
    status == 301 || status == 302 || status == 303 || status == 307 || status == 308
}

/// The headers that a hop to another origin keeps.
pub open spec fn without_sensitive(headers: Seq<HeaderView>) -> Seq<HeaderView>
    decreases headers.len(),
{
    if headers.len() == 0 {
        Seq::empty()
    } else if crate::http::request::sensitive(headers.last()) {
        without_sensitive(headers.drop_last())
    } else {
        without_sensitive(headers.drop_last()).push(headers.last())
    }
}

/// The headers that a hop without the body keeps.
pub open spec fn without_body_headers(headers: Seq<HeaderView>) -> Seq<HeaderView>
    decreases headers.len(),
{
    if headers.len() == 0 {
        Seq::empty()
    } else if crate::http::request::describes_body(headers.last()) {
        without_body_headers(headers.drop_last())
    } else {
        without_body_headers(headers.drop_last()).push(headers.last())
    }
}

fn drop_sensitive(headers: &Vec<RequestHeader>) -> (kept: Vec<RequestHeader>)
    ensures
        crate::http::request::header_views(kept@) == without_sensitive(
            crate::http::request::header_views(headers@),
        ),
{
    let ghost views = crate::http::request::header_views(headers@);
    let mut kept: Vec<RequestHeader> = Vec::new();
    let mut i: usize = 0;
    assert(crate::http::request::header_views(kept@) =~= without_sensitive(views.take(0)));
    while i < headers.len()
        invariant
            i <= headers@.len(),
            views == crate::http::request::header_views(headers@),
            crate::http::request::header_views(kept@) == without_sensitive(views.take(i as int)),
        decreases headers@.len() - i,
    {
        let ghost before = crate::http::request::header_views(kept@);
        assert(views.take(i + 1).drop_last() =~= views.take(i as int));
        assert(views.take(i + 1).last() == headers@[i as int]@);
        if !headers[i].is_sensitive() {
            kept.push(headers[i].copy());
            assert(crate::http::request::header_views(kept@) =~= before.push(
                headers@[i as int]@,
            ));
        }
        i += 1;
    }
    assert(views.take(views.len() as int) =~= views);
    kept
}

fn drop_body_headers(headers: &Vec<RequestHeader>) -> (kept: Vec<RequestHeader>)
    ensures
        crate::http::request::header_views(kept@) == without_body_headers(
            crate::http::request::header_views(headers@),
        ),
{
    let ghost views = crate::http::request::header_views(headers@);
    let mut kept: Vec<RequestHeader> = Vec::new();
    let mut i: usize = 0;
    assert(crate::http::request::header_views(kept@) =~= without_body_headers(views.take(0)));
    while i < headers.len()
        invariant
            i <= headers@.len(),
            views == crate::http::request::header_views(headers@),
            crate::http::request::header_views(kept@) == without_body_headers(
                views.take(i as int),
            ),
        decreases headers@.len() - i,
    {
        let ghost before = crate::http::request::header_views(kept@);
        assert(views.take(i + 1).drop_last() =~= views.take(i as int));
        assert(views.take(i + 1).last() == headers@[i as int]@);
        if !headers[i].is_about_body() {
            kept.push(headers[i].copy());
            assert(crate::http::request::header_views(kept@) =~= before.push(
                headers@[i as int]@,
            ));
        }
        i += 1;
    }
    assert(views.take(views.len() as int) =~= views);
    kept
}

/// The redirect turns a request into a GET without a body.
pub open spec fn becomes_get(status: u16, method: HttpMethod) -> bool {
    status == 303 || ((status == 301 || status == 302) && method == HttpMethod::Post)
}

/// What the next hop of a redirect sends, or why it is refused. It keeps the
/// headers that are for one origin only at that origin.
pub open spec fn followed(
    policy: HttpPolicy,
    hop: RequestView,
    status: u16,
    next: WebUrlView,
) -> Result<RequestView, HttpErrorView> {
    if hop.url.scheme == "https"@ && next.scheme == "http"@ && !policy.downgrade_allowed() {
        Err(HttpErrorView::Redirect("HTTPS-to-HTTP downgrade is disabled"@))
    } else {
        let headers = if crate::http::web_url::one_origin(hop.url, next) {
            hop.headers
        } else {
            without_sensitive(hop.headers)
        };
        if becomes_get(status, hop.method) {
            Ok(
                RequestView {
                    method: HttpMethod::Get,
                    url: next,
                    headers: without_body_headers(headers),
                    body: Seq::empty(),
                },
            )
        } else {
            Ok(RequestView { method: hop.method, url: next, headers, body: hop.body })
        }
    }
}

/// Makes the next hop of a redirect to a parsed URL.
pub fn follow(policy: &HttpPolicy, hop: Hop, status: u16, next: WebUrl) -> (followed_hop: Result<
    Hop,
    HttpError,
>)
    ensures
        match followed(*policy, hop@, status, next@) {
            Ok(view) => followed_hop matches Ok(made) && made@ == view,
            Err(error) => crate::http::error::fails_with(followed_hop, error),
        },
{
    if same_text(hop.url.scheme.as_str(), "https") && same_text(next.scheme.as_str(), "http")
        && !policy.allows_downgrade() {
        return Err(HttpError::Redirect("HTTPS-to-HTTP downgrade is disabled".to_owned()));
    }
    let same = same_origin(&hop.url, &next);
    let ghost start = hop@;
    let Hop { method, url: _, headers, body } = hop;
    let headers = if same {
        headers
    } else {
        drop_sensitive(&headers)
    };
    if status == 303 || ((status == 301 || status == 302) && method == HttpMethod::Post) {
        let headers = drop_body_headers(&headers);
        let made = Hop { method: HttpMethod::Get, url: next, headers, body: Vec::new() };
        assert(made@.body =~= Seq::<u8>::empty());
        Ok(made)
    } else {
        Ok(Hop { method, url: next, headers, body })
    }
}

/// Where a redirect points, or why it is refused: too many hops, or no usable
/// `Location`.
pub open spec fn redirect_reference(
    headers: Seq<HeaderBytes>,
    hops: usize,
    max_redirects: usize,
) -> Result<Seq<char>, HttpErrorView> {
    if hops == max_redirects {
        Err(
            HttpErrorView::Redirect(
                "more than "@ + crate::text::decimal_text(max_redirects as nat) + " hops"@,
            ),
        )
    } else {
        match unique_value(headers, "location"@) {
            Err(error) => Err(error),
            Ok(None) => Err(HttpErrorView::Redirect("missing Location header"@)),
            Ok(Some(reference)) => Ok(reference),
        }
    }
}

/// Reads where a redirect points.
pub fn find_reference<'a>(
    headers: &'a Vec<TransportHeader>,
    hops: usize,
    max_redirects: usize,
) -> (reference: Result<&'a str, HttpError>)
    ensures
        match redirect_reference(
            crate::http::transport::byte_views(headers@),
            hops,
            max_redirects,
        ) {
            Ok(text) => reference matches Ok(reference) && reference@ == text,
            Err(error) => crate::http::error::fails_with(reference, error),
        },
{
    if hops == max_redirects {
        return Err(
            HttpError::Redirect(
                join3("more than ", decimal(max_redirects as u64).as_str(), " hops"),
            ),
        );
    }
    match unique_utf8_header(headers, "location") {
        Err(error) => Err(error),
        Ok(None) => Err(HttpError::Redirect("missing Location header".to_owned())),
        Ok(Some(reference)) => Ok(reference),
    }
}

/// The next hop of a redirect.
pub open spec fn next_hop(
    policy: HttpPolicy,
    hop: RequestView,
    status: u16,
    headers: Seq<HeaderBytes>,
    hops: usize,
) -> Result<RequestView, HttpErrorView> {
    match redirect_reference(headers, hops, policy.spec_limits().max_redirects) {
        Err(error) => Err(error),
        Ok(reference) => match crate::http::web_url::parsed_url(Some(hop.url.text), reference) {
            Err(error) => Err(HttpErrorView::Redirect(error)),
            Ok(next) => followed(policy, hop, status, next),
        },
    }
}

/// Makes the next hop of a redirect.
pub fn redirect(
    policy: &HttpPolicy,
    hop: Hop,
    status: u16,
    headers: &Vec<TransportHeader>,
    hops: usize,
) -> (made: Result<Hop, HttpError>)
    ensures
        match next_hop(
            *policy,
            hop@,
            status,
            crate::http::transport::byte_views(headers@),
            hops,
        ) {
            Ok(view) => made matches Ok(made) && made@ == view,
            Err(error) => crate::http::error::fails_with(made, error),
        },
{
    let reference = match find_reference(headers, hops, policy.limits().max_redirects) {
        Ok(reference) => reference,
        Err(error) => {
            return Err(error);
        },
    };
    match hop.url.join(reference) {
        Ok(next) => follow(policy, hop, status, next),
        Err(error) => Err(HttpError::Redirect(error)),
    }
}

/// Adds a piece to a body, unless the body would go over its limit.
pub fn append_chunk(body: &mut Vec<u8>, chunk: &Vec<u8>, limit: usize) -> (outcome: Result<
    (),
    HttpError,
>)
    ensures
        if old(body)@.len() + chunk@.len() > limit {
            &&& crate::http::error::fails_with(outcome, HttpErrorView::ResponseTooLarge { limit })
            &&& final(body)@ == old(body)@
        } else {
            &&& outcome is Ok
            &&& final(body)@ == old(body)@ + chunk@
        },
{
    let fits = match checked_sum(body.len(), chunk.len()) {
        Some(total) => total <= limit,
        None => false,
    };
    if !fits {
        return Err(HttpError::ResponseTooLarge { limit });
    }
    let ghost start = body@;
    let mut i: usize = 0;
    while i < chunk.len()
        invariant
            i <= chunk@.len(),
            body@ == start + chunk@.take(i as int),
        decreases chunk@.len() - i,
    {
        body.push(chunk[i]);
        i += 1;
        assert(body@ =~= start + chunk@.take(i as int));
    }
    assert(chunk@.take(chunk@.len() as int) =~= chunk@);
    Ok(())
}

/// A redirect to another origin carries no header that is for one origin only.
pub proof fn law_sensitive_headers_stay_at_their_origin(
    policy: HttpPolicy,
    hop: RequestView,
    status: u16,
    next: WebUrlView,
    i: int,
)
    requires
        !crate::http::web_url::one_origin(hop.url, next),
        followed(policy, hop, status, next) matches Ok(made) && 0 <= i < made.headers.len(),
    ensures
        !crate::http::request::sensitive(
            followed(policy, hop, status, next)->Ok_0.headers[i],
        ),
{
    let kept = without_sensitive(hop.headers);
    lemma_no_sensitive(hop.headers);
    if becomes_get(status, hop.method) {
        lemma_body_filter_keeps_members(kept, i);
    }
}

proof fn lemma_no_sensitive(headers: Seq<HeaderView>)
    ensures
        forall|i: int|
            0 <= i < without_sensitive(headers).len() ==> !crate::http::request::sensitive(
                #[trigger] without_sensitive(headers)[i],
            ),
    decreases headers.len(),
{
    if headers.len() > 0 {
        let shorter = without_sensitive(headers.drop_last());
        lemma_no_sensitive(headers.drop_last());
        assert forall|i: int| 0 <= i < without_sensitive(headers).len() implies
            !crate::http::request::sensitive(#[trigger] without_sensitive(headers)[i]) by {
            if i < shorter.len() {
                assert(without_sensitive(headers)[i] == shorter[i]);
            }
        }
    }
}

proof fn lemma_body_filter_keeps_members(headers: Seq<HeaderView>, i: int)
    requires
        0 <= i < without_body_headers(headers).len(),
    ensures
        headers.contains(without_body_headers(headers)[i]),
    decreases headers.len(),
{
    let shorter = without_body_headers(headers.drop_last());
    if i < shorter.len() {
        lemma_body_filter_keeps_members(headers.drop_last(), i);
        let j = choose|j: int|
            0 <= j < headers.drop_last().len() && headers.drop_last()[j] == shorter[i];
        assert(headers[j] == shorter[i]);
    } else {
        assert(headers[headers.len() - 1] == without_body_headers(headers)[i]);
    }
}

/// No hop leaves HTTPS for HTTP unless the policy grants that.
pub proof fn law_downgrades_need_a_grant(
    policy: HttpPolicy,
    hop: RequestView,
    status: u16,
    next: WebUrlView,
)
    requires
        hop.url.scheme == "https"@,
        next.scheme == "http"@,
        !policy.downgrade_allowed(),
    ensures
        followed(policy, hop, status, next) is Err,
{
}

/// Every hop is to a granted host that is not the machine itself, over a
/// permitted scheme and without credentials in the URL.
pub proof fn law_every_target_was_granted(policy: HttpPolicy, url: WebUrlView)
    requires
        target(policy, url) is Ok,
    ensures
        policy.spec_schemes().permits(url.scheme),
        url.username.len() == 0,
        !url.has_password,
        granted(policy, target(policy, url)->Ok_0.canonical),
        !crate::http::network::localhost_name(target(policy, url)->Ok_0.canonical),
        target(policy, url)->Ok_0.port != 0,
{
}

proof fn lemma_kept_headers(headers: Seq<HeaderView>)
    ensures
        without_sensitive(headers) == headers.filter(
            |header: HeaderView| header.name != "authorization"@ && header.name != "cookie"@,
        ),
        without_body_headers(headers) == headers.filter(
            |header: HeaderView|
                header.name != "content-type"@ && header.name != "content-language"@
                    && header.name != "content-location"@,
        ),
    decreases headers.len(),
{
    reveal(Seq::filter);
    if headers.len() > 0 {
        lemma_kept_headers(headers.drop_last());
    } else {
        assert(without_sensitive(headers) =~= headers);
        assert(without_body_headers(headers) =~= headers);
    }
}

/// A redirect goes to where it points. It changes the method on 303, and on 301 and 302
/// if it was POST, and then to GET with an empty body; else the method and the body are
/// those of the hop before. All headers are kept in their order, but for credentials and
/// cookies that would go to another origin, and for those of a body that is no longer
/// sent. It is refused only where it leaves HTTPS for HTTP without a grant.
pub proof fn law_redirects_change_only_what_they_must(
    policy: HttpPolicy,
    hop: RequestView,
    status: u16,
    next: WebUrlView,
)
    ensures
        followed(policy, hop, status, next) is Err ==> hop.url.scheme == "https"@ && next.scheme
            == "http"@ && !policy.downgrade_allowed(),
        followed(policy, hop, status, next) matches Ok(made) ==> {
            let turned = status == 303 || (hop.method == HttpMethod::Post && 301 <= status <= 302);
            let home = hop.url.scheme == next.scheme && hop.url.port == next.port && match (
                hop.url.host,
                next.host,
            ) {
                (Some(a), Some(b)) => a.0 == b.0,
                (a, b) => a is None && b is None,
            };
            let carried = if home {
                hop.headers
            } else {
                hop.headers.filter(
                    |header: HeaderView|
                        header.name != "authorization"@ && header.name != "cookie"@,
                )
            };
            &&& made.url == next
            &&& turned ==> made.method == HttpMethod::Get && made.body.len() == 0 && made.headers
                == carried.filter(
                |header: HeaderView|
                    header.name != "content-type"@ && header.name != "content-language"@
                        && header.name != "content-location"@,
            )
            &&& !turned ==> made.method == hop.method && made.body == hop.body && made.headers
                == carried
        },
{
    lemma_kept_headers(hop.headers);
    lemma_kept_headers(without_sensitive(hop.headers));
}

/// On 307 and 308 the next hop sends what the hop before sent, and at the same origin
/// with all its headers.
pub proof fn law_kept_methods_keep_their_request(
    policy: HttpPolicy,
    hop: RequestView,
    status: u16,
    headers: Seq<HeaderBytes>,
    hops: usize,
)
    requires
        status == 307 || status == 308,
        next_hop(policy, hop, status, headers, hops) is Ok,
    ensures
        ({
            let made = next_hop(policy, hop, status, headers, hops)->Ok_0;
            &&& made.method == hop.method
            &&& made.body == hop.body
            &&& made.url.scheme == hop.url.scheme && made.url.host == hop.url.host && made.url.port
                == hop.url.port ==> made.headers == hop.headers
            &&& hops != policy.spec_limits().max_redirects
            &&& values_named(headers, "location"@).len() == 1
        }),
{
}

/// The statuses that send a client elsewhere are 301 to 303, 307 and 308.
pub proof fn law_only_moves_are_followed(status: u16)
    ensures
        redirects(status) <==> (301 <= status <= 303 || 307 <= status <= 308),
{
}

/// A request takes the bytes of its method, of its URL and of its body, and for every header
/// those of its name and value and four more.
pub proof fn law_request_sizes_add_up(request: RequestView, header: HeaderView, byte: u8)
    ensures
        request_size(RequestView { headers: request.headers.push(header), ..request })
            == request_size(request) + crate::text::utf8_len(header.name) + crate::text::utf8_len(
            header.value,
        ) + 4,
        request_size(RequestView { body: request.body.push(byte), ..request }) == request_size(
            request,
        ) + 1,
        request.headers.len() == 0 && request.body.len() == 0 ==> request_size(request)
            == crate::text::utf8_len(request.url.text) + match request.method {
            HttpMethod::Get => 3int,
            HttpMethod::Head => 4,
            HttpMethod::Post => 4,
        },
{
    assert(request.headers.push(header).drop_last() =~= request.headers);
}

/// How many bytes response headers take, four for the punctuation of each.
pub open spec fn wire_size(headers: Seq<HeaderBytes>) -> int
    decreases headers.len(),
{
    if headers.len() == 0 {
        0
    } else {
        wire_size(headers.skip(1)) + crate::text::utf8_len(headers[0].name)
            + headers[0].value.len() + 4
    }
}

proof fn lemma_headers_fit(headers: Seq<HeaderBytes>, used: int, limit: usize)
    requires
        0 <= used <= limit,
    ensures
        wire_size(headers) >= 0,
        headers_error(headers, used, limit) is None <==> used + wire_size(headers) <= limit && (
        forall|i: int| 0 <= i < headers.len() ==> response_name((#[trigger] headers[i]).name)),
    decreases headers.len(),
{
    if headers.len() > 0 {
        let rest = headers.skip(1);
        let now = used + crate::text::utf8_len(headers[0].name) + headers[0].value.len() + 4;
        if now <= limit {
            lemma_headers_fit(rest, now, limit);
        } else {
            lemma_headers_fit(rest, 0, limit);
        }
        assert forall|i: int| 0 <= i < rest.len() implies #[trigger] rest[i] == headers[i + 1] by {}
        if headers_error(headers, used, limit) is None {
            assert forall|i: int| 0 <= i < headers.len() implies response_name(
                (#[trigger] headers[i]).name,
            ) by {
                if i > 0 {
                    assert(rest[i - 1] == headers[i]);
                }
            }
        }
        if forall|i: int| 0 <= i < headers.len() ==> response_name((#[trigger] headers[i]).name) {
            assert forall|i: int| 0 <= i < rest.len() implies response_name(
                (#[trigger] rest[i]).name,
            ) by {
                assert(response_name(headers[i + 1].name));
            }
        }
    }
}

/// Response headers are accepted if and only if all of them together are within their
/// budget, and every name is made of letters, digits and hyphens, at least one.
pub proof fn law_response_headers_fit_their_budget(headers: Seq<HeaderBytes>, limit: usize)
    ensures
        headers_error(headers, 0, limit) is None <==> wire_size(headers) <= limit && (forall|i: int|
            0 <= i < headers.len() ==> {
                let name = (#[trigger] headers[i]).name;
                name.len() > 0 && forall|k: int|
                    0 <= k < name.len() ==> {
                        let c = #[trigger] name[k];
                        ('a' <= c && c <= 'z') || ('A' <= c && c <= 'Z') || ('0' <= c && c <= '9')
                            || c == '-'
                    }
            }),
        headers_error(headers, 0, limit) matches Some(HttpErrorView::ResponseHeadersTooLarge {
            limit: told,
        }) ==> told == limit,
{
    lemma_headers_fit(headers, 0, limit);
    lemma_too_large_names_the_limit(headers, 0, limit);
    if forall|i: int|
        0 <= i < headers.len() ==> {
            let name = (#[trigger] headers[i]).name;
            name.len() > 0 && forall|k: int|
                0 <= k < name.len() ==> {
                    let c = #[trigger] name[k];
                    ('a' <= c && c <= 'z') || ('A' <= c && c <= 'Z') || ('0' <= c && c <= '9') || c
                        == '-'
                }
        } {
        assert forall|i: int| 0 <= i < headers.len() implies response_name(
            (#[trigger] headers[i]).name,
        ) by {}
    }
    if headers_error(headers, 0, limit) is None {
        assert forall|i: int| 0 <= i < headers.len() implies {
            let name = (#[trigger] headers[i]).name;
            name.len() > 0 && forall|k: int|
                0 <= k < name.len() ==> {
                    let c = #[trigger] name[k];
                    ('a' <= c && c <= 'z') || ('A' <= c && c <= 'Z') || ('0' <= c && c <= '9') || c
                        == '-'
                }
        } by {
            assert(response_name(headers[i].name));
        }
    }
}

proof fn lemma_too_large_names_the_limit(headers: Seq<HeaderBytes>, used: int, limit: usize)
    ensures
        headers_error(headers, used, limit) matches Some(HttpErrorView::ResponseHeadersTooLarge {
            limit: told,
        }) ==> told == limit,
    decreases headers.len(),
{
    if headers.len() > 0 {
        lemma_too_large_names_the_limit(
            headers.skip(1),
            used + crate::text::utf8_len(headers[0].name) + headers[0].value.len() + 4,
            limit,
        );
    }
}

/// The values of a header are those of all headers of that name, whatever the case of its
/// letters, in their order. One value is used only if it is the only one.
pub proof fn law_headers_are_found_by_their_name(headers: Seq<HeaderBytes>, name: Seq<char>)
    ensures
        values_named(headers, name) == headers.filter(
            |header: HeaderBytes|
                crate::text::lower_text(header.name) == crate::text::lower_text(name),
        ).map_values(|header: HeaderBytes| header.value),
        unique_value(headers, name) matches Ok(found) ==> match found {
            None => values_named(headers, name).len() == 0,
            Some(text) => values_named(headers, name).len() == 1 && vstd::utf8::valid_utf8(
                values_named(headers, name)[0],
            ) && text == vstd::utf8::decode_utf8(values_named(headers, name)[0]),
        },
        unique_value(headers, name) is Err ==> values_named(headers, name).len() > 1
            || !vstd::utf8::valid_utf8(values_named(headers, name)[0]),
    decreases headers.len(),
{
    reveal(Seq::filter);
    let found = headers.filter(
        |header: HeaderBytes|
            crate::text::lower_text(header.name) == crate::text::lower_text(name),
    );
    if headers.len() > 0 {
        law_headers_are_found_by_their_name(headers.drop_last(), name);
    }
    assert(values_named(headers, name) =~= found.map_values(|header: HeaderBytes| header.value));
}

/// A number is read back from its decimal digits, with a plus in front of them too.
pub proof fn law_numbers_are_read_from_their_digits(value: u64)
    ensures
        whole_number(crate::text::decimal_text(value as nat)) == Some(value),
        whole_number(seq!['+'] + crate::text::decimal_text(value as nat)) == Some(value),
{
    let text = crate::text::decimal_text(value as nat);
    lemma_decimal_value(value as nat);
    assert((seq!['+'] + text).skip(1) =~= text);
    assert(text[0] != '+') by {
        assert('0' <= text[0] <= '9');
    }
}

proof fn lemma_decimal_value(value: nat)
    ensures
        all_digits(crate::text::decimal_text(value)),
        digits_value(crate::text::decimal_text(value)) == value,
    decreases value,
{
    let text = crate::text::decimal_text(value);
    crate::text::law_decimal_numbers_are_digits(value);
    if value >= 10 {
        lemma_decimal_value(value / 10);
        assert forall|i: int| 0 <= i < text.len() implies '0' <= #[trigger] text[i] <= '9' by {
            if i < text.len() - 1 {
                assert(text[i] == text.drop_last()[i]);
            }
        }
    } else {
        assert(text.drop_last() =~= Seq::<char>::empty());
        assert(digits_value(text) == digits_value(text.drop_last()) * 10 + (text.last() as int
            - '0' as int));
    }
}

/// A URL leads somewhere if and only if its scheme is granted, it has no credentials, its
/// host has a form that is not a name of the machine itself and that is granted, and it has
/// a port other than zero. It then leads to that host at that port.
pub proof fn law_urls_lead_where_they_may(policy: HttpPolicy, url: WebUrlView)
    ensures
        target(policy, url) is Ok <==> {
            &&& policy.spec_schemes().permits(url.scheme)
            &&& url.username.len() == 0
            &&& !url.has_password
            &&& url.host matches Some((host, _)) && (canonical_url_host(host) matches Ok(form)
                && !crate::http::network::localhost_name(form) && granted(policy, form))
            &&& url.port matches Some(port) && port != 0
        },
        target(policy, url) matches Ok(found) ==> {
            let (host, text) = url.host->Some_0;
            &&& found.transport_host == text
            &&& canonical_url_host(host) == Ok::<Seq<char>, HttpErrorView>(found.canonical)
            &&& Some(found.port) == url.port
            &&& match host {
                UrlHostView::Domain(_) => found.literal is None,
                UrlHostView::Ipv4(address) => found.literal == Some(IpAddress::V4(address)),
                UrlHostView::Ipv6(address) => found.literal == Some(IpAddress::V6(address)),
            }
        },
{
}

/// A target is pinned to all addresses of its host and to no other, if all of them are
/// public; one that is not refuses them all.
pub proof fn law_one_private_address_refuses_all(
    target: TargetView,
    addresses: Seq<IpAddress>,
    pinned: Result<ResolvedEndpoint, HttpError>,
    address: IpAddress,
)
    requires
        pinned_to(target, addresses, pinned),
    ensures
        pinned matches Ok(endpoint) ==> endpoint.host@ == target.transport_host && endpoint.port
            == target.port && (endpoint.addresses@.contains(address) <==> addresses.contains(
            address,
        )) && (addresses.contains(address) ==> crate::http::network::is_public(address)),
        addresses.contains(address) && !crate::http::network::is_public(address)
            ==> (pinned matches Err(HttpError::AddressDenied(told)) && addresses.contains(told)
            && !crate::http::network::is_public(told)),
        addresses.len() == 0 ==> pinned is Err,
        pinned is Err && addresses.len() > 0 ==> exists|refused: IpAddress| #[trigger]
            addresses.contains(refused) && !crate::http::network::is_public(refused),
{
    if let Ok(endpoint) = pinned {
        if addresses.contains(address) {
            assert(endpoint.addresses@.contains(address));
            let i = choose|i: int|
                0 <= i < endpoint.addresses@.len() && endpoint.addresses@[i] == address;
            assert(crate::http::network::is_public(endpoint.addresses@[i]));
        }
    }
}

/// The head of a response is accepted only if it says at most once how it is encoded, and
/// then not at all or as itself, and declares no more bytes than the policy allows.
pub proof fn law_accepted_heads_are_within_the_policy(
    policy: HttpPolicy,
    headers: Seq<HeaderBytes>,
)
    requires
        response_verdict(policy, headers) is Ok,
    ensures
        values_named(headers, "content-encoding"@).len() <= 1,
        values_named(headers, "content-length"@).len() <= 1,
        values_named(headers, "content-type"@).len() <= 1,
        values_named(headers, "content-encoding"@).len() == 1 ==> {
            let value = crate::text::trim_text(
                vstd::utf8::decode_utf8(values_named(headers, "content-encoding"@)[0]),
            );
            value.len() == 0 || crate::text::lower_text(value) == "identity"@
        },
        values_named(headers, "content-length"@).len() == 1 ==> (whole_number(
            crate::text::trim_text(
                vstd::utf8::decode_utf8(values_named(headers, "content-length"@)[0]),
            ),
        ) matches Some(length) && length <= policy.spec_limits().max_response_bytes),
        values_named(headers, "content-type"@).len() == 0
            ==> policy.spec_content_types().missing_allowed(),
{
}

/// A redirect is followed only if there was none too many before it, and it says exactly
/// once where to go.
pub proof fn law_redirects_say_where_to_go(
    headers: Seq<HeaderBytes>,
    hops: usize,
    max_redirects: usize,
)
    ensures
        redirect_reference(headers, hops, max_redirects) is Ok <==> hops != max_redirects
            && values_named(headers, "location"@).len() == 1 && vstd::utf8::valid_utf8(
            values_named(headers, "location"@)[0],
        ),
        redirect_reference(headers, hops, max_redirects) matches Ok(reference) ==> reference
            == vstd::utf8::decode_utf8(values_named(headers, "location"@)[0]),
{
}

/// A piece is added to a body if and only if the body is then within its limit; else the
/// body stays as it was.
pub proof fn law_bodies_grow_up_to_their_limit(before: Vec<u8>, chunk: Vec<u8>, limit: usize)
    ensures
        forall|body: &mut Vec<u8>, outcome: Result<(), HttpError>| #[trigger]
            call_ensures(append_chunk, (body, &chunk, limit), outcome) && *body == before ==> {
                &&& outcome is Ok <==> before@.len() + chunk@.len() <= limit
                &&& outcome is Ok ==> final(body)@ == before@ + chunk@
                &&& outcome is Err ==> final(body)@ == before@
            },
{
}

/// The next hop of a redirect goes to what its reference means from the URL of the hop
/// before.
pub proof fn law_references_are_read_from_the_hop(
    policy: HttpPolicy,
    hop: RequestView,
    status: u16,
    headers: Seq<HeaderBytes>,
    hops: usize,
)
    requires
        next_hop(policy, hop, status, headers, hops) is Ok,
    ensures
        values_named(headers, "location"@).len() == 1,
        crate::http::web_url::parsed_url(
            Some(hop.url.text),
            vstd::utf8::decode_utf8(values_named(headers, "location"@)[0]),
        ) == Ok::<WebUrlView, Seq<char>>(next_hop(policy, hop, status, headers, hops)->Ok_0.url),
{
}

/// Redirects are refused once there were as many as the policy allows, and where they say
/// nowhere to go to.
pub proof fn law_too_many_redirects_are_refused(
    policy: HttpPolicy,
    hop: RequestView,
    status: u16,
    headers: Seq<HeaderBytes>,
    hops: usize,
)
    ensures
        hops == policy.spec_limits().max_redirects ==> next_hop(
            policy,
            hop,
            status,
            headers,
            hops,
        ) is Err,
        values_named(headers, "location"@).len() == 0 ==> next_hop(
            policy,
            hop,
            status,
            headers,
            hops,
        ) is Err,
{
}

} // verus!
