//! Requests and responses as the caller sees them.

use crate::http::error::{HttpError, HttpErrorView};
use crate::http::web_url::{WebUrl, WebUrlView};
use crate::text::{chars_of, join3, same_text, starts_with, to_lower, trim};
use vstd::prelude::*;

verus! {

/// The methods that a client may use.
#[derive(Clone, Copy, Debug, PartialEq, Eq, Structural)]
pub enum HttpMethod {
    Get,
    Head,
    Post,
}

/// A checked request header.
#[derive(Clone, Debug, PartialEq, Eq)]
pub struct RequestHeader {
    name: String,
    value: String,
}

/// A [`RequestHeader`] with its texts as sequences of characters.
pub struct HeaderView {
    pub name: Seq<char>,
    pub value: Seq<char>,
}

impl View for RequestHeader {
    type V = HeaderView;

    closed spec fn view(&self) -> HeaderView {
        HeaderView { name: self.name@, value: self.value@ }
    }
}

/// Headers with their texts as sequences of characters.
pub open spec fn header_views(headers: Seq<RequestHeader>) -> Seq<HeaderView> {
    headers.map_values(|header: RequestHeader| header@)
}

/// A character of a header name.
pub open spec fn name_char(c: char) -> bool {
    ||| 'a' <= c <= 'z'
    ||| 'A' <= c <= 'Z'
    ||| '0' <= c <= '9'
    ||| c == '!'
    ||| c == '#'
    ||| c == '$'
    ||| c == '%'
    ||| c == '&'
    ||| c == '\''
    ||| c == '*'
    ||| c == '+'
    ||| c == '-'
    ||| c == '.'
    ||| c == '^'
    ||| c == '_'
    ||| c == '`'
    ||| c == '|'
    ||| c == '~'
}

/// The text is a header name.
pub open spec fn header_name(text: Seq<char>) -> bool {
    text.len() > 0 && forall|i: int| 0 <= i < text.len() ==> name_char(#[trigger] text[i])
}

fn is_header_name(text: &str) -> (fits: bool)
    ensures
        fits == header_name(text@),
{
    let chars = chars_of(text);
    let mut i: usize = 0;
    while i < chars.len()
        invariant
            i <= chars@.len(),
            chars@ == text@,
            forall|j: int| 0 <= j < i ==> name_char(#[trigger] chars@[j]),
        decreases chars@.len() - i,
    {
        let c = chars[i];
        let fits = ('a' <= c && c <= 'z') || ('A' <= c && c <= 'Z') || ('0' <= c && c <= '9') || c
            == '!' || c == '#' || c == '$' || c == '%' || c == '&' || c == '\'' || c == '*' || c
            == '+' || c == '-' || c == '.' || c == '^' || c == '_' || c == '`' || c == '|' || c
            == '~';
        if !fits {
            assert(!name_char(text@[i as int]));
            return false;
        }
        i += 1;
    }
    chars.len() > 0
}

/// A character that a header value cannot hold: a control character other than
/// the tab, or one that is not ASCII.
pub open spec fn forbidden_in_value(c: char) -> bool {
    let code = c as u32;
    ||| (code >= 128 || code < 32) && code != 9
    ||| code == 127
}

/// The text is a header value.
pub open spec fn header_value(text: Seq<char>) -> bool {
    forall|i: int| 0 <= i < text.len() ==> !forbidden_in_value(#[trigger] text[i])
}

fn is_header_value(text: &str) -> (fits: bool)
    ensures
        fits == header_value(text@),
{
    let chars = chars_of(text);
    let mut i: usize = 0;
    while i < chars.len()
        invariant
            i <= chars@.len(),
            chars@ == text@,
            forall|j: int| 0 <= j < i ==> !forbidden_in_value(#[trigger] chars@[j]),
        decreases chars@.len() - i,
    {
        let code: u32 = chars[i] as u32;
        if ((code >= 128 || code < 32) && code != 9) || code == 127 {
            assert(forbidden_in_value(text@[i as int]));
            return false;
        }
        i += 1;
    }
    true
}

/// A header that the transport sets itself.
pub open spec fn transport_header(name: Seq<char>) -> bool {
    ||| name == "accept-encoding"@
    ||| name == "connection"@
    ||| name == "content-length"@
    ||| name == "host"@
    ||| name == "keep-alive"@
    ||| name == "te"@
    ||| name == "trailer"@
    ||| name == "transfer-encoding"@
    ||| name == "upgrade"@
    ||| crate::text::has_prefix(name, "proxy-"@)
}

fn is_transport_header(name: &str) -> (reserved: bool)
    ensures
        reserved == transport_header(name@),
{
    same_text(name, "accept-encoding") || same_text(name, "connection") || same_text(
        name,
        "content-length",
    ) || same_text(name, "host") || same_text(name, "keep-alive") || same_text(name, "te")
        || same_text(name, "trailer") || same_text(name, "transfer-encoding") || same_text(
        name,
        "upgrade",
    ) || starts_with(name, "proxy-")
}

/// A checked header, or why it was refused: a bad name, then a bad value, then
/// a name that the transport keeps to itself.
pub open spec fn checked_header(name: Seq<char>, value: Seq<char>) -> Result<
    HeaderView,
    HttpErrorView,
> {
    let name = crate::text::lower_text(crate::text::trim_text(name));
    if !header_name(name) {
        Err(HttpErrorView::InvalidRequest("invalid header name `"@ + name + "`"@))
    } else if !header_value(value) {
        Err(
            HttpErrorView::InvalidRequest(
                "header `"@ + name + "` contains a forbidden control character"@,
            ),
        )
    } else if transport_header(name) {
        Err(
            HttpErrorView::InvalidRequest(
                "header `"@ + name + "` is controlled by the HTTP host"@,
            ),
        )
    } else {
        Ok(HeaderView { name, value })
    }
}

/// A header that is for one origin only.
pub open spec fn sensitive(header: HeaderView) -> bool {
    header.name == "authorization"@ || header.name == "cookie"@
}

/// A header that describes the body.
pub open spec fn describes_body(header: HeaderView) -> bool {
    header.name == "content-type"@ || header.name == "content-language"@ || header.name
        == "content-location"@
}

impl RequestHeader {
    /// Checks a header. The name is put in lower case.
    pub fn new(name: &str, value: &str) -> (header: Result<RequestHeader, HttpError>)
        ensures
            match checked_header(name@, value@) {
                Ok(view) => header matches Ok(header) && header@ == view,
                Err(error) => crate::http::error::fails_with(header, error),
            },
    {
        let name = to_lower(trim(name).as_str());
        if !is_header_name(name.as_str()) {
            return Err(
                HttpError::InvalidRequest(join3("invalid header name `", name.as_str(), "`")),
            );
        }
        if !is_header_value(value) {
            return Err(
                HttpError::InvalidRequest(
                    join3(
                        "header `",
                        name.as_str(),
                        "` contains a forbidden control character",
                    ),
                ),
            );
        }
        if is_transport_header(name.as_str()) {
            return Err(
                HttpError::InvalidRequest(
                    join3("header `", name.as_str(), "` is controlled by the HTTP host"),
                ),
            );
        }
        Ok(RequestHeader { name, value: value.to_owned() })
    }

    /// The name, in lower case.
    pub fn name(&self) -> (name: &str)
        ensures
            name@ == self@.name,
    {
        self.name.as_str()
    }

    /// The value.
    pub fn value(&self) -> (value: &str)
        ensures
            value@ == self@.value,
    {
        self.value.as_str()
    }

    /// Whether the header is for one origin only.
    pub fn is_sensitive(&self) -> (yes: bool)
        ensures
            yes == sensitive(self@),
    {
        same_text(self.name.as_str(), "authorization") || same_text(self.name.as_str(), "cookie")
    }

    /// Whether the header describes the body.
    pub fn is_about_body(&self) -> (yes: bool)
        ensures
            yes == describes_body(self@),
    {
        same_text(self.name.as_str(), "content-type") || same_text(
            self.name.as_str(),
            "content-language",
        ) || same_text(self.name.as_str(), "content-location")
    }

    /// A copy.
    pub fn copy(&self) -> (copy: RequestHeader)
        ensures
            copy@ == self@,
    {
        RequestHeader { name: self.name.clone(), value: self.value.clone() }
    }
}

/// Copies headers.
pub fn copy_headers(headers: &Vec<RequestHeader>) -> (copy: Vec<RequestHeader>)
    ensures
        header_views(copy@) == header_views(headers@),
{
    let mut copy: Vec<RequestHeader> = Vec::new();
    let mut i: usize = 0;
    while i < headers.len()
        invariant
            i <= headers@.len(),
            copy@.len() == i,
            forall|j: int| 0 <= j < i ==> (#[trigger] copy@[j])@ == headers@[j]@,
        decreases headers@.len() - i,
    {
        copy.push(headers[i].copy());
        i += 1;
    }
    assert(header_views(copy@) =~= header_views(headers@));
    copy
}

/// A request. Its size is checked when it is sent.
#[derive(Clone, Debug)]
pub struct HttpRequest {
    method: HttpMethod,
    url: WebUrl,
    headers: Vec<RequestHeader>,
    body: Vec<u8>,
}

/// An [`HttpRequest`] with its texts as sequences of characters.
#[verifier::ext_equal]
pub struct RequestView {
    pub method: HttpMethod,
    pub url: WebUrlView,
    pub headers: Seq<HeaderView>,
    pub body: Seq<u8>,
}

impl View for HttpRequest {
    type V = RequestView;

    closed spec fn view(&self) -> RequestView {
        RequestView {
            method: self.method,
            url: self.url@,
            headers: header_views(self.headers@),
            body: self.body@,
        }
    }
}

impl HttpRequest {
    /// A request for a parsed URL.
    pub fn for_url(method: HttpMethod, url: WebUrl) -> (request: HttpRequest)
        ensures
            request@ == (RequestView {
                method,
                url: url@,
                headers: Seq::empty(),
                body: Seq::empty(),
            }),
    {
        let request = HttpRequest { method, url, headers: Vec::new(), body: Vec::new() };
        assert(request@.headers =~= Seq::<HeaderView>::empty());
        assert(request@.body =~= Seq::<u8>::empty());
        request
    }

    /// A request for an absolute URL.
    pub fn new(method: HttpMethod, url: &str) -> (request: Result<HttpRequest, HttpError>)
        ensures
            match crate::http::web_url::parsed_url(None, url@) {
                Ok(parsed) => request matches Ok(request) && request@ == (RequestView {
                    method,
                    url: parsed,
                    headers: Seq::empty(),
                    body: Seq::empty(),
                }),
                Err(error) => crate::http::error::fails_with(
                    request,
                    HttpErrorView::InvalidUrl(error),
                ),
            },
    {
        match WebUrl::parse(url) {
            Ok(url) => Ok(HttpRequest::for_url(method, url)),
            Err(error) => Err(HttpError::InvalidUrl(error)),
        }
    }

    /// A GET request for an absolute URL.
    pub fn get(url: &str) -> (request: Result<HttpRequest, HttpError>)
        ensures
            match crate::http::web_url::parsed_url(None, url@) {
                Ok(parsed) => request matches Ok(request) && request@ == (RequestView {
                    method: HttpMethod::Get,
                    url: parsed,
                    headers: Seq::empty(),
                    body: Seq::empty(),
                }),
                Err(error) => crate::http::error::fails_with(
                    request,
                    HttpErrorView::InvalidUrl(error),
                ),
            },
    {
        HttpRequest::new(HttpMethod::Get, url)
    }

    /// Adds a header. A name may occur more than once.
    pub fn with_header(self, name: &str, value: &str) -> (request: Result<HttpRequest, HttpError>)
        ensures
            match checked_header(name@, value@) {
                Ok(header) => request matches Ok(request) && request@ == (RequestView {
                    headers: self@.headers.push(header),
                    ..self@
                }),
                Err(error) => crate::http::error::fails_with(request, error),
            },
    {
        match RequestHeader::new(name, value) {
            Ok(header) => {
                let HttpRequest { method, url, headers, body } = self;
                let mut headers = headers;
                headers.push(header);
                assert(header_views(headers@) =~= self@.headers.push(header@));
                Ok(HttpRequest { method, url, headers, body })
            },
            Err(error) => Err(error),
        }
    }

    /// Sets the body of a POST request; no other method has one.
    pub fn with_body(self, body: Vec<u8>) -> (request: Result<HttpRequest, HttpError>)
        ensures
            if self@.method == HttpMethod::Post {
                request matches Ok(request) && request@ == (RequestView { body: body@, ..self@ })
            } else {
                crate::http::error::fails_with(
                    request,
                    HttpErrorView::InvalidRequest("only POST requests may include a body"@),
                )
            },
    {
        if self.method != HttpMethod::Post {
            return Err(
                HttpError::InvalidRequest("only POST requests may include a body".to_owned()),
            );
        }
        Ok(HttpRequest { method: self.method, url: self.url, headers: self.headers, body })
    }

    /// The method.
    pub fn method(&self) -> (method: HttpMethod)
        ensures
            method == self@.method,
    {
        self.method
    }

    /// The URL before any redirect.
    pub fn url(&self) -> (url: &WebUrl)
        ensures
            url@ == self@.url,
    {
        &self.url
    }

    /// The headers.
    pub fn headers(&self) -> (headers: &Vec<RequestHeader>)
        ensures
            header_views(headers@) == self@.headers,
    {
        &self.headers
    }

    /// The body.
    pub fn body(&self) -> (body: &Vec<u8>)
        ensures
            body@ == self@.body,
    {
        &self.body
    }

    /// The parts.
    pub fn into_parts(self) -> (parts: (HttpMethod, WebUrl, Vec<RequestHeader>, Vec<u8>))
        ensures
            self@ == (RequestView {
                method: parts.0,
                url: parts.1@,
                headers: header_views(parts.2@),
                body: parts.3@,
            }),
    {
        (self.method, self.url, self.headers, self.body)
    }
}

/// A response header. The name is in lower case; the value is bytes, whatever
/// their encoding.
#[derive(Clone, Debug, PartialEq, Eq)]
pub struct ResponseHeader {
    name: String,
    value: Vec<u8>,
}

/// A header as bytes, with its name as a sequence of characters.
#[verifier::ext_equal]
pub struct HeaderBytes {
    pub name: Seq<char>,
    pub value: Seq<u8>,
}

/// A header with its name in lower case.
pub open spec fn lower_name(header: HeaderBytes) -> HeaderBytes {
    HeaderBytes { name: crate::text::lower_text(header.name), value: header.value }
}

/// Headers with their names in lower case.
pub open spec fn lower_names(headers: Seq<HeaderBytes>) -> Seq<HeaderBytes> {
    headers.map_values(|header: HeaderBytes| lower_name(header))
}

impl View for ResponseHeader {
    type V = HeaderBytes;

    closed spec fn view(&self) -> HeaderBytes {
        HeaderBytes { name: self.name@, value: self.value@ }
    }
}

/// `std::str::from_utf8` accepts exactly the well-formed UTF-8, and the text
/// that it hands back is encoded by those bytes.
#[verifier::external_body]
pub(crate) fn utf8_text(bytes: &Vec<u8>) -> (text: Option<&str>)
    ensures
        match text {
            Some(text) => vstd::utf8::valid_utf8(bytes@) && text@ == vstd::utf8::decode_utf8(
                bytes@,
            ),
            None => !vstd::utf8::valid_utf8(bytes@),
        },
{
    std::str::from_utf8(bytes).ok()
}

impl ResponseHeader {
    /// A header of these parts, whatever the case of the name.
    pub fn new(name: String, value: Vec<u8>) -> (header: ResponseHeader)
        ensures
            header@ == (HeaderBytes { name: crate::text::lower_text(name@), value: value@ }),
    {
        ResponseHeader { name: to_lower(name.as_str()), value }
    }

    /// The name in lower case.
    pub fn name(&self) -> (name: &str)
        ensures
            name@ == self@.name,
    {
        self.name.as_str()
    }

    /// The bytes of the value.
    pub fn value(&self) -> (value: &Vec<u8>)
        ensures
            value@ == self@.value,
    {
        &self.value
    }

    /// The value as text, where it is UTF-8.
    pub fn value_str(&self) -> (text: Option<&str>)
        ensures
            match text {
                Some(text) => vstd::utf8::valid_utf8(self@.value) && text@
                    == vstd::utf8::decode_utf8(self@.value),
                None => !vstd::utf8::valid_utf8(self@.value),
            },
    {
        utf8_text(&self.value)
    }
}

/// A response that passed every check.
#[derive(Clone, Debug, PartialEq, Eq)]
pub struct HttpResponse {
    status: u16,
    final_url: WebUrl,
    content_type: Option<String>,
    headers: Vec<ResponseHeader>,
    body: Vec<u8>,
}

/// An [`HttpResponse`] with its texts as sequences of characters.
#[verifier::ext_equal]
pub struct ResponseView {
    pub status: u16,
    pub final_url: WebUrlView,
    pub content_type: Option<Seq<char>>,
    pub headers: Seq<HeaderBytes>,
    pub body: Seq<u8>,
}

/// An optional text as a sequence of characters.
pub open spec fn text_view(text: Option<String>) -> Option<Seq<char>> {
    match text {
        Some(text) => Some(text@),
        None => None,
    }
}

impl View for HttpResponse {
    type V = ResponseView;

    closed spec fn view(&self) -> ResponseView {
        ResponseView {
            status: self.status,
            final_url: self.final_url@,
            content_type: text_view(self.content_type),
            headers: self.headers@.map_values(|header: ResponseHeader| header@),
            body: self.body@,
        }
    }
}

/// The two names are the same but for the case of ASCII letters.
pub open spec fn same_name(a: Seq<char>, b: Seq<char>) -> bool {
    crate::text::lower_text(a) == crate::text::lower_text(b)
}

impl HttpResponse {
    /// A response of these parts.
    pub fn new(
        status: u16,
        final_url: WebUrl,
        content_type: Option<String>,
        headers: Vec<ResponseHeader>,
        body: Vec<u8>,
    ) -> (response: HttpResponse)
        ensures
            response@ == (ResponseView {
                status,
                final_url: final_url@,
                content_type: text_view(content_type),
                headers: headers@.map_values(|header: ResponseHeader| header@),
                body: body@,
            }),
    {
        HttpResponse { status, final_url, content_type, headers, body }
    }

    /// The status.
    pub fn status(&self) -> (status: u16)
        ensures
            status == self@.status,
    {
        self.status
    }

    /// The URL after the redirects.
    pub fn final_url(&self) -> (url: &WebUrl)
        ensures
            url@ == self@.final_url,
    {
        &self.final_url
    }

    /// The media type without parameters.
    pub fn content_type(&self) -> (content_type: Option<&str>)
        ensures
            crate::http::web_url::base_view(content_type) == self@.content_type,
    {
        match &self.content_type {
            Some(text) => Some(text.as_str()),
            None => None,
        }
    }

    /// The headers.
    pub fn headers(&self) -> (headers: &Vec<ResponseHeader>)
        ensures
            headers@.map_values(|header: ResponseHeader| header@) == self@.headers,
    {
        &self.headers
    }

    /// The body.
    pub fn body(&self) -> (body: &Vec<u8>)
        ensures
            body@ == self@.body,
    {
        &self.body
    }

    /// The first header with this name, whatever the case of its letters.
    pub fn header(&self, name: &str) -> (header: Option<&ResponseHeader>)
        ensures
            match header {
                Some(header) => exists|i: int|
                    0 <= i < self@.headers.len() && #[trigger] self@.headers[i] == header@
                        && same_name(header@.name, name@) && forall|j: int|
                        0 <= j < i ==> !same_name((#[trigger] self@.headers[j]).name, name@),
                None => forall|i: int|
                    0 <= i < self@.headers.len() ==> !same_name(
                        (#[trigger] self@.headers[i]).name,
                        name@,
                    ),
            },
    {
        let wanted = to_lower(name);
        let mut i: usize = 0;
        while i < self.headers.len()
            invariant
                i <= self.headers@.len(),
                wanted@ == crate::text::lower_text(name@),
                forall|j: int|
                    0 <= j < i ==> !same_name((#[trigger] self@.headers[j]).name, name@),
            decreases self.headers@.len() - i,
        {
            if same_text(to_lower(self.headers[i].name.as_str()).as_str(), wanted.as_str()) {
                assert(self@.headers[i as int] == self.headers@[i as int]@);
                return Some(&self.headers[i]);
            }
            assert(self@.headers[i as int] == self.headers@[i as int]@);
            i += 1;
        }
        None
    }
}

/// A header that was accepted is no control of the transport and cannot break
/// out of its line.
pub proof fn law_accepted_headers_cannot_inject(name: Seq<char>, value: Seq<char>, i: int)
    requires
        checked_header(name, value) is Ok,
        0 <= i < value.len(),
    ensures
        value[i] != '\r',
        value[i] != '\n',
        !transport_header(checked_header(name, value)->Ok_0.name),
{
    assert(!forbidden_in_value(value[i]));
}

/// A header is accepted if and only if its name, without white space around it and in lower
/// case, is made of letters, digits and marks, its value of printed ASCII, spaces and tabs,
/// and the name is not one that the transport sets itself. It has that name and the value
/// as it was given.
pub proof fn law_accepted_headers_are_kept_as_given(name: Seq<char>, value: Seq<char>)
    ensures
        checked_header(name, value) matches Ok(header) ==> {
            &&& header.value == value
            &&& header.name == crate::text::lower_text(crate::text::trim_text(name))
            &&& header.name.len() > 0
            &&& forall|i: int|
                0 <= i < value.len() ==> {
                    let code = (#[trigger] value[i]) as u32;
                    code == 9 || 32 <= code <= 126
                }
            &&& header.name != "host"@
            &&& header.name != "content-length"@
            &&& header.name != "transfer-encoding"@
            &&& header.name != "connection"@
            &&& header.name != "accept-encoding"@
            &&& header.name != "keep-alive"@
            &&& header.name != "te"@
            &&& header.name != "trailer"@
            &&& header.name != "upgrade"@
            &&& !(exists|rest: Seq<char>| header.name == #[trigger] ("proxy-"@ + rest))
        },
        ({
            let lower = crate::text::lower_text(crate::text::trim_text(name));
            header_name(lower) && !transport_header(lower) && (forall|i: int|
                0 <= i < value.len() ==> (' ' <= #[trigger] value[i] && value[i] <= '~'))
                ==> checked_header(name, value) is Ok
        }),
{
    let lower = crate::text::lower_text(crate::text::trim_text(name));
    crate::text::law_ends_are_parts(lower, "proxy-"@);
    if checked_header(name, value) is Ok {
        assert forall|i: int| 0 <= i < value.len() implies {
            let code = (#[trigger] value[i]) as u32;
            code == 9 || 32 <= code <= 126
        } by {
            assert(!forbidden_in_value(value[i]));
        }
    }
    if forall|i: int| 0 <= i < value.len() ==> (' ' <= #[trigger] value[i] && value[i] <= '~') {
        assert forall|i: int| 0 <= i < value.len() implies !forbidden_in_value(
            #[trigger] value[i],
        ) by {
            assert(' ' <= value[i] && value[i] <= '~');
        }
    }
}

/// The names that the transport sets itself are those that frame a message or belong to a
/// connection, and all that begin with `proxy-`.
pub proof fn law_framing_is_left_to_the_transport(name: Seq<char>)
    requires
        transport_header(name),
    ensures
        (exists|rest: Seq<char>| name == #[trigger] ("proxy-"@ + rest)) || name == "host"@ || name
            == "te"@ || name == "trailer"@ || name == "upgrade"@ || name == "connection"@ || name
            == "keep-alive"@ || name == "content-length"@ || name == "accept-encoding"@ || name
            == "transfer-encoding"@,
{
    crate::text::law_ends_are_parts(name, "proxy-"@);
}

/// A body can be set on a POST alone, and a header is added behind the others; nothing else
/// of the request changes.
pub proof fn law_requests_are_built_part_by_part(
    request: HttpRequest,
    body: Vec<u8>,
    with_body: Result<HttpRequest, HttpError>,
    name: &str,
    value: &str,
    with_header: Result<HttpRequest, HttpError>,
)
    requires
        call_ensures(HttpRequest::with_body, (request, body), with_body),
        call_ensures(HttpRequest::with_header, (request, name, value), with_header),
    ensures
        with_body is Ok <==> request@.method == HttpMethod::Post,
        with_body matches Ok(made) ==> made@.body == body@ && made@.method == request@.method
            && made@.url == request@.url && made@.headers == request@.headers,
        with_header matches Ok(made) ==> made@.body == request@.body && made@.method
            == request@.method && made@.url == request@.url && made@.headers.len()
            == request@.headers.len() + 1 && made@.headers.drop_last() == request@.headers
            && made@.headers.last().value == value@,
{
    if let Ok(made) = with_header {
        assert(made@.headers.drop_last() =~= request@.headers);
    }
}

/// Headers of a response keep their values and their order; their names are in lower case.
pub proof fn law_response_headers_keep_their_values(headers: Seq<HeaderBytes>, i: int)
    requires
        0 <= i < headers.len(),
    ensures
        lower_names(headers).len() == headers.len(),
        lower_names(headers)[i].value == headers[i].value,
        lower_names(headers)[i].name == crate::text::lower_text(headers[i].name),
{
}

/// A header is found by its name in any case, and the first of that name is found.
pub proof fn law_headers_are_found_in_any_case(
    response: HttpResponse,
    name: &str,
    header: Option<&ResponseHeader>,
    i: int,
)
    requires
        call_ensures(HttpResponse::header, (&response, name), header),
        0 <= i < response@.headers.len(),
    ensures
        header is None ==> crate::text::lower_text(response@.headers[i].name)
            != crate::text::lower_text(name@),
        header matches Some(found) ==> crate::text::lower_text(found@.name)
            == crate::text::lower_text(name@),
        header is Some && i == 0 && crate::text::lower_text(response@.headers[0].name)
            == crate::text::lower_text(name@) ==> header->Some_0@ == response@.headers[0],
{
    if let Some(found) = header {
        let at = choose|at: int|
            0 <= at < response@.headers.len() && #[trigger] response@.headers[at] == found@
                && same_name(found@.name, name@) && forall|j: int|
                0 <= j < at ==> !same_name((#[trigger] response@.headers[j]).name, name@);
        if i == 0 && at > 0 {
            assert(!same_name(response@.headers[0].name, name@));
        }
    } else {
        assert(!same_name(response@.headers[i].name, name@));
    }
}

/// A name of a header is made of letters, digits and the marks that tokens may have; it has
/// no colon, no white space and no quote.
pub proof fn law_header_names_are_tokens(c: char)
    ensures
        ('a' <= c && c <= 'z') || ('A' <= c && c <= 'Z') || ('0' <= c && c <= '9') ==> name_char(c),
        name_char(c) ==> 0x21 <= c as u32 <= 0x7e,
        name_char(c) <==> {
            ||| ('a' <= c && c <= 'z') || ('A' <= c && c <= 'Z') || ('0' <= c && c <= '9')
            ||| seq![
                '!',
                '#',
                '$',
                '%',
                '&',
                '\'',
                '*',
                '+',
                '-',
                '.',
                '^',
                '_',
                '`',
                '|',
                '~',
            ].contains(c)
        },
        name_char(c) ==> c != ':' && c != ' ' && c != '"' && c != '(' && c != ')' && c != ','
            && c != '/' && c != ';' && c != '@',
{
    let marks = seq!['!', '#', '$', '%', '&', '\'', '*', '+', '-', '.', '^', '_', '`', '|', '~'];
    assert(marks[0] == '!' && marks[1] == '#' && marks[2] == '$' && marks[3] == '%' && marks[4]
        == '&' && marks[5] == '\'' && marks[6] == '*' && marks[7] == '+' && marks[8] == '-'
        && marks[9] == '.' && marks[10] == '^' && marks[11] == '_' && marks[12] == '`'
        && marks[13] == '|' && marks[14] == '~');
}

} // verus!
