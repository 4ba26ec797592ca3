//! What the client asks of name resolution and of the network.

use crate::http::cancellation::CancellationToken;
use crate::http::error::{HttpError, HttpErrorView, TimeoutStage};
use crate::http::network::IpAddress;
use crate::http::request::{HeaderBytes, HttpMethod, RequestHeader, RequestView};
use crate::http::span::Span;
use crate::http::web_url::WebUrl;
use vstd::prelude::*;

verus! {

/// A question for the addresses of a host.
#[derive(Clone, Debug)]
pub struct ResolveRequest {
    pub host: String,
    pub port: u16,
    pub timeout: Span,
    pub cancellation: CancellationToken,
}

impl ResolveRequest {
    /// The host name.
    pub fn host(&self) -> (host: &str)
        ensures
            host@ == self.host@,
    {
        self.host.as_str()
    }

    /// The port.
    pub fn port(&self) -> (port: u16)
        ensures
            port == self.port,
    {
        self.port
    }

    /// How long the answer may take.
    pub fn timeout(&self) -> (timeout: Span)
        ensures
            timeout == self.timeout,
    {
        self.timeout
    }

    /// The caller's flag.
    pub fn cancellation(&self) -> (token: &CancellationToken)
        ensures
            *token == self.cancellation,
    {
        &self.cancellation
    }
}

/// How long a question waits before it looks at the clock and the flag again.
pub const LOOKUP_POLL_NANOS: u128 = 10_000_000;

/// How long a question that has been open for some time waits for an answer: not
/// at all where its caller gave it up or the time is over, and else until the time
/// is over or it looks again.
pub fn lookup_wait(cancelled: bool, elapsed: Span, timeout: Span) -> (wait: Result<Span, HttpError>)
    ensures
        wait == if cancelled {
            Err::<Span, HttpError>(HttpError::Cancelled)
        } else if elapsed.nanos > timeout.nanos {
            Err(HttpError::Timeout(TimeoutStage::Resolve))
        } else if timeout.nanos - elapsed.nanos < LOOKUP_POLL_NANOS {
            Ok(Span { nanos: (timeout.nanos - elapsed.nanos) as u128 })
        } else {
            Ok(Span { nanos: LOOKUP_POLL_NANOS })
        },
{
    if cancelled {
        return Err(HttpError::Cancelled);
    }
    if elapsed.nanos > timeout.nanos {
        return Err(HttpError::Timeout(TimeoutStage::Resolve));
    }
    let left = timeout.saturating_sub(elapsed);
    if left.nanos < LOOKUP_POLL_NANOS {
        Ok(left)
    } else {
        Ok(Span { nanos: LOOKUP_POLL_NANOS })
    }
}

impl ResolveRequest {
    /// The question is for the canonical form of a name that is not one of the
    /// machine itself, at a usable port.
    pub open spec fn is_checked(&self) -> bool {
        &&& exists|name: Seq<char>| #[trigger]
            crate::http::policy::canonical(name) == Ok::<Seq<char>, HttpErrorView>(self.host@)
        &&& !crate::http::network::localhost_name(self.host@)
        &&& self.port != 0
    }
}

/// Resolves host names. The client checks every answer.
pub trait Resolver {
    /// What the resolver is prepared to be asked.
    open spec fn may_ask(&self, request: ResolveRequest) -> bool {
        true
    }

    /// The addresses of a host.
    fn resolve(&self, request: ResolveRequest) -> (answer: Result<Vec<IpAddress>, HttpError>)
        requires
            request.is_checked(),
            self.may_ask(request),
    ;
}

/// Where a hop goes: the host as the URL has it, and the addresses that were
/// found fit for it.
#[derive(Clone, Debug, PartialEq, Eq)]
pub struct ResolvedEndpoint {
    pub host: String,
    pub port: u16,
    pub addresses: Vec<IpAddress>,
}

impl ResolvedEndpoint {
    /// The host as the URL has it.
    pub fn host(&self) -> (host: &str)
        ensures
            host@ == self.host@,
    {
        self.host.as_str()
    }

    /// The port.
    pub fn port(&self) -> (port: u16)
        ensures
            port == self.port,
    {
        self.port
    }

    /// The addresses, each to be used with the port.
    pub fn addresses(&self) -> (addresses: &Vec<IpAddress>)
        ensures
            *addresses == self.addresses,
    {
        &self.addresses
    }
}

/// One hop as the network sees it.
#[derive(Clone, Debug)]
pub struct TransportRequest {
    pub method: HttpMethod,
    pub url: WebUrl,
    pub headers: Vec<RequestHeader>,
    pub body: Vec<u8>,
    pub endpoint: ResolvedEndpoint,
    pub connect_timeout: Span,
    pub request_timeout: Span,
    pub cancellation: CancellationToken,
}

impl TransportRequest {
    /// The method.
    pub fn method(&self) -> (method: HttpMethod)
        ensures
            method == self.method,
    {
        self.method
    }

    /// The URL.
    pub fn url(&self) -> (url: &WebUrl)
        ensures
            *url == self.url,
    {
        &self.url
    }

    /// The headers.
    pub fn headers(&self) -> (headers: &Vec<RequestHeader>)
        ensures
            *headers == self.headers,
    {
        &self.headers
    }

    /// The body.
    pub fn body(&self) -> (body: &Vec<u8>)
        ensures
            *body == self.body,
    {
        &self.body
    }

    /// Where the hop goes.
    pub fn endpoint(&self) -> (endpoint: &ResolvedEndpoint)
        ensures
            *endpoint == self.endpoint,
    {
        &self.endpoint
    }

    /// How long connecting may take.
    pub fn connect_timeout(&self) -> (timeout: Span)
        ensures
            timeout == self.connect_timeout,
    {
        self.connect_timeout
    }

    /// How long the exchange may take.
    pub fn request_timeout(&self) -> (timeout: Span)
        ensures
            timeout == self.request_timeout,
    {
        self.request_timeout
    }

    /// The caller's flag.
    pub fn cancellation(&self) -> (token: &CancellationToken)
        ensures
            *token == self.cancellation,
    {
        &self.cancellation
    }
}

/// A header as the network delivered it.
#[derive(Clone, Debug, PartialEq, Eq)]
pub struct TransportHeader {
    pub name: String,
    pub value: Vec<u8>,
}

impl View for TransportHeader {
    type V = HeaderBytes;

    open spec fn view(&self) -> HeaderBytes {
        HeaderBytes { name: self.name@, value: self.value@ }
    }
}

/// Headers with their names as sequences of characters.
pub open spec fn byte_views(headers: Seq<TransportHeader>) -> Seq<HeaderBytes> {
    headers.map_values(|header: TransportHeader| header@)
}

/// A response body that is read piece by piece.
pub trait ResponseBody {
    /// The next bytes; none at the end.
    fn read_chunk(&mut self) -> (chunk: Result<Vec<u8>, HttpError>);
}

/// A body gave this for its next bytes, and is this after that.
pub struct ReadStep<B> {
    pub body: B,
    pub chunk: Result<Vec<u8>, HttpError>,
}

/// Reads on.
pub fn read_on<B: ResponseBody>(body: B) -> (step: ReadStep<B>)
    ensures
        exists|reader: &mut B, chunk: Result<Vec<u8>, HttpError>| #[trigger]
            call_ensures(B::read_chunk, (reader,), chunk) && *reader == body && *final(reader)
                == step.body && chunk == step.chunk,
{
    let mut rest = body;
    let chunk = rest.read_chunk();
    assert(exists|reader: &mut B| #[trigger]
        call_ensures(B::read_chunk, (reader,), chunk) && *reader == body && *final(reader) == rest);
    ReadStep { body: rest, chunk }
}

/// A body gave this for its next bytes, and was another after that.
pub open spec fn gave<B: ResponseBody>(
    before: B,
    after: B,
    chunk: Result<Vec<u8>, HttpError>,
) -> bool {
    call_ensures(read_on::<B>, (before,), ReadStep { body: after, chunk })
}

/// Reads on, unless the caller has cancelled by now.
pub fn read_unless_cancelled<B: ResponseBody>(body: B, cancellation: &CancellationToken) -> (step:
    ReadStep<B>)
    ensures
        exists|cancelled: bool| #[trigger]
            crate::http::cancellation::seen(cancellation.flag(), cancelled) && if cancelled {
                step == (ReadStep {
                    body,
                    chunk: Err::<Vec<u8>, HttpError>(HttpError::Cancelled),
                })
            } else {
                gave(body, step.body, step.chunk)
            },
{
    if cancellation.is_cancelled() {
        return ReadStep { body, chunk: Err(HttpError::Cancelled) };
    }
    let step = read_on(body);
    assert(gave(body, step.body, step.chunk));
    step
}

/// It was looked whether the caller has cancelled and then read on: a body gave this,
/// and was another after that.
pub open spec fn went_on<B: ResponseBody>(
    before: B,
    after: B,
    flag: std::sync::atomic::AtomicBool,
    chunk: Result<Vec<u8>, HttpError>,
) -> bool {
    exists|token: &CancellationToken| #[trigger]
        call_ensures(
            read_unless_cancelled::<B>,
            (before, token),
            ReadStep { body: after, chunk },
        ) && token.flag() == flag
}

/// A response before any check.
#[derive(Debug)]
pub struct TransportResponse<B> {
    pub status: u16,
    pub headers: Vec<TransportHeader>,
    pub body: B,
}

impl TransportRequest {
    /// The hop that the request is for.
    pub open spec fn hop(&self) -> RequestView {
        RequestView {
            method: self.method,
            url: self.url@,
            headers: crate::http::request::header_views(self.headers@),
            body: self.body@,
        }
    }

    /// The hop is pinned to public addresses at the port of its URL, which is a web
    /// URL without credentials and not of the machine itself.
    pub open spec fn is_checked(&self) -> bool {
        &&& self.url@.scheme == "https"@ || self.url@.scheme == "http"@
        &&& self.url@.username.len() == 0
        &&& !self.url@.has_password
        &&& match self.url@.host {
            Some((host, text)) => self.endpoint.host@ == text && (
            crate::http::exchange::canonical_url_host(host) matches Ok(form)
                && !crate::http::network::localhost_name(form)),
            None => false,
        }
        &&& self.url@.port == Some(self.endpoint.port)
        &&& self.endpoint.port != 0
        &&& self.endpoint.addresses@.len() > 0
        &&& forall|i: int|
            0 <= i < self.endpoint.addresses@.len() ==> crate::http::network::is_public(
                #[trigger] self.endpoint.addresses@[i],
            )
    }
}

/// Carries out one hop. It follows no redirect and uses no address but those
/// of the endpoint.
pub trait HttpTransport {
    /// How bodies come.
    type Body: ResponseBody;

    /// What the transport is prepared to be handed.
    open spec fn may_carry(&self, request: TransportRequest) -> bool {
        true
    }

    /// Sends the request and waits for the head of the response.
    fn execute(&self, request: TransportRequest) -> (response: Result<
        TransportResponse<Self::Body>,
        HttpError,
    >)
        requires
            request.is_checked(),
            self.may_carry(request),
    ;
}

/// Time since some fixed moment.
pub trait MonotonicClock {
    /// The time now.
    fn now(&self) -> (now: Span);
}

/// A question waits no longer than its time is left, and no longer than ten milliseconds
/// before it looks at the flag again. It gives up where its caller has, and else only
/// when its time is over.
pub proof fn law_questions_wait_within_their_time(
    cancelled: bool,
    elapsed: Span,
    timeout: Span,
    wait: Result<Span, HttpError>,
)
    requires
        call_ensures(lookup_wait, (cancelled, elapsed, timeout), wait),
    ensures
        wait is Ok <==> !cancelled && elapsed.nanos <= timeout.nanos,
        wait matches Ok(span) ==> elapsed.nanos + span.nanos <= timeout.nanos && span.nanos
            <= 10_000_000 && (span.nanos < 10_000_000 ==> elapsed.nanos + span.nanos
            == timeout.nanos),
        wait matches Err(error) ==> (error == HttpError::Cancelled <==> cancelled) && (error
            == HttpError::Timeout(TimeoutStage::Resolve) <==> !cancelled),
{
}

} // verus!
