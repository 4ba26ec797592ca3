//! Everything that can go wrong with a request, and how it is said.

use crate::http::network::{write_address, IpAddress};
use crate::http::span::{Span, NANOS_PER_SECOND};
use crate::text::{decimal, join2, join3, join5};
use vstd::prelude::*;

verus! {

/// The step of a request that ran out of time.
#[derive(Clone, Copy, Debug, PartialEq, Eq, Structural)]
pub enum TimeoutStage {
    Resolve,
    Connect,
    Request,
}

/// Why a request, a policy or a cache operation failed.
#[derive(Clone, Debug, PartialEq, Eq)]
#[non_exhaustive]
pub enum HttpError {
    InvalidPolicy(String),
    InvalidRequest(String),
    InvalidUrl(String),
    SchemeDenied(String),
    HostDenied(String),
    LocalhostDenied(String),
    AddressDenied(IpAddress),
    Resolve(String),
    Timeout(TimeoutStage),
    Cancelled,
    RequestTooLarge { limit: usize },
    ResponseHeadersTooLarge { limit: usize },
    ResponseTooLarge { limit: usize },
    ContentTypeMissing,
    ContentTypeDenied(String),
    ContentEncodingDenied(String),
    Redirect(String),
    ConcurrencyLimit { limit: usize },
    RateLimited { retry_after: Span },
    Transport(String),
    Cache(String),
    CacheQuotaExceeded { quota: &'static str, limit: usize },
}

/// An [`HttpError`] with its texts as sequences of characters.
pub enum HttpErrorView {
    InvalidPolicy(Seq<char>),
    InvalidRequest(Seq<char>),
    InvalidUrl(Seq<char>),
    SchemeDenied(Seq<char>),
    HostDenied(Seq<char>),
    LocalhostDenied(Seq<char>),
    AddressDenied(IpAddress),
    Resolve(Seq<char>),
    Timeout(TimeoutStage),
    Cancelled,
    RequestTooLarge { limit: usize },
    ResponseHeadersTooLarge { limit: usize },
    ResponseTooLarge { limit: usize },
    ContentTypeMissing,
    ContentTypeDenied(Seq<char>),
    ContentEncodingDenied(Seq<char>),
    Redirect(Seq<char>),
    ConcurrencyLimit { limit: usize },
    RateLimited { retry_after: Span },
    Transport(Seq<char>),
    Cache(Seq<char>),
    CacheQuotaExceeded { quota: Seq<char>, limit: usize },
}

impl View for HttpError {
    type V = HttpErrorView;

    open spec fn view(&self) -> HttpErrorView {
        match *self {
            HttpError::InvalidPolicy(message) => HttpErrorView::InvalidPolicy(message@),
            HttpError::InvalidRequest(message) => HttpErrorView::InvalidRequest(message@),
            HttpError::InvalidUrl(message) => HttpErrorView::InvalidUrl(message@),
            HttpError::SchemeDenied(scheme) => HttpErrorView::SchemeDenied(scheme@),
            HttpError::HostDenied(host) => HttpErrorView::HostDenied(host@),
            HttpError::LocalhostDenied(host) => HttpErrorView::LocalhostDenied(host@),
            HttpError::AddressDenied(address) => HttpErrorView::AddressDenied(address),
            HttpError::Resolve(message) => HttpErrorView::Resolve(message@),
            HttpError::Timeout(stage) => HttpErrorView::Timeout(stage),
            HttpError::Cancelled => HttpErrorView::Cancelled,
            HttpError::RequestTooLarge { limit } => HttpErrorView::RequestTooLarge { limit },
            HttpError::ResponseHeadersTooLarge { limit } => HttpErrorView::ResponseHeadersTooLarge {
                limit,
            },
            HttpError::ResponseTooLarge { limit } => HttpErrorView::ResponseTooLarge { limit },
            HttpError::ContentTypeMissing => HttpErrorView::ContentTypeMissing,
            HttpError::ContentTypeDenied(value) => HttpErrorView::ContentTypeDenied(value@),
            HttpError::ContentEncodingDenied(value) => HttpErrorView::ContentEncodingDenied(
                value@,
            ),
            HttpError::Redirect(message) => HttpErrorView::Redirect(message@),
            HttpError::ConcurrencyLimit { limit } => HttpErrorView::ConcurrencyLimit { limit },
            HttpError::RateLimited { retry_after } => HttpErrorView::RateLimited { retry_after },
            HttpError::Transport(message) => HttpErrorView::Transport(message@),
            HttpError::Cache(message) => HttpErrorView::Cache(message@),
            HttpError::CacheQuotaExceeded { quota, limit } => HttpErrorView::CacheQuotaExceeded {
                quota: quota@,
                limit,
            },
        }
    }
}

/// The operation failed in exactly this way.
pub open spec fn fails_with<T>(outcome: Result<T, HttpError>, error: HttpErrorView) -> bool {
    outcome matches Err(actual) && actual@ == error
}

/// What `Debug` of std's `Duration` writes for these seconds and nanoseconds.
pub uninterp spec fn duration_text(secs: u64, nanos: u32) -> Seq<char>;

/// `Debug` of `std::time::Duration`, made with `Duration::new`: a function of
/// the seconds and nanoseconds, named [`duration_text`].
#[verifier::external_body]
fn write_duration(secs: u64, nanos: u32) -> (text: String)
    requires
        nanos < 1_000_000_000,
    ensures
        text@ == duration_text(secs, nanos),
{
    format!("{:?}", std::time::Duration::new(secs, nanos))
}

/// A step of a request in words.
pub open spec fn stage_text(stage: TimeoutStage) -> Seq<char> {
    match stage {
        TimeoutStage::Resolve => "Resolve"@,
        TimeoutStage::Connect => "Connect"@,
        TimeoutStage::Request => "Request"@,
    }
}

/// A number in decimal.
pub open spec fn number_text(value: usize) -> Seq<char> {
    crate::text::decimal_text(value as nat)
}

impl HttpError {
    /// A rate-limit error carries a length of time whose seconds fit a `u64`.
    pub open spec fn wf(&self) -> bool {
        *self matches HttpError::RateLimited { retry_after } ==> retry_after.nanos
            / crate::http::span::NANOS_PER_SECOND <= u64::MAX
    }

    /// The words of [`message`](Self::message).
    pub open spec fn message_text(&self) -> Seq<char> {
        match self@ {
            HttpErrorView::InvalidPolicy(message) => "invalid HTTP policy: "@ + message,
            HttpErrorView::InvalidRequest(message) => "invalid HTTP request: "@ + message,
            HttpErrorView::InvalidUrl(message) => "invalid HTTP URL: "@ + message,
            HttpErrorView::SchemeDenied(scheme) => "URL scheme `"@ + scheme + "` is not allowed"@,
            HttpErrorView::HostDenied(host) => "host `"@ + host + "` is not allowed"@,
            HttpErrorView::LocalhostDenied(host) => "local host `"@ + host + "` is not allowed"@,
            HttpErrorView::AddressDenied(address) => "address `"@
                + crate::http::network::address_text(address) + "` is not publicly routable"@,
            HttpErrorView::Resolve(message) => "host resolution failed: "@ + message,
            HttpErrorView::Timeout(stage) => "HTTP "@ + stage_text(stage) + " timed out"@,
            HttpErrorView::Cancelled => "HTTP operation was cancelled"@,
            HttpErrorView::RequestTooLarge { limit } => "HTTP request exceeds its "@ + number_text(
                limit,
            ) + "-byte limit"@,
            HttpErrorView::ResponseHeadersTooLarge { limit } =>
                "HTTP response headers exceed their "@ + number_text(limit) + "-byte limit"@,
            HttpErrorView::ResponseTooLarge { limit } => "HTTP response exceeds its "@
                + number_text(limit) + "-byte limit"@,
            HttpErrorView::ContentTypeMissing => "HTTP response has no content type"@,
            HttpErrorView::ContentTypeDenied(value) => "HTTP response content type `"@ + value
                + "` is not allowed"@,
            HttpErrorView::ContentEncodingDenied(value) => "HTTP response encoding `"@ + value
                + "` is not allowed"@,
            HttpErrorView::Redirect(message) => "HTTP redirect rejected: "@ + message,
            HttpErrorView::ConcurrencyLimit { limit } => "HTTP concurrency limit of "@
                + number_text(limit) + " was reached"@,
            HttpErrorView::RateLimited { retry_after } => "HTTP request rate limited for "@
                + duration_text(
                (retry_after.nanos / crate::http::span::NANOS_PER_SECOND) as u64,
                (retry_after.nanos % crate::http::span::NANOS_PER_SECOND) as u32,
            ),
            HttpErrorView::Transport(message) => "HTTP transport failed: "@ + message,
            HttpErrorView::Cache(message) => "document cache error: "@ + message,
            HttpErrorView::CacheQuotaExceeded { quota, limit } => "document cache "@ + quota
                + " quota of "@ + number_text(limit) + " was exceeded"@,
        }
    }

    /// The error in words.
    pub fn message(&self) -> (text: String)
        requires
            self.wf(),
        ensures
            text@ == self.message_text(),
    {
        match self {
            HttpError::InvalidPolicy(message) => join2("invalid HTTP policy: ", message.as_str()),
            HttpError::InvalidRequest(message) => join2(
                "invalid HTTP request: ",
                message.as_str(),
            ),
            HttpError::InvalidUrl(message) => join2("invalid HTTP URL: ", message.as_str()),
            HttpError::SchemeDenied(scheme) => join3(
                "URL scheme `",
                scheme.as_str(),
                "` is not allowed",
            ),
            HttpError::HostDenied(host) => join3("host `", host.as_str(), "` is not allowed"),
            HttpError::LocalhostDenied(host) => join3(
                "local host `",
                host.as_str(),
                "` is not allowed",
            ),
            HttpError::AddressDenied(address) => join3(
                "address `",
                write_address(*address).as_str(),
                "` is not publicly routable",
            ),
            HttpError::Resolve(message) => join2("host resolution failed: ", message.as_str()),
            HttpError::Timeout(stage) => {
                let stage = match stage {
                    TimeoutStage::Resolve => "Resolve",
                    TimeoutStage::Connect => "Connect",
                    TimeoutStage::Request => "Request",
                };
                join3("HTTP ", stage, " timed out")
            },
            HttpError::Cancelled => "HTTP operation was cancelled".to_owned(),
            HttpError::RequestTooLarge { limit } => join3(
                "HTTP request exceeds its ",
                decimal(*limit as u64).as_str(),
                "-byte limit",
            ),
            HttpError::ResponseHeadersTooLarge { limit } => join3(
                "HTTP response headers exceed their ",
                decimal(*limit as u64).as_str(),
                "-byte limit",
            ),
            HttpError::ResponseTooLarge { limit } => join3(
                "HTTP response exceeds its ",
                decimal(*limit as u64).as_str(),
                "-byte limit",
            ),
            HttpError::ContentTypeMissing => "HTTP response has no content type".to_owned(),
            HttpError::ContentTypeDenied(value) => join3(
                "HTTP response content type `",
                value.as_str(),
                "` is not allowed",
            ),
            HttpError::ContentEncodingDenied(value) => join3(
                "HTTP response encoding `",
                value.as_str(),
                "` is not allowed",
            ),
            HttpError::Redirect(message) => join2("HTTP redirect rejected: ", message.as_str()),
            HttpError::ConcurrencyLimit { limit } => join3(
                "HTTP concurrency limit of ",
                decimal(*limit as u64).as_str(),
                " was reached",
            ),
            HttpError::RateLimited { retry_after } => join2(
                "HTTP request rate limited for ",
                write_duration(
                    (retry_after.nanos / NANOS_PER_SECOND) as u64,
                    (retry_after.nanos % NANOS_PER_SECOND) as u32,
                ).as_str(),
            ),
            HttpError::Transport(message) => join2("HTTP transport failed: ", message.as_str()),
            HttpError::Cache(message) => join2("document cache error: ", message.as_str()),
            HttpError::CacheQuotaExceeded { quota, limit } => join5(
                "document cache ",
                quota,
                " quota of ",
                decimal(*limit as u64).as_str(),
                " was exceeded",
            ),
        }
    }
}

} // verus!
