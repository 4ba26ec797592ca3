//! Structured failures of PDF capabilities.

use crate::extension::capability::PdfCapability;
use crate::extension::ids::GenerationId;
use crate::text::{decimal, join2, join4, join5};
use vstd::prelude::*;

verus! {

/// Why an input was refused.
#[derive(Clone, Copy, Debug, PartialEq, Eq, Structural)]
pub enum InputErrorKind {
    NotFinite,
    OutsideNormalizedRange,
    EmptyOrReversedRect,
    Empty,
    ReversedRange,
    InvalidIdentifier,
    InvalidUnicodeScalar,
    StaleRevision,
}

/// Why a capability could not be used.
#[derive(Clone, Debug, PartialEq, Eq)]
pub enum PdfExtensionError {
    CapabilityUnavailable { capability: PdfCapability },
    PermissionDenied { capability: PdfCapability },
    NoActiveDocument,
    /// The resource is of an opening that is gone.
    StaleGeneration { expected: GenerationId, actual: GenerationId },
    InvalidHandleKind { expected: String, actual: String },
    ResourceNotFound { kind: String, id: u64 },
    PageOutOfBounds { page: u32, page_count: u32 },
    /// The field at a path is wrong in itself.
    InvalidInput { field: String, reason: InputErrorKind },
    /// The field at a path is over its limit.
    LimitExceeded { field: String, limit: u64, actual: u64 },
    Cancelled,
    Busy,
    Unsupported { feature: String },
    Internal { message: String },
}

/// A [`PdfExtensionError`] with its texts as sequences of characters.
pub enum PdfErrorView {
    CapabilityUnavailable { capability: PdfCapability },
    PermissionDenied { capability: PdfCapability },
    NoActiveDocument,
    StaleGeneration { expected: GenerationId, actual: GenerationId },
    InvalidHandleKind { expected: Seq<char>, actual: Seq<char> },
    ResourceNotFound { kind: Seq<char>, id: u64 },
    PageOutOfBounds { page: u32, page_count: u32 },
    InvalidInput { field: Seq<char>, reason: InputErrorKind },
    LimitExceeded { field: Seq<char>, limit: u64, actual: u64 },
    Cancelled,
    Busy,
    Unsupported { feature: Seq<char> },
    Internal { message: Seq<char> },
}

impl View for PdfExtensionError {
    type V = PdfErrorView;

    open spec fn view(&self) -> PdfErrorView {
        match *self {
            PdfExtensionError::CapabilityUnavailable { capability } =>
                PdfErrorView::CapabilityUnavailable { capability },
            PdfExtensionError::PermissionDenied { capability } => PdfErrorView::PermissionDenied {
                capability,
            },
            PdfExtensionError::NoActiveDocument => PdfErrorView::NoActiveDocument,
            PdfExtensionError::StaleGeneration { expected, actual } =>
                PdfErrorView::StaleGeneration { expected, actual },
            PdfExtensionError::InvalidHandleKind { expected, actual } =>
                PdfErrorView::InvalidHandleKind { expected: expected@, actual: actual@ },
            PdfExtensionError::ResourceNotFound { kind, id } => PdfErrorView::ResourceNotFound {
                kind: kind@,
                id,
            },
            PdfExtensionError::PageOutOfBounds { page, page_count } =>
                PdfErrorView::PageOutOfBounds { page, page_count },
            PdfExtensionError::InvalidInput { field, reason } => PdfErrorView::InvalidInput {
                field: field@,
                reason,
            },
            PdfExtensionError::LimitExceeded { field, limit, actual } =>
                PdfErrorView::LimitExceeded { field: field@, limit, actual },
            PdfExtensionError::Cancelled => PdfErrorView::Cancelled,
            PdfExtensionError::Busy => PdfErrorView::Busy,
            PdfExtensionError::Unsupported { feature } => PdfErrorView::Unsupported {
                feature: feature@,
            },
            PdfExtensionError::Internal { message } => PdfErrorView::Internal {
                message: message@,
            },
        }
    }
}

/// The outcome of a capability.
pub type PdfExtensionResult<T> = Result<T, PdfExtensionError>;

/// The check failed in exactly this way, or passed where there is none.
pub open spec fn checks_to<T>(outcome: PdfExtensionResult<T>, error: Option<PdfErrorView>) -> bool {
    match error {
        Some(error) => outcome matches Err(actual) && actual@ == error,
        None => outcome is Ok,
    }
}

/// A reason by its name.
pub open spec fn reason_text(reason: InputErrorKind) -> Seq<char> {
    match reason {
        InputErrorKind::NotFinite => "NotFinite"@,
        InputErrorKind::OutsideNormalizedRange => "OutsideNormalizedRange"@,
        InputErrorKind::EmptyOrReversedRect => "EmptyOrReversedRect"@,
        InputErrorKind::Empty => "Empty"@,
        InputErrorKind::ReversedRange => "ReversedRange"@,
        InputErrorKind::InvalidIdentifier => "InvalidIdentifier"@,
        InputErrorKind::InvalidUnicodeScalar => "InvalidUnicodeScalar"@,
        InputErrorKind::StaleRevision => "StaleRevision"@,
    }
}

fn reason_name(reason: InputErrorKind) -> (name: &'static str)
    ensures
        name@ == reason_text(reason),
{
    match reason {
        InputErrorKind::NotFinite => "NotFinite",
        InputErrorKind::OutsideNormalizedRange => "OutsideNormalizedRange",
        InputErrorKind::EmptyOrReversedRect => "EmptyOrReversedRect",
        InputErrorKind::Empty => "Empty",
        InputErrorKind::ReversedRange => "ReversedRange",
        InputErrorKind::InvalidIdentifier => "InvalidIdentifier",
        InputErrorKind::InvalidUnicodeScalar => "InvalidUnicodeScalar",
        InputErrorKind::StaleRevision => "StaleRevision",
    }
}

/// A number in decimal.
pub open spec fn number(value: u64) -> Seq<char> {
    crate::text::decimal_text(value as nat)
}

impl PdfExtensionError {
    /// The words of [`message`](Self::message).
    pub open spec fn message_text(&self) -> Seq<char> {
        match self@ {
            PdfErrorView::CapabilityUnavailable { capability } => "capability "@
                + capability.name() + " is unavailable"@,
            PdfErrorView::PermissionDenied { capability } => "permission denied for "@
                + capability.name(),
            PdfErrorView::NoActiveDocument => "no PDF document is active"@,
            PdfErrorView::StaleGeneration { expected, actual } => "stale PDF generation "@
                + number(actual.0) + " (current generation is "@ + number(expected.0) + ")"@,
            PdfErrorView::InvalidHandleKind { expected, actual } => "expected a "@ + expected
                + " handle, received "@ + actual,
            PdfErrorView::ResourceNotFound { kind, id } => "unknown "@ + kind + " resource "@
                + number(id),
            PdfErrorView::PageOutOfBounds { page, page_count } => "page "@ + number(page as u64)
                + " is outside "@ + number(page_count as u64) + " pages"@,
            PdfErrorView::InvalidInput { field, reason } => "invalid "@ + field + ": "@
                + reason_text(reason),
            PdfErrorView::LimitExceeded { field, limit, actual } => field
                + " exceeds its limit of "@ + number(limit) + " units (received "@ + number(actual)
                + ")"@,
            PdfErrorView::Cancelled => "PDF capability operation was cancelled"@,
            PdfErrorView::Busy => "PDF capability service is busy"@,
            PdfErrorView::Unsupported { feature } => "unsupported feature: "@ + feature,
            PdfErrorView::Internal { message } => "PDF provider failed: "@ + message,
        }
    }

    /// The error in words.
    pub fn message(&self) -> (text: String)
        ensures
            text@ == self.message_text(),
    {
        match self {
            PdfExtensionError::CapabilityUnavailable { capability } => crate::text::join3(
                "capability ",
                capability.as_str(),
                " is unavailable",
            ),
            PdfExtensionError::PermissionDenied { capability } => join2(
                "permission denied for ",
                capability.as_str(),
            ),
            PdfExtensionError::NoActiveDocument => "no PDF document is active".to_owned(),
            PdfExtensionError::StaleGeneration { expected, actual } => join5(
                "stale PDF generation ",
                decimal(actual.0).as_str(),
                " (current generation is ",
                decimal(expected.0).as_str(),
                ")",
            ),
            PdfExtensionError::InvalidHandleKind { expected, actual } => join4(
                "expected a ",
                expected.as_str(),
                " handle, received ",
                actual.as_str(),
            ),
            PdfExtensionError::ResourceNotFound { kind, id } => join4(
                "unknown ",
                kind.as_str(),
                " resource ",
                decimal(*id).as_str(),
            ),
            PdfExtensionError::PageOutOfBounds { page, page_count } => join5(
                "page ",
                decimal(*page as u64).as_str(),
                " is outside ",
                decimal(*page_count as u64).as_str(),
                " pages",
            ),
            PdfExtensionError::InvalidInput { field, reason } => join4(
                "invalid ",
                field.as_str(),
                ": ",
                reason_name(*reason),
            ),
            PdfExtensionError::LimitExceeded { field, limit, actual } => {
                let front = join4(
                    field.as_str(),
                    " exceeds its limit of ",
                    decimal(*limit).as_str(),
                    " units (received ",
                );
                crate::text::join3(front.as_str(), decimal(*actual).as_str(), ")")
            },
            PdfExtensionError::Cancelled => "PDF capability operation was cancelled".to_owned(),
            PdfExtensionError::Busy => "PDF capability service is busy".to_owned(),
            PdfExtensionError::Unsupported { feature } => join2(
                "unsupported feature: ",
                feature.as_str(),
            ),
            PdfExtensionError::Internal { message } => join2(
                "PDF provider failed: ",
                message.as_str(),
            ),
        }
    }
}

} // verus!
