//! Why annotations could not be loaded or saved.

use crate::store::annotations::AnnotationError;
use crate::store::identity::{DocumentIdentity, IdentityView};
use crate::text::{decimal, join3, join4, join5, padded_decimal, signed_decimal};
use vstd::prelude::*;

verus! {

/// What a save did.
#[derive(Clone, Copy, Debug, PartialEq, Eq, Structural)]
pub struct SaveReceipt {
    pub previous_revision: u64,
    pub saved_revision: u64,
}

/// What is kept is not what the caller thought.
#[derive(Clone, Debug, PartialEq, Eq)]
pub enum StoreConflict {
    /// It is of another document.
    DocumentIdentityMismatch { expected: DocumentIdentity, found: DocumentIdentity },
    /// Somebody saved meanwhile.
    RevisionMismatch { expected: u64, found: u64 },
}

/// Why annotations could not be loaded or saved.
#[derive(Clone, Debug, PartialEq, Eq)]
pub enum StoreError {
    Io { operation: String, path: String, source: String },
    Json { path: String, source: String },
    Annotation(AnnotationError),
    Conflict(StoreConflict),
    MissingSourceFileName,
    SidecarTooLarge { bytes: u64, limit: usize },
    UnsupportedSchemaVersion { found: u32, supported: u32 },
    InvalidDocumentIdentity,
    InvalidStoredTextPosition,
    PageCountMismatch { identity: usize, annotations: usize },
    RevisionRegression { current: u64, attempted: u64 },
    RevisionNotAdvanced { current: u64, attempted: u64 },
    LockPoisoned,
}

/// A [`StoreError`] with its texts and identities as they are seen.
pub enum StoreErrorView {
    Io { operation: Seq<char>, path: Seq<char>, source: Seq<char> },
    Json { path: Seq<char>, source: Seq<char> },
    Annotation(AnnotationError),
    DocumentIdentityMismatch { expected: IdentityView, found: IdentityView },
    RevisionMismatch { expected: u64, found: u64 },
    MissingSourceFileName,
    SidecarTooLarge { bytes: u64, limit: usize },
    UnsupportedSchemaVersion { found: u32, supported: u32 },
    InvalidDocumentIdentity,
    InvalidStoredTextPosition,
    PageCountMismatch { identity: usize, annotations: usize },
    RevisionRegression { current: u64, attempted: u64 },
    RevisionNotAdvanced { current: u64, attempted: u64 },
    LockPoisoned,
}

impl View for StoreError {
    type V = StoreErrorView;

    open spec fn view(&self) -> StoreErrorView {
        match *self {
            StoreError::Io { operation, path, source } => StoreErrorView::Io {
                operation: operation@,
                path: path@,
                source: source@,
            },
            StoreError::Json { path, source } => StoreErrorView::Json {
                path: path@,
                source: source@,
            },
            StoreError::Annotation(error) => StoreErrorView::Annotation(error),
            StoreError::Conflict(StoreConflict::DocumentIdentityMismatch { expected, found }) =>
                StoreErrorView::DocumentIdentityMismatch { expected: expected@, found: found@ },
            StoreError::Conflict(StoreConflict::RevisionMismatch { expected, found }) =>
                StoreErrorView::RevisionMismatch { expected, found },
            StoreError::MissingSourceFileName => StoreErrorView::MissingSourceFileName,
            StoreError::SidecarTooLarge { bytes, limit } => StoreErrorView::SidecarTooLarge {
                bytes,
                limit,
            },
            StoreError::UnsupportedSchemaVersion { found, supported } =>
                StoreErrorView::UnsupportedSchemaVersion { found, supported },
            StoreError::InvalidDocumentIdentity => StoreErrorView::InvalidDocumentIdentity,
            StoreError::InvalidStoredTextPosition => StoreErrorView::InvalidStoredTextPosition,
            StoreError::PageCountMismatch { identity, annotations } =>
                StoreErrorView::PageCountMismatch { identity, annotations },
            StoreError::RevisionRegression { current, attempted } =>
                StoreErrorView::RevisionRegression { current, attempted },
            StoreError::RevisionNotAdvanced { current, attempted } =>
                StoreErrorView::RevisionNotAdvanced { current, attempted },
            StoreError::LockPoisoned => StoreErrorView::LockPoisoned,
        }
    }
}

/// It failed in exactly this way, or succeeded where there is none.
pub open spec fn settles_to<T>(outcome: Result<T, StoreError>, error: Option<StoreErrorView>) -> bool {
    match error {
        Some(error) => outcome matches Err(actual) && actual@ == error,
        None => outcome is Ok,
    }
}

/// A number in decimal.
pub open spec fn number(value: int) -> Seq<char> {
    crate::text::decimal_text(value as nat)
}

/// An identity in words.
pub open spec fn identity_text(identity: IdentityView) -> Seq<char> {
    number(identity.byte_len as int) + " bytes, timestamp "@ + crate::text::signed_text(
        identity.modified_unix_seconds as int,
    ) + "."@ + crate::text::zero_filled(number(identity.modified_nanos as int), 9) + ", "@ + number(
        identity.page_count as int,
    ) + " pages"@
}

fn write_identity(identity: &DocumentIdentity) -> (text: String)
    ensures
        text@ == identity_text(identity@),
{
    let size = decimal(identity.byte_len());
    let seconds = signed_decimal(identity.modified_unix_seconds());
    let nanos = padded_decimal(identity.modified_nanos() as u64, 9);
    let pages = decimal(identity.page_count() as u64);
    let front = join5(
        size.as_str(),
        " bytes, timestamp ",
        seconds.as_str(),
        ".",
        nanos.as_str(),
    );
    join4(front.as_str(), ", ", pages.as_str(), " pages")
}

impl StoreErrorView {
    /// The error in words.
    pub open spec fn message_text(self) -> Seq<char> {
        match self {
            StoreErrorView::Io { operation, path, source } => "could not "@ + operation + " at "@
                + path + ": "@ + source,
            StoreErrorView::Json { path, source } => "annotation sidecar JSON at "@ + path
                + " is invalid: "@ + source,
            StoreErrorView::Annotation(error) => error.message_text(),
            StoreErrorView::DocumentIdentityMismatch { expected, found } =>
                "annotation sidecar belongs to a different PDF revision (expected "@
                + identity_text(expected) + "; found "@ + identity_text(found) + ")"@,
            StoreErrorView::RevisionMismatch { expected, found } =>
                "annotation sidecar changed on disk (expected revision "@ + number(expected as int)
                + ", found revision "@ + number(found as int)
                + "); reload the PDF before saving"@,
            StoreErrorView::MissingSourceFileName => "the PDF path has no file name"@,
            StoreErrorView::SidecarTooLarge { bytes, limit } => "annotation sidecar is "@ + number(
                bytes as int,
            ) + " bytes; the limit is "@ + number(limit as int),
            StoreErrorView::UnsupportedSchemaVersion { found, supported } => "annotation schema "@
                + number(found as int) + " is unsupported; this build supports "@ + number(
                supported as int,
            ),
            StoreErrorView::InvalidDocumentIdentity => "document identity is invalid"@,
            StoreErrorView::InvalidStoredTextPosition => "stored text position is invalid"@,
            StoreErrorView::PageCountMismatch { identity, annotations } =>
                "document identity has "@ + number(identity as int)
                + " pages but annotations expect "@ + number(annotations as int),
            StoreErrorView::RevisionRegression { current, attempted } =>
                "annotation revision cannot move backwards from "@ + number(current as int)
                + " to "@ + number(attempted as int),
            StoreErrorView::RevisionNotAdvanced { current, attempted } =>
                "annotation content changed without advancing revision "@ + number(current as int)
                + " (attempted "@ + number(attempted as int) + ")"@,
            StoreErrorView::LockPoisoned => "annotation store lock was poisoned"@,
        }
    }
}

impl StoreError {
    /// The error in words.
    pub fn message(&self) -> (text: String)
        ensures
            text@ == self@.message_text(),
    {
        match self {
            StoreError::Io { operation, path, source } => {
                let front = join4("could not ", operation.as_str(), " at ", path.as_str());
                join3(front.as_str(), ": ", source.as_str())
            },
            StoreError::Json { path, source } => join4(
                "annotation sidecar JSON at ",
                path.as_str(),
                " is invalid: ",
                source.as_str(),
            ),
            StoreError::Annotation(error) => error.message(),
            StoreError::Conflict(StoreConflict::DocumentIdentityMismatch { expected, found }) =>
                join5(
                "annotation sidecar belongs to a different PDF revision (expected ",
                write_identity(expected).as_str(),
                "; found ",
                write_identity(found).as_str(),
                ")",
            ),
            StoreError::Conflict(StoreConflict::RevisionMismatch { expected, found }) => join5(
                "annotation sidecar changed on disk (expected revision ",
                decimal(*expected).as_str(),
                ", found revision ",
                decimal(*found).as_str(),
                "); reload the PDF before saving",
            ),
            StoreError::MissingSourceFileName => "the PDF path has no file name".to_owned(),
            StoreError::SidecarTooLarge { bytes, limit } => join4(
                "annotation sidecar is ",
                decimal(*bytes).as_str(),
                " bytes; the limit is ",
                decimal(*limit as u64).as_str(),
            ),
            StoreError::UnsupportedSchemaVersion { found, supported } => join4(
                "annotation schema ",
                decimal(*found as u64).as_str(),
                " is unsupported; this build supports ",
                decimal(*supported as u64).as_str(),
            ),
            StoreError::InvalidDocumentIdentity => "document identity is invalid".to_owned(),
            StoreError::InvalidStoredTextPosition => "stored text position is invalid".to_owned(),
            StoreError::PageCountMismatch { identity, annotations } => join4(
                "document identity has ",
                decimal(*identity as u64).as_str(),
                " pages but annotations expect ",
                decimal(*annotations as u64).as_str(),
            ),
            StoreError::RevisionRegression { current, attempted } => join4(
                "annotation revision cannot move backwards from ",
                decimal(*current).as_str(),
                " to ",
                decimal(*attempted).as_str(),
            ),
            StoreError::RevisionNotAdvanced { current, attempted } => join5(
                "annotation content changed without advancing revision ",
                decimal(*current).as_str(),
                " (attempted ",
                decimal(*attempted).as_str(),
                ")",
            ),
            StoreError::LockPoisoned => "annotation store lock was poisoned".to_owned(),
        }
    }
}

} // verus!
