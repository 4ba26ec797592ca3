//! Identities and grants that are not particular to PDF documents.

use vstd::prelude::*;

verus! {

/// One opening of a document, as the host counts them.
#[derive(Clone, Copy, Debug, PartialEq, Eq, PartialOrd, Ord, Hash, Structural)]
pub struct GenerationId(pub u64);

/// A resource of any kind, as extensions pass it around.
#[derive(Clone, Debug, PartialEq, Eq)]
pub struct ResourceHandle {
    pub kind: String,
    pub generation: GenerationId,
    pub id: u64,
}

/// An identity that an extension chose within its own space.
#[derive(Clone, Debug, PartialEq, Eq)]
pub struct LocalId(pub String);

impl LocalId {
    /// The identity as text.
    pub fn as_str(&self) -> (text: &str)
        ensures
            text@ == self.0@,
    {
        self.0.as_str()
    }
}

/// A command that an extension declared.
#[derive(Clone, Debug, PartialEq, Eq)]
pub struct CommandId(pub String);

/// A capability of any host.
#[derive(Clone, Debug, PartialEq, Eq)]
pub struct CapabilityId(pub String);

impl CapabilityId {
    /// The identity as text.
    pub fn as_str(&self) -> (text: &str)
        ensures
            text@ == self.0@,
    {
        self.0.as_str()
    }
}

/// Which documents a grant is for.
#[derive(Clone, Copy, Debug, PartialEq, Eq, Structural)]
pub enum DocumentAccess {
    ActiveDocument,
}

/// What a user has to agree to.
#[derive(Clone, Copy, Debug, PartialEq, Eq, Structural)]
pub enum Permission {
    ReadDocumentMetadata,
    ReadDocumentText(DocumentAccess),
    ReadSelection,
    NavigateDocument,
    AddDocumentOverlays,
}

} // verus!
