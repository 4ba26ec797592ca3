//! Marks that a host paints over a document on behalf of an extension.

use crate::extension::error::{
    InputErrorKind, PdfErrorView, PdfExtensionError, PdfExtensionResult,
};
use crate::extension::handle::{DocumentHandle, OverlaySetHandle};
use crate::extension::ids::{CommandId, LocalId};
use crate::extension::snapshot::{NormalizedRect, PageIndex, SnapshotRevision};
use vstd::prelude::*;

verus! {

/// What is painted at each region.
#[derive(Clone, Copy, Debug, Default, PartialEq, Eq, Structural)]
pub enum OverlayShape {
    #[default]
    Highlight,
    Outline,
    Underline,
    Marker,
}

/// A color of the host's theme.
#[derive(Clone, Copy, Debug, Default, PartialEq, Eq, Structural)]
pub enum OverlayTone {
    #[default]
    Accent,
    SearchMatch,
    Positive,
    Caution,
    Critical,
    Neutral,
}

/// How strongly the mark stands out.
#[derive(Clone, Copy, Debug, Default, PartialEq, Eq, Structural)]
pub enum OverlayEmphasis {
    Subtle,
    #[default]
    Regular,
    Strong,
}

/// A motion that is played once.
#[derive(Clone, Copy, Debug, Default, PartialEq, Eq, Structural)]
pub enum OverlayMotion {
    /// No motion.
    #[default]
    Still,
    PulseOnce,
    SweepOnce,
}

/// How a mark looks.
#[derive(Clone, Copy, Debug, Default, PartialEq, Eq, Structural)]
pub struct OverlayAppearance {
    pub shape: OverlayShape,
    pub tone: OverlayTone,
    pub emphasis: OverlayEmphasis,
    pub motion: OverlayMotion,
}

/// A mark on a page.
#[derive(Clone, Debug, PartialEq, Eq)]
pub struct DocumentOverlay {
    pub id: LocalId,
    pub page: PageIndex,
    pub regions: Vec<NormalizedRect>,
    pub appearance: OverlayAppearance,
    pub label: Option<String>,
    /// The command that a click runs.
    pub command: Option<CommandId>,
}

/// All the marks of an extension on a document: what was there before goes.
#[derive(Clone, Debug, PartialEq, Eq)]
pub struct OverlayBatch {
    pub document: DocumentHandle,
    /// The extension counts its batches.
    pub revision: SnapshotRevision,
    pub overlays: Vec<DocumentOverlay>,
}

/// What is wrong with a revision that comes after another.
pub open spec fn revision_error(
    revision: SnapshotRevision,
    previous: Option<SnapshotRevision>,
) -> Option<PdfErrorView> {
    match previous {
        Some(previous) if revision.0 <= previous.0 => Some(
            PdfErrorView::InvalidInput {
                field: "overlays.revision"@,
                reason: InputErrorKind::StaleRevision,
            },
        ),
        _ => None,
    }
}

impl OverlayBatch {
    /// Checks that the batch is newer than the one that was taken last.
    pub fn validate_revision_after(&self, previous: Option<SnapshotRevision>) -> (checked:
        PdfExtensionResult<()>)
        ensures
            crate::extension::error::checks_to(checked, revision_error(self.revision, previous)),
    {
        if let Some(previous) = previous {
            if self.revision.0 <= previous.0 {
                return Err(
                    PdfExtensionError::InvalidInput {
                        field: "overlays.revision".to_owned(),
                        reason: InputErrorKind::StaleRevision,
                    },
                );
            }
        }
        Ok(())
    }
}

/// Says that a host took a batch.
#[derive(Clone, Copy, Debug, PartialEq, Eq, Structural)]
pub struct OverlayReceipt {
    pub handle: OverlaySetHandle,
    pub revision: SnapshotRevision,
    pub overlay_count: u32,
}

/// Of two batches that are taken one after the other the later has the greater
/// revision, and neither is taken again after the other.
pub proof fn law_taken_revisions_ascend(first: OverlayBatch, second: OverlayBatch)
    requires
        revision_error(second.revision, Some(first.revision)) is None,
    ensures
        first.revision.0 < second.revision.0,
        revision_error(first.revision, Some(second.revision)) is Some,
        revision_error(second.revision, Some(second.revision)) is Some,
{
}

/// A batch is taken if and only if it is the first or counts higher than the one before.
pub proof fn law_batches_count_up(
    revision: SnapshotRevision,
    previous: Option<SnapshotRevision>,
)
    ensures
        revision_error(revision, previous) is None <==> (previous matches Some(last) ==> last.0
            < revision.0),
{
}

} // verus!
