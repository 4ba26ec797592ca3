//! The rules of annotation files that stand beside their documents.
//!
//! The bytes of such a file are read and written elsewhere; here is what they
//! mean, and when a file may be read or replaced.

use crate::document::TextPosition;
use crate::store::annotations::{
    Annotation, AnnotationError, AnnotationId, AnnotationSet, AnnotationSetView, AnnotationView,
    HighlightColor, TextRange,
};
use crate::store::error::{SaveReceipt, StoreConflict, StoreError, StoreErrorView};
use crate::store::identity::{DocumentIdentity, IdentityView, NANOS_PER_SECOND};
use crate::store::source_path::{last_name_start, part, DOT, SEPARATOR};
use vstd::prelude::*;

verus! {

/// The version of the format.
pub const SIDECAR_SCHEMA_VERSION: u32 = 1;

/// How many bytes a file may have.
pub const MAX_SIDECAR_BYTES: usize = 4_194_304;

/// What is appended to the name of a document.
pub const SIDECAR_SUFFIX: &'static str = ".gpui-pdf-reader.json";

/// A path without separators at its end, and without names there that stand
/// for the directory itself.
pub open spec fn without_tail(path: Seq<u8>) -> Seq<u8>
    decreases path.len(),
{
    if path.len() > 0 && path.last() == SEPARATOR {
        without_tail(path.drop_last())
    } else if path.len() > 1 && path.last() == DOT && path[path.len() - 2] == SEPARATOR {
        without_tail(path.drop_last())
    } else {
        path
    }
}

/// A name that is not one of a file: none, the directory itself, or the one
/// above.
pub open spec fn no_file_name(name: Seq<u8>) -> bool {
    name.len() == 0 || name == seq![DOT] || name == seq![DOT, DOT]
}

/// What stands in front of the last name of a path: its directory and a separator,
/// or nothing.
pub open spec fn front_of(path: Seq<u8>) -> Seq<u8> {
    let directory = without_tail(path.take(crate::store::source_path::name_start(path)));
    if directory.len() > 0 {
        directory.push(SEPARATOR)
    } else if path.len() > 0 && path[0] == SEPARATOR {
        seq![SEPARATOR]
    } else {
        Seq::empty()
    }
}

/// The path of the annotations of a document: in the same directory, under the
/// document's name and the suffix.
pub open spec fn sidecar_path_of(path: Seq<u8>) -> Option<Seq<u8>> {
    let path = without_tail(path);
    let name = path.skip(crate::store::source_path::name_start(path));
    if no_file_name(name) {
        None
    } else {
        Some(front_of(path) + name + vstd::utf8::encode_utf8(SIDECAR_SUFFIX@))
    }
}

/// Where the first bytes of a path end without their tail.
fn tail_start(path: &[u8], limit: usize) -> (end: usize)
    requires
        limit <= path@.len(),
    ensures
        end <= limit,
        path@.take(end as int) == without_tail(path@.take(limit as int)),
{
    let ghost whole = path@.take(limit as int);
    let mut end: usize = limit;
    while (end > 0 && path[end - 1] == SEPARATOR) || (end > 1 && path[end - 1] == DOT && path[end
        - 2] == SEPARATOR)
        invariant
            end <= limit <= path@.len(),
            without_tail(whole) == without_tail(path@.take(end as int)),
        decreases end,
    {
        assert(path@.take(end as int).drop_last() =~= path@.take(end - 1));
        end -= 1;
    }
    end
}

/// The path of the annotations of a document.
pub fn sidecar_path(pdf_path: &[u8]) -> (sidecar: Result<Vec<u8>, StoreError>)
    ensures
        match sidecar {
            Ok(sidecar) => sidecar_path_of(pdf_path@) == Some(sidecar@),
            Err(error) => sidecar_path_of(pdf_path@) is None && error@
                == StoreErrorView::MissingSourceFileName,
        },
{
    assert(pdf_path@.take(pdf_path@.len() as int) =~= pdf_path@);
    let end: usize = tail_start(pdf_path, pdf_path.len());
    let ghost path = pdf_path@.take(end as int);
    let start: usize = last_name_start(pdf_path, end);
    let name = part(pdf_path, start, end);
    assert(name@ =~= path.skip(start as int));
    if name.len() == 0 || (name.len() == 1 && name[0] == DOT) || (name.len() == 2 && name[0] == DOT
        && name[1] == DOT) {
        proof {
            if name@.len() == 1 {
                assert(name@ =~= seq![DOT]);
            }
            if name@.len() == 2 {
                assert(name@ =~= seq![DOT, DOT]);
            }
        }
        return Err(StoreError::MissingSourceFileName);
    }
    proof {
        if name@ == seq![DOT] {
            assert(name@[0] == DOT && name@.len() == 1);
        }
        if name@ == seq![DOT, DOT] {
            assert(name@[0] == DOT && name@[1] == DOT && name@.len() == 2);
        }
    }
    assert(path.take(start as int) =~= pdf_path@.take(start as int));
    let directory_end: usize = tail_start(pdf_path, start);
    let mut sidecar = part(pdf_path, 0, directory_end);
    assert(sidecar@ =~= pdf_path@.take(directory_end as int));
    if directory_end > 0 || pdf_path[0] == SEPARATOR {
        sidecar.push(SEPARATOR);
    }
    assert(sidecar@ =~= front_of(path));
    let suffix = SIDECAR_SUFFIX.as_bytes();
    sidecar.extend_from_slice(name.as_slice());
    sidecar.extend_from_slice(suffix);
    assert(sidecar@ =~= front_of(path) + name@ + suffix@);
    Ok(sidecar)
}

/// What is wrong with the size of a file.
pub open spec fn size_error(bytes: u64) -> Option<StoreErrorView> {
    if bytes > MAX_SIDECAR_BYTES {
        Some(StoreErrorView::SidecarTooLarge { bytes, limit: MAX_SIDECAR_BYTES })
    } else {
        None
    }
}

/// Checks the size of a file that is to be read or written.
pub fn check_size(bytes: u64) -> (checked: Result<(), StoreError>)
    ensures
        crate::store::error::settles_to(checked, size_error(bytes)),
{
    if bytes > MAX_SIDECAR_BYTES as u64 {
        Err(StoreError::SidecarTooLarge { bytes, limit: MAX_SIDECAR_BYTES })
    } else {
        Ok(())
    }
}

/// Checks the version that a file says it has.
pub fn check_schema_version(found: u32) -> (checked: Result<(), StoreError>)
    ensures
        crate::store::error::settles_to(
            checked,
            if found == SIDECAR_SCHEMA_VERSION {
                None
            } else {
                Some(
                    StoreErrorView::UnsupportedSchemaVersion {
                        found,
                        supported: SIDECAR_SCHEMA_VERSION,
                    },
                )
            },
        ),
{
    if found != SIDECAR_SCHEMA_VERSION {
        return Err(
            StoreError::UnsupportedSchemaVersion { found, supported: SIDECAR_SCHEMA_VERSION },
        );
    }
    Ok(())
}

/// What is wrong with annotations of a document in themselves.
pub open spec fn snapshot_error(
    identity: IdentityView,
    annotations: AnnotationSetView,
) -> Option<StoreErrorView> {
    if identity.page_count != annotations.page_count {
        Some(
            StoreErrorView::PageCountMismatch {
                identity: identity.page_count,
                annotations: annotations.page_count,
            },
        )
    } else if annotations.error() is Some {
        Some(StoreErrorView::Annotation(annotations.error()->Some_0))
    } else {
        None
    }
}

/// Checks annotations that are to be written.
pub fn validate_snapshot(identity: &DocumentIdentity, annotations: &AnnotationSet) -> (checked:
    Result<(), StoreError>)
    ensures
        crate::store::error::settles_to(checked, snapshot_error(identity@, annotations@)),
{
    if identity.page_count() != annotations.page_count() {
        return Err(
            StoreError::PageCountMismatch {
                identity: identity.page_count(),
                annotations: annotations.page_count(),
            },
        );
    }
    match annotations.validate() {
        Ok(()) => Ok(()),
        Err(error) => Err(StoreError::Annotation(error)),
    }
}

/// Checks that a document is still the one that was opened: all that is known of the
/// two has to be equal, the digests too. A file keeps no digest of its document, so an
/// identity that comes from one is not held against this; [`restore_sidecar`] compares
/// the revision that it names.
pub fn ensure_identity(expected: &DocumentIdentity, found: DocumentIdentity) -> (checked: Result<
    (),
    StoreError,
>)
    ensures
        crate::store::error::settles_to(
            checked,
            if found@ == expected@ {
                None
            } else {
                Some(
                    StoreErrorView::DocumentIdentityMismatch {
                        expected: expected@,
                        found: found@,
                    },
                )
            },
        ),
{
    if found.same(expected) {
        Ok(())
    } else {
        Err(
            StoreError::Conflict(
                StoreConflict::DocumentIdentityMismatch { expected: expected.copy(), found },
            ),
        )
    }
}

/// What is wrong with replacing one set of annotations by another.
pub open spec fn replacement_error(
    current: AnnotationSetView,
    expected_revision: u64,
    annotations: AnnotationSetView,
) -> Option<StoreErrorView> {
    if current.revision != expected_revision {
        Some(
            StoreErrorView::RevisionMismatch {
                expected: expected_revision,
                found: current.revision,
            },
        )
    } else if annotations.revision < current.revision {
        Some(
            StoreErrorView::RevisionRegression {
                current: current.revision,
                attempted: annotations.revision,
            },
        )
    } else if annotations.revision == current.revision && annotations != current {
        Some(
            StoreErrorView::RevisionNotAdvanced {
                current: current.revision,
                attempted: annotations.revision,
            },
        )
    } else {
        None
    }
}

/// Decides whether annotations may replace those of a file, and says what the
/// save will have done.
pub fn judge_replacement(
    current: &AnnotationSet,
    expected_revision: u64,
    annotations: &AnnotationSet,
) -> (receipt: Result<SaveReceipt, StoreError>)
    ensures
        crate::store::error::settles_to(
            receipt,
            replacement_error(current@, expected_revision, annotations@),
        ),
        receipt matches Ok(receipt) ==> receipt == (SaveReceipt {
            previous_revision: current@.revision,
            saved_revision: annotations@.revision,
        }),
{
    if current.revision() != expected_revision {
        return Err(
            StoreError::Conflict(
                StoreConflict::RevisionMismatch {
                    expected: expected_revision,
                    found: current.revision(),
                },
            ),
        );
    }
    if annotations.revision() < current.revision() {
        return Err(
            StoreError::RevisionRegression {
                current: current.revision(),
                attempted: annotations.revision(),
            },
        );
    }
    if annotations.revision() == current.revision() && !annotations.same(current) {
        return Err(
            StoreError::RevisionNotAdvanced {
                current: current.revision(),
                attempted: annotations.revision(),
            },
        );
    }
    Ok(
        SaveReceipt {
            previous_revision: current.revision(),
            saved_revision: annotations.revision(),
        },
    )
}

/// The identity of a document in a file.
#[derive(Clone, Copy, Debug, PartialEq, Eq, Structural)]
pub struct StoredDocumentIdentity {
    pub byte_len: u64,
    pub modified_unix_seconds: i64,
    pub modified_nanos: u32,
    pub page_count: u64,
}

/// A position in a file.
#[derive(Clone, Copy, Debug, PartialEq, Eq, Structural)]
pub struct StoredPosition {
    pub page: u64,
    pub index: u64,
}

/// An annotation in a file.
#[derive(Clone, Debug, PartialEq, Eq)]
pub struct StoredAnnotation {
    pub id: u64,
    pub start: StoredPosition,
    pub end: StoredPosition,
    pub highlight: Option<HighlightColor>,
    pub comment_markdown: Option<String>,
    pub created_revision: u64,
    pub updated_revision: u64,
}

/// A [`StoredAnnotation`] with its comment as a sequence of characters.
pub struct StoredAnnotationView {
    pub id: u64,
    pub start: StoredPosition,
    pub end: StoredPosition,
    pub highlight: Option<HighlightColor>,
    pub comment_markdown: Option<Seq<char>>,
    pub created_revision: u64,
    pub updated_revision: u64,
}

impl View for StoredAnnotation {
    type V = StoredAnnotationView;

    open spec fn view(&self) -> StoredAnnotationView {
        StoredAnnotationView {
            id: self.id,
            start: self.start,
            end: self.end,
            highlight: self.highlight,
            comment_markdown: crate::store::annotations::optional_text(self.comment_markdown),
            created_revision: self.created_revision,
            updated_revision: self.updated_revision,
        }
    }
}

/// What a file holds.
#[derive(Clone, Debug, PartialEq, Eq)]
pub struct StoredSidecar {
    pub schema_version: u32,
    pub document: StoredDocumentIdentity,
    pub revision: u64,
    pub annotations: Vec<StoredAnnotation>,
}

/// A [`StoredSidecar`] as it is seen.
pub struct StoredSidecarView {
    pub schema_version: u32,
    pub document: StoredDocumentIdentity,
    pub revision: u64,
    pub annotations: Seq<StoredAnnotationView>,
}

impl View for StoredSidecar {
    type V = StoredSidecarView;

    open spec fn view(&self) -> StoredSidecarView {
        StoredSidecarView {
            schema_version: self.schema_version,
            document: self.document,
            revision: self.revision,
            annotations: self.annotations@.map(|i: int, stored: StoredAnnotation| stored@),
        }
    }
}

/// A position as it stands in a file.
pub open spec fn stored_position(position: TextPosition) -> StoredPosition {
    StoredPosition { page: position.page as u64, index: position.index as u64 }
}

/// An annotation as it stands in a file.
pub open spec fn stored_annotation(annotation: AnnotationView) -> StoredAnnotationView {
    StoredAnnotationView {
        id: annotation.id.0,
        start: stored_position(annotation.range.spec_start()),
        end: stored_position(annotation.range.spec_end()),
        highlight: annotation.highlight,
        comment_markdown: annotation.comment_markdown,
        created_revision: annotation.created_revision,
        updated_revision: annotation.updated_revision,
    }
}

/// Annotations as they stand in a file.
pub open spec fn stored_sidecar(
    identity: IdentityView,
    annotations: AnnotationSetView,
) -> StoredSidecarView {
    StoredSidecarView {
        schema_version: SIDECAR_SCHEMA_VERSION,
        document: StoredDocumentIdentity {
            byte_len: identity.byte_len,
            modified_unix_seconds: identity.modified_unix_seconds,
            modified_nanos: identity.modified_nanos,
            page_count: identity.page_count as u64,
        },
        revision: annotations.revision,
        annotations: annotations.annotations.map(
            |i: int, annotation: AnnotationView| stored_annotation(annotation),
        ),
    }
}

fn store_annotation(annotation: &Annotation) -> (stored: StoredAnnotation)
    ensures
        stored@ == stored_annotation(annotation@),
{
    let start = annotation.range.start();
    let end = annotation.range.end();
    StoredAnnotation {
        id: annotation.id.0,
        start: StoredPosition { page: start.page as u64, index: start.index as u64 },
        end: StoredPosition { page: end.page as u64, index: end.index as u64 },
        highlight: annotation.highlight,
        comment_markdown: crate::store::annotations::copy_optional_text(
            &annotation.comment_markdown,
        ),
        created_revision: annotation.created_revision,
        updated_revision: annotation.updated_revision,
    }
}

impl StoredSidecar {
    /// What a file is to hold. The digest of the document is not written.
    pub fn from_parts(identity: &DocumentIdentity, annotations: &AnnotationSet) -> (stored:
        StoredSidecar)
        ensures
            stored@ == stored_sidecar(identity@, annotations@),
    {
        let all = annotations.annotations();
        let ghost seen = annotations@.annotations;
        let mut stored: Vec<StoredAnnotation> = Vec::new();
        let mut i: usize = 0;
        while i < all.len()
            invariant
                i <= all@.len(),
                seen == crate::store::annotations::views(all@),
                stored@.len() == i,
                forall|j: int| 0 <= j < i ==> (#[trigger] stored@[j])@ == stored_annotation(seen[j]),
            decreases all@.len() - i,
        {
            stored.push(store_annotation(&all[i]));
            i += 1;
        }
        let sidecar = StoredSidecar {
            schema_version: SIDECAR_SCHEMA_VERSION,
            document: StoredDocumentIdentity {
                byte_len: identity.byte_len(),
                modified_unix_seconds: identity.modified_unix_seconds(),
                modified_nanos: identity.modified_nanos(),
                page_count: identity.page_count() as u64,
            },
            revision: annotations.revision(),
            annotations: stored,
        };
        assert(sidecar@.annotations =~= stored_sidecar(identity@, annotations@).annotations);
        sidecar
    }
}

/// The identity that a file names.
pub open spec fn named_identity(stored: StoredDocumentIdentity) -> IdentityView {
    IdentityView {
        byte_len: stored.byte_len,
        modified_unix_seconds: stored.modified_unix_seconds,
        modified_nanos: stored.modified_nanos,
        page_count: stored.page_count as usize,
        content_sha256: None,
    }
}

/// A position of a file that this machine can count.
pub open spec fn countable(stored: StoredPosition) -> bool {
    stored.page <= usize::MAX && stored.index <= usize::MAX
}

/// A position of a file.
pub open spec fn restored_position(stored: StoredPosition) -> TextPosition {
    TextPosition { page: stored.page as usize, index: stored.index as usize }
}

/// What is wrong with an annotation of a file in itself.
pub open spec fn stored_annotation_error(stored: StoredAnnotationView) -> Option<StoreErrorView> {
    if !countable(stored.start) || !countable(stored.end) {
        Some(StoreErrorView::InvalidStoredTextPosition)
    } else if !crate::store::annotations::not_after(
        restored_position(stored.start),
        restored_position(stored.end),
    ) {
        Some(StoreErrorView::Annotation(AnnotationError::ReversedTextRange))
    } else {
        None
    }
}

/// The first fault among annotations of a file from one on.
pub open spec fn stored_annotations_error(stored: Seq<StoredAnnotationView>, from: int) -> Option<
    StoreErrorView,
>
    decreases stored.len() - from,
{
    if from < 0 || from >= stored.len() {
        None
    } else if stored_annotation_error(stored[from]) is Some {
        stored_annotation_error(stored[from])
    } else {
        stored_annotations_error(stored, from + 1)
    }
}

/// An annotation of a file is this one.
pub open spec fn restores_to(stored: StoredAnnotationView, annotation: AnnotationView) -> bool {
    &&& annotation.id.0 == stored.id
    &&& annotation.range.spec_start() == restored_position(stored.start)
    &&& annotation.range.spec_end() == restored_position(stored.end)
    &&& annotation.highlight == stored.highlight
    &&& annotation.comment_markdown == stored.comment_markdown
    &&& annotation.created_revision == stored.created_revision
    &&& annotation.updated_revision == stored.updated_revision
}

/// The annotations of a file are these.
pub open spec fn all_restore_to(
    stored: Seq<StoredAnnotationView>,
    annotations: Seq<AnnotationView>,
) -> bool {
    &&& stored.len() == annotations.len()
    &&& forall|i: int| 0 <= i < stored.len() ==> restores_to(#[trigger] stored[i], annotations[i])
}

fn restore_annotation(stored: &StoredAnnotation) -> (restored: Result<Annotation, StoreError>)
    ensures
        crate::store::error::settles_to(restored, stored_annotation_error(stored@)),
        restored matches Ok(annotation) ==> restores_to(stored@, annotation@),
{
    if stored.start.page > usize::MAX as u64 || stored.start.index > usize::MAX as u64
        || stored.end.page > usize::MAX as u64 || stored.end.index > usize::MAX as u64 {
        return Err(StoreError::InvalidStoredTextPosition);
    }
    let start = TextPosition { page: stored.start.page as usize, index: stored.start.index as usize
    };
    let end = TextPosition { page: stored.end.page as usize, index: stored.end.index as usize };
    match TextRange::restore(start, end) {
        Err(error) => Err(StoreError::Annotation(error)),
        Ok(range) => Ok(
            Annotation {
                id: AnnotationId(stored.id),
                range,
                highlight: stored.highlight,
                comment_markdown: crate::store::annotations::copy_optional_text(
                    &stored.comment_markdown,
                ),
                created_revision: stored.created_revision,
                updated_revision: stored.updated_revision,
            },
        ),
    }
}

/// The fault of a file before its annotations are looked at: whether its
/// identity is one, and whether it is of the document.
pub open spec fn stored_identity_error(
    stored: StoredDocumentIdentity,
    expected: IdentityView,
) -> Option<StoreErrorView> {
    if stored.page_count > usize::MAX || stored.modified_nanos >= NANOS_PER_SECOND {
        Some(StoreErrorView::InvalidDocumentIdentity)
    } else if !expected.same_revision(named_identity(stored)) {
        Some(
            StoreErrorView::DocumentIdentityMismatch { expected, found: named_identity(stored) },
        )
    } else {
        None
    }
}

/// The annotations that a file holds, if it is of the document and they are
/// sound. A file names no digest, so it is held to the size, time and pages of
/// the document.
pub fn restore_sidecar(stored: &StoredSidecar, expected_identity: &DocumentIdentity) -> (restored:
    Result<AnnotationSet, StoreError>)
    ensures
        stored_identity_error(stored.document, expected_identity@) is Some
            ==> crate::store::error::settles_to(
            restored,
            stored_identity_error(stored.document, expected_identity@),
        ),
        stored_identity_error(stored.document, expected_identity@) is None
            && stored_annotations_error(stored@.annotations, 0) is Some
            ==> crate::store::error::settles_to(
            restored,
            stored_annotations_error(stored@.annotations, 0),
        ),
        stored_identity_error(stored.document, expected_identity@) is None
            && stored_annotations_error(stored@.annotations, 0) is None ==> exists|
            annotations: Seq<AnnotationView>,
        |
            {
                &&& #[trigger] all_restore_to(stored@.annotations, annotations)
                &&& match crate::store::annotations::annotations_error(
                    annotations,
                    0,
                    stored.revision,
                ) {
                    Some(error) => restored matches Err(actual) && actual@
                        == StoreErrorView::Annotation(error),
                    None => restored matches Ok(set) && set@ == (AnnotationSetView {
                        page_count: expected_identity@.page_count,
                        revision: stored.revision,
                        annotations,
                    }),
                }
            },
{
    let document = stored.document;
    if document.page_count > usize::MAX as u64 {
        return Err(StoreError::InvalidDocumentIdentity);
    }
    let identity = match DocumentIdentity::new(
        document.byte_len,
        document.modified_unix_seconds,
        document.modified_nanos,
        document.page_count as usize,
    ) {
        Ok(identity) => identity,
        Err(error) => {
            return Err(error);
        },
    };
    if !expected_identity.same_revision(&identity) {
        return Err(
            StoreError::Conflict(
                StoreConflict::DocumentIdentityMismatch {
                    expected: expected_identity.copy(),
                    found: identity,
                },
            ),
        );
    }
    let ghost seen = stored@.annotations;
    let mut annotations: Vec<Annotation> = Vec::new();
    let mut next: usize = 0;
    while next < stored.annotations.len()
        invariant
            stored_identity_error(stored.document, expected_identity@) is None,
            seen == stored@.annotations,
            next == annotations@.len(),
            next <= seen.len(),
            seen.len() == stored.annotations@.len(),
            forall|j: int|
                0 <= j < annotations@.len() ==> restores_to(
                    seen[j],
                    (#[trigger] annotations@[j])@,
                ),
            stored_annotations_error(seen, 0) == stored_annotations_error(seen, next as int),
        decreases seen.len() - next,
    {
        assert(seen[next as int] == stored.annotations@[next as int]@);
        match restore_annotation(&stored.annotations[next]) {
            Err(error) => {
                return Err(error);
            },
            Ok(annotation) => {
                annotations.push(annotation);
            },
        }
        next += 1;
    }
    let ghost restored_views = crate::store::annotations::views(annotations@);
    proof {
        assert forall|i: int| 0 <= i < seen.len() implies restores_to(
            #[trigger] seen[i],
            restored_views[i],
        ) by {
            assert(restores_to(seen[i], annotations@[i]@));
        }
        assert(all_restore_to(seen, restored_views));
    }
    match AnnotationSet::restore(identity.page_count(), stored.revision, annotations) {
        Ok(set) => Ok(set),
        Err(error) => Err(StoreError::Annotation(error)),
    }
}

/// Every range starts before it ends.
pub open spec fn ranges_in_order(annotations: Seq<AnnotationView>) -> bool {
    forall|i: int|
        0 <= i < annotations.len() ==> crate::store::annotations::not_after(
            (#[trigger] annotations[i]).range.spec_start(),
            annotations[i].range.spec_end(),
        )
}

proof fn lemma_sound_ranges_have_no_fault(annotations: Seq<AnnotationView>, from: int)
    requires
        ranges_in_order(annotations),
        0 <= from,
    ensures
        stored_annotations_error(
            annotations.map(|i: int, annotation: AnnotationView| stored_annotation(annotation)),
            from,
        ) is None,
    decreases annotations.len() - from,
{
    if from < annotations.len() {
        lemma_sound_ranges_have_no_fault(annotations, from + 1);
        assert(crate::store::annotations::not_after(
            annotations[from].range.spec_start(),
            annotations[from].range.spec_end(),
        ));
    }
}

/// What was written for a document is what is read for it: a file that holds
/// sound annotations has no fault, and the annotations that it restores to are
/// those that were written.
pub proof fn law_files_give_back_what_was_written(
    identity: IdentityView,
    annotations: AnnotationSetView,
    restored: Seq<AnnotationView>,
)
    requires
        identity.modified_nanos < NANOS_PER_SECOND,
        ranges_in_order(annotations.annotations),
        snapshot_error(identity, annotations) is None,
        all_restore_to(stored_sidecar(identity, annotations).annotations, restored),
    ensures
        stored_sidecar(identity, annotations).schema_version == SIDECAR_SCHEMA_VERSION,
        stored_identity_error(stored_sidecar(identity, annotations).document, identity) is None,
        stored_annotations_error(stored_sidecar(identity, annotations).annotations, 0) is None,
        restored == annotations.annotations,
        crate::store::annotations::annotations_error(restored, 0, annotations.revision) is None,
{
    let stored = stored_sidecar(identity, annotations);
    lemma_sound_ranges_have_no_fault(annotations.annotations, 0);
    assert forall|i: int| 0 <= i < restored.len() implies restored[i]
        == annotations.annotations[i] by {
        assert(restores_to(stored.annotations[i], restored[i]));
        crate::store::annotations::lemma_range_is_its_ends(
            restored[i].range,
            annotations.annotations[i].range,
        );
    }
    assert(restored =~= annotations.annotations);
}

/// Annotations that may replace others never stand at an earlier revision, and
/// at the same revision they say the same.
pub proof fn law_replacements_never_go_back(
    current: AnnotationSetView,
    expected_revision: u64,
    annotations: AnnotationSetView,
)
    requires
        replacement_error(current, expected_revision, annotations) is None,
    ensures
        current.revision == expected_revision,
        current.revision <= annotations.revision,
        current.revision == annotations.revision ==> annotations == current,
{
}

/// A file is taken for a document only if the size, the time of the last change to the
/// nanosecond and the number of pages that it names are those of the document, and it is
/// refused for its document only if one of them differs or is none at all.
pub proof fn law_files_are_of_one_revision(stored: StoredDocumentIdentity, expected: IdentityView)
    requires
        expected.modified_nanos < 1_000_000_000,
    ensures
        stored_identity_error(stored, expected) is None <==> {
            &&& stored.byte_len == expected.byte_len
            &&& stored.modified_unix_seconds == expected.modified_unix_seconds
            &&& stored.modified_nanos == expected.modified_nanos
            &&& stored.page_count == expected.page_count
        },
{
}

/// Annotations that were restored are those of a file of the document, all of them and
/// in their order, at the revision of the file.
pub proof fn law_restored_annotations_are_of_the_document(
    stored: StoredSidecar,
    expected: DocumentIdentity,
    restored: AnnotationSet,
)
    requires
        call_ensures(restore_sidecar, (&stored, &expected), Ok(restored)),
    ensures
        stored.document.byte_len == expected@.byte_len,
        stored.document.modified_unix_seconds == expected@.modified_unix_seconds,
        stored.document.modified_nanos == expected@.modified_nanos,
        stored.document.page_count == expected@.page_count,
        restored@.page_count == expected@.page_count,
        restored@.revision == stored.revision,
        restored@.annotations.len() == stored.annotations@.len(),
        forall|i: int|
            0 <= i < stored.annotations@.len() ==> {
                let kept = #[trigger] restored@.annotations[i];
                let file = stored.annotations@[i];
                &&& kept.id.0 == file.id
                &&& kept.range.spec_start().page == file.start.page
                &&& kept.range.spec_start().index == file.start.index
                &&& kept.range.spec_end().page == file.end.page
                &&& kept.range.spec_end().index == file.end.index
                &&& kept.highlight == file.highlight
                &&& kept.comment_markdown == file@.comment_markdown
                &&& kept.created_revision == file.created_revision
                &&& kept.updated_revision == file.updated_revision
            },
{
    let annotations = choose|annotations: Seq<AnnotationView>|
        {
            &&& #[trigger] all_restore_to(stored@.annotations, annotations)
            &&& crate::store::annotations::annotations_error(annotations, 0, stored.revision) is None
            &&& restored@ == (AnnotationSetView {
                page_count: expected@.page_count,
                revision: stored.revision,
                annotations,
            })
        };
    assert(stored_annotations_error(stored@.annotations, 0) is None);
    lemma_no_stored_fault(stored@.annotations, 0);
    assert forall|i: int| 0 <= i < stored.annotations@.len() implies {
        let kept = #[trigger] restored@.annotations[i];
        let file = stored.annotations@[i];
        &&& kept.id.0 == file.id
        &&& kept.range.spec_start().page == file.start.page
        &&& kept.range.spec_start().index == file.start.index
        &&& kept.range.spec_end().page == file.end.page
        &&& kept.range.spec_end().index == file.end.index
        &&& kept.highlight == file.highlight
        &&& kept.comment_markdown == file@.comment_markdown
        &&& kept.created_revision == file.created_revision
        &&& kept.updated_revision == file.updated_revision
    } by {
        assert(stored@.annotations[i] == stored.annotations@[i]@);
        assert(restores_to(stored@.annotations[i], annotations[i]));
        assert(stored_annotation_error(stored@.annotations[i]) is None);
    }
}

proof fn lemma_no_stored_fault(stored: Seq<StoredAnnotationView>, from: int)
    requires
        0 <= from,
        stored_annotations_error(stored, from) is None,
    ensures
        forall|i: int|
            from <= i < stored.len() ==> stored_annotation_error(#[trigger] stored[i]) is None,
    decreases stored.len() - from,
{
    if from < stored.len() {
        lemma_no_stored_fault(stored, from + 1);
    }
}

/// Annotations may replace those of a file if and only if the caller has seen the revision
/// of the file and they are at a later one, or say the same at that one.
pub proof fn law_replacements_follow_the_file(
    current: AnnotationSetView,
    expected_revision: u64,
    annotations: AnnotationSetView,
)
    ensures
        replacement_error(current, expected_revision, annotations) is None <==> current.revision
            == expected_revision && (annotations.revision > expected_revision || annotations
            == current),
{
}

/// Annotations can be written for a document if and only if they are sound and of as many
/// pages.
pub proof fn law_sound_annotations_can_be_written(
    identity: IdentityView,
    annotations: AnnotationSetView,
)
    ensures
        snapshot_error(identity, annotations) is None <==> identity.page_count
            == annotations.page_count && annotations.error() is None,
{
}

/// A file is read or written up to four mebibytes, and if it says that it is of version one.
pub proof fn law_files_are_small_and_of_the_known_version(
    bytes: u64,
    sized: Result<(), StoreError>,
    version: u32,
    known: Result<(), StoreError>,
)
    requires
        call_ensures(check_size, (bytes,), sized),
        call_ensures(check_schema_version, (version,), known),
    ensures
        sized is Ok <==> bytes <= 4 * 1_024 * 1_024,
        known is Ok <==> version == 1,
{
}

/// A document is taken for the one that was opened if and only if all that is known of the
/// two is equal.
pub proof fn law_only_the_same_document_passes(
    expected: DocumentIdentity,
    found: DocumentIdentity,
    checked: Result<(), StoreError>,
)
    requires
        call_ensures(ensure_identity, (&expected, found), checked),
    ensures
        checked is Ok <==> {
            &&& expected@.byte_len == found@.byte_len
            &&& expected@.modified_unix_seconds == found@.modified_unix_seconds
            &&& expected@.modified_nanos == found@.modified_nanos
            &&& expected@.page_count == found@.page_count
            &&& expected@.content_sha256 == found@.content_sha256
        },
{
}

/// What is written of a document and its annotations is all that is known of them but the
/// digest.
pub proof fn law_files_hold_what_is_known(identity: IdentityView, annotations: AnnotationSetView, i: int)
    requires
        0 <= i < annotations.annotations.len(),
    ensures
        ({
            let file = stored_sidecar(identity, annotations);
            let (written, meant) = (file.annotations[i], annotations.annotations[i]);
            &&& file.schema_version == 1
            &&& file.document.byte_len == identity.byte_len
            &&& file.document.modified_unix_seconds == identity.modified_unix_seconds
            &&& file.document.modified_nanos == identity.modified_nanos
            &&& file.document.page_count == identity.page_count
            &&& file.revision == annotations.revision
            &&& file.annotations.len() == annotations.annotations.len()
            &&& written.id == meant.id.0
            &&& written.start.page == meant.range.spec_start().page
            &&& written.start.index == meant.range.spec_start().index
            &&& written.end.page == meant.range.spec_end().page
            &&& written.end.index == meant.range.spec_end().index
            &&& written.highlight == meant.highlight
            &&& written.comment_markdown == meant.comment_markdown
            &&& written.created_revision == meant.created_revision
            &&& written.updated_revision == meant.updated_revision
        }),
{
}

/// The annotations of a document are kept beside it, under its whole name and the suffix
/// that is theirs.
pub proof fn law_annotations_stand_beside_their_document(directory: Seq<u8>, name: Seq<u8>)
    requires
        name.len() > 0,
        forall|i: int| 0 <= i < name.len() ==> #[trigger] name[i] != 47,
        name != seq![46u8],
        name != seq![46u8, 46u8],
    ensures
        sidecar_path_of(name) == Some(
            name + vstd::utf8::encode_utf8(".gpui-pdf-reader.json"@),
        ),
        directory.len() > 0 && without_tail(directory) == directory ==> sidecar_path_of(
            directory.push(47) + name,
        ) == Some(directory.push(47) + name + vstd::utf8::encode_utf8(".gpui-pdf-reader.json"@)),
        sidecar_path_of(seq![47u8] + name) == Some(
            seq![47u8] + name + vstd::utf8::encode_utf8(".gpui-pdf-reader.json"@),
        ),
{
    crate::store::source_path::lemma_plain_name(name);
    lemma_no_tail(Seq::empty(), name);
    assert(Seq::<u8>::empty() + name =~= name);
    assert(name.skip(0) =~= name);
    assert(name.take(0) =~= Seq::<u8>::empty());
    let nothing = Seq::<u8>::empty();
    assert(without_tail(nothing) == nothing);
    assert(front_of(name) =~= nothing);
    assert(nothing + name =~= name);
    let root = seq![47u8];
    lemma_no_tail(root, name);
    crate::store::source_path::lemma_name_behind(root, name);
    assert((root + name).skip(1) =~= name);
    assert((root + name).take(1) =~= root);
    assert(root.drop_last() =~= nothing);
    assert(without_tail(root) == nothing);
    assert(front_of(root + name) =~= root);
    if directory.len() > 0 && without_tail(directory) == directory {
        let front = directory.push(47);
        lemma_no_tail(front, name);
        crate::store::source_path::lemma_name_behind(front, name);
        assert((front + name).skip(front.len() as int) =~= name);
        assert((front + name).take(front.len() as int) =~= front);
        assert(front.drop_last() =~= directory);
        assert(without_tail(front) == directory);
        assert(front_of(front + name) =~= front);
    }
}

proof fn lemma_no_tail(front: Seq<u8>, name: Seq<u8>)
    requires
        name.len() > 0,
        forall|i: int| 0 <= i < name.len() ==> #[trigger] name[i] != 47,
        name != seq![46u8],
    ensures
        without_tail(front + name) == front + name,
{
    let path = front + name;
    assert(path.last() == name[name.len() - 1]);
    if name.len() > 1 {
        assert(path[path.len() - 2] == name[name.len() - 2]);
    } else if name[0] == 46 {
        assert(name =~= seq![46u8]);
    }
}

} // verus!
