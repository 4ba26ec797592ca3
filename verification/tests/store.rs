use key_pdf::document::TextPosition;
use key_pdf::store::annotations::{
    Annotation, AnnotationError, AnnotationId, AnnotationSet, HighlightColor, TextRange,
};
use key_pdf::store::digest::{content_digest, extension_document_namespace, hex, namespace_input};
use key_pdf::store::error::{SaveReceipt, StoreConflict, StoreError};
use key_pdf::store::extension_storage::{
    check_encoded_size, check_file_schema, check_file_size, internal, validate_document_namespace,
    value_size, DataValue, ExtensionErrorCode, ExtensionId, ExtensionStorageState, FileValues,
    JsonExtensionStorageScope, ReadPlan, StorageArea, MAX_FILE_BYTES,
};
use key_pdf::store::identity::{time_parts, DocumentIdentity, DocumentKey, FileRevision};
use key_pdf::store::memory::{AnnotationStore, MemoryAnnotationStore};
use key_pdf::store::sidecar::{
    check_schema_version, check_size, ensure_identity, judge_replacement, restore_sidecar,
    sidecar_path, validate_snapshot, StoredAnnotation, StoredDocumentIdentity, StoredPosition,
    StoredSidecar, MAX_SIDECAR_BYTES, SIDECAR_SCHEMA_VERSION,
};
use key_pdf::store::source_path::same_place;
use serde::ser::{Serialize, SerializeStruct, Serializer};
use std::collections::HashMap;

fn position(page: usize, index: usize) -> TextPosition {
    TextPosition { page, index }
}

fn range(start_page: usize, start: usize, end_page: usize, end: usize) -> TextRange {
    TextRange::new(position(start_page, start), position(end_page, end))
}

fn document(path: &str, byte_len: u64) -> DocumentKey {
    DocumentKey::new(
        path.as_bytes().to_vec(),
        DocumentIdentity::new(byte_len, 1_700_000_000, 12, 2).unwrap(),
    )
}

fn memory_revision_one() -> AnnotationSet {
    let mut annotations = AnnotationSet::new(2);
    annotations
        .add(range(0, 1, 0, 4), Some(HighlightColor::Yellow), None)
        .unwrap();
    annotations
}

#[test]
fn missing_load_is_empty_and_compare_save_round_trips() {
    let store = MemoryAnnotationStore::new();
    let document = document("paper.pdf", 42);
    assert_eq!(store.load(&document).unwrap(), AnnotationSet::new(2));

    let annotations = memory_revision_one();
    assert_eq!(
        store.compare_and_save(&document, 0, &annotations).unwrap(),
        SaveReceipt {
            previous_revision: 0,
            saved_revision: 1,
        }
    );
    assert_eq!(store.load(&document).unwrap(), annotations);
}

#[test]
fn stale_writers_and_replaced_documents_are_structured_conflicts() {
    let store = MemoryAnnotationStore::new();
    let original = document("paper.pdf", 42);
    store
        .compare_and_save(&original, 0, &memory_revision_one())
        .unwrap();

    assert!(matches!(
        store.compare_and_save(&original, 0, &memory_revision_one()),
        Err(StoreError::Conflict(StoreConflict::RevisionMismatch {
            expected: 0,
            found: 1,
        }))
    ));

    let replacement = document("paper.pdf", 43);
    assert!(matches!(
        store.load(&replacement),
        Err(StoreError::Conflict(
            StoreConflict::DocumentIdentityMismatch { .. }
        ))
    ));
}

#[test]
fn same_revision_cannot_smuggle_different_content() {
    let store = MemoryAnnotationStore::new();
    let document = document("paper.pdf", 42);
    let first = memory_revision_one();
    store.compare_and_save(&document, 0, &first).unwrap();

    let alternate = AnnotationSet::restore(
        2,
        1,
        vec![Annotation {
            id: AnnotationId(1),
            range: range(1, 2, 1, 3),
            highlight: Some(HighlightColor::Purple),
            comment_markdown: None,
            created_revision: 1,
            updated_revision: 1,
        }],
    )
    .unwrap();
    assert!(matches!(
        store.compare_and_save(&document, 1, &alternate),
        Err(StoreError::RevisionNotAdvanced {
            current: 1,
            attempted: 1,
        })
    ));
    assert_eq!(store.load(&document).unwrap(), first);
}

#[test]
fn what_was_saved_can_be_forgotten() {
    let store = MemoryAnnotationStore::new();
    let paper = document("paper.pdf", 42);
    assert_eq!(store.remove(paper.source_path()), Ok(false));
    store
        .compare_and_save(&paper, 0, &memory_revision_one())
        .unwrap();
    assert_eq!(store.remove(paper.source_path()), Ok(true));
    assert_eq!(store.load(&paper).unwrap().revision(), 0);
}

#[test]
fn sidecar_names_append_without_replacing_unicode_extensions() {
    assert_eq!(
        sidecar_path("/tmp/\u{dc}berblick \u{1f4da}.pdf".as_bytes()).unwrap(),
        "/tmp/\u{dc}berblick \u{1f4da}.pdf.gpui-pdf-reader.json".as_bytes()
    );
    assert_eq!(
        sidecar_path(b"report").unwrap(),
        b"report.gpui-pdf-reader.json"
    );
    assert!(matches!(
        sidecar_path(b"/"),
        Err(StoreError::MissingSourceFileName)
    ));
}

#[test]
fn sidecar_names_stand_beside_the_file() {
    assert_eq!(
        sidecar_path(b"a/b/").unwrap(),
        b"a/b.gpui-pdf-reader.json"
    );
    for spelled in ["dir//a.pdf", "dir/./a.pdf", "dir/a.pdf/.", "dir///a.pdf//"] {
        assert_eq!(
            sidecar_path(spelled.as_bytes()).unwrap(),
            b"dir/a.pdf.gpui-pdf-reader.json"
        );
    }
    assert_eq!(
        sidecar_path(b"//a.pdf").unwrap(),
        b"/a.pdf.gpui-pdf-reader.json"
    );
    assert_eq!(
        sidecar_path(b".//a.pdf").unwrap(),
        b"./a.pdf.gpui-pdf-reader.json"
    );
    assert_eq!(
        sidecar_path(b"a/../b").unwrap(),
        b"a/../b.gpui-pdf-reader.json"
    );
    assert!(sidecar_path(b"").is_err());
    assert!(sidecar_path(b"a/..").is_err());
}

fn fixed_identity(page_count: usize) -> DocumentIdentity {
    DocumentIdentity::new(42, 1_700_000_000, 123, page_count).unwrap()
}

fn stored_identity(page_count: u64) -> StoredDocumentIdentity {
    StoredDocumentIdentity {
        byte_len: 42,
        modified_unix_seconds: 1_700_000_000,
        modified_nanos: 123,
        page_count,
    }
}

fn record(id: u64, start_page: u64, end_page: u64, created: u64, updated: u64) -> StoredAnnotation {
    StoredAnnotation {
        id,
        start: StoredPosition {
            page: start_page,
            index: 1,
        },
        end: StoredPosition {
            page: end_page,
            index: 2,
        },
        highlight: Some(HighlightColor::Blue),
        comment_markdown: None,
        created_revision: created,
        updated_revision: updated,
    }
}

fn file(revision: u64, annotations: Vec<StoredAnnotation>) -> StoredSidecar {
    StoredSidecar {
        schema_version: SIDECAR_SCHEMA_VERSION,
        document: stored_identity(2),
        revision,
        annotations,
    }
}

/// A sidecar as its file shows it.
struct Shown<'a>(&'a StoredSidecar);

struct ShownDocument<'a>(&'a StoredDocumentIdentity);

struct ShownPosition<'a>(&'a StoredPosition);

struct ShownAnnotation<'a>(&'a StoredAnnotation);

impl Serialize for Shown<'_> {
    fn serialize<S: Serializer>(&self, serializer: S) -> Result<S::Ok, S::Error> {
        let annotations: Vec<ShownAnnotation> =
            self.0.annotations.iter().map(ShownAnnotation).collect();
        let mut shown = serializer.serialize_struct("StoredSidecar", 4)?;
        shown.serialize_field("schema_version", &self.0.schema_version)?;
        shown.serialize_field("document", &ShownDocument(&self.0.document))?;
        shown.serialize_field("revision", &self.0.revision)?;
        shown.serialize_field("annotations", &annotations)?;
        shown.end()
    }
}

impl Serialize for ShownDocument<'_> {
    fn serialize<S: Serializer>(&self, serializer: S) -> Result<S::Ok, S::Error> {
        let mut shown = serializer.serialize_struct("StoredDocumentIdentity", 4)?;
        shown.serialize_field("byte_len", &self.0.byte_len)?;
        shown.serialize_field("modified_unix_seconds", &self.0.modified_unix_seconds)?;
        shown.serialize_field("modified_nanos", &self.0.modified_nanos)?;
        shown.serialize_field("page_count", &self.0.page_count)?;
        shown.end()
    }
}

impl Serialize for ShownPosition<'_> {
    fn serialize<S: Serializer>(&self, serializer: S) -> Result<S::Ok, S::Error> {
        let mut shown = serializer.serialize_struct("StoredPosition", 2)?;
        shown.serialize_field("page", &self.0.page)?;
        shown.serialize_field("index", &self.0.index)?;
        shown.end()
    }
}

impl Serialize for ShownAnnotation<'_> {
    fn serialize<S: Serializer>(&self, serializer: S) -> Result<S::Ok, S::Error> {
        let mut shown = serializer.serialize_struct("StoredAnnotation", 7)?;
        shown.serialize_field("id", &self.0.id)?;
        shown.serialize_field("start", &ShownPosition(&self.0.start))?;
        shown.serialize_field("end", &ShownPosition(&self.0.end))?;
        if let Some(color) = self.0.highlight {
            shown.serialize_field("highlight", &format!("{color:?}").to_lowercase())?;
        }
        if let Some(comment) = &self.0.comment_markdown {
            shown.serialize_field("comment_markdown", comment)?;
        }
        shown.serialize_field("created_revision", &self.0.created_revision)?;
        shown.serialize_field("updated_revision", &self.0.updated_revision)?;
        shown.end()
    }
}

#[test]
fn schema_one_encoding_is_byte_for_byte_compatible_with_the_reader() {
    let mut annotations = AnnotationSet::new(3);
    annotations
        .add(
            range(0, 2, 0, 8),
            Some(HighlightColor::Yellow),
            Some("**Caf\u{e9}** \u{2014} \u{65e5}\u{672c}\u{8a9e}".into()),
        )
        .unwrap();
    annotations
        .add(range(1, 0, 2, 3), Some(HighlightColor::Purple), None)
        .unwrap();
    let actual = StoredSidecar::from_parts(&fixed_identity(3), &annotations);
    assert_eq!(actual.schema_version, 1);
    assert_eq!(actual.document, stored_identity(3));
    assert_eq!(actual.revision, 2);
    let expected = vec![
        StoredAnnotation {
            id: 1,
            start: StoredPosition { page: 0, index: 2 },
            end: StoredPosition { page: 0, index: 8 },
            highlight: Some(HighlightColor::Yellow),
            comment_markdown: Some("**Caf\u{e9}** \u{2014} \u{65e5}\u{672c}\u{8a9e}".into()),
            created_revision: 1,
            updated_revision: 1,
        },
        StoredAnnotation {
            id: 2,
            start: StoredPosition { page: 1, index: 0 },
            end: StoredPosition { page: 2, index: 3 },
            highlight: Some(HighlightColor::Purple),
            comment_markdown: None,
            created_revision: 2,
            updated_revision: 2,
        },
    ];
    assert_eq!(actual.annotations, expected);
    let bytes = serde_json::to_vec_pretty(&Shown(&actual)).unwrap();
    let text = r#"{
  "schema_version": 1,
  "document": {
    "byte_len": 42,
    "modified_unix_seconds": 1700000000,
    "modified_nanos": 123,
    "page_count": 3
  },
  "revision": 2,
  "annotations": [
    {
      "id": 1,
      "start": {
        "page": 0,
        "index": 2
      },
      "end": {
        "page": 0,
        "index": 8
      },
      "highlight": "yellow",
      "comment_markdown": "**Café** — 日本語",
      "created_revision": 1,
      "updated_revision": 1
    },
    {
      "id": 2,
      "start": {
        "page": 1,
        "index": 0
      },
      "end": {
        "page": 2,
        "index": 3
      },
      "highlight": "purple",
      "created_revision": 2,
      "updated_revision": 2
    }
  ]
}"#;
    assert_eq!(String::from_utf8(bytes).unwrap(), text);
}

#[test]
fn an_existing_reader_sidecar_decodes_semantically() {
    let stored = file(
        1,
        vec![StoredAnnotation {
            id: 9,
            start: StoredPosition { page: 0, index: 4 },
            end: StoredPosition { page: 1, index: 2 },
            highlight: Some(HighlightColor::Green),
            comment_markdown: Some("legacy **markdown**".into()),
            created_revision: 1,
            updated_revision: 1,
        }],
    );
    let loaded = restore_sidecar(&stored, &fixed_identity(2)).unwrap();
    assert_eq!(loaded.page_count(), 2);
    assert_eq!(loaded.revision(), 1);
    let annotation = &loaded.annotations()[0];
    assert_eq!(annotation.id, AnnotationId(9));
    assert_eq!(annotation.highlight, Some(HighlightColor::Green));
    assert_eq!(
        annotation.comment_markdown.as_deref(),
        Some("legacy **markdown**")
    );
    assert_eq!(annotation.range, range(0, 4, 1, 2));
}

/// A place for one sidecar that follows the rules of the files.
struct Sidecar {
    document: DocumentIdentity,
    file: Option<StoredSidecar>,
}

impl Sidecar {
    fn load(&self) -> Result<AnnotationSet, StoreError> {
        match &self.file {
            None => Ok(AnnotationSet::new(self.document.page_count())),
            Some(stored) => {
                check_schema_version(stored.schema_version)?;
                restore_sidecar(stored, &self.document)
            }
        }
    }

    fn compare_and_save(
        &mut self,
        expected: u64,
        annotations: &AnnotationSet,
    ) -> Result<SaveReceipt, StoreError> {
        validate_snapshot(&self.document, annotations)?;
        let receipt = judge_replacement(&self.load()?, expected, annotations)?;
        self.file = Some(StoredSidecar::from_parts(&self.document, annotations));
        Ok(receipt)
    }
}

fn revision_one(page_count: usize, color: HighlightColor) -> AnnotationSet {
    let mut annotations = AnnotationSet::new(page_count);
    annotations
        .add(range(0, 2, 0, 8), Some(color), None)
        .unwrap();
    annotations
}

#[test]
fn missing_sidecar_loads_empty_and_round_trip_preserves_unicode() {
    let mut store = Sidecar {
        document: DocumentIdentity::new_with_content_sha256(24, 1_700_000_000, 7, 3, [9; 32])
            .unwrap(),
        file: None,
    };
    assert_eq!(store.load().unwrap(), AnnotationSet::new(3));

    let mut annotations = AnnotationSet::new(3);
    annotations
        .add(
            range(0, 2, 0, 8),
            Some(HighlightColor::Yellow),
            Some(
                "**Caf\u{e9}** \u{2014} [\u{8cc7}\u{6599}](https://example.test/\u{8cc7}\u{6599})"
                    .into(),
            ),
        )
        .unwrap();
    store.compare_and_save(0, &annotations).unwrap();
    assert_eq!(store.load().unwrap(), annotations);
}

#[test]
fn stale_schema_identity_corruption_unknown_fields_and_oversize_are_rejected() {
    assert!(matches!(
        check_schema_version(99),
        Err(StoreError::UnsupportedSchemaVersion { found: 99, .. })
    ));
    let mut other = file(0, Vec::new());
    other.document.byte_len += 1;
    assert!(matches!(
        restore_sidecar(&other, &fixed_identity(2)),
        Err(StoreError::Conflict(
            StoreConflict::DocumentIdentityMismatch { .. }
        ))
    ));
    assert!(check_size(MAX_SIDECAR_BYTES as u64).is_ok());
    assert!(matches!(
        check_size(MAX_SIDECAR_BYTES as u64 + 1),
        Err(StoreError::SidecarTooLarge { .. })
    ));
    let mut broken = file(0, Vec::new());
    broken.document.modified_nanos = 1_000_000_000;
    assert_eq!(
        restore_sidecar(&broken, &fixed_identity(2)),
        Err(StoreError::InvalidDocumentIdentity)
    );
}

#[test]
fn reversed_ranges_duplicate_ids_and_invalid_revisions_are_rejected() {
    let identity = fixed_identity(2);
    let duplicate = file(2, vec![record(7, 0, 0, 1, 1), record(7, 1, 1, 2, 2)]);
    assert!(matches!(
        restore_sidecar(&duplicate, &identity),
        Err(StoreError::Annotation(
            AnnotationError::DuplicateAnnotationId(AnnotationId(7))
        ))
    ));

    let reversed = file(1, vec![record(1, 1, 0, 1, 1)]);
    assert!(matches!(
        restore_sidecar(&reversed, &identity),
        Err(StoreError::Annotation(AnnotationError::ReversedTextRange))
    ));

    let invalid_revision = file(1, vec![record(1, 0, 0, 2, 1)]);
    assert!(matches!(
        restore_sidecar(&invalid_revision, &identity),
        Err(StoreError::Annotation(
            AnnotationError::InvalidAnnotationRevision { .. }
        ))
    ));
}

#[test]
fn save_revalidates_pdf_identity_before_touching_the_sidecar() {
    let seen = fixed_identity(1);
    let changed = DocumentIdentity::new(43, 1_700_000_000, 123, 1).unwrap();
    assert!(ensure_identity(&seen, seen.copy()).is_ok());
    assert!(matches!(
        ensure_identity(&seen, changed),
        Err(StoreError::Conflict(
            StoreConflict::DocumentIdentityMismatch { .. }
        ))
    ));
}

#[test]
fn stale_writer_never_overwrites_the_newer_snapshot() {
    let mut store = Sidecar {
        document: fixed_identity(1),
        file: None,
    };
    let first = revision_one(1, HighlightColor::Green);
    store.compare_and_save(0, &first).unwrap();

    let mut latest = first.copy();
    latest
        .add(range(0, 10, 0, 12), None, Some("latest".into()))
        .unwrap();
    store.compare_and_save(1, &latest).unwrap();

    assert!(matches!(
        store.compare_and_save(0, &revision_one(1, HighlightColor::Purple)),
        Err(StoreError::Conflict(StoreConflict::RevisionMismatch {
            expected: 0,
            found: 2,
        }))
    ));
    assert_eq!(store.load().unwrap(), latest);
}

#[test]
fn snapshots_of_another_document_or_of_the_past_are_refused() {
    let mut store = Sidecar {
        document: fixed_identity(1),
        file: None,
    };
    assert_eq!(
        store.compare_and_save(0, &AnnotationSet::new(2)),
        Err(StoreError::PageCountMismatch {
            identity: 1,
            annotations: 2,
        })
    );
    store
        .compare_and_save(0, &revision_one(1, HighlightColor::Green))
        .unwrap();
    assert_eq!(
        store.compare_and_save(1, &AnnotationSet::new(1)),
        Err(StoreError::RevisionRegression {
            current: 1,
            attempted: 0,
        })
    );
}

#[test]
fn files_that_change_while_they_are_read_have_no_identity() {
    let revision = FileRevision {
        byte_len: 3,
        modified_unix_seconds: 5,
        modified_nanos: 9,
    };
    let identity = DocumentIdentity::of_settled_file(revision, revision, 4, [1; 32]).unwrap();
    assert_eq!(identity.byte_len(), 3);
    assert_eq!(identity.content_sha256(), Some(&[1; 32]));
    let moved = FileRevision {
        modified_nanos: 10,
        ..revision
    };
    assert!(DocumentIdentity::of_settled_file(revision, moved, 4, [1; 32]).is_err());
    let bytes = b"abc".to_vec();
    let read = DocumentIdentity::of_settled_bytes(revision, revision, 4, &bytes).unwrap();
    assert_eq!(read.content_sha256(), Some(&content_digest(&bytes)));
    assert_eq!(read.page_count(), 4);
    assert_eq!(
        DocumentIdentity::of_settled_bytes(revision, moved, 4, &bytes),
        Err(StoreError::InvalidDocumentIdentity)
    );
    assert_eq!(
        DocumentIdentity::new(1, 1, 1_000_000_000, 1),
        Err(StoreError::InvalidDocumentIdentity)
    );
    assert_eq!(time_parts(false, 7, 20), Ok((7, 20)));
    assert_eq!(time_parts(true, 7, 0), Ok((-7, 0)));
    assert_eq!(time_parts(true, 7, 20), Ok((-8, 999_999_980)));
}

#[test]
fn a_touched_file_is_the_same_revision_where_its_contents_are() {
    let first =
        DocumentIdentity::new_with_content_sha256(10, 100, 0, 2, [7; 32]).unwrap();
    let touched =
        DocumentIdentity::new_with_content_sha256(10, 200, 5, 2, [7; 32]).unwrap();
    let rewritten =
        DocumentIdentity::new_with_content_sha256(10, 100, 0, 2, [8; 32]).unwrap();
    assert!(first.same_revision(&touched));
    assert!(touched.same_revision(&first));
    assert!(!first.same_revision(&rewritten));
    assert!(!first.same_metadata_revision(&touched));
}

#[test]
fn digests_are_those_of_sha_256() {
    assert_eq!(
        hex(&content_digest(&b"abc".to_vec())),
        "ba7816bf8f01cfea414140de5dae2223b00361a396177a9cb410ff61f20015ad"
    );
    assert_eq!(
        hex(&content_digest(&Vec::new())),
        "e3b0c44298fc1c149afbf4c8996fb92427ae41e4649b934ca495991b7852b855"
    );
    let namespace = extension_document_namespace(&document("paper.pdf", 42));
    assert_eq!(namespace.len(), 64);
    assert!(validate_document_namespace(&namespace).is_ok());
    assert_eq!(
        namespace,
        hex(&content_digest(&namespace_input(&document("paper.pdf", 42))))
    );
    assert_ne!(
        namespace,
        extension_document_namespace(&document("paper.pdf", 43))
    );
    assert_ne!(
        namespace,
        extension_document_namespace(&document("other.pdf", 42))
    );
}

#[test]
fn annotations_are_counted_and_checked() {
    let mut annotations = AnnotationSet::new(1);
    let first = annotations
        .add(range(0, 5, 0, 1), None, Some("note".into()))
        .unwrap();
    assert_eq!(first, AnnotationId(1));
    assert_eq!(annotations.revision(), 1);
    assert_eq!(annotations.annotations()[0].range, range(0, 1, 0, 5));
    assert!(annotations.validate().is_ok());
    assert_eq!(
        TextRange::restore(position(0, 5), position(0, 1)),
        Err(AnnotationError::ReversedTextRange)
    );
    let exhausted = AnnotationSet::restore(
        1,
        1,
        vec![Annotation {
            id: AnnotationId(u64::MAX),
            range: range(0, 0, 0, 1),
            highlight: None,
            comment_markdown: None,
            created_revision: 1,
            updated_revision: 1,
        }],
    );
    assert_eq!(
        exhausted
            .unwrap()
            .add(range(0, 0, 0, 1), None, None),
        Err(AnnotationError::IdsExhausted)
    );
    let mut last = AnnotationSet::restore(1, u64::MAX, Vec::new()).unwrap();
    assert_eq!(
        last.add(range(0, 0, 0, 1), None, None),
        Err(AnnotationError::RevisionsExhausted)
    );
}

#[test]
fn store_errors_say_what_was_wrong() {
    assert!(StoreError::MissingSourceFileName.message().len() > 0);
    let too_large = StoreError::SidecarTooLarge {
        bytes: 5_000_000,
        limit: MAX_SIDECAR_BYTES,
    };
    assert!(too_large.message().contains("5000000"));
    let conflict = StoreError::Conflict(StoreConflict::RevisionMismatch {
        expected: 3,
        found: 4,
    });
    assert!(conflict.message().contains('3') && conflict.message().contains('4'));
}

/// Files by their path, as a host keeps them.
#[derive(Default)]
struct Files(HashMap<Vec<String>, FileValues>);

struct Host<'a> {
    state: ExtensionStorageState,
    files: &'a mut Files,
}

impl Host<'_> {
    fn put(
        &mut self,
        scope: &JsonExtensionStorageScope,
        extension: &ExtensionId,
        area: StorageArea,
        key: &str,
        value: DataValue,
    ) {
        if let Some((path, value)) = self
            .state
            .put(scope, extension, area, key, value, 4096)
            .unwrap()
        {
            self.files
                .0
                .entry(path.segments)
                .or_insert_with(FileValues::new)
                .put(key, value);
        }
    }

    fn get(
        &self,
        scope: &JsonExtensionStorageScope,
        extension: &ExtensionId,
        area: StorageArea,
        key: &str,
    ) -> DataValue {
        match self.state.get(scope, extension, area, key).unwrap() {
            ReadPlan::Answer(value) => value,
            ReadPlan::File(path) => self
                .files
                .0
                .get(&path.segments)
                .map_or(DataValue::Null, |values| values.get(key)),
        }
    }
}

fn extension(name: &str) -> ExtensionId {
    ExtensionId(name.into())
}

#[test]
fn settings_persist_across_store_instances_and_remain_namespaced() {
    let mut files = Files::default();
    let a = extension("org.example.a");
    let b = extension("org.example.b");
    let mut first = Host {
        state: ExtensionStorageState::new(),
        files: &mut files,
    };
    let scope = first.state.selected_scope();
    first.put(
        &scope,
        &a,
        StorageArea::Settings,
        "theme",
        DataValue::String("blue".into()),
    );
    let reopened = Host {
        state: ExtensionStorageState::new(),
        files: &mut files,
    };
    let scope = reopened.state.selected_scope();
    assert_eq!(
        reopened.get(&scope, &a, StorageArea::Settings, "theme"),
        DataValue::String("blue".into())
    );
    assert_eq!(
        reopened.get(&scope, &b, StorageArea::Settings, "theme"),
        DataValue::Null
    );
}

#[test]
fn document_and_ephemeral_scopes_do_not_leak() {
    let mut files = Files::default();
    let mut host = Host {
        state: ExtensionStorageState::new(),
        files: &mut files,
    };
    let extension = extension("org.example.document");
    host.state
        .select_document(Some("document-one".into()))
        .unwrap();
    let scope = host.state.selected_scope();
    host.put(
        &scope,
        &extension,
        StorageArea::Document,
        "position",
        DataValue::Integer(3),
    );
    host.put(
        &scope,
        &extension,
        StorageArea::EphemeralCache,
        "preview",
        DataValue::String("cached".into()),
    );
    assert_eq!(
        host.get(&scope, &extension, StorageArea::EphemeralCache, "preview"),
        DataValue::String("cached".into())
    );
    host.state
        .select_document(Some("document-two".into()))
        .unwrap();
    let scope = host.state.selected_scope();
    assert_eq!(
        host.get(&scope, &extension, StorageArea::Document, "position"),
        DataValue::Null
    );
    host.state.clear_all(StorageArea::EphemeralCache);
    assert_eq!(
        host.get(&scope, &extension, StorageArea::EphemeralCache, "preview"),
        DataValue::Null
    );
}

#[test]
fn immutable_document_scopes_remain_isolated_under_concurrent_window_io() {
    let mut files = Files::default();
    let mut host = Host {
        state: ExtensionStorageState::new(),
        files: &mut files,
    };
    let first = JsonExtensionStorageScope::document_scope("document-one".into()).unwrap();
    let second = JsonExtensionStorageScope::document_scope("document-two".into()).unwrap();
    let extension = extension("org.example.concurrent");
    for step in 0..32 {
        for (scope, position) in [(&first, step), (&second, 100 + step)] {
            host.put(
                scope,
                &extension,
                StorageArea::Document,
                "position",
                DataValue::Integer(position),
            );
            assert_eq!(
                host.get(scope, &extension, StorageArea::Document, "position"),
                DataValue::Integer(position)
            );
        }
    }
    assert_eq!(
        host.get(&first, &extension, StorageArea::Document, "position"),
        DataValue::Integer(31)
    );
    assert_eq!(
        host.get(&second, &extension, StorageArea::Document, "position"),
        DataValue::Integer(131)
    );
}

#[test]
fn retargeting_legacy_cursor_cannot_retarget_an_immutable_scope() {
    let mut files = Files::default();
    let mut host = Host {
        state: ExtensionStorageState::new(),
        files: &mut files,
    };
    let extension = extension("org.example.scope");
    let fixed = JsonExtensionStorageScope::document_scope("fixed-document".into()).unwrap();

    host.state
        .select_document(Some("other-document".into()))
        .unwrap();
    host.put(
        &fixed,
        &extension,
        StorageArea::Document,
        "selection",
        DataValue::Integer(7),
    );
    let selected = host.state.selected_scope();
    assert_eq!(
        host.get(&selected, &extension, StorageArea::Document, "selection"),
        DataValue::Null
    );
    assert_eq!(
        host.get(&fixed, &extension, StorageArea::Document, "selection"),
        DataValue::Integer(7)
    );

    let application = JsonExtensionStorageScope::application_scope();
    assert_eq!(
        host.state
            .get(&application, &extension, StorageArea::Document, "selection")
            .unwrap_err()
            .code,
        ExtensionErrorCode::StaleResource
    );
}

#[test]
fn extension_data_is_bounded() {
    let mut state = ExtensionStorageState::new();
    let scope = state.selected_scope();
    let owner = extension("org.example.quota");
    let put = |state: &mut ExtensionStorageState, key: &str, quota| {
        state.put(
            &scope,
            &owner,
            StorageArea::EphemeralCache,
            key,
            DataValue::String("12345678".into()),
            quota,
        )
    };
    assert_eq!(
        put(&mut state, "k", 4).unwrap_err().code,
        ExtensionErrorCode::QuotaExceeded
    );
    assert!(put(&mut state, "k", 4096).is_ok());
    assert_eq!(
        put(&mut state, "", 4096).unwrap_err().code,
        ExtensionErrorCode::InvalidRequest
    );
    assert!(state
        .select_document(Some("not a namespace/".into()))
        .is_err());
    assert!(check_file_size(MAX_FILE_BYTES as u64).is_ok());
    assert_eq!(
        check_file_size(MAX_FILE_BYTES as u64 + 1).unwrap_err().code,
        ExtensionErrorCode::QuotaExceeded
    );
    assert_eq!(
        check_file_schema(2).unwrap_err().message,
        "unsupported extension storage schema 2"
    );
    assert_eq!(
        check_encoded_size(20, 10).unwrap_err().message,
        "encoded extension storage uses 20 bytes; quota is 10"
    );
    assert!(internal("x".into()).retryable);
    assert!(
        value_size(&DataValue::List(vec![DataValue::Null, DataValue::Integer(1)]))
            > value_size(&DataValue::Null)
    );
    assert!(state
        .clear_area(&scope, &owner, StorageArea::EphemeralCache)
        .is_none());
    assert!(matches!(
        state.get(&scope, &owner, StorageArea::EphemeralCache, "k"),
        Ok(ReadPlan::Answer(DataValue::Null))
    ));
    assert!(state
        .delete(&scope, &owner, StorageArea::Settings, "k")
        .is_ok());
}

#[test]
fn values_of_a_file_are_found_again() {
    let mut values = FileValues::new();
    assert_eq!(values.get("a"), DataValue::Null);
    values.put("a", DataValue::Integer(1));
    values.put("b", DataValue::Boolean(true));
    values.put("a", DataValue::Integer(2));
    assert_eq!(values.get("a"), DataValue::Integer(2));
    values.delete("b");
    assert_eq!(values.get("b"), DataValue::Null);
    assert_eq!(
        values.into_entries(),
        vec![("a".to_owned(), DataValue::Integer(2))]
    );
    let scope = JsonExtensionStorageScope::document_scope("paper".into()).unwrap();
    assert_eq!(scope.document_namespace(), Some("paper"));
}

#[test]
fn a_place_has_more_than_one_spelling() {
    let same = [
        ("dir/a.pdf", "dir//a.pdf"),
        ("dir/a.pdf", "dir/./a.pdf"),
        ("dir/a.pdf", "dir/a.pdf/"),
        ("dir/a.pdf", "dir/a.pdf/."),
        ("/a", "//a"),
        ("/a", "/./a"),
        ("./a", ".//./a"),
        ("/", "//"),
        (".", "./"),
    ];
    for (a, b) in same {
        assert!(same_place(&a.as_bytes().to_vec(), &b.as_bytes().to_vec()));
        assert!(same_place(&b.as_bytes().to_vec(), &a.as_bytes().to_vec()));
    }
    let other = [
        ("a", "/a"),
        ("a", "./a"),
        ("a/..", "a"),
        ("a/../b", "b"),
        ("a/b", "a/c"),
        ("ab", "a/b"),
        ("", "."),
        ("", "/"),
        (".a", "a"),
    ];
    for (a, b) in other {
        assert!(!same_place(&a.as_bytes().to_vec(), &b.as_bytes().to_vec()));
    }
    let first = document("dir/a.pdf", 42);
    let second = document("dir//a.pdf", 42);
    assert_eq!(first, second);
    assert_ne!(first.source_path(), second.source_path());
    assert_ne!(first, document("dir/b.pdf", 42));
    let mut seen = HashMap::new();
    seen.insert(first, 1);
    assert_eq!(seen.get(&second), Some(&1));
}

#[test]
fn memory_finds_a_document_under_another_spelling() {
    let store = MemoryAnnotationStore::new();
    store
        .compare_and_save(&document("dir/paper.pdf", 42), 0, &memory_revision_one())
        .unwrap();
    assert_eq!(
        store.load(&document("dir//paper.pdf", 42)).unwrap(),
        memory_revision_one()
    );
    assert_eq!(store.remove(&b"dir/./paper.pdf".to_vec()), Ok(true));
    assert_eq!(store.remove(&b"dir/paper.pdf".to_vec()), Ok(false));
}
