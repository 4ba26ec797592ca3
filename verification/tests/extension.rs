use key_pdf::document::{FocusMotion, FocusTone, TextBounds, TextPosition, TextSelection};
use key_pdf::extension::capability::{PdfCapability, PDF_EXTENSION_API_VERSION};
use key_pdf::extension::error::{InputErrorKind, PdfExtensionError, PdfExtensionResult};
use key_pdf::extension::handle::{
    DocumentHandle, GenerationScope, GenerationScoped, OverlaySetHandle, PageHandle,
};
use key_pdf::extension::ids::{
    DocumentAccess, GenerationId, LocalId, Permission, ResourceHandle,
};
use key_pdf::extension::navigation::{
    DocumentDestination, NavigationFocusMotion, NavigationFocusRequest, NavigationFocusTone,
    NavigationPlacement, NavigationRequest,
};
use key_pdf::extension::overlay::{DocumentOverlay, OverlayAppearance, OverlayBatch};
use key_pdf::extension::service::{DocumentMetadataService, PdfServiceProvider};
use key_pdf::extension::snapshot::{
    DocumentMetadataSnapshot, NormalizedRect, OutlineEntry, OutlineEntryId, OutlineSnapshot,
    PageIndex, PageTextRequest, PageTextSnapshot, SelectionPageSnapshot, SelectionSnapshot,
    SnapshotRevision, TextCharacter, TextLocation, TextSelectionRange, ViewportSnapshot,
    VisiblePageSnapshot,
};
use key_pdf::extension::validation::{
    PdfContractLimits, PdfValidationContext, ValidatePdfContract,
};
use key_pdf::float_bits::FloatBits;

fn bits(value: f32) -> FloatBits {
    FloatBits(value.to_bits())
}

fn number(value: FloatBits) -> f32 {
    f32::from_bits(value.0)
}

fn rect(left: f32, top: f32, right: f32, bottom: f32) -> NormalizedRect {
    NormalizedRect {
        left: bits(left),
        top: bits(top),
        right: bits(right),
        bottom: bits(bottom),
    }
}

#[test]
fn every_pdf_capability_has_explicit_user_authority() {
    let permissions = PdfCapability::all()
        .into_iter()
        .map(PdfCapability::required_permission)
        .collect::<Vec<_>>();

    assert_eq!(permissions.len(), PdfCapability::all().len());
    assert_eq!(
        PdfCapability::Text.required_permission(),
        Permission::ReadDocumentText(DocumentAccess::ActiveDocument)
    );
    assert_eq!(
        PdfCapability::Navigation.required_permission(),
        Permission::NavigateDocument
    );
    assert_eq!(
        PdfCapability::Overlays.required_permission(),
        Permission::AddDocumentOverlays
    );
}

#[test]
fn capability_names_are_found_again() {
    for capability in PdfCapability::all() {
        assert_eq!(
            PdfCapability::from_name(capability.as_str()),
            Some(capability)
        );
        assert_eq!(capability.capability_id().as_str(), capability.as_str());
        assert_eq!(
            capability.as_str(),
            format!("key:pdf/{}", capability.wit_case())
        );
    }
    assert_eq!(PdfCapability::all().len(), 9);
    assert_eq!(PdfCapability::from_name("key:pdf/printing"), None);
    assert!(!PDF_EXTENSION_API_VERSION.is_empty());
}

fn document_of(generation: u64, id: u64) -> DocumentHandle {
    DocumentHandle::from_host_parts(GenerationId(generation), id).expect("valid fixture handle")
}

struct MetadataOnlyProvider {
    document: DocumentHandle,
}

impl DocumentMetadataService for MetadataOnlyProvider {
    fn active_document(&self) -> PdfExtensionResult<Option<DocumentHandle>> {
        Ok(Some(self.document))
    }

    fn document_metadata(
        &self,
        document: DocumentHandle,
    ) -> PdfExtensionResult<DocumentMetadataSnapshot> {
        assert_eq!(document, self.document);
        Ok(DocumentMetadataSnapshot {
            document,
            revision: SnapshotRevision(3),
            page_count: 2,
            title: Some("A transport-neutral PDF".into()),
            author: None,
            subject: None,
            keywords: None,
            creator: None,
            producer: None,
            language: Some("en".into()),
            format_version: Some("PDF 1.7".into()),
            tagged: true,
            encrypted: false,
        })
    }
}

impl PdfServiceProvider for MetadataOnlyProvider {
    fn document_metadata_service(&self) -> Option<&dyn DocumentMetadataService> {
        Some(self)
    }
}

fn consumer_title(provider: &MetadataOnlyProvider) -> String {
    let service = provider
        .document_metadata_service()
        .expect("consumer requested a negotiated capability");
    let document = service
        .active_document()
        .expect("provider call should succeed")
        .expect("fixture has a document");
    service
        .document_metadata(document)
        .expect("metadata should be readable")
        .title
        .expect("fixture has a title")
}

#[test]
fn an_external_consumer_can_use_a_narrow_service_without_runtime_types() {
    let provider = MetadataOnlyProvider {
        document: document_of(7, 42),
    };

    assert_eq!(consumer_title(&provider), "A transport-neutral PDF");
    assert_eq!(
        provider.provided_pdf_capabilities(),
        vec![PdfCapability::DocumentMetadata]
    );
}

#[test]
fn typed_handles_round_trip_through_the_generic_extension_protocol() {
    let original = document_of(9, 81);
    let generic = original.to_resource_handle();
    assert_eq!(generic.kind, "key.pdf.document");
    assert_eq!(
        DocumentHandle::try_from_resource_handle(generic),
        Ok(original)
    );

    assert!(DocumentHandle::from_host_parts(GenerationId(1), 0).is_err());
}

#[test]
fn a_handle_of_one_kind_is_none_of_another() {
    let page = PageHandle::from_host_parts(GenerationId(4), 6).unwrap();
    assert!(matches!(
        DocumentHandle::try_from_resource_handle(page.to_resource_handle()),
        Err(PdfExtensionError::InvalidHandleKind { .. })
    ));
    assert_eq!(
        PageHandle::try_from_resource_handle(page.to_resource_handle()),
        Ok(page)
    );
    assert!(OverlaySetHandle::try_from_resource_handle(ResourceHandle {
        kind: "key.pdf.overlay-set".into(),
        generation: GenerationId(1),
        id: 0,
    })
    .is_err());
}

#[test]
fn navigation_request_reuses_core_centering_and_focus_semantics() {
    let focus_rect = rect(0.2, 0.38, 0.7, 0.44);
    let request = NavigationRequest {
        document: document_of(1, 1),
        destination: DocumentDestination::page(PageIndex(0))
            .resolved(Some(bits(0.5)), Some(bits(0.4))),
        placement: NavigationPlacement::default(),
        focus: Some(NavigationFocusRequest {
            tone: NavigationFocusTone::SearchMatch,
            motion: NavigationFocusMotion::Pulse,
            regions: vec![focus_rect],
        }),
    };

    let jump = request.to_document_jump();
    assert_eq!(jump.page, 0);
    assert!(jump.center_horizontal);
    let (page_x, page_y, page_width, page_height) = (50.0_f32, 24.0_f32, 800.0_f32, 1_066.0_f32);
    let (view_width, view_height) = (300.0_f32, 200.0_f32);
    let x = page_x + page_width * number(jump.x_fraction.unwrap()) - view_width * 0.5;
    let y = page_y + page_height * number(jump.y_fraction.unwrap())
        - view_height * number(jump.viewport_anchor_y);
    assert!((x - (page_x + page_width * 0.5 - 150.0)).abs() < 0.001);
    assert!((y - (page_y + page_height * 0.4 - 100.0)).abs() < 0.001);
    let cue = jump.focus.expect("focus cue should be retained");
    assert_eq!(cue.motion, FocusMotion::Pulse);
    assert_eq!(cue.tone, FocusTone::SearchMatch);
    assert_eq!(cue.text_runs, vec![TextBounds::from(focus_rect)]);
}

#[test]
fn extension_owned_ids_remain_generic_contract_ids() {
    let id = LocalId("outline/current-section".into());
    assert_eq!(id.as_str(), "outline/current-section");
}

fn document(generation: u64) -> DocumentHandle {
    DocumentHandle::from_host_parts(GenerationId(generation), 1).expect("valid document")
}

fn page(generation: u64) -> PageHandle {
    PageHandle::from_host_parts(GenerationId(generation), 2).expect("valid page")
}

fn overlay(id: &str) -> DocumentOverlay {
    DocumentOverlay {
        id: LocalId(id.into()),
        page: PageIndex(0),
        regions: vec![rect(0.1, 0.2, 0.5, 0.3)],
        appearance: OverlayAppearance::default(),
        label: Some("Current result".into()),
        command: None,
    }
}

#[test]
fn closed_document_handles_are_rejected_before_provider_lookup() {
    let stale = document(11);
    let scope = GenerationScope::new(GenerationId(12));

    assert_eq!(stale.generation(), GenerationId(11));
    assert_eq!(
        scope.validate(&stale),
        Err(PdfExtensionError::StaleGeneration {
            expected: GenerationId(12),
            actual: GenerationId(11),
        })
    );
}

#[test]
fn overlay_batches_enforce_item_region_geometry_and_generation_bounds() {
    let limits = PdfContractLimits {
        maximum_overlays: 1,
        ..PdfContractLimits::default()
    };
    let context = PdfValidationContext::with_limits(GenerationId(4), 3, limits);
    let mut batch = OverlayBatch {
        document: document(4),
        revision: SnapshotRevision(1),
        overlays: vec![overlay("first")],
    };
    assert_eq!(batch.validate_contract(&context), Ok(()));

    batch.overlays.push(overlay("second"));
    assert!(matches!(
        batch.validate_contract(&context),
        Err(PdfExtensionError::LimitExceeded {
            ref field,
            limit: 1,
            actual: 2,
        }) if field == "overlays"
    ));

    batch.overlays.truncate(1);
    batch.overlays[0].regions[0].right = bits(f32::NAN);
    assert!(matches!(
        batch.validate_contract(&context),
        Err(PdfExtensionError::InvalidInput {
            reason: InputErrorKind::NotFinite,
            ..
        })
    ));

    batch.document = document(3);
    assert!(matches!(
        batch.validate_contract(&context),
        Err(PdfExtensionError::StaleGeneration { .. })
    ));
}

#[test]
fn text_requests_are_bounded_independently_of_page_extraction() {
    let limits = PdfContractLimits {
        maximum_text_characters: 32,
        ..PdfContractLimits::default()
    };
    let context = PdfValidationContext::with_limits(GenerationId(8), 1, limits);
    let request = PageTextRequest {
        page: page(8),
        start: 0,
        maximum_characters: 33,
    };
    assert!(matches!(
        request.validate_contract(&context),
        Err(PdfExtensionError::LimitExceeded {
            ref field,
            limit: 32,
            actual: 33,
        }) if field == "text.maximum_characters"
    ));
}

#[test]
fn duplicate_overlay_ids_and_out_of_document_pages_are_rejected() {
    let context = PdfValidationContext::new(GenerationId(2), 1);
    let mut second = overlay("same");
    second.page = PageIndex(0);
    let batch = OverlayBatch {
        document: document(2),
        revision: SnapshotRevision(1),
        overlays: vec![overlay("same"), second],
    };
    assert!(matches!(
        batch.validate_contract(&context),
        Err(PdfExtensionError::InvalidInput {
            reason: InputErrorKind::InvalidIdentifier,
            ..
        })
    ));

    let mut outside = overlay("outside");
    outside.page = PageIndex(1);
    let batch = OverlayBatch {
        document: document(2),
        revision: SnapshotRevision(2),
        overlays: vec![outside],
    };
    assert_eq!(
        batch.validate_contract(&context),
        Err(PdfExtensionError::PageOutOfBounds {
            page: 1,
            page_count: 1,
        })
    );
}

#[test]
fn overlay_revisions_must_advance_before_atomic_replacement() {
    let batch = OverlayBatch {
        document: document(2),
        revision: SnapshotRevision(7),
        overlays: Vec::new(),
    };
    assert_eq!(batch.validate_revision_after(None), Ok(()));
    assert_eq!(
        batch.validate_revision_after(Some(SnapshotRevision(7))),
        Err(PdfExtensionError::InvalidInput {
            field: "overlays.revision".into(),
            reason: InputErrorKind::StaleRevision,
        })
    );
    assert_eq!(
        batch.validate_revision_after(Some(SnapshotRevision(8))),
        Err(PdfExtensionError::InvalidInput {
            field: "overlays.revision".into(),
            reason: InputErrorKind::StaleRevision,
        })
    );
}

fn entry(id: u64, parent: Option<u64>, depth: u16) -> OutlineEntry {
    OutlineEntry {
        id: OutlineEntryId(id),
        parent: parent.map(OutlineEntryId),
        depth,
        title: "Chapter".into(),
        destination: DocumentDestination::page(PageIndex(0)),
    }
}

fn outline(entries: Vec<OutlineEntry>) -> OutlineSnapshot {
    OutlineSnapshot {
        document: document(1),
        revision: SnapshotRevision(1),
        entries,
        truncated: false,
    }
}

#[test]
fn outlines_are_forests_whose_entries_follow_their_parents() {
    let context = PdfValidationContext::new(GenerationId(1), 1);
    assert_eq!(
        outline(vec![
            entry(1, None, 0),
            entry(2, Some(1), 1),
            entry(3, None, 0)
        ])
        .validate_contract(&context),
        Ok(())
    );
    assert!(outline(vec![entry(2, Some(1), 1), entry(1, None, 0)])
        .validate_contract(&context)
        .is_err());
    assert!(outline(vec![entry(1, None, 0), entry(2, Some(1), 2)])
        .validate_contract(&context)
        .is_err());
    assert!(outline(vec![entry(1, None, 0), entry(1, None, 0)])
        .validate_contract(&context)
        .is_err());
}

#[test]
fn positions_and_locations_are_two_forms_of_one_place() {
    let position = TextPosition { page: 3, index: 14 };
    let location = TextLocation::from_position(position).unwrap();
    assert_eq!(location.page, PageIndex(3));
    assert_eq!(location.character, 14);
    assert!(TextLocation::from_position(TextPosition {
        page: u32::MAX as usize + 1,
        index: 0,
    })
    .is_err());
    let range = TextSelectionRange::from_selection(TextSelection {
        anchor: position,
        focus: TextPosition { page: 2, index: 40 },
    })
    .unwrap();
    let (first, last) = range.ordered();
    assert_eq!(first.page, PageIndex(2));
    assert_eq!(last.page, PageIndex(3));
}

#[test]
fn text_is_made_of_scalar_values() {
    let character = |scalar| TextCharacter {
        scalar,
        bounds: None,
    };
    assert_eq!(character(0xe9).value(), Some('\u{e9}'));
    assert_eq!(character(0xd800).value(), None);
    assert_eq!(character(0x11_0000).value(), None);
    let mut snapshot = PageTextSnapshot {
        page: page(1),
        index: PageIndex(0),
        revision: SnapshotRevision(1),
        start: 0,
        total_characters: 2,
        characters: vec![character('h' as u32), character(0x1f600)],
        complete: true,
    };
    assert_eq!(snapshot.text(), Some("h\u{1f600}".to_owned()));
    snapshot.characters.push(character(0xdfff));
    assert_eq!(snapshot.text(), None);
}

#[test]
fn contract_errors_say_what_was_wrong() {
    let error = PdfExtensionError::PageOutOfBounds {
        page: 4,
        page_count: 2,
    };
    assert!(error.message().contains('4'));
    assert!(error.message().contains('2'));
    let error = PdfExtensionError::LimitExceeded {
        field: "overlays".into(),
        limit: 1,
        actual: 2,
    };
    assert!(error.message().contains("overlays"));
}

fn page_of(generation: u64, id: u64) -> PageHandle {
    PageHandle::from_host_parts(GenerationId(generation), id).expect("valid fixture handle")
}

fn place(page: u32, character: u32) -> TextLocation {
    TextLocation {
        page: PageIndex(page),
        character,
    }
}

#[test]
fn pages_of_selections_and_views_ascend() {
    let context = PdfValidationContext::new(GenerationId(4), 9);
    let selection = |pages: &[u32]| SelectionSnapshot {
        document: document_of(4, 1),
        revision: SnapshotRevision(1),
        range: Some(TextSelectionRange {
            anchor: place(1, 0),
            focus: place(5, 2),
        }),
        text: None,
        pages: pages
            .iter()
            .map(|page| SelectionPageSnapshot {
                page: page_of(4, 10 + u64::from(*page)),
                index: PageIndex(*page),
                regions: vec![rect(0.1, 0.1, 0.9, 0.2)],
            })
            .collect(),
    };
    assert_eq!(selection(&[1, 3, 5]).validate_contract(&context), Ok(()));
    assert_eq!(
        selection(&[1, 3, 3]).validate_contract(&context),
        Err(PdfExtensionError::InvalidInput {
            field: "selection.pages[2].index".into(),
            reason: InputErrorKind::InvalidIdentifier,
        })
    );
    let mut nowhere = selection(&[1]);
    nowhere.range = None;
    assert_eq!(
        nowhere.validate_contract(&context),
        Err(PdfExtensionError::InvalidInput {
            field: "selection.range".into(),
            reason: InputErrorKind::Empty,
        })
    );
    let view = |pages: &[u32]| ViewportSnapshot {
        document: document_of(4, 1),
        revision: SnapshotRevision(1),
        zoom_ratio: bits(1.25),
        anchor: None,
        visible_pages: pages
            .iter()
            .map(|page| VisiblePageSnapshot {
                page: page_of(4, 10 + u64::from(*page)),
                index: PageIndex(*page),
                visible_area: rect(0.0, 0.5, 1.0, 1.0),
            })
            .collect(),
    };
    assert_eq!(view(&[2, 3]).validate_contract(&context), Ok(()));
    assert_eq!(
        view(&[3, 2]).validate_contract(&context),
        Err(PdfExtensionError::InvalidInput {
            field: "viewport.visible_pages[1].index".into(),
            reason: InputErrorKind::InvalidIdentifier,
        })
    );
    assert_eq!(
        view(&[9]).validate_contract(&context),
        Err(PdfExtensionError::PageOutOfBounds {
            page: 9,
            page_count: 9,
        })
    );
}

#[test]
fn text_that_passes_can_be_read() {
    let context = PdfValidationContext::new(GenerationId(4), 9);
    let stretch = |scalars: &[u32]| PageTextSnapshot {
        page: page_of(4, 3),
        index: PageIndex(2),
        revision: SnapshotRevision(1),
        start: 5,
        total_characters: 7,
        characters: scalars
            .iter()
            .map(|scalar| TextCharacter {
                scalar: *scalar,
                bounds: None,
            })
            .collect(),
        complete: true,
    };
    let sound = stretch(&[0x50, 0xe9]);
    assert_eq!(sound.validate_contract(&context), Ok(()));
    assert_eq!(sound.text().as_deref(), Some("P\u{e9}"));
    let surrogate = stretch(&[0x50, 0xd800]);
    assert_eq!(
        surrogate.validate_contract(&context),
        Err(PdfExtensionError::InvalidInput {
            field: "text.characters[1].scalar".into(),
            reason: InputErrorKind::InvalidUnicodeScalar,
        })
    );
    assert_eq!(surrogate.text(), None);
    assert_eq!(
        stretch(&[0x50]).validate_contract(&context),
        Err(PdfExtensionError::InvalidInput {
            field: "text.range".into(),
            reason: InputErrorKind::ReversedRange,
        })
    );
}
