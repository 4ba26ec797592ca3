//! The services behind the capabilities, for hosts to implement.
//!
//! A host may offer any of them. Calls are answered at once: a host that has
//! work to do first does it beforehand, or answers that it is busy.

use crate::extension::capability::PdfCapability;
use crate::extension::error::PdfExtensionResult;
use crate::extension::handle::{DocumentHandle, PageHandle};
use crate::extension::navigation::{NavigationReceipt, NavigationRequest};
use crate::extension::overlay::{OverlayBatch, OverlayReceipt};
use crate::extension::snapshot::{
    DocumentMetadataSnapshot, OutlineSnapshot, PageIndex, PageLinksSnapshot, PageMetadataSnapshot,
    PageTextRequest, PageTextSnapshot, SelectionSnapshot, ViewportSnapshot,
};
use vstd::prelude::*;

verus! {

/// Behind `key:pdf/document-metadata`.
pub trait DocumentMetadataService {
    /// The document that is open, if one is.
    fn active_document(&self) -> PdfExtensionResult<Option<DocumentHandle>>;

    /// What a document says of itself.
    fn document_metadata(&self, document: DocumentHandle) -> PdfExtensionResult<
        DocumentMetadataSnapshot,
    >;
}

/// Behind `key:pdf/page-metadata`.
pub trait PageMetadataService {
    /// A page by its index.
    fn page_metadata(&self, document: DocumentHandle, page: PageIndex) -> PdfExtensionResult<
        PageMetadataSnapshot,
    >;
}

/// Behind `key:pdf/outline`.
pub trait OutlineService {
    /// The outline of a document.
    fn outline(&self, document: DocumentHandle) -> PdfExtensionResult<OutlineSnapshot>;
}

/// Behind `key:pdf/links`.
pub trait LinkService {
    /// The links of a page.
    fn links(&self, page: PageHandle) -> PdfExtensionResult<PageLinksSnapshot>;
}

/// Behind `key:pdf/text`.
pub trait TextService {
    /// A stretch of a page's text.
    fn page_text(&self, request: PageTextRequest) -> PdfExtensionResult<PageTextSnapshot>;
}

/// Behind `key:pdf/selection`.
pub trait SelectionService {
    /// What is selected in a document.
    fn selection(&self, document: DocumentHandle) -> PdfExtensionResult<SelectionSnapshot>;
}

/// Behind `key:pdf/viewport`.
pub trait ViewportService {
    /// What is shown of a document.
    fn viewport(&self, document: DocumentHandle) -> PdfExtensionResult<ViewportSnapshot>;
}

/// Behind `key:pdf/navigation`.
pub trait NavigationService {
    /// Moves to a place.
    fn navigate(&self, request: NavigationRequest) -> PdfExtensionResult<NavigationReceipt>;
}

/// Behind `key:pdf/overlays`.
pub trait OverlayService {
    /// Puts marks in the place of all the marks of the extension.
    fn replace_overlays(&self, batch: OverlayBatch) -> PdfExtensionResult<OverlayReceipt>;
}

/// Which services a host has.
#[derive(Clone, Copy, Debug, PartialEq, Eq, Structural)]
pub struct OfferedServices {
    pub document_metadata: bool,
    pub page_metadata: bool,
    pub outline: bool,
    pub links: bool,
    pub text: bool,
    pub selection: bool,
    pub viewport: bool,
    pub navigation: bool,
    pub overlays: bool,
}

impl OfferedServices {
    /// The service behind a capability is there.
    pub open spec fn backs(self, capability: PdfCapability) -> bool {
        match capability {
            PdfCapability::DocumentMetadata => self.document_metadata,
            PdfCapability::PageMetadata => self.page_metadata,
            PdfCapability::Outline => self.outline,
            PdfCapability::Links => self.links,
            PdfCapability::Text => self.text,
            PdfCapability::Selection => self.selection,
            PdfCapability::Viewport => self.viewport,
            PdfCapability::Navigation => self.navigation,
            PdfCapability::Overlays => self.overlays,
        }
    }

    fn offers(self, capability: PdfCapability) -> (offered: bool)
        ensures
            offered == self.backs(capability),
    {
        match capability {
            PdfCapability::DocumentMetadata => self.document_metadata,
            PdfCapability::PageMetadata => self.page_metadata,
            PdfCapability::Outline => self.outline,
            PdfCapability::Links => self.links,
            PdfCapability::Text => self.text,
            PdfCapability::Selection => self.selection,
            PdfCapability::Viewport => self.viewport,
            PdfCapability::Navigation => self.navigation,
            PdfCapability::Overlays => self.overlays,
        }
    }

    /// The capabilities that have a service behind them, in the order of the
    /// contract.
    pub fn capabilities(self) -> (provided: Vec<PdfCapability>)
        ensures
            provided@ == PdfCapability::spec_all().filter(
                |capability: PdfCapability| self.backs(capability),
            ),
    {
        let all = PdfCapability::all();
        let mut provided: Vec<PdfCapability> = Vec::new();
        let mut i: usize = 0;
        let ghost backed = |capability: PdfCapability| self.backs(capability);
        proof {
            reveal(Seq::filter);
            assert(all@.take(0).filter(backed) =~= Seq::<PdfCapability>::empty());
        }
        while i < 9
            invariant
                i <= 9,
                all@.len() == 9,
                backed == (|capability: PdfCapability| self.backs(capability)),
                provided@ == all@.take(i as int).filter(backed),
            decreases 9 - i,
        {
            proof {
                assert(all@.take(i + 1).drop_last() =~= all@.take(i as int));
                reveal(Seq::filter);
            }
            if self.offers(all[i]) {
                provided.push(all[i]);
            }
            i += 1;
        }
        assert(all@.take(9) =~= all@);
        provided
    }
}

/// Finds the services of a host. One that is not there is another matter than
/// one that refuses a call.
pub trait PdfServiceProvider {
    /// The service for documents, if there is one.
    fn document_metadata_service(&self) -> (service: Option<&dyn DocumentMetadataService>)
        default_ensures
            service is None,
    {
        None
    }

    /// The service for pages, if there is one.
    fn page_metadata_service(&self) -> (service: Option<&dyn PageMetadataService>)
        default_ensures
            service is None,
    {
        None
    }

    /// The service for outlines, if there is one.
    fn outline_service(&self) -> (service: Option<&dyn OutlineService>)
        default_ensures
            service is None,
    {
        None
    }

    /// The service for links, if there is one.
    fn link_service(&self) -> (service: Option<&dyn LinkService>)
        default_ensures
            service is None,
    {
        None
    }

    /// The service for text, if there is one.
    fn text_service(&self) -> (service: Option<&dyn TextService>)
        default_ensures
            service is None,
    {
        None
    }

    /// The service for selections, if there is one.
    fn selection_service(&self) -> (service: Option<&dyn SelectionService>)
        default_ensures
            service is None,
    {
        None
    }

    /// The service for views, if there is one.
    fn viewport_service(&self) -> (service: Option<&dyn ViewportService>)
        default_ensures
            service is None,
    {
        None
    }

    /// The service for navigation, if there is one.
    fn navigation_service(&self) -> (service: Option<&dyn NavigationService>)
        default_ensures
            service is None,
    {
        None
    }

    /// The service for marks, if there is one.
    fn overlay_service(&self) -> (service: Option<&dyn OverlayService>)
        default_ensures
            service is None,
    {
        None
    }

    /// The capabilities whose services are found.
    fn provided_pdf_capabilities(&self) -> (provided: Vec<PdfCapability>)
        default_ensures
            exists|offered: OfferedServices|
                {
                    &&& #[trigger] provides(offered, provided@)
                    &&& exists|service: Option<&dyn DocumentMetadataService>| #[trigger]
                        call_ensures(Self::document_metadata_service, (self,), service) && offered.document_metadata
                            == service is Some
                    &&& exists|service: Option<&dyn PageMetadataService>| #[trigger]
                        call_ensures(Self::page_metadata_service, (self,), service) && offered.page_metadata
                            == service is Some
                    &&& exists|service: Option<&dyn OutlineService>| #[trigger]
                        call_ensures(Self::outline_service, (self,), service) && offered.outline
                            == service is Some
                    &&& exists|service: Option<&dyn LinkService>| #[trigger]
                        call_ensures(Self::link_service, (self,), service) && offered.links
                            == service is Some
                    &&& exists|service: Option<&dyn TextService>| #[trigger]
                        call_ensures(Self::text_service, (self,), service) && offered.text
                            == service is Some
                    &&& exists|service: Option<&dyn SelectionService>| #[trigger]
                        call_ensures(Self::selection_service, (self,), service) && offered.selection
                            == service is Some
                    &&& exists|service: Option<&dyn ViewportService>| #[trigger]
                        call_ensures(Self::viewport_service, (self,), service) && offered.viewport
                            == service is Some
                    &&& exists|service: Option<&dyn NavigationService>| #[trigger]
                        call_ensures(Self::navigation_service, (self,), service) && offered.navigation
                            == service is Some
                    &&& exists|service: Option<&dyn OverlayService>| #[trigger]
                        call_ensures(Self::overlay_service, (self,), service) && offered.overlays
                            == service is Some
                },
    {
        let document_metadata = self.document_metadata_service();
        let page_metadata = self.page_metadata_service();
        let outline = self.outline_service();
        let links = self.link_service();
        let text = self.text_service();
        let selection = self.selection_service();
        let viewport = self.viewport_service();
        let navigation = self.navigation_service();
        let overlays = self.overlay_service();
        let offered = OfferedServices {
            document_metadata: document_metadata.is_some(),
            page_metadata: page_metadata.is_some(),
            outline: outline.is_some(),
            links: links.is_some(),
            text: text.is_some(),
            selection: selection.is_some(),
            viewport: viewport.is_some(),
            navigation: navigation.is_some(),
            overlays: overlays.is_some(),
        };
        let provided = offered.capabilities();
        assert(provides(offered, provided@));
        provided
    }
}

/// These are the capabilities that a host with these services has.
pub open spec fn provides(offered: OfferedServices, provided: Seq<PdfCapability>) -> bool {
    provided == PdfCapability::spec_all().filter(
        |capability: PdfCapability| offered.backs(capability),
    )
}

/// A host has a capability if and only if it has the service behind it, and the capabilities
/// that it has are in the order of the contract.
pub proof fn law_capabilities_have_a_service_behind_them(
    offered: OfferedServices,
    provided: Seq<PdfCapability>,
    capability: PdfCapability,
)
    requires
        provides(offered, provided),
    ensures
        provided.contains(capability) <==> match capability {
            PdfCapability::DocumentMetadata => offered.document_metadata,
            PdfCapability::PageMetadata => offered.page_metadata,
            PdfCapability::Outline => offered.outline,
            PdfCapability::Links => offered.links,
            PdfCapability::Text => offered.text,
            PdfCapability::Selection => offered.selection,
            PdfCapability::Viewport => offered.viewport,
            PdfCapability::Navigation => offered.navigation,
            PdfCapability::Overlays => offered.overlays,
        },
{
    let backed = |capability: PdfCapability| offered.backs(capability);
    let all = PdfCapability::spec_all();
    crate::extension::capability::law_the_contract_lists_every_capability(capability);
    if backed(capability) {
        let at = choose|at: int| 0 <= at < all.len() && all[at] == capability;
        all.lemma_filter_contains(backed, at);
    }
    if provided.contains(capability) {
        let i = choose|i: int| 0 <= i < provided.len() && provided[i] == capability;
        all.lemma_filter_pred(backed, i);
    }
}

} // verus!
