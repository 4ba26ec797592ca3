//! Opaque handles of documents, pages and overlay sets.

use crate::extension::error::{
    InputErrorKind, PdfErrorView, PdfExtensionError, PdfExtensionResult,
};
use crate::extension::ids::{GenerationId, ResourceHandle};
use crate::text::same_text;
use vstd::prelude::*;

verus! {

/// Resources that are tied to one opening of a document.
pub trait GenerationScoped {
    /// The opening that issued the resource.
    spec fn issued_by(&self) -> GenerationId;

    /// The opening that issued the resource.
    fn generation(&self) -> (generation: GenerationId)
        ensures
            generation == self.issued_by(),
    ;
}

/// Identity of a handle that a host may issue: zero is kept back.
pub open spec fn identity_error(id: u64, field: Seq<char>) -> Option<PdfErrorView> {
    if id == 0 {
        Some(PdfErrorView::InvalidInput { field, reason: InputErrorKind::InvalidIdentifier })
    } else {
        None
    }
}

/// What is wrong with a resource that is to become a handle: its kind, then
/// its identity.
pub open spec fn resource_error(
    kind: Seq<char>,
    id: u64,
    expected: Seq<char>,
    field: Seq<char>,
) -> Option<PdfErrorView> {
    if kind != expected {
        Some(PdfErrorView::InvalidHandleKind { expected, actual: kind })
    } else {
        identity_error(id, field)
    }
}

/// An opened document.
#[derive(Clone, Copy, Debug, PartialEq, Eq, PartialOrd, Ord, Hash, Structural)]
pub struct DocumentHandle {
    generation: GenerationId,
    id: u64,
}

impl DocumentHandle {
    /// The opaque identity.
    pub closed spec fn spec_id(self) -> u64 {
        self.id
    }

    /// The opening.
    pub closed spec fn spec_generation(self) -> GenerationId {
        self.generation
    }

    /// Issues a handle.
    pub fn from_host_parts(generation: GenerationId, id: u64) -> (handle: PdfExtensionResult<
        DocumentHandle,
    >)
        ensures
            crate::extension::error::checks_to(handle, identity_error(id, "DocumentHandle.id"@)),
            handle matches Ok(handle) ==> handle.spec_id() == id && handle.spec_generation()
                == generation,
    {
        if id == 0 {
            return Err(
                PdfExtensionError::InvalidInput {
                    field: "DocumentHandle.id".to_owned(),
                    reason: InputErrorKind::InvalidIdentifier,
                },
            );
        }
        Ok(DocumentHandle { generation, id })
    }

    /// The opaque identity.
    pub fn id(self) -> (id: u64)
        ensures
            id == self.spec_id(),
    {
        self.id
    }

    /// The handle as a resource of any kind.
    pub fn to_resource_handle(self) -> (resource: ResourceHandle)
        ensures
            resource.kind@ == "key.pdf.document"@,
            resource.generation == self.spec_generation(),
            resource.id == self.spec_id(),
    {
        ResourceHandle {
            kind: "key.pdf.document".to_owned(),
            generation: self.generation,
            id: self.id,
        }
    }

    /// A resource of any kind as a handle.
    pub fn try_from_resource_handle(raw: ResourceHandle) -> (handle: PdfExtensionResult<
        DocumentHandle,
    >)
        ensures
            crate::extension::error::checks_to(
                handle,
                resource_error(raw.kind@, raw.id, "key.pdf.document"@, "DocumentHandle.id"@),
            ),
            handle matches Ok(handle) ==> handle.spec_id() == raw.id && handle.spec_generation()
                == raw.generation,
    {
        if !same_text(raw.kind.as_str(), "key.pdf.document") {
            return Err(
                PdfExtensionError::InvalidHandleKind {
                    expected: "key.pdf.document".to_owned(),
                    actual: raw.kind,
                },
            );
        }
        DocumentHandle::from_host_parts(raw.generation, raw.id)
    }
}

impl GenerationScoped for DocumentHandle {
    open spec fn issued_by(&self) -> GenerationId {
        self.spec_generation()
    }

    fn generation(&self) -> (generation: GenerationId) {
        self.generation
    }
}

/// A page of an opened document.
#[derive(Clone, Copy, Debug, PartialEq, Eq, PartialOrd, Ord, Hash, Structural)]
pub struct PageHandle {
    generation: GenerationId,
    id: u64,
}

impl PageHandle {
    /// The opaque identity.
    pub closed spec fn spec_id(self) -> u64 {
        self.id
    }

    /// The opening.
    pub closed spec fn spec_generation(self) -> GenerationId {
        self.generation
    }

    /// Issues a handle.
    pub fn from_host_parts(generation: GenerationId, id: u64) -> (handle: PdfExtensionResult<
        PageHandle,
    >)
        ensures
            crate::extension::error::checks_to(handle, identity_error(id, "PageHandle.id"@)),
            handle matches Ok(handle) ==> handle.spec_id() == id && handle.spec_generation()
                == generation,
    {
        if id == 0 {
            return Err(
                PdfExtensionError::InvalidInput {
                    field: "PageHandle.id".to_owned(),
                    reason: InputErrorKind::InvalidIdentifier,
                },
            );
        }
        Ok(PageHandle { generation, id })
    }

    /// The opaque identity.
    pub fn id(self) -> (id: u64)
        ensures
            id == self.spec_id(),
    {
        self.id
    }

    /// The handle as a resource of any kind.
    pub fn to_resource_handle(self) -> (resource: ResourceHandle)
        ensures
            resource.kind@ == "key.pdf.page"@,
            resource.generation == self.spec_generation(),
            resource.id == self.spec_id(),
    {
        ResourceHandle {
            kind: "key.pdf.page".to_owned(),
            generation: self.generation,
            id: self.id,
        }
    }

    /// A resource of any kind as a handle.
    pub fn try_from_resource_handle(raw: ResourceHandle) -> (handle: PdfExtensionResult<PageHandle>)
        ensures
            crate::extension::error::checks_to(
                handle,
                resource_error(raw.kind@, raw.id, "key.pdf.page"@, "PageHandle.id"@),
            ),
            handle matches Ok(handle) ==> handle.spec_id() == raw.id && handle.spec_generation()
                == raw.generation,
    {
        if !same_text(raw.kind.as_str(), "key.pdf.page") {
            return Err(
                PdfExtensionError::InvalidHandleKind {
                    expected: "key.pdf.page".to_owned(),
                    actual: raw.kind,
                },
            );
        }
        PageHandle::from_host_parts(raw.generation, raw.id)
    }
}

impl GenerationScoped for PageHandle {
    open spec fn issued_by(&self) -> GenerationId {
        self.spec_generation()
    }

    fn generation(&self) -> (generation: GenerationId) {
        self.generation
    }
}

/// A set of overlays that the host accepted.
#[derive(Clone, Copy, Debug, PartialEq, Eq, PartialOrd, Ord, Hash, Structural)]
pub struct OverlaySetHandle {
    generation: GenerationId,
    id: u64,
}

impl OverlaySetHandle {
    /// The opaque identity.
    pub closed spec fn spec_id(self) -> u64 {
        self.id
    }

    /// The opening.
    pub closed spec fn spec_generation(self) -> GenerationId {
        self.generation
    }

    /// Issues a handle.
    pub fn from_host_parts(generation: GenerationId, id: u64) -> (handle: PdfExtensionResult<
        OverlaySetHandle,
    >)
        ensures
            crate::extension::error::checks_to(handle, identity_error(id, "OverlaySetHandle.id"@)),
            handle matches Ok(handle) ==> handle.spec_id() == id && handle.spec_generation()
                == generation,
    {
        if id == 0 {
            return Err(
                PdfExtensionError::InvalidInput {
                    field: "OverlaySetHandle.id".to_owned(),
                    reason: InputErrorKind::InvalidIdentifier,
                },
            );
        }
        Ok(OverlaySetHandle { generation, id })
    }

    /// The opaque identity.
    pub fn id(self) -> (id: u64)
        ensures
            id == self.spec_id(),
    {
        self.id
    }

    /// The handle as a resource of any kind.
    pub fn to_resource_handle(self) -> (resource: ResourceHandle)
        ensures
            resource.kind@ == "key.pdf.overlay-set"@,
            resource.generation == self.spec_generation(),
            resource.id == self.spec_id(),
    {
        ResourceHandle {
            kind: "key.pdf.overlay-set".to_owned(),
            generation: self.generation,
            id: self.id,
        }
    }

    /// A resource of any kind as a handle.
    pub fn try_from_resource_handle(raw: ResourceHandle) -> (handle: PdfExtensionResult<
        OverlaySetHandle,
    >)
        ensures
            crate::extension::error::checks_to(
                handle,
                resource_error(raw.kind@, raw.id, "key.pdf.overlay-set"@, "OverlaySetHandle.id"@),
            ),
            handle matches Ok(handle) ==> handle.spec_id() == raw.id && handle.spec_generation()
                == raw.generation,
    {
        if !same_text(raw.kind.as_str(), "key.pdf.overlay-set") {
            return Err(
                PdfExtensionError::InvalidHandleKind {
                    expected: "key.pdf.overlay-set".to_owned(),
                    actual: raw.kind,
                },
            );
        }
        OverlaySetHandle::from_host_parts(raw.generation, raw.id)
    }
}

impl GenerationScoped for OverlaySetHandle {
    open spec fn issued_by(&self) -> GenerationId {
        self.spec_generation()
    }

    fn generation(&self) -> (generation: GenerationId) {
        self.generation
    }
}

/// Accepts resources of one opening only.
#[derive(Clone, Copy, Debug, PartialEq, Eq, Structural)]
pub struct GenerationScope {
    current: GenerationId,
}

/// What is wrong with the opening of a resource.
pub open spec fn generation_error(current: GenerationId, issued_by: GenerationId) -> Option<
    PdfErrorView,
> {
    if issued_by == current {
        None
    } else {
        Some(PdfErrorView::StaleGeneration { expected: current, actual: issued_by })
    }
}

impl GenerationScope {
    /// The opening that is accepted.
    pub closed spec fn spec_current(self) -> GenerationId {
        self.current
    }

    /// Accepts resources of this opening.
    pub fn new(current: GenerationId) -> (scope: GenerationScope)
        ensures
            scope.spec_current() == current,
    {
        GenerationScope { current }
    }

    /// The opening that is accepted.
    pub fn current(self) -> (current: GenerationId)
        ensures
            current == self.spec_current(),
    {
        self.current
    }

    /// Checks the opening of a resource.
    pub fn validate<T: GenerationScoped>(&self, resource: &T) -> (checked: PdfExtensionResult<()>)
        ensures
            crate::extension::error::checks_to(
                checked,
                generation_error(self.spec_current(), resource.issued_by()),
            ),
    {
        let actual = resource.generation();
        if actual == self.current {
            Ok(())
        } else {
            Err(PdfExtensionError::StaleGeneration { expected: self.current, actual })
        }
    }
}

/// The handle of a document that went through the form of any kind comes back
/// as it was.
pub proof fn law_document_handles_survive_the_generic_form(
    handle: DocumentHandle,
    resource: ResourceHandle,
    back: DocumentHandle,
)
    requires
        handle.spec_id() != 0,
        resource.kind@ == "key.pdf.document"@,
        resource.generation == handle.spec_generation(),
        resource.id == handle.spec_id(),
        back.spec_id() == resource.id,
        back.spec_generation() == resource.generation,
    ensures
        resource_error(resource.kind@, resource.id, "key.pdf.document"@, "DocumentHandle.id"@) is None,
        back == handle,
{
}

/// The handle of a page that went through the form of any kind comes back as it
/// was.
pub proof fn law_page_handles_survive_the_generic_form(
    handle: PageHandle,
    resource: ResourceHandle,
    back: PageHandle,
)
    requires
        handle.spec_id() != 0,
        resource.kind@ == "key.pdf.page"@,
        resource.generation == handle.spec_generation(),
        resource.id == handle.spec_id(),
        back.spec_id() == resource.id,
        back.spec_generation() == resource.generation,
    ensures
        resource_error(resource.kind@, resource.id, "key.pdf.page"@, "PageHandle.id"@) is None,
        back == handle,
{
}

/// The handle of a set of marks that went through the form of any kind comes
/// back as it was.
pub proof fn law_overlay_handles_survive_the_generic_form(
    handle: OverlaySetHandle,
    resource: ResourceHandle,
    back: OverlaySetHandle,
)
    requires
        handle.spec_id() != 0,
        resource.kind@ == "key.pdf.overlay-set"@,
        resource.generation == handle.spec_generation(),
        resource.id == handle.spec_id(),
        back.spec_id() == resource.id,
        back.spec_generation() == resource.generation,
    ensures
        resource_error(resource.kind@, resource.id, "key.pdf.overlay-set"@, "OverlaySetHandle.id"@) is None,
        back == handle,
{
}

/// A resource of one kind never becomes a handle of another.
pub proof fn law_kinds_do_not_mix(resource: ResourceHandle)
    ensures
        resource_error(resource.kind@, resource.id, "key.pdf.document"@, "DocumentHandle.id"@)
            is None ==> resource_error(
            resource.kind@,
            resource.id,
            "key.pdf.page"@,
            "PageHandle.id"@,
        ) is Some && resource_error(
            resource.kind@,
            resource.id,
            "key.pdf.overlay-set"@,
            "OverlaySetHandle.id"@,
        ) is Some,
        resource_error(resource.kind@, resource.id, "key.pdf.page"@, "PageHandle.id"@) is None
            ==> resource_error(
            resource.kind@,
            resource.id,
            "key.pdf.overlay-set"@,
            "OverlaySetHandle.id"@,
        ) is Some,
{
    reveal_strlit("key.pdf.document");
    reveal_strlit("key.pdf.page");
    reveal_strlit("key.pdf.overlay-set");
    assert("key.pdf.document"@[8] == 'd');
    assert("key.pdf.page"@[8] == 'p');
    assert("key.pdf.overlay-set"@[8] == 'o');
}

/// A handle passes if and only if it is of the opening that is accepted. No handle has the
/// number zero, and a resource becomes one only if it is of its kind.
pub proof fn law_handles_pass_in_their_opening(
    current: GenerationId,
    issued_by: GenerationId,
    id: u64,
    kind: Seq<char>,
    expected: Seq<char>,
    field: Seq<char>,
)
    ensures
        generation_error(current, issued_by) is None <==> current == issued_by,
        identity_error(id, field) is None <==> id != 0,
        resource_error(kind, id, expected, field) is None <==> kind == expected && id != 0,
{
}

/// A handle that is made into a resource of any kind and back is the same handle.
pub proof fn law_handles_come_back(
    document: DocumentHandle,
    document_form: ResourceHandle,
    document_back: PdfExtensionResult<DocumentHandle>,
    page: PageHandle,
    page_form: ResourceHandle,
    page_back: PdfExtensionResult<PageHandle>,
    marks: OverlaySetHandle,
    marks_form: ResourceHandle,
    marks_back: PdfExtensionResult<OverlaySetHandle>,
)
    requires
        document.spec_id() != 0,
        page.spec_id() != 0,
        marks.spec_id() != 0,
        call_ensures(DocumentHandle::to_resource_handle, (document,), document_form),
        call_ensures(
            DocumentHandle::try_from_resource_handle,
            (document_form,),
            document_back,
        ),
        call_ensures(PageHandle::to_resource_handle, (page,), page_form),
        call_ensures(PageHandle::try_from_resource_handle, (page_form,), page_back),
        call_ensures(OverlaySetHandle::to_resource_handle, (marks,), marks_form),
        call_ensures(OverlaySetHandle::try_from_resource_handle, (marks_form,), marks_back),
    ensures
        document_form.kind@ == "key.pdf.document"@,
        page_form.kind@ == "key.pdf.page"@,
        marks_form.kind@ == "key.pdf.overlay-set"@,
        document_back matches Ok(back) && back == document,
        page_back matches Ok(back) && back == page,
        marks_back matches Ok(back) && back == marks,
{
}

} // verus!
