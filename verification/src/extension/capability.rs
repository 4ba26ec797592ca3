//! The capabilities that a PDF host offers one by one.

use crate::extension::ids::{CapabilityId, DocumentAccess, Permission};
use crate::text::same_text;
use vstd::prelude::*;

verus! {

/// Version of the contract between extensions and the host.
pub const PDF_EXTENSION_API_VERSION: &'static str = "0.1.0";

/// A capability that is negotiated on its own. No grant follows from another.
#[derive(Clone, Copy, Debug, PartialEq, Eq, PartialOrd, Ord, Hash, Structural)]
pub enum PdfCapability {
    DocumentMetadata,
    PageMetadata,
    Outline,
    Links,
    Text,
    Selection,
    Viewport,
    Navigation,
    Overlays,
}

impl PdfCapability {
    /// Every capability, in the order of the contract.
    pub open spec fn spec_all() -> Seq<PdfCapability> {
        seq![
            PdfCapability::DocumentMetadata,
            PdfCapability::PageMetadata,
            PdfCapability::Outline,
            PdfCapability::Links,
            PdfCapability::Text,
            PdfCapability::Selection,
            PdfCapability::Viewport,
            PdfCapability::Navigation,
            PdfCapability::Overlays,
        ]
    }

    /// Every capability, in the order of the contract.
    pub fn all() -> (all: [PdfCapability; 9])
        ensures
            all@ == PdfCapability::spec_all(),
    {
        let all = [
            PdfCapability::DocumentMetadata,
            PdfCapability::PageMetadata,
            PdfCapability::Outline,
            PdfCapability::Links,
            PdfCapability::Text,
            PdfCapability::Selection,
            PdfCapability::Viewport,
            PdfCapability::Navigation,
            PdfCapability::Overlays,
        ];
        assert(all@ =~= PdfCapability::spec_all());
        all
    }

    /// The name under which the capability is negotiated.
    pub open spec fn name(self) -> Seq<char> {
        match self {
            PdfCapability::DocumentMetadata => "key:pdf/document-metadata"@,
            PdfCapability::PageMetadata => "key:pdf/page-metadata"@,
            PdfCapability::Outline => "key:pdf/outline"@,
            PdfCapability::Links => "key:pdf/links"@,
            PdfCapability::Text => "key:pdf/text"@,
            PdfCapability::Selection => "key:pdf/selection"@,
            PdfCapability::Viewport => "key:pdf/viewport"@,
            PdfCapability::Navigation => "key:pdf/navigation"@,
            PdfCapability::Overlays => "key:pdf/overlays"@,
        }
    }

    /// The name under which the capability is negotiated.
    pub fn as_str(self) -> (text: &'static str)
        ensures
            text@ == self.name(),
    {
        match self {
            PdfCapability::DocumentMetadata => "key:pdf/document-metadata",
            PdfCapability::PageMetadata => "key:pdf/page-metadata",
            PdfCapability::Outline => "key:pdf/outline",
            PdfCapability::Links => "key:pdf/links",
            PdfCapability::Text => "key:pdf/text",
            PdfCapability::Selection => "key:pdf/selection",
            PdfCapability::Viewport => "key:pdf/viewport",
            PdfCapability::Navigation => "key:pdf/navigation",
            PdfCapability::Overlays => "key:pdf/overlays",
        }
    }

    /// The case of the interface definition that stands for the capability.
    pub open spec fn interface_case(self) -> Seq<char> {
        match self {
            PdfCapability::DocumentMetadata => "document-metadata"@,
            PdfCapability::PageMetadata => "page-metadata"@,
            PdfCapability::Outline => "outline"@,
            PdfCapability::Links => "links"@,
            PdfCapability::Text => "text"@,
            PdfCapability::Selection => "selection"@,
            PdfCapability::Viewport => "viewport"@,
            PdfCapability::Navigation => "navigation"@,
            PdfCapability::Overlays => "overlays"@,
        }
    }

    /// The case of the interface definition that stands for the capability.
    pub fn wit_case(self) -> (text: &'static str)
        ensures
            text@ == self.interface_case(),
    {
        match self {
            PdfCapability::DocumentMetadata => "document-metadata",
            PdfCapability::PageMetadata => "page-metadata",
            PdfCapability::Outline => "outline",
            PdfCapability::Links => "links",
            PdfCapability::Text => "text",
            PdfCapability::Selection => "selection",
            PdfCapability::Viewport => "viewport",
            PdfCapability::Navigation => "navigation",
            PdfCapability::Overlays => "overlays",
        }
    }

    /// The capability as any host names it.
    pub fn capability_id(self) -> (id: CapabilityId)
        ensures
            id.0@ == self.name(),
    {
        CapabilityId(self.as_str().to_owned())
    }

    /// What a user has to agree to before the capability is used.
    pub open spec fn permission(self) -> Permission {
        match self {
            PdfCapability::Text => Permission::ReadDocumentText(DocumentAccess::ActiveDocument),
            PdfCapability::Selection => Permission::ReadSelection,
            PdfCapability::Navigation => Permission::NavigateDocument,
            PdfCapability::Overlays => Permission::AddDocumentOverlays,
            _ => Permission::ReadDocumentMetadata,
        }
    }

    /// What a user has to agree to before the capability is used.
    pub fn required_permission(self) -> (permission: Permission)
        ensures
            permission == self.permission(),
    {
        match self {
            PdfCapability::DocumentMetadata => Permission::ReadDocumentMetadata,
            PdfCapability::PageMetadata => Permission::ReadDocumentMetadata,
            PdfCapability::Outline => Permission::ReadDocumentMetadata,
            PdfCapability::Links => Permission::ReadDocumentMetadata,
            PdfCapability::Viewport => Permission::ReadDocumentMetadata,
            PdfCapability::Text => Permission::ReadDocumentText(DocumentAccess::ActiveDocument),
            PdfCapability::Selection => Permission::ReadSelection,
            PdfCapability::Navigation => Permission::NavigateDocument,
            PdfCapability::Overlays => Permission::AddDocumentOverlays,
        }
    }

    /// The capability with a name.
    pub fn from_name(name: &str) -> (found: Option<PdfCapability>)
        ensures
            match found {
                Some(capability) => capability.name() == name@,
                None => forall|capability: PdfCapability| #[trigger] capability.name() != name@,
            },
    {
        let all = PdfCapability::all();
        let mut i: usize = 0;
        while i < 9
            invariant
                i <= 9,
                all@ == PdfCapability::spec_all(),
                forall|j: int| 0 <= j < i ==> (#[trigger] all@[j]).name() != name@,
            decreases 9 - i,
        {
            if same_text(all[i].as_str(), name) {
                return Some(all[i]);
            }
            i += 1;
        }
        proof {
            assert forall|capability: PdfCapability| #[trigger] capability.name() != name@ by {
                lemma_all_holds_every_capability(capability);
                let j = choose|j: int| 0 <= j < 9 && all@[j] == capability;
                assert(all@[j].name() != name@);
            }
        }
        None
    }
}

proof fn lemma_all_holds_every_capability(capability: PdfCapability)
    ensures
        exists|j: int| 0 <= j < 9 && PdfCapability::spec_all()[j] == capability,
{
    let all = PdfCapability::spec_all();
    assert(all[0] == PdfCapability::DocumentMetadata);
    assert(all[1] == PdfCapability::PageMetadata);
    assert(all[2] == PdfCapability::Outline);
    assert(all[3] == PdfCapability::Links);
    assert(all[4] == PdfCapability::Text);
    assert(all[5] == PdfCapability::Selection);
    assert(all[6] == PdfCapability::Viewport);
    assert(all[7] == PdfCapability::Navigation);
    assert(all[8] == PdfCapability::Overlays);
}

/// Where the capabilities stand in the contract.
spec fn position_of(capability: PdfCapability) -> int {
    match capability {
        PdfCapability::DocumentMetadata => 0,
        PdfCapability::PageMetadata => 1,
        PdfCapability::Outline => 2,
        PdfCapability::Links => 3,
        PdfCapability::Text => 4,
        PdfCapability::Selection => 5,
        PdfCapability::Viewport => 6,
        PdfCapability::Navigation => 7,
        PdfCapability::Overlays => 8,
    }
}

/// Which capability a name can be of, by two of its letters.
spec fn position_of_name(name: Seq<char>) -> int {
    let first = name[8];
    if first == 'd' {
        0
    } else if first == 'p' {
        1
    } else if first == 'l' {
        3
    } else if first == 't' {
        4
    } else if first == 's' {
        5
    } else if first == 'v' {
        6
    } else if first == 'n' {
        7
    } else if name[9] == 'u' {
        2
    } else {
        8
    }
}

proof fn lemma_name_gives_position(capability: PdfCapability)
    ensures
        position_of_name(capability.name()) == position_of(capability),
{
    match capability {
        PdfCapability::DocumentMetadata => {
            reveal_strlit("key:pdf/document-metadata");
        },
        PdfCapability::PageMetadata => {
            reveal_strlit("key:pdf/page-metadata");
        },
        PdfCapability::Outline => {
            reveal_strlit("key:pdf/outline");
        },
        PdfCapability::Links => {
            reveal_strlit("key:pdf/links");
        },
        PdfCapability::Text => {
            reveal_strlit("key:pdf/text");
        },
        PdfCapability::Selection => {
            reveal_strlit("key:pdf/selection");
        },
        PdfCapability::Viewport => {
            reveal_strlit("key:pdf/viewport");
        },
        PdfCapability::Navigation => {
            reveal_strlit("key:pdf/navigation");
        },
        PdfCapability::Overlays => {
            reveal_strlit("key:pdf/overlays");
        },
    }
}

/// No two capabilities have the same name, so a name finds back the capability
/// that it is of.
pub proof fn law_names_find_their_capability(a: PdfCapability, b: PdfCapability)
    requires
        a.name() == b.name(),
    ensures
        a == b,
{
    lemma_name_gives_position(a);
    lemma_name_gives_position(b);
}

/// Every name is that of the interface case under the package of this host.
pub proof fn law_names_are_package_and_case(capability: PdfCapability)
    ensures
        capability.name() == "key:pdf/"@ + capability.interface_case(),
{
    reveal_strlit("key:pdf/");
    match capability {
        PdfCapability::DocumentMetadata => {
            reveal_strlit("key:pdf/document-metadata");
            reveal_strlit("document-metadata");
        },
        PdfCapability::PageMetadata => {
            reveal_strlit("key:pdf/page-metadata");
            reveal_strlit("page-metadata");
        },
        PdfCapability::Outline => {
            reveal_strlit("key:pdf/outline");
            reveal_strlit("outline");
        },
        PdfCapability::Links => {
            reveal_strlit("key:pdf/links");
            reveal_strlit("links");
        },
        PdfCapability::Text => {
            reveal_strlit("key:pdf/text");
            reveal_strlit("text");
        },
        PdfCapability::Selection => {
            reveal_strlit("key:pdf/selection");
            reveal_strlit("selection");
        },
        PdfCapability::Viewport => {
            reveal_strlit("key:pdf/viewport");
            reveal_strlit("viewport");
        },
        PdfCapability::Navigation => {
            reveal_strlit("key:pdf/navigation");
            reveal_strlit("navigation");
        },
        PdfCapability::Overlays => {
            reveal_strlit("key:pdf/overlays");
            reveal_strlit("overlays");
        },
    }
    assert(capability.name() =~= "key:pdf/"@ + capability.interface_case());
}

/// Every capability stands in the contract exactly once.
pub proof fn law_the_contract_lists_every_capability(capability: PdfCapability)
    ensures
        PdfCapability::spec_all().contains(capability),
        PdfCapability::spec_all().no_duplicates(),
        PdfCapability::spec_all().len() == 9,
{
    let all = PdfCapability::spec_all();
    assert(all[0] is DocumentMetadata && all[1] is PageMetadata && all[2] is Outline && all[3]
        is Links && all[4] is Text && all[5] is Selection && all[6] is Viewport && all[7]
        is Navigation && all[8] is Overlays);
    assert(all[position_of(capability)] == capability);
}

/// To read text, to read what is selected, to move a reader and to mark a document each take
/// an agreement of their own, which nothing else takes. All else is metadata.
pub proof fn law_agreements_are_asked_for_one_by_one(capability: PdfCapability)
    ensures
        capability.permission() is ReadDocumentText <==> capability is Text,
        capability.permission() is ReadSelection <==> capability is Selection,
        capability.permission() is NavigateDocument <==> capability is Navigation,
        capability.permission() is AddDocumentOverlays <==> capability is Overlays,
        capability.permission() matches Permission::ReadDocumentText(access) ==> access
            is ActiveDocument,
{
}

/// The capabilities are negotiated under the names of the contract.
pub proof fn law_capabilities_have_the_names_of_the_contract()
    ensures
        PdfCapability::DocumentMetadata.name() == "key:pdf/document-metadata"@,
        PdfCapability::PageMetadata.name() == "key:pdf/page-metadata"@,
        PdfCapability::Outline.name() == "key:pdf/outline"@,
        PdfCapability::Links.name() == "key:pdf/links"@,
        PdfCapability::Text.name() == "key:pdf/text"@,
        PdfCapability::Selection.name() == "key:pdf/selection"@,
        PdfCapability::Viewport.name() == "key:pdf/viewport"@,
        PdfCapability::Navigation.name() == "key:pdf/navigation"@,
        PdfCapability::Overlays.name() == "key:pdf/overlays"@,
{
}

} // verus!
