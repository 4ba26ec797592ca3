//! Checks on everything that crosses the boundary to an extension.
//!
//! Each type has its own first fault, given by `contract_error`: the parts of a
//! value are looked at one after the other, and the fault of the first part
//! that has one is the answer.

use crate::extension::error::{
    InputErrorKind, PdfErrorView, PdfExtensionError, PdfExtensionResult,
};
use crate::extension::handle::{GenerationScope, GenerationScoped};
use crate::extension::ids::GenerationId;
use crate::extension::navigation::{DocumentDestination, NavigationRequest};
use crate::extension::overlay::{DocumentOverlay, OverlayBatch};
use crate::extension::snapshot::{
    DocumentMetadataSnapshot, LinkEntry, LinkTarget, NormalizedPoint, NormalizedRect, OutlineEntry,
    OutlineSnapshot, PageIndex, PageLinksSnapshot, PageMetadataSnapshot, PageTextRequest,
    PageTextSnapshot, SelectionPageSnapshot, SelectionSnapshot, TextCharacter, TextSelectionRange,
    ViewportSnapshot, VisiblePageSnapshot,
};
use crate::float_bits::{FloatBits, ONE_BITS};
use crate::text::{byte_len, decimal, join2, join4, trim};
use crate::text_set::TextSet;
use std::collections::{BTreeMap, BTreeSet};
use vstd::prelude::*;

verus! {

/// How large what an extension hands over may be.
#[derive(Clone, Debug, PartialEq, Eq)]
pub struct PdfContractLimits {
    /// Bytes of a label, a hint or a line of metadata.
    pub maximum_string_bytes: usize,
    /// Bytes of an address.
    pub maximum_uri_bytes: usize,
    pub maximum_outline_entries: usize,
    pub maximum_outline_depth: u16,
    pub maximum_links_per_page: usize,
    /// Characters that are asked for, or handed over, at once.
    pub maximum_text_characters: usize,
    pub maximum_selection_text_bytes: usize,
    /// Pages of a selection or of a view.
    pub maximum_snapshot_pages: usize,
    pub maximum_overlays: usize,
    pub maximum_regions_per_item: usize,
    pub maximum_total_regions: usize,
}

impl PdfContractLimits {
    /// The limits where nothing else was agreed on.
    pub open spec fn usual() -> PdfContractLimits {
        PdfContractLimits {
            maximum_string_bytes: 16_384,
            maximum_uri_bytes: 16_384,
            maximum_outline_entries: 20_000,
            maximum_outline_depth: 64,
            maximum_links_per_page: 20_000,
            maximum_text_characters: 100_000,
            maximum_selection_text_bytes: 4_194_304,
            maximum_snapshot_pages: 1_024,
            maximum_overlays: 2_048,
            maximum_regions_per_item: 64,
            maximum_total_regions: 8_192,
        }
    }
}

impl Default for PdfContractLimits {
    fn default() -> (limits: Self)
        ensures
            limits == PdfContractLimits::usual(),
    {
        PdfContractLimits {
            maximum_string_bytes: 16_384,
            maximum_uri_bytes: 16_384,
            maximum_outline_entries: 20_000,
            maximum_outline_depth: 64,
            maximum_links_per_page: 20_000,
            maximum_text_characters: 100_000,
            maximum_selection_text_bytes: 4_194_304,
            maximum_snapshot_pages: 1_024,
            maximum_overlays: 2_048,
            maximum_regions_per_item: 64,
            maximum_total_regions: 8_192,
        }
    }
}

/// The document that a value has to fit.
#[derive(Clone, Debug, PartialEq, Eq)]
pub struct PdfValidationContext {
    pub generation: GenerationId,
    pub page_count: u32,
    pub limits: PdfContractLimits,
}

/// What is wrong with a page of a document with so many.
pub open spec fn page_error(page: PageIndex, page_count: u32) -> Option<PdfErrorView> {
    if page.0 < page_count {
        None
    } else {
        Some(PdfErrorView::PageOutOfBounds { page: page.0, page_count })
    }
}

impl PdfValidationContext {
    /// A context with the usual limits.
    pub fn new(generation: GenerationId, page_count: u32) -> (context: PdfValidationContext)
        ensures
            context == (PdfValidationContext {
                generation,
                page_count,
                limits: PdfContractLimits::usual(),
            }),
    {
        PdfValidationContext { generation, page_count, limits: PdfContractLimits::default() }
    }

    /// A context with limits of its own.
    pub fn with_limits(
        generation: GenerationId,
        page_count: u32,
        limits: PdfContractLimits,
    ) -> (context: PdfValidationContext)
        ensures
            context == (PdfValidationContext { generation, page_count, limits }),
    {
        PdfValidationContext { generation, page_count, limits }
    }

    /// What is wrong with the opening that a handle is of.
    pub open spec fn handle_error<T: GenerationScoped>(&self, handle: T) -> Option<PdfErrorView> {
        crate::extension::handle::generation_error(self.generation, handle.issued_by())
    }

    /// Checks the opening that a handle is of.
    pub fn validate_handle<T: GenerationScoped>(&self, handle: &T) -> (checked: PdfExtensionResult<
        (),
    >)
        ensures
            crate::extension::error::checks_to(checked, self.handle_error(*handle)),
    {
        GenerationScope::new(self.generation).validate(handle)
    }

    /// Checks that the document has a page. The name of the field is not part
    /// of the fault.
    pub fn validate_page(&self, _field: &str, page: PageIndex) -> (checked: PdfExtensionResult<()>)
        ensures
            crate::extension::error::checks_to(checked, page_error(page, self.page_count)),
    {
        if page.0 < self.page_count {
            Ok(())
        } else {
            Err(PdfExtensionError::PageOutOfBounds { page: page.0, page_count: self.page_count })
        }
    }
}

/// Values that are checked at the boundary.
pub trait ValidatePdfContract {
    /// The first fault of the value.
    spec fn contract_error(&self, context: &PdfValidationContext) -> Option<PdfErrorView>;

    /// Checks openings, pages, geometry, texts and sizes.
    fn validate_contract(&self, context: &PdfValidationContext) -> (checked: PdfExtensionResult<()>)
        ensures
            crate::extension::error::checks_to(checked, self.contract_error(context)),
    ;
}

/// The first of two faults.
pub open spec fn first(a: Option<PdfErrorView>, b: Option<PdfErrorView>) -> Option<PdfErrorView> {
    if a is Some {
        a
    } else {
        b
    }
}

/// A field that is wrong in itself.
pub open spec fn input_error(field: Seq<char>, reason: InputErrorKind) -> Option<PdfErrorView> {
    Some(PdfErrorView::InvalidInput { field, reason })
}

fn invalid(field: String, reason: InputErrorKind) -> (outcome: PdfExtensionResult<()>)
    ensures
        crate::extension::error::checks_to(outcome, input_error(field@, reason)),
{
    Err(PdfExtensionError::InvalidInput { field, reason })
}

/// More of something than is let through.
pub open spec fn limit_error(field: Seq<char>, actual: int, maximum: int) -> Option<PdfErrorView> {
    if actual <= maximum {
        None
    } else {
        Some(
            PdfErrorView::LimitExceeded { field, limit: maximum as u64, actual: actual as u64 },
        )
    }
}

fn limit(field: &str, actual: usize, maximum: usize) -> (checked: PdfExtensionResult<()>)
    ensures
        crate::extension::error::checks_to(
            checked,
            limit_error(field@, actual as int, maximum as int),
        ),
{
    if actual <= maximum {
        Ok(())
    } else {
        Err(
            PdfExtensionError::LimitExceeded {
                field: field.to_owned(),
                limit: maximum as u64,
                actual: actual as u64,
            },
        )
    }
}

/// The path of an item of a list.
pub open spec fn item_path(list: Seq<char>, index: int) -> Seq<char> {
    list + "["@ + crate::text::decimal_text(index as nat) + "]"@
}

fn item(list: &str, index: usize) -> (path: String)
    ensures
        path@ == item_path(list@, index as int),
{
    join4(list, "[", decimal(index as u64).as_str(), "]")
}

/// A text that has to say something.
pub open spec fn required_text_error(
    field: Seq<char>,
    text: Seq<char>,
    maximum: int,
) -> Option<PdfErrorView> {
    if crate::text::trim_text(text).len() == 0 {
        input_error(field, InputErrorKind::Empty)
    } else {
        limit_error(field, crate::text::utf8_len(text) as int, maximum)
    }
}

fn required_string(field: &str, value: &str, maximum: usize) -> (checked: PdfExtensionResult<()>)
    ensures
        crate::extension::error::checks_to(
            checked,
            required_text_error(field@, value@, maximum as int),
        ),
{
    let trimmed = trim(value);
    if byte_len(trimmed.as_str()) == 0 {
        proof {
            lemma_no_bytes_no_text(trimmed@);
        }
        invalid(field.to_owned(), InputErrorKind::Empty)
    } else {
        proof {
            if trimmed@.len() == 0 {
                assert(trimmed@ =~= Seq::<char>::empty());
                assert(crate::text::utf8_len(trimmed@) == 0);
            }
        }
        limit(field, byte_len(value), maximum)
    }
}

proof fn lemma_no_bytes_no_text(text: Seq<char>)
    requires
        crate::text::utf8_len(text) == 0,
    ensures
        text.len() == 0,
{
    if text.len() > 0 {
        vstd::utf8::encode_utf8_first_scalar(text);
    }
}

/// A text that may be missing.
pub open spec fn optional_text_error(
    field: Seq<char>,
    text: Option<String>,
    maximum: int,
) -> Option<PdfErrorView> {
    match text {
        None => None,
        Some(text) => limit_error(field, crate::text::utf8_len(text@) as int, maximum),
    }
}

fn optional_string(field: &str, value: &Option<String>, maximum: usize) -> (checked:
    PdfExtensionResult<()>)
    ensures
        crate::extension::error::checks_to(
            checked,
            optional_text_error(field@, *value, maximum as int),
        ),
{
    match value {
        None => Ok(()),
        Some(text) => limit(field, byte_len(text.as_str()), maximum),
    }
}

/// A number that has to lie from zero to one.
pub open spec fn normalized_error(field: Seq<char>, value: FloatBits) -> Option<PdfErrorView> {
    if !value.finite() {
        input_error(field, InputErrorKind::NotFinite)
    } else if !(0 <= value.rank() <= ONE_BITS) {
        input_error(field, InputErrorKind::OutsideNormalizedRange)
    } else {
        None
    }
}

fn normalized(field: &str, value: FloatBits) -> (checked: PdfExtensionResult<()>)
    ensures
        crate::extension::error::checks_to(checked, normalized_error(field@, value)),
{
    if !value.is_finite() {
        invalid(field.to_owned(), InputErrorKind::NotFinite)
    } else if !value.is_normalized() {
        invalid(field.to_owned(), InputErrorKind::OutsideNormalizedRange)
    } else {
        Ok(())
    }
}

/// A number that has to be above zero.
pub open spec fn positive_error(field: Seq<char>, value: FloatBits) -> Option<PdfErrorView> {
    if !value.finite() {
        input_error(field, InputErrorKind::NotFinite)
    } else if value.rank() <= 0 {
        input_error(field, InputErrorKind::Empty)
    } else {
        None
    }
}

fn positive_finite(field: &str, value: FloatBits) -> (checked: PdfExtensionResult<()>)
    ensures
        crate::extension::error::checks_to(checked, positive_error(field@, value)),
{
    if !value.is_finite() {
        invalid(field.to_owned(), InputErrorKind::NotFinite)
    } else if value.order() <= 0 {
        invalid(field.to_owned(), InputErrorKind::Empty)
    } else {
        Ok(())
    }
}

/// A point that has to lie on the page.
pub open spec fn point_error(field: Seq<char>, point: NormalizedPoint) -> Option<PdfErrorView> {
    first(normalized_error(field + ".x"@, point.x), normalized_error(field + ".y"@, point.y))
}

fn validate_point(field: &str, point: NormalizedPoint) -> (checked: PdfExtensionResult<()>)
    ensures
        crate::extension::error::checks_to(checked, point_error(field@, point)),
{
    if let Err(error) = normalized(join2(field, ".x").as_str(), point.x) {
        return Err(error);
    }
    normalized(join2(field, ".y").as_str(), point.y)
}

/// A rectangle that has to lie on the page and hold something.
pub open spec fn rect_error(field: Seq<char>, rect: NormalizedRect) -> Option<PdfErrorView> {
    first(
        normalized_error(field + ".left"@, rect.left),
        first(
            normalized_error(field + ".top"@, rect.top),
            first(
                normalized_error(field + ".right"@, rect.right),
                first(
                    normalized_error(field + ".bottom"@, rect.bottom),
                    if rect.right.rank() <= rect.left.rank() || rect.bottom.rank()
                        <= rect.top.rank() {
                        input_error(field, InputErrorKind::EmptyOrReversedRect)
                    } else {
                        None
                    },
                ),
            ),
        ),
    )
}

fn validate_rect(field: &str, rect: NormalizedRect) -> (checked: PdfExtensionResult<()>)
    ensures
        crate::extension::error::checks_to(checked, rect_error(field@, rect)),
{
    if let Err(error) = normalized(join2(field, ".left").as_str(), rect.left) {
        return Err(error);
    }
    if let Err(error) = normalized(join2(field, ".top").as_str(), rect.top) {
        return Err(error);
    }
    if let Err(error) = normalized(join2(field, ".right").as_str(), rect.right) {
        return Err(error);
    }
    if let Err(error) = normalized(join2(field, ".bottom").as_str(), rect.bottom) {
        return Err(error);
    }
    if rect.right.order() <= rect.left.order() || rect.bottom.order() <= rect.top.order() {
        invalid(field.to_owned(), InputErrorKind::EmptyOrReversedRect)
    } else {
        Ok(())
    }
}

/// The first fault among rectangles from one on.
pub open spec fn rects_error(field: Seq<char>, regions: Seq<NormalizedRect>, from: int) -> Option<
    PdfErrorView,
>
    decreases regions.len() - from,
{
    if from < 0 || from >= regions.len() {
        None
    } else {
        first(
            rect_error(item_path(field, from), regions[from]),
            rects_error(field, regions, from + 1),
        )
    }
}

/// Regions of an item: how many there are, then each of them.
pub open spec fn regions_error(
    field: Seq<char>,
    regions: Seq<NormalizedRect>,
    maximum: int,
    allow_empty: bool,
) -> Option<PdfErrorView> {
    if !allow_empty && regions.len() == 0 {
        input_error(field, InputErrorKind::Empty)
    } else {
        first(
            limit_error(field, regions.len() as int, maximum),
            rects_error(field, regions, 0),
        )
    }
}

fn validate_regions(
    field: &str,
    regions: &Vec<NormalizedRect>,
    maximum: usize,
    allow_empty: bool,
) -> (checked: PdfExtensionResult<()>)
    ensures
        crate::extension::error::checks_to(
            checked,
            regions_error(field@, regions@, maximum as int, allow_empty),
        ),
{
    if !allow_empty && regions.len() == 0 {
        return invalid(field.to_owned(), InputErrorKind::Empty);
    }
    if let Err(error) = limit(field, regions.len(), maximum) {
        return Err(error);
    }
    let mut index: usize = 0;
    while index < regions.len()
        invariant
            index <= regions@.len(),
            regions_error(field@, regions@, maximum as int, allow_empty) == rects_error(
                field@,
                regions@,
                index as int,
            ),
        decreases regions@.len() - index,
    {
        if let Err(error) = validate_rect(item(field, index).as_str(), regions[index]) {
            return Err(error);
        }
        index += 1;
    }
    Ok(())
}

/// A selection whose ends have to lie in the document.
pub open spec fn range_error(range: TextSelectionRange, page_count: u32) -> Option<PdfErrorView> {
    first(page_error(range.anchor.page, page_count), page_error(range.focus.page, page_count))
}

fn validate_range(
    path: &str,
    range: TextSelectionRange,
    context: &PdfValidationContext,
) -> (checked: PdfExtensionResult<()>)
    ensures
        crate::extension::error::checks_to(checked, range_error(range, context.page_count)),
{
    if let Err(error) = context.validate_page(path, range.anchor.page) {
        return Err(error);
    }
    context.validate_page(path, range.focus.page)
}

/// A place that has to lie in the document.
pub open spec fn destination_error(
    path: Seq<char>,
    destination: DocumentDestination,
    context: &PdfValidationContext,
) -> Option<PdfErrorView> {
    first(
        page_error(destination.page, context.page_count),
        first(
            match destination.x_fraction {
                Some(x) => normalized_error(path + ".x_fraction"@, x),
                None => None,
            },
            first(
                match destination.y_fraction {
                    Some(y) => normalized_error(path + ".y_fraction"@, y),
                    None => None,
                },
                first(
                    match destination.text_range {
                        Some(range) => range_error(range, context.page_count),
                        None => None,
                    },
                    match destination.text_hint {
                        Some(hint) => required_text_error(
                            path + ".text_hint.text"@,
                            hint.text@,
                            context.limits.maximum_string_bytes as int,
                        ),
                        None => None,
                    },
                ),
            ),
        ),
    )
}

fn validate_destination(
    path: &str,
    destination: &DocumentDestination,
    context: &PdfValidationContext,
) -> (checked: PdfExtensionResult<()>)
    ensures
        crate::extension::error::checks_to(
            checked,
            destination_error(path@, *destination, context),
        ),
{
    if let Err(error) = context.validate_page(path, destination.page) {
        return Err(error);
    }
    if let Some(x) = destination.x_fraction {
        if let Err(error) = normalized(join2(path, ".x_fraction").as_str(), x) {
            return Err(error);
        }
    }
    if let Some(y) = destination.y_fraction {
        if let Err(error) = normalized(join2(path, ".y_fraction").as_str(), y) {
            return Err(error);
        }
    }
    if let Some(range) = destination.text_range {
        if let Err(error) = validate_range(path, range, context) {
            return Err(error);
        }
    }
    if let Some(hint) = &destination.text_hint {
        return required_string(
            join2(path, ".text_hint.text").as_str(),
            hint.text.as_str(),
            context.limits.maximum_string_bytes,
        );
    }
    Ok(())
}

impl ValidatePdfContract for DocumentMetadataSnapshot {
    open spec fn contract_error(&self, context: &PdfValidationContext) -> Option<PdfErrorView> {
        let maximum = context.limits.maximum_string_bytes as int;
        first(
            context.handle_error(self.document),
            if self.page_count != context.page_count {
                input_error("document.page_count"@, InputErrorKind::InvalidIdentifier)
            } else {
                first(
                    optional_text_error("document.title"@, self.title, maximum),
                    first(
                        optional_text_error("document.author"@, self.author, maximum),
                        first(
                            optional_text_error("document.subject"@, self.subject, maximum),
                            first(
                                optional_text_error("document.keywords"@, self.keywords, maximum),
                                first(
                                    optional_text_error("document.creator"@, self.creator, maximum),
                                    first(
                                        optional_text_error(
                                            "document.producer"@,
                                            self.producer,
                                            maximum,
                                        ),
                                        first(
                                            optional_text_error(
                                                "document.language"@,
                                                self.language,
                                                maximum,
                                            ),
                                            optional_text_error(
                                                "document.format_version"@,
                                                self.format_version,
                                                maximum,
                                            ),
                                        ),
                                    ),
                                ),
                            ),
                        ),
                    ),
                )
            },
        )
    }

    fn validate_contract(&self, context: &PdfValidationContext) -> (checked: PdfExtensionResult<
        (),
    >) {
        let maximum: usize = context.limits.maximum_string_bytes;
        if let Err(error) = context.validate_handle(&self.document) {
            return Err(error);
        }
        if self.page_count != context.page_count {
            return invalid("document.page_count".to_owned(), InputErrorKind::InvalidIdentifier);
        }
        if let Err(error) = optional_string("document.title", &self.title, maximum) {
            return Err(error);
        }
        if let Err(error) = optional_string("document.author", &self.author, maximum) {
            return Err(error);
        }
        if let Err(error) = optional_string("document.subject", &self.subject, maximum) {
            return Err(error);
        }
        if let Err(error) = optional_string("document.keywords", &self.keywords, maximum) {
            return Err(error);
        }
        if let Err(error) = optional_string("document.creator", &self.creator, maximum) {
            return Err(error);
        }
        if let Err(error) = optional_string("document.producer", &self.producer, maximum) {
            return Err(error);
        }
        if let Err(error) = optional_string("document.language", &self.language, maximum) {
            return Err(error);
        }
        optional_string("document.format_version", &self.format_version, maximum)
    }
}

impl ValidatePdfContract for PageMetadataSnapshot {
    open spec fn contract_error(&self, context: &PdfValidationContext) -> Option<PdfErrorView> {
        first(
            context.handle_error(self.document),
            first(
                context.handle_error(self.page),
                first(
                    page_error(self.index, context.page_count),
                    first(
                        optional_text_error(
                            "page.label"@,
                            self.label,
                            context.limits.maximum_string_bytes as int,
                        ),
                        first(
                            positive_error("page.width_points"@, self.width_points),
                            positive_error("page.height_points"@, self.height_points),
                        ),
                    ),
                ),
            ),
        )
    }

    fn validate_contract(&self, context: &PdfValidationContext) -> (checked: PdfExtensionResult<
        (),
    >) {
        if let Err(error) = context.validate_handle(&self.document) {
            return Err(error);
        }
        if let Err(error) = context.validate_handle(&self.page) {
            return Err(error);
        }
        if let Err(error) = context.validate_page("page.index", self.index) {
            return Err(error);
        }
        if let Err(error) = optional_string(
            "page.label",
            &self.label,
            context.limits.maximum_string_bytes,
        ) {
            return Err(error);
        }
        if let Err(error) = positive_finite("page.width_points", self.width_points) {
            return Err(error);
        }
        positive_finite("page.height_points", self.height_points)
    }
}

/// An entry before this one has the same identity.
pub open spec fn outline_id_used(entries: Seq<OutlineEntry>, at: int, id: u64) -> bool {
    exists|j: int| 0 <= j < at && (#[trigger] entries[j]).id.0 == id
}

/// The entry above is the right one: none for a root, and for any other an
/// entry that came before and stands one level higher.
pub open spec fn parent_fits(entries: Seq<OutlineEntry>, at: int) -> bool {
    match entries[at].parent {
        None => entries[at].depth == 0,
        Some(parent) => entries[at].depth > 0 && exists|j: int|
            0 <= j < at && (#[trigger] entries[j]).id == parent && entries[j].depth + 1
                == entries[at].depth,
    }
}

/// What is wrong with one entry, given those before it.
pub open spec fn outline_entry_error(
    entries: Seq<OutlineEntry>,
    at: int,
    context: &PdfValidationContext,
) -> Option<PdfErrorView> {
    let entry = entries[at];
    let base = item_path("outline.entries"@, at);
    if entry.id.0 == 0 || outline_id_used(entries, at, entry.id.0) {
        input_error(base + ".id"@, InputErrorKind::InvalidIdentifier)
    } else if entry.depth > context.limits.maximum_outline_depth {
        limit_error(
            base + ".depth"@,
            entry.depth as int,
            context.limits.maximum_outline_depth as int,
        )
    } else if !parent_fits(entries, at) {
        input_error(base + ".parent"@, InputErrorKind::InvalidIdentifier)
    } else {
        first(
            required_text_error(
                base + ".title"@,
                entry.title@,
                context.limits.maximum_string_bytes as int,
            ),
            destination_error(base + ".destination"@, entry.destination, context),
        )
    }
}

/// The first fault among entries from one on.
pub open spec fn outline_entries_error(
    entries: Seq<OutlineEntry>,
    from: int,
    context: &PdfValidationContext,
) -> Option<PdfErrorView>
    decreases entries.len() - from,
{
    if from < 0 || from >= entries.len() {
        None
    } else {
        first(
            outline_entry_error(entries, from, context),
            outline_entries_error(entries, from + 1, context),
        )
    }
}

/// The depths of the entries before one, by their identities.
spec fn depths_before(entries: Seq<OutlineEntry>, at: int, depths: Map<u64, u16>) -> bool {
    &&& forall|j: int|
        0 <= j < at ==> depths.contains_key((#[trigger] entries[j]).id.0)
            && depths[entries[j].id.0] == entries[j].depth
    &&& forall|id: u64| #[trigger] depths.contains_key(id) ==> outline_id_used(entries, at, id)
}

fn validate_outline_entry(
    entries: &Vec<OutlineEntry>,
    index: usize,
    depths: &BTreeMap<u64, u16>,
    context: &PdfValidationContext,
) -> (checked: PdfExtensionResult<()>)
    requires
        index < entries@.len(),
        depths_before(entries@, index as int, depths@),
    ensures
        crate::extension::error::checks_to(
            checked,
            outline_entry_error(entries@, index as int, context),
        ),
{
    let entry = &entries[index];
    let base = item("outline.entries", index);
    if entry.id.0 == 0 || depths.contains_key(&entry.id.0) {
        return invalid(join2(base.as_str(), ".id"), InputErrorKind::InvalidIdentifier);
    }
    proof {
        if outline_id_used(entries@, index as int, entry.id.0) {
            let j = choose|j: int| 0 <= j < index && (#[trigger] entries@[j]).id.0 == entry.id.0;
            assert(depths@.contains_key(entries@[j].id.0));
        }
    }
    if entry.depth > context.limits.maximum_outline_depth {
        return limit(
            join2(base.as_str(), ".depth").as_str(),
            entry.depth as usize,
            context.limits.maximum_outline_depth as usize,
        );
    }
    let fits = match entry.parent {
        None => entry.depth == 0,
        Some(parent) => match depths.get(&parent.0) {
            None => false,
            Some(depth) => entry.depth > 0 && *depth == entry.depth - 1,
        },
    };
    proof {
        lemma_parent_fits(entries@, index as int, depths@);
    }
    if !fits {
        return invalid(join2(base.as_str(), ".parent"), InputErrorKind::InvalidIdentifier);
    }
    if let Err(error) = required_string(
        join2(base.as_str(), ".title").as_str(),
        entry.title.as_str(),
        context.limits.maximum_string_bytes,
    ) {
        return Err(error);
    }
    validate_destination(join2(base.as_str(), ".destination").as_str(), &entry.destination, context)
}

/// The depths by identity are enough to tell whether the entry above fits.
proof fn lemma_parent_fits(entries: Seq<OutlineEntry>, at: int, depths: Map<u64, u16>)
    requires
        0 <= at < entries.len(),
        depths_before(entries, at, depths),
    ensures
        parent_fits(entries, at) == match entries[at].parent {
            None => entries[at].depth == 0,
            Some(parent) => depths.contains_key(parent.0) && depths[parent.0] + 1
                == entries[at].depth,
        },
{
    if let Some(parent) = entries[at].parent {
        if depths.contains_key(parent.0) {
            assert(outline_id_used(entries, at, parent.0));
            let j = choose|j: int| 0 <= j < at && (#[trigger] entries[j]).id.0 == parent.0;
            assert(entries[j].id == parent);
        }
    }
}

impl ValidatePdfContract for OutlineSnapshot {
    open spec fn contract_error(&self, context: &PdfValidationContext) -> Option<PdfErrorView> {
        first(
            context.handle_error(self.document),
            first(
                limit_error(
                    "outline.entries"@,
                    self.entries@.len() as int,
                    context.limits.maximum_outline_entries as int,
                ),
                outline_entries_error(self.entries@, 0, context),
            ),
        )
    }

    fn validate_contract(&self, context: &PdfValidationContext) -> (checked: PdfExtensionResult<
        (),
    >) {
            if let Err(error) = context.validate_handle(&self.document) {
            return Err(error);
        }
        if let Err(error) = limit(
            "outline.entries",
            self.entries.len(),
            context.limits.maximum_outline_entries,
        ) {
            return Err(error);
        }
        let mut depths: BTreeMap<u64, u16> = BTreeMap::new();
        let mut index: usize = 0;
        while index < self.entries.len()
            invariant
                index <= self.entries@.len(),
                depths_before(self.entries@, index as int, depths@),
                self.contract_error(context) == outline_entries_error(
                    self.entries@,
                    index as int,
                    context,
                ),
            decreases self.entries@.len() - index,
        {
            if let Err(error) = validate_outline_entry(&self.entries, index, &depths, context) {
                return Err(error);
            }
            let ghost before = depths@;
            depths.insert(self.entries[index].id.0, self.entries[index].depth);
            proof {
                let id = self.entries@[index as int].id.0;
                assert(!outline_id_used(self.entries@, index as int, id));
                assert forall|j: int| 0 <= j < index + 1 implies depths@.contains_key(
                    (#[trigger] self.entries@[j]).id.0,
                ) && depths@[self.entries@[j].id.0] == self.entries@[j].depth by {
                    if j < index {
                        assert(self.entries@[j].id.0 != id);
                    }
                }
                assert forall|other: u64| #[trigger]
                    depths@.contains_key(other) implies outline_id_used(
                    self.entries@,
                    index + 1,
                    other,
                ) by {
                    if other == id {
                        assert(self.entries@[index as int].id.0 == other);
                    } else {
                        assert(before.contains_key(other));
                        assert(outline_id_used(self.entries@, index as int, other));
                        let j = choose|j: int|
                            0 <= j < index && (#[trigger] self.entries@[j]).id.0 == other;
                        assert(self.entries@[j].id.0 == other);
                    }
                }
            }
            index += 1;
        }
        Ok(())
    }
}

/// A link before this one has the same identity.
pub open spec fn link_id_used(links: Seq<LinkEntry>, at: int, id: u64) -> bool {
    exists|j: int| 0 <= j < at && (#[trigger] links[j]).id.0 == id
}

/// What is wrong with one link, given those before it.
pub open spec fn link_error(
    links: Seq<LinkEntry>,
    at: int,
    context: &PdfValidationContext,
) -> Option<PdfErrorView> {
    let link = links[at];
    let base = item_path("links.items"@, at);
    if link.id.0 == 0 || link_id_used(links, at, link.id.0) {
        input_error(base + ".id"@, InputErrorKind::InvalidIdentifier)
    } else {
        first(
            regions_error(
                base + ".regions"@,
                link.regions@,
                context.limits.maximum_regions_per_item as int,
                false,
            ),
            first(
                match link.source_range {
                    Some(range) => range_error(range, context.page_count),
                    None => None,
                },
                match link.target {
                    LinkTarget::Internal { destination } => destination_error(
                        base + ".target"@,
                        destination,
                        context,
                    ),
                    LinkTarget::External { uri } => required_text_error(
                        base + ".target.uri"@,
                        uri@,
                        context.limits.maximum_uri_bytes as int,
                    ),
                },
            ),
        )
    }
}

/// The first fault among links from one on.
pub open spec fn links_error(
    links: Seq<LinkEntry>,
    from: int,
    context: &PdfValidationContext,
) -> Option<PdfErrorView>
    decreases links.len() - from,
{
    if from < 0 || from >= links.len() {
        None
    } else {
        first(link_error(links, from, context), links_error(links, from + 1, context))
    }
}

/// Everything about a link but its identity.
fn validate_link(link: &LinkEntry, base: &str, context: &PdfValidationContext) -> (checked:
    PdfExtensionResult<()>)
    ensures
        crate::extension::error::checks_to(
            checked,
            first(
                regions_error(
                    base@ + ".regions"@,
                    link.regions@,
                    context.limits.maximum_regions_per_item as int,
                    false,
                ),
                first(
                    match link.source_range {
                        Some(range) => range_error(range, context.page_count),
                        None => None,
                    },
                    match link.target {
                        LinkTarget::Internal { destination } => destination_error(
                            base@ + ".target"@,
                            destination,
                            context,
                        ),
                        LinkTarget::External { uri } => required_text_error(
                            base@ + ".target.uri"@,
                            uri@,
                            context.limits.maximum_uri_bytes as int,
                        ),
                    },
                ),
            ),
        ),
{
    if let Err(error) = validate_regions(
        join2(base, ".regions").as_str(),
        &link.regions,
        context.limits.maximum_regions_per_item,
        false,
    ) {
        return Err(error);
    }
    if let Some(range) = link.source_range {
        if let Err(error) = validate_range(base, range, context) {
            return Err(error);
        }
    }
    match &link.target {
        LinkTarget::Internal { destination } => validate_destination(
            join2(base, ".target").as_str(),
            destination,
            context,
        ),
        LinkTarget::External { uri } => required_string(
            join2(base, ".target.uri").as_str(),
            uri.as_str(),
            context.limits.maximum_uri_bytes,
        ),
    }
}

impl ValidatePdfContract for PageLinksSnapshot {
    open spec fn contract_error(&self, context: &PdfValidationContext) -> Option<PdfErrorView> {
        first(
            context.handle_error(self.page),
            first(
                page_error(self.index, context.page_count),
                first(
                    limit_error(
                        "links.items"@,
                        self.links@.len() as int,
                        context.limits.maximum_links_per_page as int,
                    ),
                    links_error(self.links@, 0, context),
                ),
            ),
        )
    }

    fn validate_contract(&self, context: &PdfValidationContext) -> (checked: PdfExtensionResult<
        (),
    >) {
        if let Err(error) = context.validate_handle(&self.page) {
            return Err(error);
        }
        if let Err(error) = context.validate_page("links.page", self.index) {
            return Err(error);
        }
        if let Err(error) = limit(
            "links.items",
            self.links.len(),
            context.limits.maximum_links_per_page,
        ) {
            return Err(error);
        }
        let mut ids: BTreeSet<u64> = BTreeSet::new();
        let mut index: usize = 0;
        while index < self.links.len()
            invariant
                index <= self.links@.len(),
                forall|id: u64| #[trigger]
                    ids@.contains(id) == link_id_used(self.links@, index as int, id),
                self.contract_error(context) == links_error(self.links@, index as int, context),
            decreases self.links@.len() - index,
        {
            let link = &self.links[index];
            let base = item("links.items", index);
            let ghost before = ids@;
            if link.id.0 == 0 || !ids.insert(link.id.0) {
                assert(link.id.0 == 0 || before.contains(link.id.0));
                return invalid(join2(base.as_str(), ".id"), InputErrorKind::InvalidIdentifier);
            }
            assert(!before.contains(link.id.0));
            if let Err(error) = validate_link(link, base.as_str(), context) {
                return Err(error);
            }
            proof {
                assert forall|id: u64| #[trigger] ids@.contains(id) == link_id_used(
                    self.links@,
                    index + 1,
                    id,
                ) by {
                    assert(ids@.contains(id) == (before.contains(id) || id == link.id.0));
                    if id == link.id.0 {
                        assert(self.links@[index as int].id.0 == id);
                    } else if before.contains(id) {
                        assert(link_id_used(self.links@, index as int, id));
                        let j = choose|j: int|
                            0 <= j < index && (#[trigger] self.links@[j]).id.0 == id;
                        assert(self.links@[j].id.0 == id);
                    } else if link_id_used(self.links@, index + 1, id) {
                        let j = choose|j: int|
                            0 <= j < index + 1 && (#[trigger] self.links@[j]).id.0 == id;
                        assert(self.links@[j].id.0 == id && j < index);
                        assert(link_id_used(self.links@, index as int, id));
                    }
                }
            }
            index += 1;
        }
        Ok(())
    }
}

impl ValidatePdfContract for PageTextRequest {
    open spec fn contract_error(&self, context: &PdfValidationContext) -> Option<PdfErrorView> {
        first(
            context.handle_error(self.page),
            if self.maximum_characters == 0 {
                input_error("text.maximum_characters"@, InputErrorKind::Empty)
            } else {
                limit_error(
                    "text.maximum_characters"@,
                    self.maximum_characters as int,
                    context.limits.maximum_text_characters as int,
                )
            },
        )
    }

    fn validate_contract(&self, context: &PdfValidationContext) -> (checked: PdfExtensionResult<
        (),
    >) {
        if let Err(error) = context.validate_handle(&self.page) {
            return Err(error);
        }
        if self.maximum_characters == 0 {
            return invalid("text.maximum_characters".to_owned(), InputErrorKind::Empty);
        }
        limit(
            "text.maximum_characters",
            self.maximum_characters as usize,
            context.limits.maximum_text_characters,
        )
    }
}

/// What is wrong with one character of a stretch.
pub open spec fn character_error(character: TextCharacter, at: int) -> Option<PdfErrorView> {
    let base = item_path("text.characters"@, at);
    if !crate::extension::snapshot::is_scalar(character.scalar) {
        input_error(base + ".scalar"@, InputErrorKind::InvalidUnicodeScalar)
    } else {
        match character.bounds {
            Some(bounds) => rect_error(base + ".bounds"@, bounds),
            None => None,
        }
    }
}

/// The first fault among characters from one on.
pub open spec fn characters_error(characters: Seq<TextCharacter>, from: int) -> Option<PdfErrorView>
    decreases characters.len() - from,
{
    if from < 0 || from >= characters.len() {
        None
    } else {
        first(character_error(characters[from], from), characters_error(characters, from + 1))
    }
}

impl PageTextSnapshot {
    /// The stretch lies in the text of the page, and reaches its end where it
    /// says so.
    pub open spec fn range_fits(&self) -> bool {
        &&& self.start + self.characters@.len() <= self.total_characters
        &&& self.complete ==> self.start + self.characters@.len() == self.total_characters
    }
}

impl ValidatePdfContract for PageTextSnapshot {
    open spec fn contract_error(&self, context: &PdfValidationContext) -> Option<PdfErrorView> {
        first(
            context.handle_error(self.page),
            first(
                page_error(self.index, context.page_count),
                first(
                    limit_error(
                        "text.characters"@,
                        self.characters@.len() as int,
                        context.limits.maximum_text_characters as int,
                    ),
                    if self.characters@.len() > u32::MAX {
                        Some(
                            PdfErrorView::LimitExceeded {
                                field: "text.characters"@,
                                limit: u32::MAX as u64,
                                actual: u64::MAX,
                            },
                        )
                    } else if !self.range_fits() {
                        input_error("text.range"@, InputErrorKind::ReversedRange)
                    } else {
                        characters_error(self.characters@, 0)
                    },
                ),
            ),
        )
    }

    fn validate_contract(&self, context: &PdfValidationContext) -> (checked: PdfExtensionResult<
        (),
    >) {
        if let Err(error) = context.validate_handle(&self.page) {
            return Err(error);
        }
        if let Err(error) = context.validate_page("text.page", self.index) {
            return Err(error);
        }
        if let Err(error) = limit(
            "text.characters",
            self.characters.len(),
            context.limits.maximum_text_characters,
        ) {
            return Err(error);
        }
        if self.characters.len() > u32::MAX as usize {
            return Err(
                PdfExtensionError::LimitExceeded {
                    field: "text.characters".to_owned(),
                    limit: u32::MAX as u64,
                    actual: u64::MAX,
                },
            );
        }
        let end: u64 = self.start as u64 + self.characters.len() as u64;
        if end > self.total_characters as u64 || (self.complete && end
            != self.total_characters as u64) {
            return invalid("text.range".to_owned(), InputErrorKind::ReversedRange);
        }
        let mut index: usize = 0;
        while index < self.characters.len()
            invariant
                index <= self.characters@.len(),
                self.contract_error(context) == characters_error(self.characters@, index as int),
            decreases self.characters@.len() - index,
        {
            let character = self.characters[index];
            let base = item("text.characters", index);
            if character.value().is_none() {
                return invalid(
                    join2(base.as_str(), ".scalar"),
                    InputErrorKind::InvalidUnicodeScalar,
                );
            }
            if let Some(bounds) = character.bounds {
                if let Err(error) = validate_rect(join2(base.as_str(), ".bounds").as_str(), bounds) {
                    return Err(error);
                }
            }
            index += 1;
        }
        Ok(())
    }
}

/// What is wrong with one page of a selection, given the page before it.
pub open spec fn selection_page_error(
    pages: Seq<SelectionPageSnapshot>,
    at: int,
    context: &PdfValidationContext,
) -> Option<PdfErrorView> {
    let base = item_path("selection.pages"@, at);
    first(
        context.handle_error(pages[at].page),
        first(
            page_error(pages[at].index, context.page_count),
            if at > 0 && pages[at].index.0 <= pages[at - 1].index.0 {
                input_error(base + ".index"@, InputErrorKind::InvalidIdentifier)
            } else {
                regions_error(
                    base + ".regions"@,
                    pages[at].regions@,
                    context.limits.maximum_regions_per_item as int,
                    true,
                )
            },
        ),
    )
}

/// The first fault among pages of a selection from one on.
pub open spec fn selection_pages_error(
    pages: Seq<SelectionPageSnapshot>,
    from: int,
    context: &PdfValidationContext,
) -> Option<PdfErrorView>
    decreases pages.len() - from,
{
    if from < 0 || from >= pages.len() {
        None
    } else {
        first(
            selection_page_error(pages, from, context),
            selection_pages_error(pages, from + 1, context),
        )
    }
}

/// The sum of two counts, or the greatest count where it does not fit.
pub open spec fn capped_sum(a: int, b: int) -> int {
    if a + b > usize::MAX {
        usize::MAX as int
    } else {
        a + b
    }
}

/// How many regions the first pages of a selection have.
pub open spec fn selection_regions(pages: Seq<SelectionPageSnapshot>, count: int) -> int
    decreases count,
{
    if count <= 0 {
        0
    } else {
        capped_sum(
            selection_regions(pages, count - 1),
            pages[count - 1].regions@.len() as int,
        )
    }
}

impl ValidatePdfContract for SelectionSnapshot {
    open spec fn contract_error(&self, context: &PdfValidationContext) -> Option<PdfErrorView> {
        first(
            context.handle_error(self.document),
            first(
                match self.range {
                    Some(range) => range_error(range, context.page_count),
                    None => if self.text is Some || self.pages@.len() > 0 {
                        input_error("selection.range"@, InputErrorKind::Empty)
                    } else {
                        None
                    },
                },
                first(
                    optional_text_error(
                        "selection.text"@,
                        self.text,
                        context.limits.maximum_selection_text_bytes as int,
                    ),
                    first(
                        limit_error(
                            "selection.pages"@,
                            self.pages@.len() as int,
                            context.limits.maximum_snapshot_pages as int,
                        ),
                        first(
                            selection_pages_error(self.pages@, 0, context),
                            limit_error(
                                "selection.total_regions"@,
                                selection_regions(self.pages@, self.pages@.len() as int),
                                context.limits.maximum_total_regions as int,
                            ),
                        ),
                    ),
                ),
            ),
        )
    }

    fn validate_contract(&self, context: &PdfValidationContext) -> (checked: PdfExtensionResult<
        (),
    >) {
        if let Err(error) = context.validate_handle(&self.document) {
            return Err(error);
        }
        if let Some(range) = self.range {
            if let Err(error) = validate_range("selection.range", range, context) {
                return Err(error);
            }
        } else if self.text.is_some() || self.pages.len() > 0 {
            return invalid("selection.range".to_owned(), InputErrorKind::Empty);
        }
        if let Err(error) = optional_string(
            "selection.text",
            &self.text,
            context.limits.maximum_selection_text_bytes,
        ) {
            return Err(error);
        }
        if let Err(error) = limit(
            "selection.pages",
            self.pages.len(),
            context.limits.maximum_snapshot_pages,
        ) {
            return Err(error);
        }
        let mut total_regions: usize = 0;
        let mut index: usize = 0;
        while index < self.pages.len()
            invariant
                index <= self.pages@.len(),
                total_regions == selection_regions(self.pages@, index as int),
                self.contract_error(context) == first(
                    selection_pages_error(self.pages@, index as int, context),
                    limit_error(
                        "selection.total_regions"@,
                        selection_regions(self.pages@, self.pages@.len() as int),
                        context.limits.maximum_total_regions as int,
                    ),
                ),
            decreases self.pages@.len() - index,
        {
            let page = &self.pages[index];
            let base = item("selection.pages", index);
            if let Err(error) = context.validate_handle(&page.page) {
                return Err(error);
            }
            if let Err(error) = context.validate_page(base.as_str(), page.index) {
                return Err(error);
            }
            if index > 0 && page.index.0 <= self.pages[index - 1].index.0 {
                return invalid(join2(base.as_str(), ".index"), InputErrorKind::InvalidIdentifier);
            }
            if let Err(error) = validate_regions(
                join2(base.as_str(), ".regions").as_str(),
                &page.regions,
                context.limits.maximum_regions_per_item,
                true,
            ) {
                return Err(error);
            }
            total_regions = total_regions.saturating_add(page.regions.len());
            index += 1;
        }
        limit("selection.total_regions", total_regions, context.limits.maximum_total_regions)
    }
}

/// What is wrong with one page of a view, given the page before it.
pub open spec fn visible_page_error(
    pages: Seq<VisiblePageSnapshot>,
    at: int,
    context: &PdfValidationContext,
) -> Option<PdfErrorView> {
    let base = item_path("viewport.visible_pages"@, at);
    first(
        context.handle_error(pages[at].page),
        first(
            page_error(pages[at].index, context.page_count),
            if at > 0 && pages[at].index.0 <= pages[at - 1].index.0 {
                input_error(base + ".index"@, InputErrorKind::InvalidIdentifier)
            } else {
                rect_error(base + ".visible_area"@, pages[at].visible_area)
            },
        ),
    )
}

/// The first fault among pages of a view from one on.
pub open spec fn visible_pages_error(
    pages: Seq<VisiblePageSnapshot>,
    from: int,
    context: &PdfValidationContext,
) -> Option<PdfErrorView>
    decreases pages.len() - from,
{
    if from < 0 || from >= pages.len() {
        None
    } else {
        first(
            visible_page_error(pages, from, context),
            visible_pages_error(pages, from + 1, context),
        )
    }
}

impl ValidatePdfContract for ViewportSnapshot {
    open spec fn contract_error(&self, context: &PdfValidationContext) -> Option<PdfErrorView> {
        first(
            context.handle_error(self.document),
            first(
                positive_error("viewport.zoom_ratio"@, self.zoom_ratio),
                first(
                    match self.anchor {
                        Some(anchor) => first(
                            page_error(anchor.page, context.page_count),
                            point_error("viewport.anchor.point"@, anchor.point),
                        ),
                        None => None,
                    },
                    first(
                        limit_error(
                            "viewport.visible_pages"@,
                            self.visible_pages@.len() as int,
                            context.limits.maximum_snapshot_pages as int,
                        ),
                        visible_pages_error(self.visible_pages@, 0, context),
                    ),
                ),
            ),
        )
    }

    fn validate_contract(&self, context: &PdfValidationContext) -> (checked: PdfExtensionResult<
        (),
    >) {
        if let Err(error) = context.validate_handle(&self.document) {
            return Err(error);
        }
        if let Err(error) = positive_finite("viewport.zoom_ratio", self.zoom_ratio) {
            return Err(error);
        }
        if let Some(anchor) = self.anchor {
            if let Err(error) = context.validate_page("viewport.anchor.page", anchor.page) {
                return Err(error);
            }
            if let Err(error) = validate_point("viewport.anchor.point", anchor.point) {
                return Err(error);
            }
        }
        if let Err(error) = limit(
            "viewport.visible_pages",
            self.visible_pages.len(),
            context.limits.maximum_snapshot_pages,
        ) {
            return Err(error);
        }
        let mut index: usize = 0;
        while index < self.visible_pages.len()
            invariant
                index <= self.visible_pages@.len(),
                self.contract_error(context) == visible_pages_error(
                    self.visible_pages@,
                    index as int,
                    context,
                ),
            decreases self.visible_pages@.len() - index,
        {
            let page = &self.visible_pages[index];
            let base = item("viewport.visible_pages", index);
            if let Err(error) = context.validate_handle(&page.page) {
                return Err(error);
            }
            if let Err(error) = context.validate_page(base.as_str(), page.index) {
                return Err(error);
            }
            if index > 0 && page.index.0 <= self.visible_pages[index - 1].index.0 {
                return invalid(join2(base.as_str(), ".index"), InputErrorKind::InvalidIdentifier);
            }
            if let Err(error) = validate_rect(
                join2(base.as_str(), ".visible_area").as_str(),
                page.visible_area,
            ) {
                return Err(error);
            }
            index += 1;
        }
        Ok(())
    }
}

impl ValidatePdfContract for NavigationRequest {
    open spec fn contract_error(&self, context: &PdfValidationContext) -> Option<PdfErrorView> {
        first(
            context.handle_error(self.document),
            first(
                destination_error("navigation.destination"@, self.destination, context),
                first(
                    normalized_error(
                        "navigation.placement.viewport_anchor_y"@,
                        self.placement.viewport_anchor_y,
                    ),
                    match self.focus {
                        Some(focus) => regions_error(
                            "navigation.focus.regions"@,
                            focus.regions@,
                            context.limits.maximum_regions_per_item as int,
                            true,
                        ),
                        None => None,
                    },
                ),
            ),
        )
    }

    fn validate_contract(&self, context: &PdfValidationContext) -> (checked: PdfExtensionResult<
        (),
    >) {
        if let Err(error) = context.validate_handle(&self.document) {
            return Err(error);
        }
        if let Err(error) = validate_destination(
            "navigation.destination",
            &self.destination,
            context,
        ) {
            return Err(error);
        }
        if let Err(error) = normalized(
            "navigation.placement.viewport_anchor_y",
            self.placement.viewport_anchor_y,
        ) {
            return Err(error);
        }
        if let Some(focus) = &self.focus {
            return validate_regions(
                "navigation.focus.regions",
                &focus.regions,
                context.limits.maximum_regions_per_item,
                true,
            );
        }
        Ok(())
    }
}

/// A mark before this one has the same identity.
pub open spec fn overlay_id_used(overlays: Seq<DocumentOverlay>, at: int, id: Seq<char>) -> bool {
    exists|j: int| 0 <= j < at && (#[trigger] overlays[j]).id.0@ == id
}

/// What is wrong with one mark, given those before it.
pub open spec fn overlay_error(
    overlays: Seq<DocumentOverlay>,
    at: int,
    context: &PdfValidationContext,
) -> Option<PdfErrorView> {
    let overlay = overlays[at];
    let base = item_path("overlays"@, at);
    first(
        page_error(overlay.page, context.page_count),
        if overlay_id_used(overlays, at, overlay.id.0@) {
            input_error(base + ".id"@, InputErrorKind::InvalidIdentifier)
        } else {
            first(
                regions_error(
                    base + ".regions"@,
                    overlay.regions@,
                    context.limits.maximum_regions_per_item as int,
                    false,
                ),
                optional_text_error(
                    base + ".label"@,
                    overlay.label,
                    context.limits.maximum_string_bytes as int,
                ),
            )
        },
    )
}

/// The first fault among marks from one on.
pub open spec fn overlays_error(
    overlays: Seq<DocumentOverlay>,
    from: int,
    context: &PdfValidationContext,
) -> Option<PdfErrorView>
    decreases overlays.len() - from,
{
    if from < 0 || from >= overlays.len() {
        None
    } else {
        first(overlay_error(overlays, from, context), overlays_error(overlays, from + 1, context))
    }
}

/// How many regions the first marks have.
pub open spec fn overlay_regions(overlays: Seq<DocumentOverlay>, count: int) -> int
    decreases count,
{
    if count <= 0 {
        0
    } else {
        capped_sum(
            overlay_regions(overlays, count - 1),
            overlays[count - 1].regions@.len() as int,
        )
    }
}

impl ValidatePdfContract for OverlayBatch {
    open spec fn contract_error(&self, context: &PdfValidationContext) -> Option<PdfErrorView> {
        first(
            context.handle_error(self.document),
            first(
                limit_error(
                    "overlays"@,
                    self.overlays@.len() as int,
                    context.limits.maximum_overlays as int,
                ),
                first(
                    overlays_error(self.overlays@, 0, context),
                    limit_error(
                        "overlays.total_regions"@,
                        overlay_regions(self.overlays@, self.overlays@.len() as int),
                        context.limits.maximum_total_regions as int,
                    ),
                ),
            ),
        )
    }

    fn validate_contract(&self, context: &PdfValidationContext) -> (checked: PdfExtensionResult<
        (),
    >) {
        if let Err(error) = context.validate_handle(&self.document) {
            return Err(error);
        }
        if let Err(error) = limit(
            "overlays",
            self.overlays.len(),
            context.limits.maximum_overlays,
        ) {
            return Err(error);
        }
        let mut ids = TextSet::new();
        let mut total_regions: usize = 0;
        let mut index: usize = 0;
        while index < self.overlays.len()
            invariant
                index <= self.overlays@.len(),
                ids.wf(),
                forall|id: Seq<char>| #[trigger]
                    ids@.contains(id) == overlay_id_used(self.overlays@, index as int, id),
                total_regions == overlay_regions(self.overlays@, index as int),
                self.contract_error(context) == first(
                    overlays_error(self.overlays@, index as int, context),
                    limit_error(
                        "overlays.total_regions"@,
                        overlay_regions(self.overlays@, self.overlays@.len() as int),
                        context.limits.maximum_total_regions as int,
                    ),
                ),
            decreases self.overlays@.len() - index,
        {
            let overlay = &self.overlays[index];
            let base = item("overlays", index);
            if let Err(error) = context.validate_page(base.as_str(), overlay.page) {
                return Err(error);
            }
            let ghost before = ids@;
            if !ids.insert(overlay.id.as_str().to_owned()) {
                assert(before.contains(overlay.id.0@));
                return invalid(join2(base.as_str(), ".id"), InputErrorKind::InvalidIdentifier);
            }
            assert(!before.contains(overlay.id.0@));
            if let Err(error) = validate_regions(
                join2(base.as_str(), ".regions").as_str(),
                &overlay.regions,
                context.limits.maximum_regions_per_item,
                false,
            ) {
                return Err(error);
            }
            total_regions = total_regions.saturating_add(overlay.regions.len());
            if let Err(error) = optional_string(
                join2(base.as_str(), ".label").as_str(),
                &overlay.label,
                context.limits.maximum_string_bytes,
            ) {
                return Err(error);
            }
            proof {
                assert forall|id: Seq<char>| #[trigger] ids@.contains(id) == overlay_id_used(
                    self.overlays@,
                    index + 1,
                    id,
                ) by {
                    assert(ids@.contains(id) == (before.contains(id) || id == overlay.id.0@));
                    if id == overlay.id.0@ {
                        assert(self.overlays@[index as int].id.0@ == id);
                    } else if before.contains(id) {
                        assert(overlay_id_used(self.overlays@, index as int, id));
                        let j = choose|j: int|
                            0 <= j < index && (#[trigger] self.overlays@[j]).id.0@ == id;
                        assert(self.overlays@[j].id.0@ == id);
                    } else if overlay_id_used(self.overlays@, index + 1, id) {
                        let j = choose|j: int|
                            0 <= j < index + 1 && (#[trigger] self.overlays@[j]).id.0@ == id;
                        assert(self.overlays@[j].id.0@ == id && j < index);
                        assert(overlay_id_used(self.overlays@, index as int, id));
                    }
                }
            }
            index += 1;
        }
        limit("overlays.total_regions", total_regions, context.limits.maximum_total_regions)
    }
}

/// Whatever else is wrong with it, a request of another opening is answered
/// with both openings.
pub proof fn law_requests_of_another_opening_are_stale(
    context: &PdfValidationContext,
    overlays: OverlayBatch,
    navigation: NavigationRequest,
    text: PageTextRequest,
)
    requires
        overlays.document.issued_by() != context.generation,
        navigation.document.issued_by() != context.generation,
        text.page.issued_by() != context.generation,
    ensures
        overlays.contract_error(context) == Some(
            PdfErrorView::StaleGeneration {
                expected: context.generation,
                actual: overlays.document.issued_by(),
            },
        ),
        navigation.contract_error(context) == Some(
            PdfErrorView::StaleGeneration {
                expected: context.generation,
                actual: navigation.document.issued_by(),
            },
        ),
        text.contract_error(context) == Some(
            PdfErrorView::StaleGeneration {
                expected: context.generation,
                actual: text.page.issued_by(),
            },
        ),
{
}

/// Entries without a fault from one on have none each.
proof fn lemma_outline_entry_is_sound(
    entries: Seq<OutlineEntry>,
    from: int,
    at: int,
    context: &PdfValidationContext,
)
    requires
        0 <= from <= at < entries.len(),
        outline_entries_error(entries, from, context) is None,
    ensures
        outline_entry_error(entries, at, context) is None,
    decreases at - from,
{
    if from < at {
        lemma_outline_entry_is_sound(entries, from + 1, at, context);
    }
}

/// An outline that passes is a forest: no identity is used twice, no entry is
/// deeper than is let through, the entries without one above are the roots, and
/// every other comes after the one above it and stands one level below it.
pub proof fn law_sound_outlines_are_forests(
    outline: OutlineSnapshot,
    context: &PdfValidationContext,
    at: int,
)
    requires
        outline.contract_error(context) is None,
        0 <= at < outline.entries@.len(),
    ensures
        outline.entries@.len() <= context.limits.maximum_outline_entries,
        outline.entries@[at].id.0 != 0,
        forall|j: int|
            0 <= j < at ==> (#[trigger] outline.entries@[j]).id != outline.entries@[at].id,
        outline.entries@[at].depth <= context.limits.maximum_outline_depth,
        outline.entries@[at].parent is None <==> outline.entries@[at].depth == 0,
        outline.entries@[at].parent matches Some(parent) ==> exists|j: int|
            0 <= j < at && (#[trigger] outline.entries@[j]).id == parent && outline.entries@[j].depth
                + 1 == outline.entries@[at].depth,
{
    lemma_outline_entry_is_sound(outline.entries@, 0, at, context);
    assert(parent_fits(outline.entries@, at));
    assert(!outline_id_used(outline.entries@, at, outline.entries@[at].id.0));
}

proof fn lemma_overlay_is_sound(
    overlays: Seq<DocumentOverlay>,
    from: int,
    at: int,
    context: &PdfValidationContext,
)
    requires
        0 <= from <= at < overlays.len(),
        overlays_error(overlays, from, context) is None,
    ensures
        overlay_error(overlays, at, context) is None,
    decreases at - from,
{
    if from < at {
        lemma_overlay_is_sound(overlays, from + 1, at, context);
    }
}

/// A batch that passes holds no more marks and no more regions than were agreed
/// on, every mark lies on a page of the document and has a region, and no two
/// have the same identity.
pub proof fn law_sound_batches_are_bounded(
    batch: OverlayBatch,
    context: &PdfValidationContext,
    at: int,
)
    requires
        batch.contract_error(context) is None,
        0 <= at < batch.overlays@.len(),
    ensures
        batch.overlays@.len() <= context.limits.maximum_overlays,
        overlay_regions(batch.overlays@, batch.overlays@.len() as int)
            <= context.limits.maximum_total_regions,
        batch.overlays@[at].page.0 < context.page_count,
        1 <= batch.overlays@[at].regions@.len() <= context.limits.maximum_regions_per_item,
        forall|j: int|
            0 <= j < at ==> (#[trigger] batch.overlays@[j]).id.0@ != batch.overlays@[at].id.0@,
{
    lemma_overlay_is_sound(batch.overlays@, 0, at, context);
    assert(!overlay_id_used(batch.overlays@, at, batch.overlays@[at].id.0@));
}

proof fn lemma_character_is_sound(characters: Seq<TextCharacter>, from: int, at: int)
    requires
        0 <= from <= at < characters.len(),
        characters_error(characters, from) is None,
    ensures
        character_error(characters[at], at) is None,
    decreases at - from,
{
    if from < at {
        lemma_character_is_sound(characters, from + 1, at);
    }
}

/// A stretch of text that passes can be read: every character of it is one. It
/// lies in the text of its page and is no longer than was agreed on.
pub proof fn law_sound_text_can_be_read(snapshot: PageTextSnapshot, context: &PdfValidationContext)
    requires
        snapshot.contract_error(context) is None,
    ensures
        snapshot.characters@.len() <= context.limits.maximum_text_characters,
        snapshot.start + snapshot.characters@.len() <= snapshot.total_characters,
        forall|i: int|
            0 <= i < snapshot.characters@.len() ==> crate::extension::snapshot::is_scalar(
                (#[trigger] snapshot.characters@[i]).scalar,
            ),
{
    assert forall|i: int|
        0 <= i < snapshot.characters@.len() implies crate::extension::snapshot::is_scalar(
        (#[trigger] snapshot.characters@[i]).scalar,
    ) by {
        lemma_character_is_sound(snapshot.characters@, 0, i);
    }
}

proof fn lemma_selection_page_is_sound(
    pages: Seq<SelectionPageSnapshot>,
    from: int,
    at: int,
    context: &PdfValidationContext,
)
    requires
        0 <= from <= at < pages.len(),
        selection_pages_error(pages, from, context) is None,
    ensures
        selection_page_error(pages, at, context) is None,
    decreases at - from,
{
    if from < at {
        lemma_selection_page_is_sound(pages, from + 1, at, context);
    }
}

/// The pages of a selection that passes are pages of the document, each of them
/// once and in ascending order, and together they have no more regions than were
/// agreed on.
pub proof fn law_sound_selections_ascend(
    selection: SelectionSnapshot,
    context: &PdfValidationContext,
    earlier: int,
    later: int,
)
    requires
        selection.contract_error(context) is None,
        0 <= earlier < later < selection.pages@.len(),
    ensures
        selection.range is Some,
        selection.pages@[earlier].index.0 < selection.pages@[later].index.0 < context.page_count,
        selection_regions(selection.pages@, selection.pages@.len() as int)
            <= context.limits.maximum_total_regions,
    decreases later - earlier,
{
    lemma_selection_page_is_sound(selection.pages@, 0, later, context);
    if earlier + 1 < later {
        law_sound_selections_ascend(selection, context, earlier, later - 1);
    }
}

proof fn lemma_visible_page_is_sound(
    pages: Seq<VisiblePageSnapshot>,
    from: int,
    at: int,
    context: &PdfValidationContext,
)
    requires
        0 <= from <= at < pages.len(),
        visible_pages_error(pages, from, context) is None,
    ensures
        visible_page_error(pages, at, context) is None,
    decreases at - from,
{
    if from < at {
        lemma_visible_page_is_sound(pages, from + 1, at, context);
    }
}

/// The pages of a view that passes are pages of the document, each of them once
/// and in ascending order.
pub proof fn law_sound_views_ascend(
    view: ViewportSnapshot,
    context: &PdfValidationContext,
    earlier: int,
    later: int,
)
    requires
        view.contract_error(context) is None,
        0 <= earlier < later < view.visible_pages@.len(),
    ensures
        view.visible_pages@[earlier].index.0 < view.visible_pages@[later].index.0
            < context.page_count,
    decreases later - earlier,
{
    lemma_visible_page_is_sound(view.visible_pages@, 0, later, context);
    if earlier + 1 < later {
        law_sound_views_ascend(view, context, earlier, later - 1);
    }
}

/// The rectangle lies on a page and holds something.
pub open spec fn fits_page(rect: NormalizedRect) -> bool {
    &&& rect.left.finite() && 0 <= rect.left.rank()
    &&& rect.top.finite() && 0 <= rect.top.rank()
    &&& rect.right.finite() && rect.right.rank() <= 0x3f80_0000
    &&& rect.bottom.finite() && rect.bottom.rank() <= 0x3f80_0000
    &&& rect.left.rank() < rect.right.rank()
    &&& rect.top.rank() < rect.bottom.rank()
}

/// A page passes if and only if the document has it, a count if and only if it is no more
/// than the most, a text that has to say something if and only if it does and is not too
/// long, one that may be missing if and only if it is missing or not too long, a fraction if
/// and only if it is from zero to one, and a size if and only if it is finite and above zero.
pub proof fn law_values_pass_within_their_bounds(
    field: Seq<char>,
    page: PageIndex,
    page_count: u32,
    actual: int,
    maximum: int,
    text: Seq<char>,
    optional: Option<String>,
    value: FloatBits,
)
    ensures
        page_error(page, page_count) is None <==> page.0 < page_count,
        limit_error(field, actual, maximum) is None <==> actual <= maximum,
        required_text_error(field, text, maximum) is None <==> crate::text::trim_text(text).len()
            > 0 && crate::text::utf8_len(text) <= maximum,
        optional_text_error(field, optional, maximum) is None <==> (optional matches Some(given)
            ==> crate::text::utf8_len(given@) <= maximum),
        normalized_error(field, value) is None <==> value.finite() && 0 <= value.rank()
            <= 0x3f80_0000,
        positive_error(field, value) is None <==> value.finite() && value.rank() > 0,
{
}

/// A rectangle passes if and only if it lies on the page and holds something.
pub proof fn law_rectangles_pass_on_the_page(field: Seq<char>, rect: NormalizedRect)
    ensures
        rect_error(field, rect) is None <==> fits_page(rect),
{
}

proof fn lemma_rects_pass(field: Seq<char>, regions: Seq<NormalizedRect>, from: int)
    requires
        0 <= from,
    ensures
        rects_error(field, regions, from) is None <==> forall|i: int|
            from <= i < regions.len() ==> fits_page(#[trigger] regions[i]),
    decreases regions.len() - from,
{
    if from < regions.len() {
        lemma_rects_pass(field, regions, from + 1);
        law_rectangles_pass_on_the_page(item_path(field, from), regions[from]);
    }
}

/// Regions pass if and only if there are some, where there have to be, and no more than the
/// most, and each of them lies on the page and holds something.
pub proof fn law_regions_pass_on_the_page(
    field: Seq<char>,
    regions: Seq<NormalizedRect>,
    maximum: int,
    allow_empty: bool,
)
    ensures
        regions_error(field, regions, maximum, allow_empty) is None <==> {
            &&& allow_empty || regions.len() > 0
            &&& regions.len() <= maximum
            &&& forall|i: int| 0 <= i < regions.len() ==> fits_page(#[trigger] regions[i])
        },
{
    lemma_rects_pass(field, regions, 0);
}

/// The place lies in a document of so many pages.
pub open spec fn fits_document(
    destination: DocumentDestination,
    context: &PdfValidationContext,
) -> bool {
    &&& destination.page.0 < context.page_count
    &&& destination.x_fraction matches Some(x) ==> x.finite() && 0 <= x.rank() <= 0x3f80_0000
    &&& destination.y_fraction matches Some(y) ==> y.finite() && 0 <= y.rank() <= 0x3f80_0000
    &&& destination.text_range matches Some(range) ==> range.anchor.page.0 < context.page_count
        && range.focus.page.0 < context.page_count
    &&& destination.text_hint matches Some(hint) ==> crate::text::trim_text(hint.text@).len() > 0
        && crate::text::utf8_len(hint.text@) <= context.limits.maximum_string_bytes
}

/// A place passes if and only if it lies in the document: on one of its pages, at fractions
/// from zero to one, with the ends of its text on pages and a hint that says something.
pub proof fn law_places_pass_in_the_document(
    path: Seq<char>,
    destination: DocumentDestination,
    context: &PdfValidationContext,
)
    ensures
        destination_error(path, destination, context) is None <==> fits_document(
            destination,
            context,
        ),
{
}

/// What a document says of itself passes if and only if it is of this opening and as many
/// pages, and none of its texts is too long.
pub proof fn law_document_metadata_passes(
    snapshot: DocumentMetadataSnapshot,
    context: &PdfValidationContext,
)
    ensures
        snapshot.contract_error(context) is None <==> {
            let most = context.limits.maximum_string_bytes;
            &&& snapshot.document.spec_generation() == context.generation
            &&& snapshot.page_count == context.page_count
            &&& snapshot.title matches Some(text) ==> crate::text::utf8_len(text@) <= most
            &&& snapshot.author matches Some(text) ==> crate::text::utf8_len(text@) <= most
            &&& snapshot.subject matches Some(text) ==> crate::text::utf8_len(text@) <= most
            &&& snapshot.keywords matches Some(text) ==> crate::text::utf8_len(text@) <= most
            &&& snapshot.creator matches Some(text) ==> crate::text::utf8_len(text@) <= most
            &&& snapshot.producer matches Some(text) ==> crate::text::utf8_len(text@) <= most
            &&& snapshot.language matches Some(text) ==> crate::text::utf8_len(text@) <= most
            &&& snapshot.format_version matches Some(text) ==> crate::text::utf8_len(text@) <= most
        },
{
}

/// What is said of a page passes if and only if it is of this opening and a page of the
/// document, its label is not too long and its size is one.
pub proof fn law_page_metadata_passes(
    snapshot: PageMetadataSnapshot,
    context: &PdfValidationContext,
)
    ensures
        snapshot.contract_error(context) is None <==> {
            &&& snapshot.document.spec_generation() == context.generation
            &&& snapshot.page.spec_generation() == context.generation
            &&& snapshot.index.0 < context.page_count
            &&& snapshot.label matches Some(text) ==> crate::text::utf8_len(text@)
                <= context.limits.maximum_string_bytes
            &&& snapshot.width_points.is_positive()
            &&& snapshot.height_points.is_positive()
        },
{
}

/// Text can be asked for if and only if the page is of this opening, and at least one
/// character and no more than the most are asked for.
pub proof fn law_text_requests_pass(request: PageTextRequest, context: &PdfValidationContext)
    ensures
        request.contract_error(context) is None <==> {
            &&& request.page.spec_generation() == context.generation
            &&& 1 <= request.maximum_characters <= context.limits.maximum_text_characters
        },
{
}

/// A reader can be asked to move if and only if the document is of this opening, the place
/// lies in it, the target is to stand within the view, and what is to be pointed at lies on
/// the page.
pub proof fn law_navigation_requests_pass(
    request: NavigationRequest,
    context: &PdfValidationContext,
)
    ensures
        request.contract_error(context) is None <==> {
            &&& request.document.spec_generation() == context.generation
            &&& fits_document(request.destination, context)
            &&& request.placement.viewport_anchor_y.finite() && 0
                <= request.placement.viewport_anchor_y.rank() <= 0x3f80_0000
            &&& request.focus matches Some(focus) ==> focus.regions@.len()
                <= context.limits.maximum_regions_per_item && (forall|i: int|
                0 <= i < focus.regions@.len() ==> fits_page(#[trigger] focus.regions@[i]))
        },
{
    law_places_pass_in_the_document(
        "navigation.destination"@,
        request.destination,
        context,
    );
    if let Some(focus) = request.focus {
        law_regions_pass_on_the_page(
            "navigation.focus.regions"@,
            focus.regions@,
            context.limits.maximum_regions_per_item as int,
            true,
        );
    }
}

/// An entry of an outline passes after those before it.
pub open spec fn entry_passes(
    entries: Seq<OutlineEntry>,
    at: int,
    context: &PdfValidationContext,
) -> bool {
    let entry = entries[at];
    &&& entry.id.0 != 0
    &&& forall|j: int| 0 <= j < at ==> (#[trigger] entries[j]).id != entry.id
    &&& entry.depth <= context.limits.maximum_outline_depth
    &&& match entry.parent {
        None => entry.depth == 0,
        Some(parent) => exists|j: int|
            0 <= j < at && (#[trigger] entries[j]).id == parent && entries[j].depth + 1
                == entry.depth,
    }
    &&& crate::text::trim_text(entry.title@).len() > 0
    &&& crate::text::utf8_len(entry.title@) <= context.limits.maximum_string_bytes
    &&& fits_document(entry.destination, context)
}

proof fn lemma_entries_pass(
    entries: Seq<OutlineEntry>,
    from: int,
    context: &PdfValidationContext,
)
    requires
        0 <= from,
    ensures
        outline_entries_error(entries, from, context) is None <==> forall|at: int|
            from <= at < entries.len() ==> #[trigger] entry_passes(entries, at, context),
    decreases entries.len() - from,
{
    if from < entries.len() {
        lemma_entries_pass(entries, from + 1, context);
        let base = item_path("outline.entries"@, from);
        law_places_pass_in_the_document(
            base + ".destination"@,
            entries[from].destination,
            context,
        );
        assert(outline_entry_error(entries, from, context) is None <==> entry_passes(
            entries,
            from,
            context,
        )) by {
            let id = entries[from].id.0;
            if forall|j: int| 0 <= j < from ==> (#[trigger] entries[j]).id != entries[from].id {
                if outline_id_used(entries, from, id) {
                    let j = choose|j: int| 0 <= j < from && (#[trigger] entries[j]).id.0 == id;
                    assert(entries[j].id == entries[from].id);
                }
            }
        }
        if forall|at: int|
            from <= at < entries.len() ==> #[trigger] entry_passes(entries, at, context) {
            assert(entry_passes(entries, from, context));
        }
    }
}

/// An outline passes if and only if it is of this opening, has no more entries than the
/// most, and every entry passes after those before it.
pub proof fn law_outlines_pass(outline: OutlineSnapshot, context: &PdfValidationContext)
    ensures
        outline.contract_error(context) is None <==> {
            &&& outline.document.spec_generation() == context.generation
            &&& outline.entries@.len() <= context.limits.maximum_outline_entries
            &&& forall|at: int|
                0 <= at < outline.entries@.len() ==> #[trigger] entry_passes(
                    outline.entries@,
                    at,
                    context,
                )
        },
{
    lemma_entries_pass(outline.entries@, 0, context);
}

/// A link passes after those before it.
pub open spec fn link_passes(
    links: Seq<LinkEntry>,
    at: int,
    context: &PdfValidationContext,
) -> bool {
    let link = links[at];
    &&& link.id.0 != 0
    &&& forall|j: int| 0 <= j < at ==> (#[trigger] links[j]).id != link.id
    &&& 1 <= link.regions@.len() <= context.limits.maximum_regions_per_item
    &&& forall|i: int| 0 <= i < link.regions@.len() ==> fits_page(#[trigger] link.regions@[i])
    &&& link.source_range matches Some(range) ==> range.anchor.page.0 < context.page_count
        && range.focus.page.0 < context.page_count
    &&& match link.target {
        LinkTarget::Internal { destination } => fits_document(destination, context),
        LinkTarget::External { uri } => crate::text::trim_text(uri@).len() > 0
            && crate::text::utf8_len(uri@) <= context.limits.maximum_uri_bytes,
    }
}

proof fn lemma_links_pass(links: Seq<LinkEntry>, from: int, context: &PdfValidationContext)
    requires
        0 <= from,
    ensures
        links_error(links, from, context) is None <==> forall|at: int|
            from <= at < links.len() ==> #[trigger] link_passes(links, at, context),
    decreases links.len() - from,
{
    if from < links.len() {
        lemma_links_pass(links, from + 1, context);
        let base = item_path("links.items"@, from);
        let link = links[from];
        law_regions_pass_on_the_page(
            base + ".regions"@,
            link.regions@,
            context.limits.maximum_regions_per_item as int,
            false,
        );
        if let LinkTarget::Internal { destination } = link.target {
            law_places_pass_in_the_document(base + ".target"@, destination, context);
        }
        assert(link_error(links, from, context) is None <==> link_passes(links, from, context)) by {
            if forall|j: int| 0 <= j < from ==> (#[trigger] links[j]).id != link.id {
                if link_id_used(links, from, link.id.0) {
                    let j = choose|j: int| 0 <= j < from && (#[trigger] links[j]).id.0 == link.id.0;
                    assert(links[j].id == link.id);
                }
            }
        }
        if forall|at: int|
            from <= at < links.len() ==> #[trigger] link_passes(links, at, context) {
            assert(link_passes(links, from, context));
        }
    }
}

/// The links of a page pass if and only if the page is of this opening and the document has
/// it, there are no more links than the most, and every link passes after those before it.
pub proof fn law_links_pass(snapshot: PageLinksSnapshot, context: &PdfValidationContext)
    ensures
        snapshot.contract_error(context) is None <==> {
            &&& snapshot.page.spec_generation() == context.generation
            &&& snapshot.index.0 < context.page_count
            &&& snapshot.links@.len() <= context.limits.maximum_links_per_page
            &&& forall|at: int|
                0 <= at < snapshot.links@.len() ==> #[trigger] link_passes(
                    snapshot.links@,
                    at,
                    context,
                )
        },
{
    lemma_links_pass(snapshot.links@, 0, context);
}

proof fn lemma_characters_pass(characters: Seq<TextCharacter>, from: int)
    requires
        0 <= from,
    ensures
        characters_error(characters, from) is None <==> forall|i: int|
            from <= i < characters.len() ==> {
                let character = #[trigger] characters[i];
                &&& character.scalar <= 0x10ffff && !(0xd800 <= character.scalar < 0xe000)
                &&& character.bounds matches Some(bounds) ==> fits_page(bounds)
            },
    decreases characters.len() - from,
{
    if from < characters.len() {
        lemma_characters_pass(characters, from + 1);
        if let Some(bounds) = characters[from].bounds {
            law_rectangles_pass_on_the_page(
                item_path("text.characters"@, from) + ".bounds"@,
                bounds,
            );
        }
    }
}

/// A stretch of text passes if and only if its page is of this opening and the document has
/// it, it is no longer than the most, lies in the text of the page and reaches its end where
/// it says so, and each of its characters is one and stands on the page.
pub proof fn law_text_passes(snapshot: PageTextSnapshot, context: &PdfValidationContext)
    requires
        context.limits.maximum_text_characters <= u32::MAX,
    ensures
        snapshot.contract_error(context) is None <==> {
            &&& snapshot.page.spec_generation() == context.generation
            &&& snapshot.index.0 < context.page_count
            &&& snapshot.characters@.len() <= context.limits.maximum_text_characters
            &&& snapshot.start + snapshot.characters@.len() <= snapshot.total_characters
            &&& snapshot.complete ==> snapshot.start + snapshot.characters@.len()
                == snapshot.total_characters
            &&& forall|i: int|
                0 <= i < snapshot.characters@.len() ==> {
                    let character = #[trigger] snapshot.characters@[i];
                    &&& character.scalar <= 0x10ffff && !(0xd800 <= character.scalar < 0xe000)
                    &&& character.bounds matches Some(bounds) ==> fits_page(bounds)
                }
        },
{
    lemma_characters_pass(snapshot.characters@, 0);
}

/// A page of a selection passes after the page before it.
pub open spec fn selected_page_passes(
    pages: Seq<SelectionPageSnapshot>,
    at: int,
    context: &PdfValidationContext,
) -> bool {
    &&& pages[at].page.spec_generation() == context.generation
    &&& pages[at].index.0 < context.page_count
    &&& at > 0 ==> pages[at - 1].index.0 < pages[at].index.0
    &&& pages[at].regions@.len() <= context.limits.maximum_regions_per_item
    &&& forall|i: int|
        0 <= i < pages[at].regions@.len() ==> fits_page(#[trigger] pages[at].regions@[i])
}

proof fn lemma_selected_pages_pass(
    pages: Seq<SelectionPageSnapshot>,
    from: int,
    context: &PdfValidationContext,
)
    requires
        0 <= from,
    ensures
        selection_pages_error(pages, from, context) is None <==> forall|at: int|
            from <= at < pages.len() ==> #[trigger] selected_page_passes(pages, at, context),
    decreases pages.len() - from,
{
    if from < pages.len() {
        lemma_selected_pages_pass(pages, from + 1, context);
        law_regions_pass_on_the_page(
            item_path("selection.pages"@, from) + ".regions"@,
            pages[from].regions@,
            context.limits.maximum_regions_per_item as int,
            true,
        );
        assert(selection_page_error(pages, from, context) is None <==> selected_page_passes(
            pages,
            from,
            context,
        ));
        if forall|at: int|
            from <= at < pages.len() ==> #[trigger] selected_page_passes(pages, at, context) {
            assert(selected_page_passes(pages, from, context));
        }
    }
}

/// What is selected passes if and only if the document is of this opening, it has ends in
/// the document or is nothing at all, its text is not too long, there are no more pages and
/// regions than the most, and every page passes after the one before it.
pub proof fn law_selections_pass(selection: SelectionSnapshot, context: &PdfValidationContext)
    ensures
        selection.contract_error(context) is None <==> {
            &&& selection.document.spec_generation() == context.generation
            &&& selection.range matches Some(range) ==> range.anchor.page.0 < context.page_count
                && range.focus.page.0 < context.page_count
            &&& selection.range is None ==> selection.text is None && selection.pages@.len() == 0
            &&& selection.text matches Some(text) ==> crate::text::utf8_len(text@)
                <= context.limits.maximum_selection_text_bytes
            &&& selection.pages@.len() <= context.limits.maximum_snapshot_pages
            &&& forall|at: int|
                0 <= at < selection.pages@.len() ==> #[trigger] selected_page_passes(
                    selection.pages@,
                    at,
                    context,
                )
            &&& selection_regions(selection.pages@, selection.pages@.len() as int)
                <= context.limits.maximum_total_regions
        },
{
    lemma_selected_pages_pass(selection.pages@, 0, context);
}

/// A page of a view passes after the page before it.
pub open spec fn shown_page_passes(
    pages: Seq<VisiblePageSnapshot>,
    at: int,
    context: &PdfValidationContext,
) -> bool {
    &&& pages[at].page.spec_generation() == context.generation
    &&& pages[at].index.0 < context.page_count
    &&& at > 0 ==> pages[at - 1].index.0 < pages[at].index.0
    &&& fits_page(pages[at].visible_area)
}

proof fn lemma_shown_pages_pass(
    pages: Seq<VisiblePageSnapshot>,
    from: int,
    context: &PdfValidationContext,
)
    requires
        0 <= from,
    ensures
        visible_pages_error(pages, from, context) is None <==> forall|at: int|
            from <= at < pages.len() ==> #[trigger] shown_page_passes(pages, at, context),
    decreases pages.len() - from,
{
    if from < pages.len() {
        lemma_shown_pages_pass(pages, from + 1, context);
        law_rectangles_pass_on_the_page(
            item_path("viewport.visible_pages"@, from) + ".visible_area"@,
            pages[from].visible_area,
        );
        assert(visible_page_error(pages, from, context) is None <==> shown_page_passes(
            pages,
            from,
            context,
        ));
        if forall|at: int|
            from <= at < pages.len() ==> #[trigger] shown_page_passes(pages, at, context) {
            assert(shown_page_passes(pages, from, context));
        }
    }
}

/// What is shown passes if and only if the document is of this opening, its zoom is one, its
/// anchor lies on a page of the document, there are no more pages than the most, and every
/// page passes after the one before it.
pub proof fn law_views_pass(view: ViewportSnapshot, context: &PdfValidationContext)
    ensures
        view.contract_error(context) is None <==> {
            &&& view.document.spec_generation() == context.generation
            &&& view.zoom_ratio.finite() && view.zoom_ratio.rank() > 0
            &&& view.anchor matches Some(anchor) ==> anchor.page.0 < context.page_count
                && anchor.point.x.finite() && 0 <= anchor.point.x.rank() <= 0x3f80_0000
                && anchor.point.y.finite() && 0 <= anchor.point.y.rank() <= 0x3f80_0000
            &&& view.visible_pages@.len() <= context.limits.maximum_snapshot_pages
            &&& forall|at: int|
                0 <= at < view.visible_pages@.len() ==> #[trigger] shown_page_passes(
                    view.visible_pages@,
                    at,
                    context,
                )
        },
{
    lemma_shown_pages_pass(view.visible_pages@, 0, context);
}

/// A mark passes after those before it.
pub open spec fn mark_passes(
    overlays: Seq<DocumentOverlay>,
    at: int,
    context: &PdfValidationContext,
) -> bool {
    let overlay = overlays[at];
    &&& overlay.page.0 < context.page_count
    &&& forall|j: int| 0 <= j < at ==> (#[trigger] overlays[j]).id.0@ != overlay.id.0@
    &&& 1 <= overlay.regions@.len() <= context.limits.maximum_regions_per_item
    &&& forall|i: int| 0 <= i < overlay.regions@.len() ==> fits_page(#[trigger] overlay.regions@[i])
    &&& overlay.label matches Some(label) ==> crate::text::utf8_len(label@)
        <= context.limits.maximum_string_bytes
}

proof fn lemma_marks_pass(
    overlays: Seq<DocumentOverlay>,
    from: int,
    context: &PdfValidationContext,
)
    requires
        0 <= from,
    ensures
        overlays_error(overlays, from, context) is None <==> forall|at: int|
            from <= at < overlays.len() ==> #[trigger] mark_passes(overlays, at, context),
    decreases overlays.len() - from,
{
    if from < overlays.len() {
        lemma_marks_pass(overlays, from + 1, context);
        law_regions_pass_on_the_page(
            item_path("overlays"@, from) + ".regions"@,
            overlays[from].regions@,
            context.limits.maximum_regions_per_item as int,
            false,
        );
        assert(overlay_error(overlays, from, context) is None <==> mark_passes(
            overlays,
            from,
            context,
        ));
        if forall|at: int|
            from <= at < overlays.len() ==> #[trigger] mark_passes(overlays, at, context) {
            assert(mark_passes(overlays, from, context));
        }
    }
}

/// A batch of marks passes if and only if the document is of this opening, there are no more
/// marks and regions than the most, and every mark passes after those before it.
pub proof fn law_batches_pass(batch: OverlayBatch, context: &PdfValidationContext)
    ensures
        batch.contract_error(context) is None <==> {
            &&& batch.document.spec_generation() == context.generation
            &&& batch.overlays@.len() <= context.limits.maximum_overlays
            &&& forall|at: int|
                0 <= at < batch.overlays@.len() ==> #[trigger] mark_passes(
                    batch.overlays@,
                    at,
                    context,
                )
            &&& overlay_regions(batch.overlays@, batch.overlays@.len() as int)
                <= context.limits.maximum_total_regions
        },
{
    lemma_marks_pass(batch.overlays@, 0, context);
}

/// The regions of a selection, and of marks, are counted together.
pub proof fn law_regions_are_counted_together(
    pages: Seq<SelectionPageSnapshot>,
    overlays: Seq<DocumentOverlay>,
    count: int,
)
    ensures
        count <= 0 ==> selection_regions(pages, count) == 0 && overlay_regions(overlays, count)
            == 0,
        0 < count <= pages.len() ==> {
            let sum = selection_regions(pages, count - 1) + pages[count - 1].regions@.len();
            selection_regions(pages, count) == if sum <= usize::MAX {
                sum
            } else {
                usize::MAX as int
            }
        },
        0 < count <= overlays.len() ==> {
            let sum = overlay_regions(overlays, count - 1) + overlays[count - 1].regions@.len();
            overlay_regions(overlays, count) == if sum <= usize::MAX {
                sum
            } else {
                usize::MAX as int
            }
        },
{
}

/// Where nothing else was agreed on, texts and addresses have sixteen kibibytes, outlines
/// twenty thousand entries and 64 levels, a page as many links, and marks are up to 2048
/// with 64 regions each and 8192 together.
pub proof fn law_usual_limits_are_these()
    ensures
        ({
            let limits = PdfContractLimits::usual();
            &&& limits.maximum_string_bytes == 16 * 1_024
            &&& limits.maximum_uri_bytes == 16 * 1_024
            &&& limits.maximum_outline_entries == 20_000
            &&& limits.maximum_outline_depth == 64
            &&& limits.maximum_links_per_page == 20_000
            &&& limits.maximum_text_characters == 100_000
            &&& limits.maximum_selection_text_bytes == 4 * 1_024 * 1_024
            &&& limits.maximum_snapshot_pages == 1_024
            &&& limits.maximum_overlays == 2_048
            &&& limits.maximum_regions_per_item == 64
            &&& limits.maximum_total_regions == 8_192
        }),
{
}

} // verus!
