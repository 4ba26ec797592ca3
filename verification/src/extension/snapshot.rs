//! Read-only snapshots of a document and of what a reader shows of it.

use crate::document::{TextBounds, TextPosition, TextSelection};
use crate::extension::error::{PdfErrorView, PdfExtensionError, PdfExtensionResult};
use crate::extension::handle::{DocumentHandle, PageHandle};
use crate::extension::navigation::DocumentDestination;
use crate::float_bits::FloatBits;
use vstd::prelude::*;

verus! {

/// Which publication of a snapshot this is, within one opening.
#[derive(Clone, Copy, Debug, PartialEq, Eq, PartialOrd, Ord, Hash, Structural)]
pub struct SnapshotRevision(pub u64);

impl Default for SnapshotRevision {
    /// The revision before the first.
    fn default() -> (revision: Self)
        ensures
            revision == SnapshotRevision(0),
    {
        SnapshotRevision(0)
    }
}

/// A page, counted from zero.
#[derive(Clone, Copy, Debug, PartialEq, Eq, PartialOrd, Ord, Hash, Structural)]
pub struct PageIndex(pub u32);

impl Default for PageIndex {
    /// The first page.
    fn default() -> (page: Self)
        ensures
            page == PageIndex(0),
    {
        PageIndex(0)
    }
}

impl PageIndex {
    /// The page as a place in a list.
    pub fn as_usize(self) -> (index: usize)
        ensures
            index == self.0,
    {
        self.0 as usize
    }
}

/// A point on a page, in fractions from its top left corner.
#[derive(Clone, Copy, Debug, PartialEq, Eq, Hash, Structural)]
pub struct NormalizedPoint {
    pub x: FloatBits,
    pub y: FloatBits,
}

impl Default for NormalizedPoint {
    /// The top left corner.
    fn default() -> (point: Self)
        ensures
            point == (NormalizedPoint { x: FloatBits(0), y: FloatBits(0) }),
    {
        NormalizedPoint { x: FloatBits(0), y: FloatBits(0) }
    }
}

/// A rectangle on a page, in fractions from its top left corner.
#[derive(Clone, Copy, Debug, PartialEq, Eq, Hash, Structural)]
pub struct NormalizedRect {
    pub left: FloatBits,
    pub top: FloatBits,
    pub right: FloatBits,
    pub bottom: FloatBits,
}

impl Default for NormalizedRect {
    /// The top left corner.
    fn default() -> (rect: Self)
        ensures
            rect == (NormalizedRect {
                left: FloatBits(0),
                top: FloatBits(0),
                right: FloatBits(0),
                bottom: FloatBits(0),
            }),
    {
        NormalizedRect {
            left: FloatBits(0),
            top: FloatBits(0),
            right: FloatBits(0),
            bottom: FloatBits(0),
        }
    }
}

impl From<TextBounds> for NormalizedRect {
    fn from(bounds: TextBounds) -> (rect: Self) {
        NormalizedRect {
            left: bounds.left,
            top: bounds.top,
            right: bounds.right,
            bottom: bounds.bottom,
        }
    }
}

impl vstd::std_specs::convert::FromSpecImpl<TextBounds> for NormalizedRect {
    open spec fn obeys_from_spec() -> bool {
        true
    }

    open spec fn from_spec(bounds: TextBounds) -> Self {
        NormalizedRect {
            left: bounds.left,
            top: bounds.top,
            right: bounds.right,
            bottom: bounds.bottom,
        }
    }
}

impl From<NormalizedRect> for TextBounds {
    fn from(rect: NormalizedRect) -> (bounds: Self) {
        TextBounds { left: rect.left, top: rect.top, right: rect.right, bottom: rect.bottom }
    }
}

impl vstd::std_specs::convert::FromSpecImpl<NormalizedRect> for TextBounds {
    open spec fn obeys_from_spec() -> bool {
        true
    }

    open spec fn from_spec(rect: NormalizedRect) -> Self {
        TextBounds { left: rect.left, top: rect.top, right: rect.right, bottom: rect.bottom }
    }
}

/// A character in the reading order of a document.
#[derive(Clone, Copy, Debug, PartialEq, Eq, PartialOrd, Ord, Hash, Structural)]
pub struct TextLocation {
    pub page: PageIndex,
    pub character: u32,
}

/// What is wrong with a position that is to become a location: the first of
/// its two numbers that does not fit.
pub open spec fn position_error(position: TextPosition) -> Option<PdfErrorView> {
    if position.page > u32::MAX {
        Some(
            PdfErrorView::LimitExceeded {
                field: "text_location.page"@,
                limit: u32::MAX as u64,
                actual: position.page as u64,
            },
        )
    } else if position.index > u32::MAX {
        Some(
            PdfErrorView::LimitExceeded {
                field: "text_location.character"@,
                limit: u32::MAX as u64,
                actual: position.index as u64,
            },
        )
    } else {
        None
    }
}

impl TextLocation {
    /// This character stands before another, or is the same.
    pub open spec fn not_after(self, other: TextLocation) -> bool {
        self.page.0 < other.page.0 || (self.page.0 == other.page.0 && self.character
            <= other.character)
    }

    /// The position as it stands for extensions.
    pub open spec fn of_position(position: TextPosition) -> TextLocation {
        TextLocation {
            page: PageIndex(position.page as u32),
            character: position.index as u32,
        }
    }

    /// Takes a position over.
    pub fn from_position(position: TextPosition) -> (location: PdfExtensionResult<TextLocation>)
        ensures
            crate::extension::error::checks_to(location, position_error(position)),
            location matches Ok(location) ==> location == TextLocation::of_position(position)
                && location.page.0 == position.page && location.character == position.index,
    {
        if position.page > u32::MAX as usize {
            return Err(
                PdfExtensionError::LimitExceeded {
                    field: "text_location.page".to_owned(),
                    limit: u32::MAX as u64,
                    actual: position.page as u64,
                },
            );
        }
        if position.index > u32::MAX as usize {
            return Err(
                PdfExtensionError::LimitExceeded {
                    field: "text_location.character".to_owned(),
                    limit: u32::MAX as u64,
                    actual: position.index as u64,
                },
            );
        }
        Ok(
            TextLocation {
                page: PageIndex(position.page as u32),
                character: position.index as u32,
            },
        )
    }
}

impl From<TextLocation> for TextPosition {
    fn from(location: TextLocation) -> (position: Self) {
        TextPosition { page: location.page.as_usize(), index: location.character as usize }
    }
}

impl vstd::std_specs::convert::FromSpecImpl<TextLocation> for TextPosition {
    open spec fn obeys_from_spec() -> bool {
        true
    }

    open spec fn from_spec(location: TextLocation) -> Self {
        TextPosition { page: location.page.0 as usize, index: location.character as usize }
    }
}

/// A selection with its direction.
#[derive(Clone, Copy, Debug, PartialEq, Eq, Structural)]
pub struct TextSelectionRange {
    /// Where the selection began.
    pub anchor: TextLocation,
    /// Where it has got to.
    pub focus: TextLocation,
}

impl TextSelectionRange {
    /// Both ends, the one that stands earlier in the document first.
    pub fn ordered(self) -> (ends: (TextLocation, TextLocation))
        ensures
            ends == if self.anchor.not_after(self.focus) {
                (self.anchor, self.focus)
            } else {
                (self.focus, self.anchor)
            },
            ends.0.not_after(ends.1),
    {
        let in_order = self.anchor.page.0 < self.focus.page.0 || (self.anchor.page.0
            == self.focus.page.0 && self.anchor.character <= self.focus.character);
        if in_order {
            (self.anchor, self.focus)
        } else {
            (self.focus, self.anchor)
        }
    }

    /// Takes a selection over, the anchor first.
    pub fn from_selection(selection: TextSelection) -> (range: PdfExtensionResult<
        TextSelectionRange,
    >)
        ensures
            crate::extension::error::checks_to(
                range,
                match position_error(selection.anchor) {
                    Some(error) => Some(error),
                    None => position_error(selection.focus),
                },
            ),
            range matches Ok(range) ==> range.anchor == TextLocation::of_position(selection.anchor)
                && range.focus == TextLocation::of_position(selection.focus),
    {
        match TextLocation::from_position(selection.anchor) {
            Err(error) => Err(error),
            Ok(anchor) => match TextLocation::from_position(selection.focus) {
                Err(error) => Err(error),
                Ok(focus) => Ok(TextSelectionRange { anchor, focus }),
            },
        }
    }
}

impl From<TextSelectionRange> for TextSelection {
    fn from(range: TextSelectionRange) -> (selection: Self) {
        TextSelection {
            anchor: TextPosition::from(range.anchor),
            focus: TextPosition::from(range.focus),
        }
    }
}

impl vstd::std_specs::convert::FromSpecImpl<TextSelectionRange> for TextSelection {
    open spec fn obeys_from_spec() -> bool {
        true
    }

    open spec fn from_spec(range: TextSelectionRange) -> Self {
        TextSelection {
            anchor: TextPosition {
                page: range.anchor.page.0 as usize,
                index: range.anchor.character as usize,
            },
            focus: TextPosition {
                page: range.focus.page.0 as usize,
                index: range.focus.character as usize,
            },
        }
    }
}

/// Every location comes back from the position that it stands for.
pub proof fn law_locations_survive_positions(location: TextLocation, position: TextPosition)
    requires
        position.page == location.page.0,
        position.index == location.character,
    ensures
        position_error(position) is None,
        TextLocation::of_position(position) == location,
{
}

/// What a document says of itself.
#[derive(Clone, Debug, PartialEq, Eq)]
pub struct DocumentMetadataSnapshot {
    pub document: DocumentHandle,
    pub revision: SnapshotRevision,
    pub page_count: u32,
    pub title: Option<String>,
    pub author: Option<String>,
    pub subject: Option<String>,
    pub keywords: Option<String>,
    pub creator: Option<String>,
    pub producer: Option<String>,
    pub language: Option<String>,
    pub format_version: Option<String>,
    pub tagged: bool,
    pub encrypted: bool,
}

/// Clockwise rotation of a page.
#[derive(Clone, Copy, Debug, Default, PartialEq, Eq, Structural)]
pub enum PageRotation {
    #[default]
    Degrees0,
    Degrees90,
    Degrees180,
    Degrees270,
}

/// The size and label of a page.
#[derive(Clone, Debug, PartialEq, Eq)]
pub struct PageMetadataSnapshot {
    pub document: DocumentHandle,
    pub page: PageHandle,
    pub revision: SnapshotRevision,
    pub index: PageIndex,
    /// The page's own name, such as `iv`.
    pub label: Option<String>,
    /// Width in points, the rotation taken into account.
    pub width_points: FloatBits,
    /// Height in points, the rotation taken into account.
    pub height_points: FloatBits,
    pub rotation: PageRotation,
}

/// An entry of an outline.
#[derive(Clone, Copy, Debug, PartialEq, Eq, PartialOrd, Ord, Hash, Structural)]
pub struct OutlineEntryId(pub u64);

/// An entry of an outline that was written out as a list.
#[derive(Clone, Debug, PartialEq, Eq)]
pub struct OutlineEntry {
    pub id: OutlineEntryId,
    /// The entry above, or none for a root.
    pub parent: Option<OutlineEntryId>,
    /// How many entries stand above.
    pub depth: u16,
    pub title: String,
    pub destination: DocumentDestination,
}

/// The outline of a document.
#[derive(Clone, Debug, PartialEq, Eq)]
pub struct OutlineSnapshot {
    pub document: DocumentHandle,
    pub revision: SnapshotRevision,
    /// Entries, each after the one above it.
    pub entries: Vec<OutlineEntry>,
    /// The host left entries out.
    pub truncated: bool,
}

/// A link of a page.
#[derive(Clone, Copy, Debug, PartialEq, Eq, PartialOrd, Ord, Hash, Structural)]
pub struct LinkId(pub u64);

/// Where a link leads.
#[derive(Clone, Debug, PartialEq, Eq)]
pub enum LinkTarget {
    Internal { destination: DocumentDestination },
    /// An address as the document has it. To read it is no leave to open it.
    External { uri: String },
}

/// A link of a page, and where it stands.
#[derive(Clone, Debug, PartialEq, Eq)]
pub struct LinkEntry {
    pub id: LinkId,
    pub regions: Vec<NormalizedRect>,
    pub source_range: Option<TextSelectionRange>,
    pub target: LinkTarget,
}

/// The links of a page.
#[derive(Clone, Debug, PartialEq, Eq)]
pub struct PageLinksSnapshot {
    pub page: PageHandle,
    pub index: PageIndex,
    pub revision: SnapshotRevision,
    pub links: Vec<LinkEntry>,
    /// The host left links out.
    pub truncated: bool,
}

/// Asks for a stretch of a page's text.
#[derive(Clone, Copy, Debug, PartialEq, Eq, Structural)]
pub struct PageTextRequest {
    pub page: PageHandle,
    pub start: u32,
    pub maximum_characters: u32,
}

/// Numbers that are characters: up to the last code point, without the
/// surrogates.
pub open spec fn is_scalar(value: u32) -> bool {
    value < 0xd800 || 0xe000 <= value <= 0x10ffff
}

/// `char::from_u32` gives the character with a number, and none where the
/// number is not a Unicode scalar value.
pub assume_specification[ char::from_u32 ](i: u32) -> (c: Option<char>)
    ensures
        c == (if is_scalar(i) {
            Some(i as char)
        } else {
            None
        }),
;

/// A character of a page by its number, and where it stands.
#[derive(Clone, Copy, Debug, PartialEq, Eq, Structural)]
pub struct TextCharacter {
    pub scalar: u32,
    pub bounds: Option<NormalizedRect>,
}

impl TextCharacter {
    /// The character, where the number is one.
    pub fn value(self) -> (c: Option<char>)
        ensures
            c == (if is_scalar(self.scalar) {
                Some(self.scalar as char)
            } else {
                None
            }),
    {
        char::from_u32(self.scalar)
    }
}

/// A stretch of a page's text.
#[derive(Clone, Debug, PartialEq, Eq)]
pub struct PageTextSnapshot {
    pub page: PageHandle,
    pub index: PageIndex,
    pub revision: SnapshotRevision,
    pub start: u32,
    pub total_characters: u32,
    pub characters: Vec<TextCharacter>,
    /// The stretch reaches the end of the page's text.
    pub complete: bool,
}

impl PageTextSnapshot {
    /// The text of the stretch, where all of it is text.
    pub fn text(&self) -> (text: Option<String>)
        ensures
            match text {
                Some(text) => {
                    &&& text@.len() == self.characters@.len()
                    &&& forall|i: int|
                        0 <= i < self.characters@.len() ==> is_scalar(
                            (#[trigger] self.characters@[i]).scalar,
                        ) && text@[i] == self.characters@[i].scalar as char
                },
                None => exists|i: int|
                    0 <= i < self.characters@.len() && !is_scalar(
                        (#[trigger] self.characters@[i]).scalar,
                    ),
            },
    {
        let mut text = String::new();
        let mut i: usize = 0;
        while i < self.characters.len()
            invariant
                i <= self.characters@.len(),
                text@.len() == i,
                forall|j: int|
                    0 <= j < i ==> is_scalar((#[trigger] self.characters@[j]).scalar) && text@[j]
                        == self.characters@[j].scalar as char,
            decreases self.characters@.len() - i,
        {
            match self.characters[i].value() {
                Some(c) => {
                    text.push(c);
                },
                None => {
                    return None;
                },
            }
            i += 1;
        }
        Some(text)
    }
}

/// Where a selection stands on a page.
#[derive(Clone, Debug, PartialEq, Eq)]
pub struct SelectionPageSnapshot {
    pub page: PageHandle,
    pub index: PageIndex,
    pub regions: Vec<NormalizedRect>,
}

/// What is selected in a document.
#[derive(Clone, Debug, PartialEq, Eq)]
pub struct SelectionSnapshot {
    pub document: DocumentHandle,
    pub revision: SnapshotRevision,
    pub range: Option<TextSelectionRange>,
    pub text: Option<String>,
    pub pages: Vec<SelectionPageSnapshot>,
}

/// What of a page can be seen.
#[derive(Clone, Debug, PartialEq, Eq)]
pub struct VisiblePageSnapshot {
    pub page: PageHandle,
    pub index: PageIndex,
    pub visible_area: NormalizedRect,
}

/// The point that keeps its place when the view changes.
#[derive(Clone, Copy, Debug, PartialEq, Eq, Structural)]
pub struct ViewportAnchor {
    pub page: PageIndex,
    pub point: NormalizedPoint,
}

/// What a reader shows of a document.
#[derive(Clone, Debug, PartialEq, Eq)]
pub struct ViewportSnapshot {
    pub document: DocumentHandle,
    pub revision: SnapshotRevision,
    /// One is the document's own size.
    pub zoom_ratio: FloatBits,
    pub anchor: Option<ViewportAnchor>,
    /// Pages from the first to the last.
    pub visible_pages: Vec<VisiblePageSnapshot>,
}

/// Characters stand in the order of their pages, and on one page in that of their numbers.
pub proof fn law_locations_are_in_reading_order(a: TextLocation, b: TextLocation, c: TextLocation)
    ensures
        a.not_after(b) || b.not_after(a),
        a.not_after(b) && b.not_after(a) ==> a == b,
        a.not_after(b) && b.not_after(c) ==> a.not_after(c),
        a.page.0 < b.page.0 ==> a.not_after(b) && !b.not_after(a),
        a.page == b.page ==> (a.not_after(b) <==> a.character <= b.character),
{
}

/// The ends of a selection are its anchor and its focus, the earlier first, whichever way it
/// was made.
pub proof fn law_ends_do_not_depend_on_the_direction(
    range: TextSelectionRange,
    ends: (TextLocation, TextLocation),
    reversed: (TextLocation, TextLocation),
)
    requires
        call_ensures(TextSelectionRange::ordered, (range,), ends),
        call_ensures(
            TextSelectionRange::ordered,
            (TextSelectionRange { anchor: range.focus, focus: range.anchor },),
            reversed,
        ),
    ensures
        ends == reversed,
        ends == (range.anchor, range.focus) || ends == (range.focus, range.anchor),
        ends.0.page.0 <= ends.1.page.0,
        ends.0.page == ends.1.page ==> ends.0.character <= ends.1.character,
{
}

/// A position can be handed over if and only if both its numbers fit 32 bits; it comes back
/// as it was. Boxes and rectangles become each other side by side.
pub proof fn law_positions_and_boxes_come_back(
    position: TextPosition,
    rect: NormalizedRect,
    bounds: TextBounds,
)
    ensures
        position_error(position) is None <==> position.page <= 0xffff_ffff && position.index
            <= 0xffff_ffff,
        position_error(position) is None ==> {
            let location = TextLocation::of_position(position);
            location.page.0 == position.page && location.character == position.index
        },
        ({
            let there = TextLocation {
                page: PageIndex(position.page as u32),
                character: position.index as u32,
            };
            let back = <TextPosition as vstd::std_specs::convert::FromSpec<
                TextLocation,
            >>::from_spec(there);
            position.page <= 0xffff_ffff && position.index <= 0xffff_ffff ==> back == position
        }),
        ({
            let back = <NormalizedRect as vstd::std_specs::convert::FromSpec<
                TextBounds,
            >>::from_spec(bounds);
            back.left == bounds.left && back.top == bounds.top && back.right == bounds.right
                && back.bottom == bounds.bottom
        }),
        ({
            let back = <TextBounds as vstd::std_specs::convert::FromSpec<
                NormalizedRect,
            >>::from_spec(rect);
            back.left == rect.left && back.top == rect.top && back.right == rect.right
                && back.bottom == rect.bottom
        }),
{
}

/// A number is a character if and only if it is no more than the last code point and no
/// surrogate.
pub proof fn law_characters_are_scalars(value: u32)
    ensures
        is_scalar(value) <==> value <= 0x10_ffff && !(0xd800 <= value && value <= 0xdfff),
{
}

/// A selection that is handed back has the ends that it had, each on its side.
pub proof fn law_selections_come_back(range: TextSelectionRange)
    ensures
        ({
            let back = <TextSelection as vstd::std_specs::convert::FromSpec<
                TextSelectionRange,
            >>::from_spec(range);
            &&& back.anchor.page == range.anchor.page.0
            &&& back.anchor.index == range.anchor.character
            &&& back.focus.page == range.focus.page.0
            &&& back.focus.index == range.focus.character
        }),
{
}

/// The text of a stretch has its characters in their order, and is there if and only if all
/// of them are characters.
pub proof fn law_stretches_read_as_their_characters(
    snapshot: PageTextSnapshot,
    text: Option<String>,
    i: int,
)
    requires
        call_ensures(PageTextSnapshot::text, (&snapshot,), text),
        0 <= i < snapshot.characters@.len(),
    ensures
        text matches Some(read) ==> read@.len() == snapshot.characters@.len() && read@[i] as u32
            == snapshot.characters@[i].scalar,
        !is_scalar(snapshot.characters@[i].scalar) ==> text is None,
{
    if let Some(read) = text {
        assert(is_scalar(snapshot.characters@[i].scalar));
    }
}

} // verus!
