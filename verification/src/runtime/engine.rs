//! What the runtime asks of a PDF engine, and what it says about the outcome.

use crate::float_bits::FloatBits;
use crate::runtime::cancellation::CombinedCancellation;
use crate::runtime::demand::{DemandStamp, PreviewDemand, RenderDemand, TextDemand};
use crate::runtime::session::{AllocationError, ResourceHandle, SessionError};
use vstd::prelude::*;

verus! {

/// What an engine can do besides rendering.
#[derive(Clone, Copy, Debug, PartialEq, Eq, Structural)]
pub struct EngineCapabilities {
    pub text: bool,
    pub previews: bool,
}

impl Default for EngineCapabilities {
    fn default() -> (capabilities: EngineCapabilities)
        ensures
            capabilities == (EngineCapabilities { text: false, previews: false }),
    {
        EngineCapabilities { text: false, previews: false }
    }
}

/// Size of a page in points.
#[derive(Clone, Copy, Debug, PartialEq, Eq, Structural)]
pub struct PageSize {
    pub width: FloatBits,
    pub height: FloatBits,
}

/// What an engine says of an opened document.
#[derive(Debug)]
pub struct DocumentDescriptor {
    pub pages: Vec<PageSize>,
}

impl DocumentDescriptor {
    /// The number of pages.
    pub fn page_count(&self) -> (count: usize)
        ensures
            count == self.pages@.len(),
    {
        self.pages.len()
    }

    /// A copy.
    pub fn copy(&self) -> (copy: DocumentDescriptor)
        ensures
            copy.pages@ == self.pages@,
    {
        let mut pages: Vec<PageSize> = Vec::new();
        let mut i: usize = 0;
        while i < self.pages.len()
            invariant
                i <= self.pages@.len(),
                pages@ == self.pages@.take(i as int),
            decreases self.pages@.len() - i,
        {
            pages.push(self.pages[i]);
            i += 1;
            assert(pages@ =~= self.pages@.take(i as int));
        }
        assert(self.pages@.take(self.pages@.len() as int) =~= self.pages@);
        DocumentDescriptor { pages }
    }
}

/// Pixels that an engine rendered.
#[derive(Debug, PartialEq, Eq)]
pub struct RasterImage {
    pub width: u32,
    pub height: u32,
    pub pixels: Vec<u8>,
}

/// Marks the handle of an opened document.
#[derive(Debug)]
pub enum DocumentResource {
    Document,
}

/// Marks the handle of a rendered tile.
#[derive(Debug)]
pub enum RenderResource {
    Tile,
}

/// Marks the handle of extracted text.
#[derive(Debug)]
pub enum TextResource {
    Text,
}

/// Marks the handle of a rendered preview.
#[derive(Debug)]
pub enum PreviewResource {
    Preview,
}

/// What is wrong with what an engine returned.
#[derive(Clone, Copy, Debug, PartialEq, Eq, Structural)]
pub enum EngineOutputError {
    UnexpectedDimensions {
        expected_width: u32,
        expected_height: u32,
        actual_width: u32,
        actual_height: u32,
    },
}

/// Why a piece of work failed.
#[derive(Clone, Copy, Debug, PartialEq, Eq)]
pub enum RuntimeFailure<E> {
    Session(SessionError),
    Allocation(AllocationError),
    NoDocument,
    InvalidPage { page: usize, page_count: usize },
    InvalidEngineOutput(EngineOutputError),
    Engine(E),
}

/// A rendered tile.
#[derive(Debug)]
pub struct RenderedTile {
    pub resource: ResourceHandle<RenderResource>,
    pub image: RasterImage,
}

/// The text of a page.
#[derive(Debug)]
pub struct TextPage<L> {
    pub resource: ResourceHandle<TextResource>,
    pub page: usize,
    pub layer: L,
}

/// A rendered preview.
#[derive(Debug)]
pub struct RenderedPreview {
    pub resource: ResourceHandle<PreviewResource>,
    pub page: usize,
    pub image: RasterImage,
}

/// What became of a render demand.
#[derive(Debug)]
pub enum RenderEvent<E> {
    Ready { demand: RenderDemand, tile: RenderedTile },
    /// Its flag was set.
    Cancelled { stamp: DemandStamp },
    /// Its generation is gone.
    Discarded { stamp: DemandStamp },
    Failed { stamp: DemandStamp, error: RuntimeFailure<E> },
}

/// What became of a text demand.
#[derive(Debug)]
pub enum TextEvent<E, L> {
    Ready { demand: TextDemand, text: TextPage<L> },
    Cancelled { stamp: DemandStamp },
    Discarded { stamp: DemandStamp },
    Failed { stamp: DemandStamp, error: RuntimeFailure<E> },
}

/// What became of a preview demand.
#[derive(Debug)]
pub enum PreviewEvent<E> {
    Ready { demand: PreviewDemand, preview: RenderedPreview },
    Cancelled { stamp: DemandStamp },
    Discarded { stamp: DemandStamp },
    Failed { stamp: DemandStamp, error: RuntimeFailure<E> },
}

/// An opened document.
pub trait EngineDocument {
    /// How the engine fails.
    type Error;

    /// How the engine hands out text.
    type Text;

    /// What the engine says of the document.
    fn descriptor(&self) -> (descriptor: &DocumentDescriptor);

    /// Renders a tile.
    fn render(&mut self, demand: &RenderDemand, cancellation: &CombinedCancellation) -> (image:
        Result<RasterImage, Self::Error>);

    /// Reads the text of a page.
    fn extract_text(&mut self, demand: &TextDemand, cancellation: &CombinedCancellation) -> (text:
        Result<Self::Text, Self::Error>);

    /// Renders a preview.
    fn render_preview(
        &mut self,
        demand: &PreviewDemand,
        cancellation: &CombinedCancellation,
    ) -> (image: Result<RasterImage, Self::Error>);
}

/// A PDF engine.
pub trait PdfEngine {
    /// What a document is opened from.
    type Source;

    /// How the engine fails.
    type Error;

    /// How the engine hands out text.
    type Text;

    /// An opened document.
    type Document: EngineDocument<Error = Self::Error, Text = Self::Text>;

    /// What the engine can do.
    fn capabilities(&self) -> (capabilities: EngineCapabilities);

    /// Opens a document.
    fn open(&mut self, source: Self::Source, cancellation: &CombinedCancellation) -> (document:
        Result<Self::Document, Self::Error>);
}

} // verus!
