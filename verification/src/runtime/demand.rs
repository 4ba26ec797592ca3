//! Demands for rendered tiles, page text and previews, each checked before it
//! is given an identity.

use crate::geometry::{PixelRect, RasterSize, TileKey};
use crate::runtime::priority::DemandPriority;
use crate::runtime::session::{AllocationError, DocumentGeneration, DocumentSession, RequestId};
use vstd::prelude::*;

verus! {

/// What a demand is for.
#[derive(Clone, Copy, Debug, PartialEq, Eq, Hash, Structural)]
pub enum DemandIntent {
    Visible,
    Interactive,
    Prefetch,
    Explicit,
    Background,
}

impl Default for DemandIntent {
    fn default() -> (intent: DemandIntent)
        ensures
            intent == DemandIntent::Visible,
    {
        DemandIntent::Visible
    }
}

/// Identity, urgency and purpose of one demand.
#[derive(Clone, Copy, Debug, PartialEq, Eq, Hash, Structural)]
pub struct DemandStamp {
    pub generation: DocumentGeneration,
    pub request: RequestId,
    pub priority: DemandPriority,
    pub intent: DemandIntent,
}

impl DemandStamp {
    /// The generation that the demand belongs to.
    pub fn generation(self) -> (generation: DocumentGeneration)
        ensures
            generation == self.generation,
    {
        self.generation
    }

    /// The demand's identity within its generation.
    pub fn request(self) -> (request: RequestId)
        ensures
            request == self.request,
    {
        self.request
    }

    /// The demand's priority.
    pub fn priority(self) -> (priority: DemandPriority)
        ensures
            priority == self.priority,
    {
        self.priority
    }

    /// What the demand is for.
    pub fn intent(self) -> (intent: DemandIntent)
        ensures
            intent == self.intent,
    {
        self.intent
    }
}

/// A color with eight bits per channel.
#[derive(Clone, Copy, Debug, PartialEq, Eq, Hash, Structural)]
pub struct PixelColor {
    pub red: u8,
    pub green: u8,
    pub blue: u8,
    pub alpha: u8,
}

impl Default for PixelColor {
    fn default() -> (color: PixelColor)
        ensures
            color == (PixelColor { red: 0, green: 0, blue: 0, alpha: 0 }),
    {
        PixelColor { red: 0, green: 0, blue: 0, alpha: 0 }
    }
}

/// How page colors are shown.
#[derive(Clone, Copy, Debug, PartialEq, Eq, Hash, Structural)]
pub enum ColorMode {
    /// As the document has them.
    Original,
    /// Mapped onto two colors.
    Forced { background: PixelColor, foreground: PixelColor },
}

impl Default for ColorMode {
    fn default() -> (mode: ColorMode)
        ensures
            mode == ColorMode::Original,
    {
        ColorMode::Original
    }
}

/// The identity under which render demands replace one another.
#[derive(Clone, Copy, Debug, PartialEq, Eq, Hash, Structural)]
pub struct RenderDemandKey {
    pub tile: TileKey,
}

/// A demand for one tile.
#[derive(Clone, Copy, Debug, PartialEq, Eq, Structural)]
pub struct RenderDemand {
    pub stamp: DemandStamp,
    pub key: TileKey,
    pub core_rect: PixelRect,
    pub render_rect: PixelRect,
    pub color_mode: ColorMode,
}

impl RenderDemand {
    /// The demand's identity.
    pub fn stamp(&self) -> (stamp: DemandStamp)
        ensures
            stamp == self.stamp,
    {
        self.stamp
    }

    /// The tile.
    pub fn key(&self) -> (key: TileKey)
        ensures
            key == self.key,
    {
        self.key
    }

    /// The identity under which render demands replace one another.
    pub fn deduplication_key(&self) -> (key: RenderDemandKey)
        ensures
            key.tile == self.key,
    {
        RenderDemandKey { tile: self.key }
    }

    /// The page.
    pub fn page(&self) -> (page: usize)
        ensures
            page == self.key.page,
    {
        self.key.page
    }

    /// The size of the page raster.
    pub fn raster(&self) -> (raster: RasterSize)
        ensures
            raster == self.key.raster,
    {
        self.key.raster
    }

    /// The pixels that the tile is responsible for.
    pub fn core_rect(&self) -> (rect: PixelRect)
        ensures
            rect == self.core_rect,
    {
        self.core_rect
    }

    /// The pixels that are rendered.
    pub fn render_rect(&self) -> (rect: PixelRect)
        ensures
            rect == self.render_rect,
    {
        self.render_rect
    }

    /// How colors are shown.
    pub fn color_mode(&self) -> (mode: ColorMode)
        ensures
            mode == self.color_mode,
    {
        self.color_mode
    }
}

/// What page text is read for.
#[derive(Clone, Copy, Debug, PartialEq, Eq, Hash, Structural)]
pub enum TextDemandPurpose {
    VisibleLayer,
    Copy,
    Search,
    LinkResolution,
    DocumentAnalysis,
}

impl Default for TextDemandPurpose {
    fn default() -> (purpose: TextDemandPurpose)
        ensures
            purpose == TextDemandPurpose::VisibleLayer,
    {
        TextDemandPurpose::VisibleLayer
    }
}

/// A demand for the text of one page.
#[derive(Clone, Copy, Debug, PartialEq, Eq, Structural)]
pub struct TextDemand {
    pub stamp: DemandStamp,
    pub page: usize,
    pub purpose: TextDemandPurpose,
}

impl TextDemand {
    /// The demand's identity.
    pub fn stamp(&self) -> (stamp: DemandStamp)
        ensures
            stamp == self.stamp,
    {
        self.stamp
    }

    /// The page.
    pub fn page(&self) -> (page: usize)
        ensures
            page == self.page,
    {
        self.page
    }

    /// What the text is read for.
    pub fn purpose(&self) -> (purpose: TextDemandPurpose)
        ensures
            purpose == self.purpose,
    {
        self.purpose
    }

    /// The identity under which text demands replace one another.
    pub fn deduplication_key(&self) -> (key: usize)
        ensures
            key == self.page,
    {
        self.page
    }
}

/// A demand for a cropped preview of one page.
#[derive(Clone, Copy, Debug, PartialEq, Eq, Structural)]
pub struct PreviewDemand {
    pub stamp: DemandStamp,
    pub page: usize,
    pub raster: RasterSize,
    pub region: PixelRect,
    pub color_mode: ColorMode,
}

impl PreviewDemand {
    /// The demand's identity.
    pub fn stamp(&self) -> (stamp: DemandStamp)
        ensures
            stamp == self.stamp,
    {
        self.stamp
    }

    /// The page.
    pub fn page(&self) -> (page: usize)
        ensures
            page == self.page,
    {
        self.page
    }

    /// The size of the page raster.
    pub fn raster(&self) -> (raster: RasterSize)
        ensures
            raster == self.raster,
    {
        self.raster
    }

    /// The crop.
    pub fn region(&self) -> (region: PixelRect)
        ensures
            region == self.region,
    {
        self.region
    }

    /// How colors are shown.
    pub fn color_mode(&self) -> (mode: ColorMode)
        ensures
            mode == self.color_mode,
    {
        self.color_mode
    }
}

/// Why a demand was refused.
#[derive(Clone, Copy, Debug, PartialEq, Eq, Structural)]
pub enum DemandError {
    Allocation(AllocationError),
    EmptyRaster,
    EmptyRegion,
    RegionOutsideRaster,
    CoreOutsideRenderRegion,
    NonFiniteCoordinate,
}

impl DemandError {
    /// The words of [`message`](Self::message).
    pub open spec fn message_text(self) -> Seq<char> {
        match self {
            DemandError::Allocation(error) => error.message_text(),
            DemandError::EmptyRaster => "render raster must be non-empty"@,
            DemandError::EmptyRegion => "render region must be non-empty"@,
            DemandError::RegionOutsideRaster => "render region lies outside raster"@,
            DemandError::CoreOutsideRenderRegion => "tile core must be contained by its render region"@,
            DemandError::NonFiniteCoordinate => "preview center must be finite"@,
        }
    }

    /// The error in words.
    pub fn message(self) -> (text: &'static str)
        ensures
            text@ == self.message_text(),
    {
        match self {
            DemandError::Allocation(error) => error.message(),
            DemandError::EmptyRaster => "render raster must be non-empty",
            DemandError::EmptyRegion => "render region must be non-empty",
            DemandError::RegionOutsideRaster => "render region lies outside raster",
            DemandError::CoreOutsideRenderRegion => "tile core must be contained by its render region",
            DemandError::NonFiniteCoordinate => "preview center must be finite",
        }
    }
}

/// The raster has no pixel.
pub open spec fn empty_raster(raster: RasterSize) -> bool {
    raster.width == 0 || raster.height == 0
}

fn validate_raster(raster: RasterSize) -> (checked: Result<(), DemandError>)
    ensures
        checked == if empty_raster(raster) {
            Err(DemandError::EmptyRaster)
        } else {
            Ok::<(), DemandError>(())
        },
{
    if raster.width == 0 || raster.height == 0 {
        Err(DemandError::EmptyRaster)
    } else {
        Ok(())
    }
}

/// What is wrong with a region of a raster.
pub open spec fn region_error(raster: RasterSize, region: PixelRect) -> Option<DemandError> {
    if region.is_empty() {
        Some(DemandError::EmptyRegion)
    } else if !region.lies_on(raster) {
        Some(DemandError::RegionOutsideRaster)
    } else {
        None
    }
}

fn validate_region(raster: RasterSize, region: PixelRect) -> (checked: Result<(), DemandError>)
    ensures
        checked == match region_error(raster, region) {
            Some(error) => Err::<(), DemandError>(error),
            None => Ok(()),
        },
{
    if region.width == 0 || region.height == 0 {
        return Err(DemandError::EmptyRegion);
    }
    let right: u32 = match region.x.checked_add(region.width) {
        Some(right) => right,
        None => {
            return Err(DemandError::RegionOutsideRaster);
        },
    };
    let bottom: u32 = match region.y.checked_add(region.height) {
        Some(bottom) => bottom,
        None => {
            return Err(DemandError::RegionOutsideRaster);
        },
    };
    if right > raster.width || bottom > raster.height {
        Err(DemandError::RegionOutsideRaster)
    } else {
        Ok(())
    }
}

/// Whether `outer` covers `inner`; both lie on some raster.
fn contains_rect(outer: PixelRect, inner: PixelRect) -> (contained: bool)
    requires
        outer.right() <= u32::MAX,
        outer.bottom() <= u32::MAX,
        inner.right() <= u32::MAX,
        inner.bottom() <= u32::MAX,
    ensures
        contained == outer.covers(inner),
{
    let outer_right: u32 = outer.x + outer.width;
    let outer_bottom: u32 = outer.y + outer.height;
    let inner_right: u32 = inner.x + inner.width;
    let inner_bottom: u32 = inner.y + inner.height;
    inner.x >= outer.x && inner.y >= outer.y && inner_right <= outer_right && inner_bottom
        <= outer_bottom
}

/// What is wrong with the rectangles of a tile.
pub open spec fn tile_error(
    raster: RasterSize,
    core_rect: PixelRect,
    render_rect: PixelRect,
) -> Option<DemandError> {
    if empty_raster(raster) {
        Some(DemandError::EmptyRaster)
    } else if region_error(raster, core_rect) is Some {
        region_error(raster, core_rect)
    } else if region_error(raster, render_rect) is Some {
        region_error(raster, render_rect)
    } else if !render_rect.covers(core_rect) {
        Some(DemandError::CoreOutsideRenderRegion)
    } else {
        None
    }
}

/// Checks the rectangles of a tile.
pub fn validate_tile(raster: RasterSize, core_rect: PixelRect, render_rect: PixelRect) -> (checked:
    Result<(), DemandError>)
    ensures
        checked == match tile_error(raster, core_rect, render_rect) {
            Some(error) => Err::<(), DemandError>(error),
            None => Ok(()),
        },
{
    match validate_raster(raster) {
        Err(error) => {
            return Err(error);
        },
        Ok(()) => {},
    }
    match validate_region(raster, core_rect) {
        Err(error) => {
            return Err(error);
        },
        Ok(()) => {},
    }
    match validate_region(raster, render_rect) {
        Err(error) => {
            return Err(error);
        },
        Ok(()) => {},
    }
    if !contains_rect(render_rect, core_rect) {
        return Err(DemandError::CoreOutsideRenderRegion);
    }
    Ok(())
}

/// The raster pixel at the centre of a preview, or that none was given.
#[derive(Clone, Copy, Debug, PartialEq, Eq, Structural)]
pub enum PreviewCenter {
    /// A coordinate was not a finite number.
    NotFinite,
    /// The nearest raster pixel.
    Pixel { x: u32, y: u32 },
}

/// Where a crop of `length` starts on an axis of `size` pixels: half its
/// length before the centre, moved so that it lies on the axis.
pub open spec fn crop_start(center: u32, length: int, size: int) -> int {
    let start = center - length / 2;
    let at_least_zero = if start < 0 { 0 } else { start };
    if at_least_zero > size - length {
        size - length
    } else {
        at_least_zero
    }
}

/// The smaller of two lengths.
pub open spec fn shorter(a: u32, b: u32) -> int {
    if a <= b {
        a as int
    } else {
        b as int
    }
}

fn crop_axis(center: u32, output: u32, size: u32) -> (crop: (u32, u32))
    ensures
        crop.1 == shorter(output, size),
        crop.0 == crop_start(center, shorter(output, size), size as int),
        crop.0 + crop.1 <= size,
{
    let length: u32 = if output <= size { output } else { size };
    let half: u32 = length / 2;
    let start: u32 = if center >= half { center - half } else { 0 };
    let last: u32 = size - length;
    if start > last {
        (last, length)
    } else {
        (start, length)
    }
}

/// The region that a preview shows, or why there is none.
pub open spec fn preview_region(
    raster: RasterSize,
    output: RasterSize,
    center: PreviewCenter,
) -> Result<PixelRect, DemandError> {
    if empty_raster(raster) || empty_raster(output) {
        Err(DemandError::EmptyRaster)
    } else {
        match center {
            PreviewCenter::NotFinite => Err(DemandError::NonFiniteCoordinate),
            PreviewCenter::Pixel { x, y } => {
                let width = shorter(output.width, raster.width);
                let height = shorter(output.height, raster.height);
                Ok(
                    PixelRect {
                        x: crop_start(x, width, raster.width as int) as u32,
                        y: crop_start(y, height, raster.height as int) as u32,
                        width: width as u32,
                        height: height as u32,
                    },
                )
            },
        }
    }
}

/// Computes the region that a preview shows.
pub fn crop_preview(raster: RasterSize, output: RasterSize, center: PreviewCenter) -> (region:
    Result<PixelRect, DemandError>)
    ensures
        region == preview_region(raster, output, center),
        region matches Ok(rect) ==> rect.lies_on(raster) && !rect.is_empty(),
{
    match validate_raster(raster) {
        Err(error) => {
            return Err(error);
        },
        Ok(()) => {},
    }
    match validate_raster(output) {
        Err(error) => {
            return Err(error);
        },
        Ok(()) => {},
    }
    match center {
        PreviewCenter::NotFinite => Err(DemandError::NonFiniteCoordinate),
        PreviewCenter::Pixel { x, y } => {
            let (left, width) = crop_axis(x, output.width, raster.width);
            let (top, height) = crop_axis(y, output.height, raster.height);
            Ok(PixelRect { x: left, y: top, width, height })
        },
    }
}

impl DocumentSession {
    /// Checks a tile and stamps a demand for it. A refused tile uses up no
    /// identity.
    pub fn render_demand(
        &self,
        key: TileKey,
        core_rect: PixelRect,
        render_rect: PixelRect,
        color_mode: ColorMode,
        priority: DemandPriority,
        intent: DemandIntent,
    ) -> (demand: Result<RenderDemand, DemandError>)
        ensures
            match tile_error(key.raster, core_rect, render_rect) {
                Some(error) => demand == Err::<RenderDemand, DemandError>(error),
                None => match demand {
                    Ok(demand) => {
                        &&& demand.key == key
                        &&& demand.core_rect == core_rect
                        &&& demand.render_rect == render_rect
                        &&& demand.color_mode == color_mode
                        &&& self.stamped(demand.stamp, priority, intent)
                    },
                    Err(error) => self.had_no_request() && error == DemandError::Allocation(
                        AllocationError::RequestIdsExhausted,
                    ),
                },
            },
    {
        match validate_tile(key.raster, core_rect, render_rect) {
            Err(error) => {
                return Err(error);
            },
            Ok(()) => {},
        }
        match self.stamp(priority, intent) {
            Ok(stamp) => Ok(RenderDemand { stamp, key, core_rect, render_rect, color_mode }),
            Err(error) => Err(error),
        }
    }

    /// Stamps a demand for the text of a page.
    pub fn text_demand(
        &self,
        page: usize,
        purpose: TextDemandPurpose,
        priority: DemandPriority,
        intent: DemandIntent,
    ) -> (demand: Result<TextDemand, DemandError>)
        ensures
            match demand {
                Ok(demand) => {
                    &&& demand.page == page
                    &&& demand.purpose == purpose
                    &&& self.stamped(demand.stamp, priority, intent)
                },
                Err(error) => self.had_no_request() && error == DemandError::Allocation(
                    AllocationError::RequestIdsExhausted,
                ),
            },
    {
        match self.stamp(priority, intent) {
            Ok(stamp) => Ok(TextDemand { stamp, page, purpose }),
            Err(error) => Err(error),
        }
    }

    /// Crops a preview and stamps a demand for it. A refused preview uses up
    /// no identity.
    pub fn preview_demand(
        &self,
        page: usize,
        raster: RasterSize,
        output: RasterSize,
        center: PreviewCenter,
        color_mode: ColorMode,
        priority: DemandPriority,
    ) -> (demand: Result<PreviewDemand, DemandError>)
        ensures
            match preview_region(raster, output, center) {
                Err(error) => demand == Err::<PreviewDemand, DemandError>(error),
                Ok(region) => match demand {
                    Ok(demand) => {
                        &&& demand.page == page
                        &&& demand.raster == raster
                        &&& demand.region == region
                        &&& demand.color_mode == color_mode
                        &&& self.stamped(demand.stamp, priority, DemandIntent::Interactive)
                    },
                    Err(error) => self.had_no_request() && error == DemandError::Allocation(
                        AllocationError::RequestIdsExhausted,
                    ),
                },
            },
    {
        let region = match crop_preview(raster, output, center) {
            Err(error) => {
                return Err(error);
            },
            Ok(region) => region,
        };
        match self.stamp(priority, DemandIntent::Interactive) {
            Ok(stamp) => Ok(PreviewDemand { stamp, page, raster, region, color_mode }),
            Err(error) => Err(error),
        }
    }

    /// The stamp is one that this session gives.
    pub open spec fn stamped(
        &self,
        stamp: DemandStamp,
        priority: DemandPriority,
        intent: DemandIntent,
    ) -> bool {
        &&& stamp.generation == self.spec_generation()
        &&& stamp.request.0 != 0
        &&& self.drew_request(Some(stamp.request.0))
        &&& stamp.priority == priority
        &&& stamp.intent == intent
    }

    fn stamp(&self, priority: DemandPriority, intent: DemandIntent) -> (stamp: Result<
        DemandStamp,
        DemandError,
    >)
        ensures
            match stamp {
                Ok(stamp) => self.stamped(stamp, priority, intent),
                Err(error) => self.had_no_request() && error == DemandError::Allocation(
                    AllocationError::RequestIdsExhausted,
                ),
            },
    {
        match self.next_request_id() {
            Ok(request) => Ok(
                DemandStamp { generation: self.generation(), request, priority, intent },
            ),
            Err(error) => Err(DemandError::Allocation(error)),
        }
    }
}

/// A preview region lies on its raster, is not empty, and is as large as the
/// output and the raster allow.
pub proof fn law_preview_regions_lie_on_the_raster(
    raster: RasterSize,
    output: RasterSize,
    x: u32,
    y: u32,
)
    requires
        !empty_raster(raster),
        !empty_raster(output),
    ensures
        preview_region(raster, output, PreviewCenter::Pixel { x, y }) matches Ok(region)
            && region.lies_on(raster) && !region.is_empty() && region.width == shorter(
            output.width,
            raster.width,
        ) && region.height == shorter(output.height, raster.height),
{
}

/// A tile is accepted if and only if raster, tile and what is rendered with it have
/// pixels, both lie on the raster, and what is rendered reaches around the tile. No other
/// fault is told of a raster without pixels than that.
pub proof fn law_tiles_are_accepted_on_their_raster(
    raster: RasterSize,
    core_rect: PixelRect,
    render_rect: PixelRect,
)
    ensures
        tile_error(raster, core_rect, render_rect) is None <==> {
            &&& raster.width > 0 && raster.height > 0
            &&& core_rect.width > 0 && core_rect.height > 0
            &&& render_rect.x <= core_rect.x && render_rect.y <= core_rect.y
            &&& core_rect.x + core_rect.width <= render_rect.x + render_rect.width
                <= raster.width
            &&& core_rect.y + core_rect.height <= render_rect.y + render_rect.height
                <= raster.height
        },
        tile_error(raster, core_rect, render_rect) == Some(DemandError::EmptyRaster)
            <==> raster.width == 0 || raster.height == 0,
        tile_error(raster, core_rect, render_rect) == Some(DemandError::CoreOutsideRenderRegion)
            ==> core_rect.x < render_rect.x || core_rect.y < render_rect.y || core_rect.x
            + core_rect.width > render_rect.x + render_rect.width || core_rect.y
            + core_rect.height > render_rect.y + render_rect.height,
        tile_error(raster, core_rect, render_rect) == Some(DemandError::EmptyRegion)
            ==> core_rect.width == 0 || core_rect.height == 0 || render_rect.width == 0
            || render_rect.height == 0,
{
}

/// A preview is as large as its output where the raster is, and as the raster where it is
/// smaller. Its centre is in the middle, unless a part would then lie outside the raster:
/// it is moved no farther than that takes. A centre on the raster is shown.
pub proof fn law_previews_are_centred(raster: RasterSize, output: RasterSize, x: u32, y: u32)
    requires
        raster.width > 0,
        raster.height > 0,
        output.width > 0,
        output.height > 0,
    ensures
        preview_region(raster, output, PreviewCenter::Pixel { x, y }) matches Ok(region) && {
            &&& region.width <= output.width && region.width <= raster.width
            &&& region.width == output.width || region.width == raster.width
            &&& region.height <= output.height && region.height <= raster.height
            &&& region.height == output.height || region.height == raster.height
            &&& region.x + region.width <= raster.width
            &&& region.y + region.height <= raster.height
            &&& region.x != x - region.width / 2 ==> (region.x == 0 && x < region.width / 2) || (
            region.x + region.width == raster.width && region.x < x - region.width / 2)
            &&& region.y != y - region.height / 2 ==> (region.y == 0 && y < region.height / 2) || (
            region.y + region.height == raster.height && region.y < y - region.height / 2)
            &&& x < raster.width ==> region.x <= x < region.x + region.width
            &&& y < raster.height ==> region.y <= y < region.y + region.height
        },
{
}

/// There is no preview if and only if the raster or the output has no pixel, or the centre
/// is no finite number.
pub proof fn law_previews_are_refused_for_a_reason(
    raster: RasterSize,
    output: RasterSize,
    center: PreviewCenter,
)
    ensures
        preview_region(raster, output, center) is Err <==> raster.width == 0 || raster.height == 0
            || output.width == 0 || output.height == 0 || center is NotFinite,
{
}

/// A demand asks for what it was made for, under the stamp of its session: its generation,
/// the priority and the intent that were given.
pub proof fn law_demands_ask_for_what_they_were_made_for(
    session: DocumentSession,
    key: TileKey,
    core_rect: PixelRect,
    render_rect: PixelRect,
    color_mode: ColorMode,
    priority: DemandPriority,
    intent: DemandIntent,
    tile: Result<RenderDemand, DemandError>,
    page: usize,
    purpose: TextDemandPurpose,
    text: Result<TextDemand, DemandError>,
)
    requires
        call_ensures(
            DocumentSession::render_demand,
            (&session, key, core_rect, render_rect, color_mode, priority, intent),
            tile,
        ),
        call_ensures(
            DocumentSession::text_demand,
            (&session, page, purpose, priority, intent),
            text,
        ),
    ensures
        tile is Ok ==> tile_error(key.raster, core_rect, render_rect) is None,
        tile matches Ok(demand) ==> demand.key == key && demand.core_rect == core_rect
            && demand.render_rect == render_rect && demand.color_mode == color_mode
            && demand.stamp.generation == session.spec_generation() && demand.stamp.priority
            == priority && demand.stamp.intent == intent && demand.stamp.request.0 != 0,
        text matches Ok(demand) ==> demand.page == page && demand.purpose == purpose
            && demand.stamp.generation == session.spec_generation() && demand.stamp.priority
            == priority && demand.stamp.intent == intent && demand.stamp.request.0 != 0,
        tile matches Err(error) ==> (tile_error(key.raster, core_rect, render_rect) == Some(error)
            || session.had_no_request()),
{
}

/// A preview asks for its page at its size, for the region around its centre, under a stamp
/// of its session that says that a user waits for it.
pub proof fn law_previews_ask_for_their_region(
    session: DocumentSession,
    page: usize,
    raster: RasterSize,
    output: RasterSize,
    center: PreviewCenter,
    color_mode: ColorMode,
    priority: DemandPriority,
    preview: Result<PreviewDemand, DemandError>,
)
    requires
        call_ensures(
            DocumentSession::preview_demand,
            (&session, page, raster, output, center, color_mode, priority),
            preview,
        ),
    ensures
        preview matches Ok(demand) ==> demand.page == page && demand.raster == raster
            && demand.color_mode == color_mode && demand.stamp.generation
            == session.spec_generation() && demand.stamp.priority == priority
            && demand.stamp.intent is Interactive && preview_region(raster, output, center) == Ok::<
            PixelRect,
            DemandError,
        >(demand.region),
{
}

} // verus!
