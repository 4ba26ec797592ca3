//! Which tiles a view asks for, and in what order.

use crate::float_bits::{FloatBits, ONE_BITS};
use crate::geometry::{PixelRect, RasterSize, TileKey};
use crate::runtime::demand::{ColorMode, DemandError, DemandIntent, RenderDemand};
use crate::runtime::priority::DemandPriority;
use crate::runtime::session::DocumentSession;
use crate::viewport::canvas::CanvasRect;
use crate::viewport::controller::{GREATEST_SCALE, LEAST_SCALE};
use crate::viewport::limits::PdfReaderLimits;
use vstd::prelude::*;

verus! {

/// What can be seen comes before what is near.
#[derive(Clone, Copy, Debug, PartialEq, Eq, PartialOrd, Ord, Structural)]
pub enum DemandTier {
    Visible,
    Prefetch,
}

/// A tile with its pixels, and those that are rendered around it.
#[derive(Clone, Copy, Debug, PartialEq, Eq, Hash, Structural)]
pub struct TileRequest {
    pub key: TileKey,
    pub core_rect: PixelRect,
    pub render_rect: PixelRect,
}

impl TileRequest {
    /// The tile as a demand of a session.
    pub fn render_demand(
        self,
        session: &DocumentSession,
        color_mode: ColorMode,
        priority: DemandPriority,
        intent: DemandIntent,
    ) -> (demand: Result<RenderDemand, DemandError>)
        ensures
            match crate::runtime::demand::tile_error(
                self.key.raster,
                self.core_rect,
                self.render_rect,
            ) {
                Some(error) => demand == Err::<RenderDemand, DemandError>(error),
                None => match demand {
                    Ok(demand) => {
                        &&& demand.key == self.key
                        &&& demand.core_rect == self.core_rect
                        &&& demand.render_rect == self.render_rect
                        &&& demand.color_mode == color_mode
                        &&& session.stamped(demand.stamp, priority, intent)
                    },
                    Err(error) => session.had_no_request() && error == DemandError::Allocation(
                        crate::runtime::session::AllocationError::RequestIdsExhausted,
                    ),
                },
            },
    {
        session.render_demand(
            self.key,
            self.core_rect,
            self.render_rect,
            color_mode,
            priority,
            intent,
        )
    }
}

/// A tile, and how much it matters.
#[derive(Clone, Copy, Debug, PartialEq, Eq, Structural)]
pub struct PlannedTile {
    pub request: TileRequest,
    pub tier: DemandTier,
    /// The square of the distance from the middle of the view.
    pub distance: u64,
}

/// What a view asks for.
#[derive(Clone, Debug, PartialEq, Eq)]
pub struct TileDemandPlan {
    /// The first page that can be seen.
    pub first_visible_page: usize,
    /// The page after the last that can be seen.
    pub end_visible_page: usize,
    pub tiles: Vec<PlannedTile>,
}

/// The pixels of a tile, where the raster has any there.
pub open spec fn core_rect_of(key: TileKey, tile_size: u32) -> Option<PixelRect> {
    let x = key.column * tile_size;
    let y = key.row * tile_size;
    if x >= key.raster.width || y >= key.raster.height {
        None
    } else {
        Some(
            PixelRect {
                x: x as u32,
                y: y as u32,
                width: if tile_size <= key.raster.width - x {
                    tile_size
                } else {
                    (key.raster.width - x) as u32
                },
                height: if tile_size <= key.raster.height - y {
                    tile_size
                } else {
                    (key.raster.height - y) as u32
                },
            },
        )
    }
}

/// The pixels of a tile.
pub fn tile_core_rect_with_size(key: TileKey, tile_size: u32) -> (core: Option<PixelRect>)
    ensures
        core == core_rect_of(key, tile_size),
{
    proof {
        assert(key.column * tile_size >= 0) by (nonlinear_arith)
            requires
                key.column >= 0,
                tile_size >= 0,
        ;
        assert(key.row * tile_size >= 0) by (nonlinear_arith)
            requires
                key.row >= 0,
                tile_size >= 0,
        ;
    }
    let x: u32 = match key.column.checked_mul(tile_size) {
        Some(x) => x,
        None => {
            return None;
        },
    };
    let y: u32 = match key.row.checked_mul(tile_size) {
        Some(y) => y,
        None => {
            return None;
        },
    };
    if x >= key.raster.width || y >= key.raster.height {
        return None;
    }
    let right: u32 = key.raster.width - x;
    let below: u32 = key.raster.height - y;
    Some(
        PixelRect {
            x,
            y,
            width: if tile_size <= right {
                tile_size
            } else {
                right
            },
            height: if tile_size <= below {
                tile_size
            } else {
                below
            },
        },
    )
}

/// The pixels of a tile under limits.
pub fn tile_core_rect(key: TileKey, limits: &PdfReaderLimits) -> (core: Option<PixelRect>)
    ensures
        core == core_rect_of(key, limits.in_bounds().tile_size),
{
    tile_core_rect_with_size(key, limits.normalized().tile_size)
}

/// A stretch made longer at both ends, as far as there are pixels: its start
/// and its length.
pub open spec fn inflated(start: int, length: int, bleed: int, end: int) -> (int, int) {
    let from = if start >= bleed {
        start - bleed
    } else {
        0
    };
    let to = if start + length + bleed <= end {
        start + length + bleed
    } else {
        end
    };
    (
        from,
        if to >= from {
            to - from
        } else {
            0
        },
    )
}

/// Pixels with those around them.
pub open spec fn inflated_rect(core: PixelRect, raster: RasterSize, bleed: u32) -> PixelRect {
    let (x, width) = inflated(core.x as int, core.width as int, bleed as int, raster.width as int);
    let (y, height) = inflated(
        core.y as int,
        core.height as int,
        bleed as int,
        raster.height as int,
    );
    PixelRect { x: x as u32, y: y as u32, width: width as u32, height: height as u32 }
}

fn inflate_span(start: u32, length: u32, bleed: u32, end: u32) -> (span: (u32, u32))
    ensures
        (span.0 as int, span.1 as int) == inflated(
            start as int,
            length as int,
            bleed as int,
            end as int,
        ),
{
    let from: u32 = start.saturating_sub(bleed);
    let reach: u32 = start.saturating_add(length).saturating_add(bleed);
    let to: u32 = if reach <= end {
        reach
    } else {
        end
    };
    (from, to.saturating_sub(from))
}

/// Pixels with those around them, under limits that are within bounds.
pub fn inflate_tile_rect_with_bleed(core: PixelRect, raster: RasterSize, bleed: u32) -> (render:
    PixelRect)
    ensures
        render == inflated_rect(core, raster, bleed),
{
    let (x, width) = inflate_span(core.x, core.width, bleed, raster.width);
    let (y, height) = inflate_span(core.y, core.height, bleed, raster.height);
    PixelRect { x, y, width, height }
}

/// Pixels with those around them.
pub fn inflate_tile_rect(core: PixelRect, raster: RasterSize, limits: &PdfReaderLimits) -> (render:
    PixelRect)
    ensures
        render == inflated_rect(core, raster, limits.in_bounds().tile_bleed),
{
    inflate_tile_rect_with_bleed(core, raster, limits.normalized().tile_bleed)
}

/// The tile of a raster at a column and a row.
pub open spec fn request_at(
    page: usize,
    raster: RasterSize,
    column: u32,
    row: u32,
    limits: PdfReaderLimits,
) -> Option<TileRequest> {
    let key = TileKey { page, raster, column, row };
    match core_rect_of(key, limits.tile_size) {
        None => None,
        Some(core_rect) => Some(
            TileRequest {
                key,
                core_rect,
                render_rect: inflated_rect(core_rect, raster, limits.tile_bleed),
            },
        ),
    }
}

/// The tiles of a row from a column on.
pub open spec fn row_requests(
    page: usize,
    raster: RasterSize,
    row: u32,
    from: int,
    last: int,
    limits: PdfReaderLimits,
) -> Seq<TileRequest>
    decreases last - from + 1,
{
    if from > last {
        Seq::empty()
    } else {
        let rest = row_requests(page, raster, row, from + 1, last, limits);
        match request_at(page, raster, from as u32, row, limits) {
            Some(request) => seq![request] + rest,
            None => rest,
        }
    }
}

/// The tiles of a page from a row on.
pub open spec fn grid_requests(
    page: usize,
    raster: RasterSize,
    from: int,
    last_row: int,
    first_column: int,
    last_column: int,
    limits: PdfReaderLimits,
) -> Seq<TileRequest>
    decreases last_row - from + 1,
{
    if from > last_row {
        Seq::empty()
    } else {
        row_requests(page, raster, from as u32, first_column, last_column, limits) + grid_requests(
            page,
            raster,
            from + 1,
            last_row,
            first_column,
            last_column,
            limits,
        )
    }
}

/// The tiles of a page that touch a stretch of its pixels, row by row.
pub open spec fn page_requests(
    page: usize,
    raster: RasterSize,
    left: u32,
    right: u32,
    top: u32,
    bottom: u32,
    limits: PdfReaderLimits,
) -> Seq<TileRequest> {
    if left >= right || top >= bottom {
        Seq::empty()
    } else {
        grid_requests(
            page,
            raster,
            (top / limits.tile_size) as int,
            ((bottom - 1) / limits.tile_size as int) as int,
            (left / limits.tile_size) as int,
            ((right - 1) / limits.tile_size as int) as int,
            limits,
        )
    }
}

/// The tiles of a page that touch the pixels from `left` to before `right` and
/// from `top` to before `bottom`.
pub fn tiles_of_page(
    page: usize,
    raster: RasterSize,
    left: u32,
    right: u32,
    top: u32,
    bottom: u32,
    limits: &PdfReaderLimits,
) -> (requests: Vec<TileRequest>)
    ensures
        requests@ == page_requests(page, raster, left, right, top, bottom, limits.in_bounds()),
{
    let limits = limits.normalized();
    let mut requests: Vec<TileRequest> = Vec::new();
    if left >= right || top >= bottom {
        assert(requests@ =~= Seq::empty());
        return requests;
    }
    let size: u32 = limits.tile_size;
    let first_column: u32 = left / size;
    let last_column: u32 = (right - 1) / size;
    let first_row: u32 = top / size;
    let last_row: u32 = (bottom - 1) / size;
    let ghost whole = grid_requests(
        page,
        raster,
        first_row as int,
        last_row as int,
        first_column as int,
        last_column as int,
        limits,
    );
    let mut row: u64 = first_row as u64;
    assert(requests@ + whole =~= whole);
    while row <= last_row as u64
        invariant
            size == limits.tile_size,
            requests@ + grid_requests(
                page,
                raster,
                row as int,
                last_row as int,
                first_column as int,
                last_column as int,
                limits,
            ) == whole,
        decreases last_row + 1 - row,
    {
        let ghost below = grid_requests(
            page,
            raster,
            row + 1,
            last_row as int,
            first_column as int,
            last_column as int,
            limits,
        );
        let mut column: u64 = first_column as u64;
        proof {
            let line = row_requests(
                page,
                raster,
                row as u32,
                first_column as int,
                last_column as int,
                limits,
            );
            assert(requests@ + (line + below) =~= requests@ + line + below);
        }
        while column <= last_column as u64
            invariant
                size == limits.tile_size,
                row <= last_row,
                requests@ + row_requests(
                    page,
                    raster,
                    row as u32,
                    column as int,
                    last_column as int,
                    limits,
                ) + below == whole,
            decreases last_column + 1 - column,
        {
            let key = TileKey { page, raster, column: column as u32, row: row as u32 };
            let ghost before = requests@;
            let ghost rest = row_requests(
                page,
                raster,
                row as u32,
                column + 1,
                last_column as int,
                limits,
            );
            if let Some(core_rect) = tile_core_rect_with_size(key, size) {
                let render_rect = inflate_tile_rect_with_bleed(
                    core_rect,
                    raster,
                    limits.tile_bleed,
                );
                let request = TileRequest { key, core_rect, render_rect };
                requests.push(request);
                assert(before + (seq![request] + rest) + below =~= requests@ + rest + below);
            }
            column += 1;
        }
        assert(requests@ + Seq::<TileRequest>::empty() + below =~= requests@ + below);
        row += 1;
    }
    assert(requests@ + Seq::<TileRequest>::empty() =~= requests@);
    requests
}

/// A pixel lies in a rectangle.
pub open spec fn holds_pixel(rect: PixelRect, x: int, y: int) -> bool {
    rect.x <= x < rect.right() && rect.y <= y < rect.bottom()
}

/// Every pixel of a raster lies in exactly one tile: the one at its column and
/// row.
pub proof fn law_tiles_share_out_the_raster(
    page: usize,
    raster: RasterSize,
    tile_size: u32,
    x: u32,
    y: u32,
    column: u32,
    row: u32,
)
    requires
        tile_size > 0,
        x < raster.width,
        y < raster.height,
    ensures
        ({
            let key = TileKey { page, raster, column, row };
            let here = core_rect_of(key, tile_size) matches Some(core) && holds_pixel(
                core,
                x as int,
                y as int,
            );
            here <==> column == x / tile_size && row == y / tile_size
        }),
{
    let size = tile_size as int;
    assert(column * size <= x < column * size + size <==> column == x as int / size)
        by (nonlinear_arith)
        requires
            size > 0,
            x >= 0,
            column >= 0,
    ;
    assert(row * size <= y < row * size + size <==> row == y as int / size) by (nonlinear_arith)
        requires
            size > 0,
            y >= 0,
            row >= 0,
    ;
    assert(column * tile_size == column * size);
    assert(row * tile_size == row * size);
    assert(column * size >= 0) by (nonlinear_arith)
        requires
            size > 0,
            column >= 0,
    ;
    assert(row * size >= 0) by (nonlinear_arith)
        requires
            size > 0,
            row >= 0,
    ;
}

/// Every tile that is planned can be asked of an engine: it has pixels, they
/// lie on the raster, and what is rendered around them does too.
pub proof fn law_planned_tiles_are_accepted(
    page: usize,
    raster: RasterSize,
    column: u32,
    row: u32,
    limits: PdfReaderLimits,
)
    requires
        limits.tile_size > 0,
    ensures
        request_at(page, raster, column, row, limits) matches Some(request)
            ==> crate::runtime::demand::tile_error(
            raster,
            request.core_rect,
            request.render_rect,
        ) is None && request.render_rect.width <= limits.tile_size + 2 * limits.tile_bleed
            && request.render_rect.height <= limits.tile_size + 2 * limits.tile_bleed,
{
    let size = limits.tile_size as int;
    assert(column * size >= 0) by (nonlinear_arith)
        requires
            size > 0,
            column >= 0,
    ;
    assert(row * size >= 0) by (nonlinear_arith)
        requires
            size > 0,
            row >= 0,
    ;
}

/// A width in whole steps, as far as the cap lets it.
pub open spec fn quantized(raw: int, quantum: int, cap: int) -> int {
    let steps = (raw + quantum - 1) / quantum * quantum;
    let capped = if steps <= cap {
        steps
    } else {
        cap
    };
    if capped >= 1 {
        capped
    } else {
        1
    }
}

/// A width in whole steps, as far as the cap lets it.
pub fn quantized_width(raw_width: u32, quantum: u32, width_cap: u32) -> (width: u32)
    requires
        quantum > 0,
    ensures
        width == quantized(raw_width as int, quantum as int, width_cap as int),
{
    let count: u64 = (raw_width as u64 + quantum as u64 - 1) / quantum as u64;
    proof {
        assert(count * quantum <= raw_width + quantum - 1) by (nonlinear_arith)
            requires
                count == (raw_width + quantum - 1) / quantum as int,
                quantum > 0,
        ;
    }
    let steps: u64 = count * quantum as u64;
    let capped: u32 = if steps <= width_cap as u64 {
        steps as u32
    } else {
        width_cap
    };
    if capped >= 1 {
        capped
    } else {
        1
    }
}

/// One tile comes before another, or is the same: by page, then raster, then
/// column and row.
pub open spec fn key_not_after(a: TileKey, b: TileKey) -> bool {
    if a.page != b.page {
        a.page < b.page
    } else if a.raster.width != b.raster.width {
        a.raster.width < b.raster.width
    } else if a.raster.height != b.raster.height {
        a.raster.height < b.raster.height
    } else if a.column != b.column {
        a.column < b.column
    } else {
        a.row <= b.row
    }
}

/// One tile is not less urgent than another: what can be seen first, then what
/// is nearer the middle, then by the tile itself.
pub open spec fn not_after(a: PlannedTile, b: PlannedTile) -> bool {
    if a.tier != b.tier {
        a.tier == DemandTier::Visible
    } else if a.distance != b.distance {
        a.distance < b.distance
    } else {
        key_not_after(a.request.key, b.request.key)
    }
}

fn is_not_after(a: &PlannedTile, b: &PlannedTile) -> (holds: bool)
    ensures
        holds == not_after(*a, *b),
{
    if a.tier != b.tier {
        return a.tier == DemandTier::Visible;
    }
    if a.distance != b.distance {
        return a.distance < b.distance;
    }
    let x = &a.request.key;
    let y = &b.request.key;
    if x.page != y.page {
        x.page < y.page
    } else if x.raster.width != y.raster.width {
        x.raster.width < y.raster.width
    } else if x.raster.height != y.raster.height {
        x.raster.height < y.raster.height
    } else if x.column != y.column {
        x.column < y.column
    } else {
        x.row <= y.row
    }
}

/// Every tile is not less urgent than those after it.
pub open spec fn in_order(tiles: Seq<PlannedTile>) -> bool {
    forall|i: int, j: int|
        0 <= i < j < tiles.len() ==> not_after(#[trigger] tiles[i], #[trigger] tiles[j])
}

/// Two ordered lists made into one.
fn merge(a: &Vec<PlannedTile>, b: &Vec<PlannedTile>) -> (merged: Vec<PlannedTile>)
    requires
        in_order(a@),
        in_order(b@),
    ensures
        in_order(merged@),
        merged@.to_multiset() == a@.to_multiset().add(b@.to_multiset()),
        merged@.len() == a@.len() + b@.len(),
{
    let mut merged: Vec<PlannedTile> = Vec::new();
    let mut i: usize = 0;
    let mut j: usize = 0;
    proof {
        assert(a@.take(0) =~= Seq::empty());
        assert(b@.take(0) =~= Seq::empty());
        assert(merged@ =~= Seq::empty());
        a@.take(0).to_multiset_ensures();
        b@.take(0).to_multiset_ensures();
        merged@.to_multiset_ensures();
        assert(merged@.to_multiset() =~= a@.take(0).to_multiset().add(b@.take(0).to_multiset()));
    }
    while i < a.len() || j < b.len()
        invariant
            i <= a@.len(),
            j <= b@.len(),
            in_order(a@),
            in_order(b@),
            in_order(merged@),
            merged@.len() == i + j,
            merged@.to_multiset() == a@.take(i as int).to_multiset().add(
                b@.take(j as int).to_multiset(),
            ),
            forall|k: int, m: int|
                0 <= k < merged@.len() && i <= m < a@.len() ==> not_after(
                    #[trigger] merged@[k],
                    #[trigger] a@[m],
                ),
            forall|k: int, m: int|
                0 <= k < merged@.len() && j <= m < b@.len() ==> not_after(
                    #[trigger] merged@[k],
                    #[trigger] b@[m],
                ),
        decreases a@.len() - i + b@.len() - j,
    {
        let from_a = if i >= a.len() {
            false
        } else if j >= b.len() {
            true
        } else {
            is_not_after(&a[i], &b[j])
        };
        let ghost before = merged@;
        if from_a {
            merged.push(a[i]);
            proof {
                assert(a@.take(i + 1) =~= a@.take(i as int).push(a@[i as int]));
                a@.take(i as int).to_multiset_ensures();
                before.to_multiset_ensures();
                assert(merged@.to_multiset() =~= a@.take(i + 1).to_multiset().add(
                    b@.take(j as int).to_multiset(),
                ));
                assert forall|k: int, m: int|
                    0 <= k < merged@.len() && j <= m < b@.len() implies not_after(
                    #[trigger] merged@[k],
                    #[trigger] b@[m],
                ) by {
                    if k == before.len() {
                        assert(not_after(a@[i as int], b@[j as int]));
                        if m > j {
                            assert(not_after(b@[j as int], b@[m]));
                        }
                    } else {
                        assert(merged@[k] == before[k]);
                    }
                }
            }
            i += 1;
        } else {
            merged.push(b[j]);
            proof {
                assert(b@.take(j + 1) =~= b@.take(j as int).push(b@[j as int]));
                b@.take(j as int).to_multiset_ensures();
                before.to_multiset_ensures();
                assert(merged@.to_multiset() =~= a@.take(i as int).to_multiset().add(
                    b@.take(j + 1).to_multiset(),
                ));
                assert forall|k: int, m: int|
                    0 <= k < merged@.len() && i <= m < a@.len() implies not_after(
                    #[trigger] merged@[k],
                    #[trigger] a@[m],
                ) by {
                    if k == before.len() {
                        assert(not_after(b@[j as int], a@[i as int]));
                        if m > i {
                            assert(not_after(a@[i as int], a@[m]));
                        }
                    } else {
                        assert(merged@[k] == before[k]);
                    }
                }
            }
            j += 1;
        }
    }
    assert(a@.take(a@.len() as int) =~= a@);
    assert(b@.take(b@.len() as int) =~= b@);
    merged
}

/// The tiles from one place to another, the most urgent first.
fn sort_range(tiles: &Vec<PlannedTile>, from: usize, to: usize) -> (sorted: Vec<PlannedTile>)
    requires
        from <= to <= tiles@.len(),
    ensures
        in_order(sorted@),
        sorted@.to_multiset() == tiles@.subrange(from as int, to as int).to_multiset(),
        sorted@.len() == to - from,
    decreases to - from,
{
    if to - from <= 1 {
        let mut sorted: Vec<PlannedTile> = Vec::new();
        if to - from == 1 {
            sorted.push(tiles[from]);
        }
        assert(sorted@ =~= tiles@.subrange(from as int, to as int));
        return sorted;
    }
    let middle: usize = from + (to - from) / 2;
    let front = sort_range(tiles, from, middle);
    let back = sort_range(tiles, middle, to);
    proof {
        let left = tiles@.subrange(from as int, middle as int);
        let right = tiles@.subrange(middle as int, to as int);
        assert(tiles@.subrange(from as int, to as int) =~= left + right);
        vstd::seq_lib::lemma_multiset_commutative(left, right);
    }
    merge(&front, &back)
}

/// A list without tiles that are the same as the one before them.
pub open spec fn without_repeats(tiles: Seq<PlannedTile>) -> Seq<PlannedTile>
    decreases tiles.len(),
{
    if tiles.len() == 0 {
        tiles
    } else {
        let front = without_repeats(tiles.drop_last());
        if front.len() > 0 && front.last().request.key == tiles.last().request.key {
            front
        } else {
            front.push(tiles.last())
        }
    }
}

/// This is what becomes of tiles that were found: the most urgent first, none
/// twice in a row, and no more than the limit.
pub open spec fn planned_from(
    found: Seq<PlannedTile>,
    maximum: int,
    planned: Seq<PlannedTile>,
) -> bool {
    exists|sorted: Seq<PlannedTile>|
        {
            &&& sorted.to_multiset() == found.to_multiset()
            &&& in_order(sorted)
            &&& planned == #[trigger] first_of(without_repeats(sorted), maximum)
        }
}

/// The first tiles of a list.
pub open spec fn first_of(tiles: Seq<PlannedTile>, maximum: int) -> Seq<PlannedTile> {
    if tiles.len() <= maximum {
        tiles
    } else {
        tiles.take(maximum)
    }
}

/// Orders the tiles that were found and keeps as many as the limits let.
pub fn order_tiles(found: &Vec<PlannedTile>, limits: &PdfReaderLimits) -> (planned: Vec<
    PlannedTile,
>)
    ensures
        planned_from(found@, limits.in_bounds().max_planned_tiles as int, planned@),
        in_order(planned@),
        planned@.len() <= limits.in_bounds().max_planned_tiles,
{
    let maximum: usize = limits.normalized().max_planned_tiles;
    let sorted = sort_range(found, 0, found.len());
    assert(found@.subrange(0, found@.len() as int) =~= found@);
    let mut planned: Vec<PlannedTile> = Vec::new();
    let mut i: usize = 0;
    assert(sorted@.take(0) =~= Seq::empty());
    proof {
        lemma_prefix_of_repeats(sorted@, 0);
    }
    while i < sorted.len() && planned.len() < maximum
        invariant
            i <= sorted@.len(),
            planned@ == without_repeats(sorted@.take(i as int)),
            planned@.len() <= maximum,
        decreases sorted@.len() - i,
    {
        assert(sorted@.take(i + 1).drop_last() =~= sorted@.take(i as int));
        assert(sorted@.take(i + 1).last() == sorted@[i as int]);
        let count: usize = planned.len();
        let repeated = count > 0 && planned[count - 1].request.key == sorted[i].request.key;
        if !repeated {
            planned.push(sorted[i]);
        }
        i += 1;
    }
    proof {
        let whole = without_repeats(sorted@);
        assert(sorted@.take(sorted@.len() as int) =~= sorted@);
        lemma_prefix_of_repeats(sorted@, i as int);
        if i < sorted@.len() {
            assert(planned@.len() == maximum);
            if whole.len() > maximum {
                assert(whole.take(maximum as int) =~= planned@);
            } else {
                assert(whole =~= planned@);
            }
        }
        assert(planned@ =~= first_of(whole, maximum as int));
        lemma_without_repeats_is_in_order(sorted@);
        assert(planned_from(found@, maximum as int, planned@));
        assert forall|a: int, b: int| 0 <= a < b < planned@.len() implies not_after(
            #[trigger] planned@[a],
            #[trigger] planned@[b],
        ) by {
            assert(planned@[a] == whole[a]);
            assert(planned@[b] == whole[b]);
        }
    }
    planned
}

/// What a plan is made for: the part of a document that is in view, and how many
/// pixels of the screen there are to one of the document.
#[derive(Clone, Copy, Debug, PartialEq, Eq, Structural)]
pub struct TilePlanningInput {
    pub viewport: CanvasRect,
    pub scale_factor: FloatBits,
}

impl TilePlanningInput {
    /// What a plan is made for.
    pub fn new(viewport: CanvasRect, scale_factor: FloatBits) -> (input: TilePlanningInput)
        ensures
            input == (TilePlanningInput { viewport, scale_factor }),
    {
        TilePlanningInput { viewport, scale_factor }
    }

    /// What a plan is made for, with its size and its scale in bounds.
    pub open spec fn in_bounds(self, limits: PdfReaderLimits) -> TilePlanningInput {
        TilePlanningInput {
            viewport: CanvasRect {
                width: self.viewport.width.up_to(limits.max_viewport_dimension),
                height: self.viewport.height.up_to(limits.max_viewport_dimension),
                ..self.viewport
            },
            scale_factor: if self.scale_factor.is_positive() {
                self.scale_factor.within(FloatBits(LEAST_SCALE), FloatBits(GREATEST_SCALE))
            } else {
                FloatBits(ONE_BITS)
            },
        }
    }

    /// What a plan is made for, with its size and its scale in bounds. For a view
    /// that is nowhere or holds nothing there is no plan.
    pub fn normalized(self, limits: &PdfReaderLimits) -> (input: Option<TilePlanningInput>)
        ensures
            input == if self.viewport.is_sound() {
                Some(self.in_bounds(limits.in_bounds()))
            } else {
                None
            },
    {
        if !self.viewport.sound() {
            return None;
        }
        let limits = limits.normalized();
        let scale_factor = if self.scale_factor.positive() {
            self.scale_factor.clamped(FloatBits(LEAST_SCALE), FloatBits(GREATEST_SCALE))
        } else {
            FloatBits(ONE_BITS)
        };
        Some(
            TilePlanningInput {
                viewport: CanvasRect {
                    x: self.viewport.x,
                    y: self.viewport.y,
                    width: self.viewport.width.at_most(limits.max_viewport_dimension),
                    height: self.viewport.height.at_most(limits.max_viewport_dimension),
                },
                scale_factor,
            },
        )
    }
}

/// The part of a page that a view asks for, in pixels of its raster.
#[derive(Clone, Copy, Debug, PartialEq, Eq, Structural)]
pub struct PageWindow {
    pub page: usize,
    pub raster: RasterSize,
    pub left: u32,
    pub right: u32,
    pub top: u32,
    pub bottom: u32,
}

/// The tiles of the parts of pages that a view asks for.
pub open spec fn window_requests(
    windows: Seq<PageWindow>,
    limits: PdfReaderLimits,
) -> Seq<TileRequest>
    decreases windows.len(),
{
    if windows.len() == 0 {
        Seq::empty()
    } else {
        let last = windows.last();
        window_requests(windows.drop_last(), limits) + page_requests(
            last.page,
            last.raster,
            last.left,
            last.right,
            last.top,
            last.bottom,
            limits,
        )
    }
}

/// The tiles of the parts of pages that a view asks for, page by page.
pub fn tiles_of_pages(windows: &Vec<PageWindow>, limits: &PdfReaderLimits) -> (requests: Vec<
    TileRequest,
>)
    ensures
        requests@ == window_requests(windows@, limits.in_bounds()),
{
    let mut requests: Vec<TileRequest> = Vec::new();
    let mut i: usize = 0;
    assert(windows@.take(0) =~= Seq::empty());
    while i < windows.len()
        invariant
            i <= windows@.len(),
            requests@ == window_requests(windows@.take(i as int), limits.in_bounds()),
        decreases windows@.len() - i,
    {
        let window = windows[i];
        let mut found = tiles_of_page(
            window.page,
            window.raster,
            window.left,
            window.right,
            window.top,
            window.bottom,
            limits,
        );
        requests.append(&mut found);
        assert(windows@.take(i + 1).drop_last() =~= windows@.take(i as int));
        i += 1;
    }
    assert(windows@.take(windows@.len() as int) =~= windows@);
    requests
}

/// How much a tile matters.
#[derive(Clone, Copy, Debug, PartialEq, Eq, Structural)]
pub struct TileMark {
    pub tier: DemandTier,
    pub distance: u64,
}

/// A tile with how much it matters.
pub open spec fn marked_tile(request: TileRequest, mark: TileMark) -> PlannedTile {
    PlannedTile { request, tier: mark.tier, distance: mark.distance }
}

/// Tiles, each with how much it matters.
pub open spec fn marked(requests: Seq<TileRequest>, marks: Seq<TileMark>) -> Seq<PlannedTile> {
    Seq::new(requests.len(), |i: int| marked_tile(requests[i], marks[i]))
}

/// Plans what a view asks for: every tile of what it can see and of what lies
/// round it, the most urgent first, none twice, and no more than the limits let.
/// The view tells how much each of them matters.
pub fn plan_visible_tiles(
    first_visible_page: usize,
    end_visible_page: usize,
    requests: &Vec<TileRequest>,
    marks: &Vec<TileMark>,
    limits: &PdfReaderLimits,
) -> (plan: TileDemandPlan)
    requires
        requests@.len() == marks@.len(),
    ensures
        plan.first_visible_page == first_visible_page,
        plan.end_visible_page == end_visible_page,
        planned_from(
            marked(requests@, marks@),
            limits.in_bounds().max_planned_tiles as int,
            plan.tiles@,
        ),
        in_order(plan.tiles@),
        plan.tiles@.len() <= limits.in_bounds().max_planned_tiles,
{
    let mut found: Vec<PlannedTile> = Vec::new();
    let mut i: usize = 0;
    while i < requests.len()
        invariant
            i <= requests@.len() == marks@.len(),
            found@.len() == i,
            forall|k: int| 0 <= k < i ==> #[trigger] found@[k] == marked_tile(
                requests@[k],
                marks@[k],
            ),
        decreases requests@.len() - i,
    {
        found.push(
            PlannedTile {
                request: requests[i],
                tier: marks[i].tier,
                distance: marks[i].distance,
            },
        );
        i += 1;
    }
    assert(found@ =~= marked(requests@, marks@));
    let tiles = order_tiles(&found, limits);
    TileDemandPlan { first_visible_page, end_visible_page, tiles }
}

/// The list without repeats of a front part is a front part of that of the
/// whole.
proof fn lemma_prefix_of_repeats(tiles: Seq<PlannedTile>, count: int)
    requires
        0 <= count <= tiles.len(),
    ensures
        without_repeats(tiles.take(count)).len() <= without_repeats(tiles).len(),
        forall|k: int|
            0 <= k < without_repeats(tiles.take(count)).len() ==> #[trigger] without_repeats(
                tiles.take(count),
            )[k] == without_repeats(tiles)[k],
    decreases tiles.len() - count,
{
    if count == tiles.len() {
        assert(tiles.take(count) =~= tiles);
    } else {
        lemma_prefix_of_repeats(tiles, count + 1);
        let longer = tiles.take(count + 1);
        assert(longer.drop_last() =~= tiles.take(count));
        let front = without_repeats(tiles.take(count));
        let next = without_repeats(longer);
        assert forall|k: int| 0 <= k < front.len() implies #[trigger] front[k] == without_repeats(
            tiles,
        )[k] by {
            assert(front[k] == next[k]);
        }
    }
}

/// Taking repeats out keeps the order, and every tile left was there.
proof fn lemma_without_repeats_is_in_order(tiles: Seq<PlannedTile>)
    requires
        in_order(tiles),
    ensures
        in_order(without_repeats(tiles)),
        forall|k: int|
            0 <= k < without_repeats(tiles).len() ==> tiles.contains(
                #[trigger] without_repeats(tiles)[k],
            ),
    decreases tiles.len(),
{
    if tiles.len() > 0 {
        let shorter = tiles.drop_last();
        lemma_without_repeats_is_in_order(shorter);
        let front = without_repeats(shorter);
        let whole = without_repeats(tiles);
        let last = tiles.len() - 1;
        assert forall|k: int| 0 <= k < front.len() implies exists|m: int|
            0 <= m < last && tiles[m] == #[trigger] front[k] by {
            let m = choose|m: int| 0 <= m < shorter.len() && shorter[m] == front[k];
            assert(tiles[m] == front[k]);
        }
        assert forall|k: int| 0 <= k < whole.len() implies tiles.contains(#[trigger] whole[k]) by {
            if k < front.len() {
                assert(whole[k] == front[k]);
            } else {
                assert(whole[k] == tiles[last]);
            }
        }
        assert forall|a: int, b: int| 0 <= a < b < whole.len() implies not_after(
            #[trigger] whole[a],
            #[trigger] whole[b],
        ) by {
            assert(whole[a] == front[a]);
            if b < front.len() {
                assert(whole[b] == front[b]);
            } else {
                let m = choose|m: int| 0 <= m < last && tiles[m] == front[a];
                assert(not_after(tiles[m], tiles[last]));
            }
        }
    }
}

/// In an order like this the tiles of each tier stand together, so none of what
/// can be seen comes after what is only near.
pub proof fn law_visible_tiles_come_first(planned: Seq<PlannedTile>, a: int, b: int)
    requires
        in_order(planned),
        0 <= a < b < planned.len(),
        planned[b].tier == DemandTier::Visible,
    ensures
        planned[a].tier == DemandTier::Visible,
        planned[a].distance <= planned[b].distance,
{
}

/// No two tiles are the same.
pub open spec fn distinct_tiles(tiles: Seq<PlannedTile>) -> bool {
    forall|i: int, j: int|
        0 <= i < j < tiles.len() ==> (#[trigger] tiles[i]).request.key != (
        #[trigger] tiles[j]).request.key
}

/// Tiles of which none was found twice stay so in any order.
proof fn lemma_sorting_keeps_tiles(found: Seq<PlannedTile>, sorted: Seq<PlannedTile>)
    requires
        distinct_tiles(found),
        sorted.to_multiset() == found.to_multiset(),
    ensures
        distinct_tiles(sorted),
        sorted.len() == found.len(),
        forall|i: int| 0 <= i < sorted.len() ==> found.contains(#[trigger] sorted[i]),
        forall|i: int| 0 <= i < found.len() ==> sorted.contains(#[trigger] found[i]),
{
    found.to_multiset_ensures();
    sorted.to_multiset_ensures();
    assert(found.no_duplicates()) by {
        assert forall|i: int, j: int|
            0 <= i < found.len() && 0 <= j < found.len() && i != j implies found[i]
            != found[j] by {
            if i < j {
                assert(found[i].request.key != found[j].request.key);
            } else {
                assert(found[j].request.key != found[i].request.key);
            }
        }
    }
    found.lemma_multiset_has_no_duplicates();
    assert(sorted.to_multiset().len() == sorted.len());
    sorted.lemma_multiset_has_no_duplicates_conv();
    assert forall|i: int| 0 <= i < sorted.len() implies found.contains(#[trigger] sorted[i]) by {
        assert(sorted.contains(sorted[i]));
        assert(sorted.to_multiset().count(sorted[i]) > 0);
    }
    assert forall|i: int| 0 <= i < found.len() implies sorted.contains(#[trigger] found[i]) by {
        assert(found.contains(found[i]));
        assert(found.to_multiset().count(found[i]) > 0);
    }
    assert forall|i: int, j: int| 0 <= i < j < sorted.len() implies (
    #[trigger] sorted[i]).request.key != (#[trigger] sorted[j]).request.key by {
        if sorted[i].request.key == sorted[j].request.key {
            let a = choose|a: int| 0 <= a < found.len() && found[a] == sorted[i];
            let b = choose|b: int| 0 <= b < found.len() && found[b] == sorted[j];
            if a < b {
                assert(found[a].request.key != found[b].request.key);
            } else if b < a {
                assert(found[b].request.key != found[a].request.key);
            }
        }
    }
}

/// Where no tile was found twice, none is planned twice, and none is planned
/// that was not found. Where the limit lets all of them, all are planned.
pub proof fn law_plans_have_no_duplicates(
    found: Seq<PlannedTile>,
    maximum: int,
    planned: Seq<PlannedTile>,
)
    requires
        distinct_tiles(found),
        maximum >= 0,
        planned_from(found, maximum, planned),
    ensures
        distinct_tiles(planned),
        forall|i: int| 0 <= i < planned.len() ==> found.contains(#[trigger] planned[i]),
        found.len() <= maximum ==> forall|i: int|
            0 <= i < found.len() ==> planned.contains(#[trigger] found[i]),
{
    let sorted = choose|sorted: Seq<PlannedTile>|
        {
            &&& sorted.to_multiset() == found.to_multiset()
            &&& in_order(sorted)
            &&& planned == #[trigger] first_of(without_repeats(sorted), maximum)
        };
    lemma_sorting_keeps_tiles(found, sorted);
    lemma_nothing_to_take_out(sorted);
    assert forall|i: int| 0 <= i < planned.len() implies found.contains(#[trigger] planned[i]) by {
        assert(planned[i] == sorted[i]);
    }
    assert forall|i: int, j: int| 0 <= i < j < planned.len() implies (
    #[trigger] planned[i]).request.key != (#[trigger] planned[j]).request.key by {
        assert(planned[i] == sorted[i]);
        assert(planned[j] == sorted[j]);
    }
}

/// Two orders of the same tiles agree, where no tile is there twice.
proof fn lemma_orders_agree(a: Seq<PlannedTile>, b: Seq<PlannedTile>)
    requires
        in_order(a),
        in_order(b),
        distinct_tiles(a),
        a.to_multiset() == b.to_multiset(),
    ensures
        a == b,
    decreases a.len(),
{
    a.to_multiset_ensures();
    b.to_multiset_ensures();
    if a.len() > 0 {
        assert(a.contains(a[0]));
        assert(b.contains(b[0]));
        assert(b.to_multiset().count(a[0]) > 0);
        assert(a.to_multiset().count(b[0]) > 0);
        let k = choose|k: int| 0 <= k < b.len() && b[k] == a[0];
        let m = choose|m: int| 0 <= m < a.len() && a[m] == b[0];
        if m > 0 && k > 0 {
            assert(not_after(a[0], a[m]));
            assert(not_after(b[0], b[k]));
            assert(a[0].request.key != a[m].request.key);
        }
        assert(a[0] == b[0]);
        let shorter = a.remove(0);
        let other = b.remove(0);
        assert forall|i: int, j: int| 0 <= i < j < shorter.len() implies (
        #[trigger] shorter[i]).request.key != (#[trigger] shorter[j]).request.key && not_after(
            shorter[i],
            shorter[j],
        ) by {
            assert(shorter[i] == a[i + 1]);
            assert(shorter[j] == a[j + 1]);
        }
        assert forall|i: int, j: int| 0 <= i < j < other.len() implies not_after(
            #[trigger] other[i],
            #[trigger] other[j],
        ) by {
            assert(other[i] == b[i + 1]);
            assert(other[j] == b[j + 1]);
        }
        lemma_orders_agree(shorter, other);
        assert(a =~= seq![a[0]] + shorter);
        assert(b =~= seq![b[0]] + other);
    } else {
        assert(a =~= b);
    }
}

/// What was found fixes the plan, where no tile was found twice.
pub proof fn law_plans_are_determined(
    found: Seq<PlannedTile>,
    maximum: int,
    planned: Seq<PlannedTile>,
    again: Seq<PlannedTile>,
)
    requires
        distinct_tiles(found),
        planned_from(found, maximum, planned),
        planned_from(found, maximum, again),
    ensures
        planned == again,
{
    let first = choose|sorted: Seq<PlannedTile>|
        {
            &&& sorted.to_multiset() == found.to_multiset()
            &&& in_order(sorted)
            &&& planned == #[trigger] first_of(without_repeats(sorted), maximum)
        };
    let second = choose|sorted: Seq<PlannedTile>|
        {
            &&& sorted.to_multiset() == found.to_multiset()
            &&& in_order(sorted)
            &&& again == #[trigger] first_of(without_repeats(sorted), maximum)
        };
    lemma_sorting_keeps_tiles(found, first);
    lemma_orders_agree(first, second);
}

/// Tiles of a row stand from left to right.
proof fn lemma_row_ascends(
    page: usize,
    raster: RasterSize,
    row: u32,
    from: int,
    last: int,
    limits: PdfReaderLimits,
)
    requires
        0 <= from,
        last <= u32::MAX,
    ensures
        ({
            let tiles = row_requests(page, raster, row, from, last, limits);
            &&& forall|i: int|
                0 <= i < tiles.len() ==> {
                    let key = (#[trigger] tiles[i]).key;
                    key.page == page && key.row == row && from <= key.column <= last
                }
            &&& forall|i: int, j: int|
                0 <= i < j < tiles.len() ==> (#[trigger] tiles[i]).key.column < (
                #[trigger] tiles[j]).key.column
        }),
    decreases last - from + 1,
{
    if from <= last {
        lemma_row_ascends(page, raster, row, from + 1, last, limits);
        let rest = row_requests(page, raster, row, from + 1, last, limits);
        let tiles = row_requests(page, raster, row, from, last, limits);
        if let Some(request) = request_at(page, raster, from as u32, row, limits) {
            assert(tiles == seq![request] + rest);
            assert forall|i: int| 0 <= i < tiles.len() implies {
                let key = (#[trigger] tiles[i]).key;
                key.page == page && key.row == row && from <= key.column <= last
            } by {
                if i > 0 {
                    assert(tiles[i] == rest[i - 1]);
                }
            }
            assert forall|i: int, j: int| 0 <= i < j < tiles.len() implies (
            #[trigger] tiles[i]).key.column < (#[trigger] tiles[j]).key.column by {
                assert(tiles[j] == rest[j - 1]);
                if i > 0 {
                    assert(tiles[i] == rest[i - 1]);
                }
            }
        }
    }
}

/// Tiles of a page stand row by row.
proof fn lemma_grid_ascends(
    page: usize,
    raster: RasterSize,
    from: int,
    last_row: int,
    first_column: int,
    last_column: int,
    limits: PdfReaderLimits,
)
    requires
        0 <= from,
        last_row <= u32::MAX,
        0 <= first_column,
        last_column <= u32::MAX,
    ensures
        ({
            let tiles = grid_requests(
                page,
                raster,
                from,
                last_row,
                first_column,
                last_column,
                limits,
            );
            &&& forall|i: int|
                0 <= i < tiles.len() ==> (#[trigger] tiles[i]).key.page == page && from
                    <= tiles[i].key.row
            &&& forall|i: int, j: int|
                0 <= i < j < tiles.len() ==> (#[trigger] tiles[i]).key != (#[trigger] tiles[j]).key
        }),
    decreases last_row - from + 1,
{
    if from <= last_row {
        lemma_row_ascends(page, raster, from as u32, first_column, last_column, limits);
        lemma_grid_ascends(page, raster, from + 1, last_row, first_column, last_column, limits);
        let row = row_requests(page, raster, from as u32, first_column, last_column, limits);
        let rest = grid_requests(
            page,
            raster,
            from + 1,
            last_row,
            first_column,
            last_column,
            limits,
        );
        let tiles = row + rest;
        assert forall|i: int| 0 <= i < tiles.len() implies (#[trigger] tiles[i]).key.page == page
            && from <= tiles[i].key.row by {
            if i >= row.len() {
                assert(tiles[i] == rest[i - row.len()]);
            }
        }
        assert forall|i: int, j: int| 0 <= i < j < tiles.len() implies (#[trigger] tiles[i]).key
            != (#[trigger] tiles[j]).key by {
            if j < row.len() {
                assert(row[i].key.column < row[j].key.column);
            } else {
                assert(tiles[j] == rest[j - row.len()]);
                if i >= row.len() {
                    assert(tiles[i] == rest[i - row.len()]);
                }
            }
        }
    }
}

/// The parts are of different pages.
pub open spec fn distinct_pages(windows: Seq<PageWindow>) -> bool {
    forall|i: int, j: int|
        0 <= i < j < windows.len() ==> (#[trigger] windows[i]).page != (#[trigger] windows[j]).page
}

/// No tile of parts of different pages is found twice, and each is of one of the
/// pages.
pub proof fn law_windows_have_distinct_tiles(windows: Seq<PageWindow>, limits: PdfReaderLimits)
    requires
        limits.tile_size > 0,
        distinct_pages(windows),
    ensures
        ({
            let tiles = window_requests(windows, limits);
            &&& forall|i: int|
                0 <= i < tiles.len() ==> exists|k: int|
                    0 <= k < windows.len() && (#[trigger] windows[k]).page == (
                    #[trigger] tiles[i]).key.page
            &&& forall|i: int, j: int|
                0 <= i < j < tiles.len() ==> (#[trigger] tiles[i]).key != (#[trigger] tiles[j]).key
        }),
    decreases windows.len(),
{
    if windows.len() > 0 {
        let shorter = windows.drop_last();
        let last = windows.last();
        law_windows_have_distinct_tiles(shorter, limits);
        let before = window_requests(shorter, limits);
        let here = page_requests(
            last.page,
            last.raster,
            last.left,
            last.right,
            last.top,
            last.bottom,
            limits,
        );
        let tiles = before + here;
        let size = limits.tile_size as int;
        if last.left < last.right && last.top < last.bottom {
            assert((last.bottom - 1) / size <= last.bottom - 1) by (nonlinear_arith)
                requires
                    size > 0,
                    last.bottom >= 1,
            ;
            assert((last.right - 1) / size <= last.right - 1) by (nonlinear_arith)
                requires
                    size > 0,
                    last.right >= 1,
            ;
            lemma_grid_ascends(
                last.page,
                last.raster,
                (last.top / limits.tile_size) as int,
                ((last.bottom - 1) / limits.tile_size as int) as int,
                (last.left / limits.tile_size) as int,
                ((last.right - 1) / limits.tile_size as int) as int,
                limits,
            );
        }
        assert forall|i: int| 0 <= i < here.len() implies (#[trigger] here[i]).key.page
            == last.page by {}
        assert forall|i: int| 0 <= i < tiles.len() implies exists|k: int|
            0 <= k < windows.len() && (#[trigger] windows[k]).page == (
            #[trigger] tiles[i]).key.page by {
            if i < before.len() {
                assert(tiles[i] == before[i]);
                let k = choose|k: int|
                    0 <= k < shorter.len() && (#[trigger] shorter[k]).page == before[i].key.page;
                assert(windows[k].page == tiles[i].key.page);
            } else {
                assert(tiles[i] == here[i - before.len()]);
                assert(windows[windows.len() - 1].page == tiles[i].key.page);
            }
        }
        assert forall|i: int, j: int| 0 <= i < j < tiles.len() implies (#[trigger] tiles[i]).key
            != (#[trigger] tiles[j]).key by {
            if j < before.len() {
                assert(tiles[i] == before[i]);
                assert(tiles[j] == before[j]);
            } else {
                assert(tiles[j] == here[j - before.len()]);
                if i < before.len() {
                    assert(tiles[i] == before[i]);
                    let k = choose|k: int|
                        0 <= k < shorter.len() && (#[trigger] shorter[k]).page
                            == before[i].key.page;
                    assert(windows[k].page != windows[windows.len() - 1].page);
                } else {
                    assert(tiles[i] == here[i - before.len()]);
                }
            }
        }
    }
}

proof fn lemma_row_holds(
    page: usize,
    raster: RasterSize,
    row: u32,
    from: int,
    last: int,
    column: u32,
    limits: PdfReaderLimits,
)
    requires
        0 <= from <= column <= last,
        request_at(page, raster, column, row, limits) is Some,
    ensures
        row_requests(page, raster, row, from, last, limits).contains(
            request_at(page, raster, column, row, limits)->Some_0,
        ),
    decreases last - from + 1,
{
    let wanted = request_at(page, raster, column, row, limits)->Some_0;
    let tiles = row_requests(page, raster, row, from, last, limits);
    if from == column {
        assert(tiles[0] == wanted);
    } else {
        lemma_row_holds(page, raster, row, from + 1, last, column, limits);
        let rest = row_requests(page, raster, row, from + 1, last, limits);
        let k = choose|k: int| 0 <= k < rest.len() && rest[k] == wanted;
        if request_at(page, raster, from as u32, row, limits) is Some {
            assert(tiles[k + 1] == wanted);
        }
    }
}

proof fn lemma_grid_holds(
    page: usize,
    raster: RasterSize,
    from: int,
    last_row: int,
    first_column: int,
    last_column: int,
    column: u32,
    row: u32,
    limits: PdfReaderLimits,
)
    requires
        0 <= from <= row <= last_row,
        0 <= first_column <= column <= last_column,
        request_at(page, raster, column, row, limits) is Some,
    ensures
        grid_requests(page, raster, from, last_row, first_column, last_column, limits).contains(
            request_at(page, raster, column, row, limits)->Some_0,
        ),
    decreases last_row - from + 1,
{
    let wanted = request_at(page, raster, column, row, limits)->Some_0;
    let here = row_requests(page, raster, from as u32, first_column, last_column, limits);
    let rest = grid_requests(page, raster, from + 1, last_row, first_column, last_column, limits);
    let tiles = here + rest;
    if from == row {
        lemma_row_holds(page, raster, row, first_column, last_column, column, limits);
        let k = choose|k: int| 0 <= k < here.len() && here[k] == wanted;
        assert(tiles[k] == wanted);
    } else {
        lemma_grid_holds(
            page,
            raster,
            from + 1,
            last_row,
            first_column,
            last_column,
            column,
            row,
            limits,
        );
        let k = choose|k: int| 0 <= k < rest.len() && rest[k] == wanted;
        assert(tiles[here.len() + k] == wanted);
    }
}

/// Every pixel of a part of a page lies in a tile that is asked for.
pub proof fn law_every_pixel_of_a_part_is_asked_for(
    page: usize,
    raster: RasterSize,
    left: u32,
    right: u32,
    top: u32,
    bottom: u32,
    limits: PdfReaderLimits,
    x: u32,
    y: u32,
)
    requires
        limits.tile_size > 0,
        left <= x < right,
        top <= y < bottom,
        x < raster.width,
        y < raster.height,
    ensures
        exists|request: TileRequest| #[trigger]
            page_requests(page, raster, left, right, top, bottom, limits).contains(request)
                && holds_pixel(request.core_rect, x as int, y as int),
{
    let size = limits.tile_size as int;
    let column = (x / limits.tile_size) as u32;
    let row = (y / limits.tile_size) as u32;
    law_tiles_share_out_the_raster(page, raster, limits.tile_size, x, y, column, row);
    let request = request_at(page, raster, column, row, limits)->Some_0;
    assert(left as int / size <= x as int / size <= (right - 1) / size) by (nonlinear_arith)
        requires
            size > 0,
            0 <= left <= x <= right - 1,
    ;
    assert(top as int / size <= y as int / size <= (bottom - 1) / size) by (nonlinear_arith)
        requires
            size > 0,
            0 <= top <= y <= bottom - 1,
    ;
    assert(0 <= left as int / size && 0 <= top as int / size) by (nonlinear_arith)
        requires
            size > 0,
            0 <= left,
            0 <= top,
    ;
    lemma_grid_holds(
        page,
        raster,
        (top / limits.tile_size) as int,
        ((bottom - 1) / limits.tile_size as int) as int,
        (left / limits.tile_size) as int,
        ((right - 1) / limits.tile_size as int) as int,
        column,
        row,
        limits,
    );
    assert(page_requests(page, raster, left, right, top, bottom, limits).contains(request));
}

proof fn lemma_nothing_to_take_out(tiles: Seq<PlannedTile>)
    requires
        distinct_tiles(tiles),
    ensures
        without_repeats(tiles) == tiles,
    decreases tiles.len(),
{
    if tiles.len() > 0 {
        let shorter = tiles.drop_last();
        assert(distinct_tiles(shorter));
        lemma_nothing_to_take_out(shorter);
        if shorter.len() > 0 {
            assert(tiles[tiles.len() - 2].request.key != tiles[tiles.len() - 1].request.key);
        }
        assert(shorter.push(tiles.last()) =~= tiles);
    }
}

/// The pages of the first tiles that can be seen, each once, in the order in
/// which they come up.
pub open spec fn pages_of(tiles: Seq<PlannedTile>) -> Seq<usize>
    decreases tiles.len(),
{
    if tiles.len() == 0 {
        Seq::empty()
    } else {
        let before = pages_of(tiles.drop_last());
        let last = tiles.last();
        if last.tier == DemandTier::Visible && !before.contains(last.request.key.page) {
            before.push(last.request.key.page)
        } else {
            before
        }
    }
}

impl TileDemandPlan {
    /// How many tiles in front can be seen.
    pub fn visible_tile_count(&self) -> (count: usize)
        ensures
            count <= self.tiles@.len(),
            forall|i: int| 0 <= i < count ==> (#[trigger] self.tiles@[i]).tier
                == DemandTier::Visible,
            count < self.tiles@.len() ==> self.tiles@[count as int].tier != DemandTier::Visible,
    {
        let mut count: usize = 0;
        while count < self.tiles.len() && self.tiles[count].tier == DemandTier::Visible
            invariant
                count <= self.tiles@.len(),
                forall|i: int| 0 <= i < count ==> (#[trigger] self.tiles@[i]).tier
                    == DemandTier::Visible,
            decreases self.tiles@.len() - count,
        {
            count += 1;
        }
        count
    }

    /// The pages whose text is to be asked for.
    pub fn text_pages(&self, maximum: usize) -> (pages: Vec<usize>)
        ensures
            pages@ == if pages_of(self.tiles@).len() <= maximum {
                pages_of(self.tiles@)
            } else {
                pages_of(self.tiles@).take(maximum as int)
            },
    {
        let mut pages: Vec<usize> = Vec::new();
        let mut i: usize = 0;
        let ghost all = self.tiles@;
        assert(all.take(0) =~= Seq::empty());
        while i < self.tiles.len() && pages.len() < maximum
            invariant
                all == self.tiles@,
                i <= all.len(),
                pages@ == pages_of(all.take(i as int)),
                pages@.len() <= maximum,
            decreases all.len() - i,
        {
            assert(all.take(i + 1).drop_last() =~= all.take(i as int));
            let page = self.tiles[i].request.key.page;
            let mut seen = false;
            let mut k: usize = 0;
            while k < pages.len()
                invariant
                    k <= pages@.len(),
                    seen == exists|m: int| 0 <= m < k && #[trigger] pages@[m] == page,
                decreases pages@.len() - k,
            {
                if pages[k] == page {
                    assert(pages@[k as int] == page);
                    seen = true;
                }
                k += 1;
            }
            assert(seen == pages@.contains(page));
            if self.tiles[i].tier == DemandTier::Visible && !seen {
                pages.push(page);
            }
            i += 1;
        }
        proof {
            lemma_pages_grow(all, i as int);
            assert(all.take(all.len() as int) =~= all);
            let whole = pages_of(all);
            if i < all.len() {
                if whole.len() > maximum {
                    assert(whole.take(maximum as int) =~= pages@);
                } else {
                    assert(whole =~= pages@);
                }
            }
        }
        pages
    }
}

proof fn lemma_pages_grow(tiles: Seq<PlannedTile>, count: int)
    requires
        0 <= count <= tiles.len(),
    ensures
        pages_of(tiles.take(count)).len() <= pages_of(tiles).len(),
        forall|k: int|
            0 <= k < pages_of(tiles.take(count)).len() ==> #[trigger] pages_of(tiles.take(count))[k]
                == pages_of(tiles)[k],
    decreases tiles.len() - count,
{
    if count == tiles.len() {
        assert(tiles.take(count) =~= tiles);
    } else {
        lemma_pages_grow(tiles, count + 1);
        let longer = tiles.take(count + 1);
        assert(longer.drop_last() =~= tiles.take(count));
        let front = pages_of(tiles.take(count));
        let next = pages_of(longer);
        assert forall|k: int| 0 <= k < front.len() implies #[trigger] front[k] == pages_of(
            tiles,
        )[k] by {
            assert(front[k] == next[k]);
        }
    }
}

/// A pixel is rendered with a tile if and only if it lies on the raster and is no farther
/// than the bleed, on each axis, from a pixel of the tile.
pub proof fn law_tiles_are_rendered_with_their_bleed(
    core: PixelRect,
    raster: RasterSize,
    bleed: u32,
    x: int,
    y: int,
)
    requires
        core.width > 0,
        core.height > 0,
    ensures
        holds_pixel(inflated_rect(core, raster, bleed), x, y) <==> {
            &&& 0 <= x < raster.width
            &&& 0 <= y < raster.height
            &&& exists|near_x: int, near_y: int| #[trigger]
                holds_pixel(core, near_x, near_y) && -bleed <= x - near_x <= bleed && -bleed <= y
                    - near_y <= bleed
        },
{
    let render = inflated_rect(core, raster, bleed);
    let near_x = if x < core.x {
        core.x as int
    } else if x >= core.right() {
        core.right() - 1
    } else {
        x
    };
    let near_y = if y < core.y {
        core.y as int
    } else if y >= core.bottom() {
        core.bottom() - 1
    } else {
        y
    };
    assert(holds_pixel(core, near_x, near_y));
}

/// What is rendered with a planned tile, and with pixels under limits, reaches beyond
/// them by exactly the bleed of the limits at every edge of the raster that is far enough
/// away.
pub proof fn law_the_bleed_is_that_of_the_limits(
    core: PixelRect,
    raster: RasterSize,
    limits: PdfReaderLimits,
    render: PixelRect,
)
    requires
        call_ensures(inflate_tile_rect, (core, raster, &limits), render),
        limits.tile_bleed <= limits.tile_size,
        256 <= limits.tile_size <= 4_096,
        core.x >= limits.tile_bleed,
        core.y >= limits.tile_bleed,
        core.right() + limits.tile_bleed <= raster.width,
        core.bottom() + limits.tile_bleed <= raster.height,
    ensures
        render.x == core.x - limits.tile_bleed,
        render.y == core.y - limits.tile_bleed,
        render.right() == core.right() + limits.tile_bleed,
        render.bottom() == core.bottom() + limits.tile_bleed,
{
}

/// Every tile that a page asks for is one of that page at that size, with the pixels that
/// the size of tiles gives it and rendered with the bleed of the limits.
pub proof fn law_asked_tiles_are_rendered_with_their_bleed(
    page: usize,
    raster: RasterSize,
    left: u32,
    right: u32,
    top: u32,
    bottom: u32,
    limits: PdfReaderLimits,
    i: int,
    x: int,
    y: int,
)
    requires
        limits.tile_size > 0,
        0 <= i < page_requests(page, raster, left, right, top, bottom, limits).len(),
    ensures
        ({
            let request = page_requests(page, raster, left, right, top, bottom, limits)[i];
            &&& request.key.page == page
            &&& request.key.raster == raster
            &&& request.core_rect.x == request.key.column * limits.tile_size
            &&& request.core_rect.y == request.key.row * limits.tile_size
            &&& holds_pixel(request.render_rect, x, y) <==> {
                &&& 0 <= x < raster.width
                &&& 0 <= y < raster.height
                &&& exists|near_x: int, near_y: int| #[trigger]
                    holds_pixel(request.core_rect, near_x, near_y) && -limits.tile_bleed <= x
                        - near_x <= limits.tile_bleed && -limits.tile_bleed <= y - near_y
                        <= limits.tile_bleed
            }
        }),
{
    let size = limits.tile_size as int;
    lemma_page_members(page, raster, left, right, top, bottom, limits, i);
    let request = page_requests(page, raster, left, right, top, bottom, limits)[i];
    assert(request.key.column * size >= 0) by (nonlinear_arith)
        requires
            size > 0,
            request.key.column >= 0,
    ;
    assert(request.key.row * size >= 0) by (nonlinear_arith)
        requires
            size > 0,
            request.key.row >= 0,
    ;
    law_tiles_are_rendered_with_their_bleed(
        request.core_rect,
        raster,
        limits.tile_bleed,
        x,
        y,
    );
}

proof fn lemma_row_members(
    page: usize,
    raster: RasterSize,
    row: u32,
    from: int,
    last: int,
    limits: PdfReaderLimits,
    i: int,
)
    requires
        0 <= from,
        last <= u32::MAX,
        0 <= i < row_requests(page, raster, row, from, last, limits).len(),
    ensures
        ({
            let request = row_requests(page, raster, row, from, last, limits)[i];
            &&& request_at(page, raster, request.key.column, request.key.row, limits) == Some(
                request,
            )
            &&& from <= request.key.column <= last
            &&& request.key.row == row
        }),
    decreases last - from + 1,
{
    if from <= last {
        let rest = row_requests(page, raster, row, from + 1, last, limits);
        match request_at(page, raster, from as u32, row, limits) {
            Some(request) => {
                if i > 0 {
                    lemma_row_members(page, raster, row, from + 1, last, limits, i - 1);
                    assert((seq![request] + rest)[i] == rest[i - 1]);
                }
            },
            None => {
                lemma_row_members(page, raster, row, from + 1, last, limits, i);
            },
        }
    }
}

proof fn lemma_grid_members(
    page: usize,
    raster: RasterSize,
    from: int,
    last_row: int,
    first_column: int,
    last_column: int,
    limits: PdfReaderLimits,
    i: int,
)
    requires
        0 <= from,
        last_row <= u32::MAX,
        0 <= first_column,
        last_column <= u32::MAX,
        0 <= i < grid_requests(
            page,
            raster,
            from,
            last_row,
            first_column,
            last_column,
            limits,
        ).len(),
    ensures
        ({
            let request = grid_requests(
                page,
                raster,
                from,
                last_row,
                first_column,
                last_column,
                limits,
            )[i];
            &&& request_at(page, raster, request.key.column, request.key.row, limits) == Some(
                request,
            )
            &&& from <= request.key.row <= last_row
            &&& first_column <= request.key.column <= last_column
        }),
    decreases last_row - from + 1,
{
    if from <= last_row {
        let line = row_requests(page, raster, from as u32, first_column, last_column, limits);
        let rest = grid_requests(
            page,
            raster,
            from + 1,
            last_row,
            first_column,
            last_column,
            limits,
        );
        if i < line.len() {
            lemma_row_members(page, raster, from as u32, first_column, last_column, limits, i);
            assert((line + rest)[i] == line[i]);
        } else {
            lemma_grid_members(
                page,
                raster,
                from + 1,
                last_row,
                first_column,
                last_column,
                limits,
                i - line.len(),
            );
            assert((line + rest)[i] == rest[i - line.len()]);
        }
    }
}

proof fn lemma_page_members(
    page: usize,
    raster: RasterSize,
    left: u32,
    right: u32,
    top: u32,
    bottom: u32,
    limits: PdfReaderLimits,
    i: int,
)
    requires
        limits.tile_size > 0,
        0 <= i < page_requests(page, raster, left, right, top, bottom, limits).len(),
    ensures
        ({
            let request = page_requests(page, raster, left, right, top, bottom, limits)[i];
            let size = limits.tile_size as int;
            &&& left < right && top < bottom
            &&& request_at(page, raster, request.key.column, request.key.row, limits) == Some(
                request,
            )
            &&& left as int / size <= request.key.column <= (right - 1) / size
            &&& top as int / size <= request.key.row <= (bottom - 1) / size
        }),
{
    let size = limits.tile_size as int;
    assert(0 <= left as int / size && 0 <= top as int / size) by (nonlinear_arith)
        requires
            size > 0,
            left >= 0,
            top >= 0,
    ;
    if left < right && top < bottom {
        assert((right - 1) / size <= right - 1 && (bottom - 1) / size <= bottom - 1)
            by (nonlinear_arith)
            requires
                size > 0,
                right >= 1,
                bottom >= 1,
        ;
        lemma_grid_members(
            page,
            raster,
            (top / limits.tile_size) as int,
            ((bottom - 1) / size) as int,
            (left / limits.tile_size) as int,
            ((right - 1) / size) as int,
            limits,
            i,
        );
    }
}

/// Every tile that a part of a page asks for reaches into that part, and is of that page at
/// that size.
pub proof fn law_no_tile_is_asked_for_in_vain(
    page: usize,
    raster: RasterSize,
    left: u32,
    right: u32,
    top: u32,
    bottom: u32,
    limits: PdfReaderLimits,
    i: int,
)
    requires
        limits.tile_size > 0,
        0 <= i < page_requests(page, raster, left, right, top, bottom, limits).len(),
    ensures
        ({
            let request = page_requests(page, raster, left, right, top, bottom, limits)[i];
            let (x, y) = (
                request.key.column * limits.tile_size,
                request.key.row * limits.tile_size,
            );
            &&& request.key.page == page && request.key.raster == raster
            &&& x < right && left < x + limits.tile_size
            &&& y < bottom && top < y + limits.tile_size
            &&& x < raster.width && y < raster.height
        }),
{
    lemma_page_members(page, raster, left, right, top, bottom, limits, i);
    let request = page_requests(page, raster, left, right, top, bottom, limits)[i];
    let size = limits.tile_size as int;
    let (column, row) = (request.key.column as int, request.key.row as int);
    assert(column * size <= right - 1 && left < column * size + size) by (nonlinear_arith)
        requires
            size > 0,
            0 <= left < right,
            left as int / size <= column <= (right - 1) / size,
    ;
    assert(row * size <= bottom - 1 && top < row * size + size) by (nonlinear_arith)
        requires
            size > 0,
            0 <= top < bottom,
            top as int / size <= row <= (bottom - 1) / size,
    ;
}

/// The parts of all pages are asked for: every tile of each of them is among the tiles.
pub proof fn law_every_part_is_asked_for(
    windows: Seq<PageWindow>,
    limits: PdfReaderLimits,
    at: int,
    request: TileRequest,
)
    requires
        0 <= at < windows.len(),
        page_requests(
            windows[at].page,
            windows[at].raster,
            windows[at].left,
            windows[at].right,
            windows[at].top,
            windows[at].bottom,
            limits,
        ).contains(request),
    ensures
        window_requests(windows, limits).contains(request),
    decreases windows.len(),
{
    let front = window_requests(windows.drop_last(), limits);
    let last = windows.last();
    let back = page_requests(
        last.page,
        last.raster,
        last.left,
        last.right,
        last.top,
        last.bottom,
        limits,
    );
    let all = window_requests(windows, limits);
    assert(all == front + back);
    if at == windows.len() - 1 {
        let k = choose|k: int| 0 <= k < back.len() && back[k] == request;
        assert(all[front.len() + k] == request);
    } else {
        assert(windows.drop_last()[at] == windows[at]);
        law_every_part_is_asked_for(windows.drop_last(), limits, at, request);
        let k = choose|k: int| 0 <= k < front.len() && front[k] == request;
        assert(all[k] == request);
    }
}

/// A raster is as wide as it is to be, or wider by less than a step, in whole steps; where
/// that is over the cap it is as wide as the cap, and it always has a pixel.
pub proof fn law_rasters_are_made_in_whole_steps(raw: int, quantum: int, cap: int)
    requires
        raw >= 1,
        quantum >= 1,
        cap >= 1,
    ensures
        ({
            let width = quantized(raw, quantum, cap);
            &&& 1 <= width <= cap
            &&& width < cap ==> width % quantum == 0 && raw <= width < raw + quantum
            &&& width == cap ==> raw + quantum > cap
        }),
{
    let count = (raw + quantum - 1) / quantum;
    let steps = count * quantum;
    assert(raw <= steps < raw + quantum && steps % quantum == 0) by (nonlinear_arith)
        requires
            quantum >= 1,
            raw >= 1,
            count == (raw + quantum - 1) / quantum,
            steps == count * quantum,
    ;
}

/// What can be seen is more urgent than what is near, of the same kind what is nearer the
/// middle is, and of two tiles one always is.
pub proof fn law_urgency_is_an_order(a: PlannedTile, b: PlannedTile, c: PlannedTile)
    ensures
        not_after(a, b) || not_after(b, a),
        not_after(a, b) && not_after(b, c) ==> not_after(a, c),
        not_after(a, b) && not_after(b, a) ==> a.request.key == b.request.key && a.tier == b.tier
            && a.distance == b.distance,
        a.tier is Visible && b.tier is Prefetch ==> not_after(a, b) && !not_after(b, a),
        a.tier == b.tier && a.distance < b.distance ==> not_after(a, b) && !not_after(b, a),
        a.tier == b.tier && a.distance == b.distance && a.request.key.page < b.request.key.page
            ==> !not_after(b, a),
{
}

/// Where not all tiles that were found can be planned, as many are as the limit lets, and
/// none that is left out is more urgent than one that is planned.
pub proof fn law_the_most_urgent_tiles_are_planned(
    found: Seq<PlannedTile>,
    maximum: int,
    planned: Seq<PlannedTile>,
    tile: PlannedTile,
    i: int,
)
    requires
        distinct_tiles(found),
        maximum >= 0,
        planned_from(found, maximum, planned),
        found.contains(tile),
        !planned.contains(tile),
        0 <= i < planned.len(),
    ensures
        planned.len() == maximum,
        not_after(planned[i], tile),
{
    let sorted = choose|sorted: Seq<PlannedTile>|
        {
            &&& sorted.to_multiset() == found.to_multiset()
            &&& in_order(sorted)
            &&& planned == #[trigger] first_of(without_repeats(sorted), maximum)
        };
    lemma_sorting_keeps_tiles(found, sorted);
    lemma_nothing_to_take_out(sorted);
    vstd::seq_lib::to_multiset_contains(found, tile);
    vstd::seq_lib::to_multiset_contains(sorted, tile);
    assert(sorted.contains(tile));
    let at = choose|at: int| 0 <= at < sorted.len() && sorted[at] == tile;
    if at < planned.len() {
        assert(planned[at] == tile);
    }
    assert(planned[i] == sorted[i]);
    assert(not_after(sorted[i], sorted[at]));
}

/// The pages whose text is asked for are those of the tiles that can be seen, each once.
pub proof fn law_text_is_asked_for_what_can_be_seen(tiles: Seq<PlannedTile>, page: usize)
    ensures
        pages_of(tiles).contains(page) <==> exists|i: int|
            0 <= i < tiles.len() && (#[trigger] tiles[i]).tier is Visible
                && tiles[i].request.key.page == page,
        pages_of(tiles).no_duplicates(),
    decreases tiles.len(),
{
    if tiles.len() > 0 {
        let shorter = tiles.drop_last();
        let before = pages_of(shorter);
        let last = tiles.last();
        law_text_is_asked_for_what_can_be_seen(shorter, page);
        let after = pages_of(tiles);
        if before.contains(page) {
            let k = choose|k: int| 0 <= k < before.len() && before[k] == page;
            assert(after[k] == page);
            let i = choose|i: int|
                0 <= i < shorter.len() && (#[trigger] shorter[i]).tier is Visible
                    && shorter[i].request.key.page == page;
            assert(tiles[i].tier is Visible);
        }
        if after.contains(page) && !before.contains(page) {
            let k = choose|k: int| 0 <= k < after.len() && after[k] == page;
            if k < before.len() {
                assert(before[k] == page);
            }
            assert(tiles[tiles.len() - 1].tier is Visible);
        }
        if exists|i: int|
            0 <= i < tiles.len() && (#[trigger] tiles[i]).tier is Visible
                && tiles[i].request.key.page == page {
            let i = choose|i: int|
                0 <= i < tiles.len() && (#[trigger] tiles[i]).tier is Visible
                    && tiles[i].request.key.page == page;
            if i < shorter.len() {
                assert(shorter[i].tier is Visible);
            } else if !before.contains(page) {
                assert(after[after.len() - 1] == page);
            }
        }
    }
}

/// A plan is made for a view if and only if it is somewhere and holds something: at its
/// place, for its size up to the greatest, and at its scale from a quarter to sixteen, or
/// one where it has none.
pub proof fn law_plans_are_made_for_views_with_a_size(
    input: TilePlanningInput,
    limits: PdfReaderLimits,
    used: Option<TilePlanningInput>,
)
    requires
        call_ensures(TilePlanningInput::normalized, (input, &limits), used),
    ensures
        used is Some <==> input.viewport.x.finite() && input.viewport.y.finite()
            && input.viewport.width.is_positive() && input.viewport.height.is_positive(),
        used matches Some(used) ==> {
            let most = limits.in_bounds().max_viewport_dimension;
            &&& used.viewport.x == input.viewport.x && used.viewport.y == input.viewport.y
            &&& used.viewport.width.rank() <= most.rank() && used.viewport.height.rank()
                <= most.rank()
            &&& input.viewport.width.rank() <= most.rank() ==> used.viewport.width
                == input.viewport.width
            &&& input.viewport.height.rank() <= most.rank() ==> used.viewport.height
                == input.viewport.height
            &&& 0x3e80_0000 <= used.scale_factor.rank() <= 0x4180_0000
            &&& input.scale_factor.finite() && 0x3e80_0000 <= input.scale_factor.rank()
                <= 0x4180_0000 ==> used.scale_factor == input.scale_factor
            &&& !input.scale_factor.is_positive() ==> used.scale_factor.rank() == 0x3f80_0000
        },
{
}

} // verus!
