//! How much of a document one painted frame takes on.

use crate::float_bits::{FloatBits, ONE_BITS};
use crate::viewport::controller::ScrollOffset;
use crate::viewport::limits::bounded_usize;
use vstd::prelude::*;

verus! {

/// How many pages a frame takes where nothing else is set.
pub const DEFAULT_MAX_CANVAS_PAGES: usize = 512;

/// How many tiles a frame takes where nothing else is set.
pub const DEFAULT_MAX_CANVAS_TILES: usize = 4_096;

pub const ABSOLUTE_MAX_CANVAS_PAGES: usize = 4_096;

pub const ABSOLUTE_MAX_CANVAS_TILES: usize = 65_536;

/// How much a frame takes.
#[derive(Clone, Copy, Debug, PartialEq, Eq, Structural)]
pub struct PdfCanvasLimits {
    pub max_pages_per_frame: usize,
    pub max_tiles_per_frame: usize,
}

impl Default for PdfCanvasLimits {
    fn default() -> (limits: Self)
        ensures
            limits == (PdfCanvasLimits {
                max_pages_per_frame: DEFAULT_MAX_CANVAS_PAGES,
                max_tiles_per_frame: DEFAULT_MAX_CANVAS_TILES,
            }),
    {
        PdfCanvasLimits {
            max_pages_per_frame: DEFAULT_MAX_CANVAS_PAGES,
            max_tiles_per_frame: DEFAULT_MAX_CANVAS_TILES,
        }
    }
}

impl PdfCanvasLimits {
    /// The limits within the hard bounds.
    pub open spec fn in_bounds(self) -> PdfCanvasLimits {
        PdfCanvasLimits {
            max_pages_per_frame: crate::viewport::limits::bounded(
                self.max_pages_per_frame as int,
                1,
                ABSOLUTE_MAX_CANVAS_PAGES as int,
            ) as usize,
            max_tiles_per_frame: crate::viewport::limits::bounded(
                self.max_tiles_per_frame as int,
                1,
                ABSOLUTE_MAX_CANVAS_TILES as int,
            ) as usize,
        }
    }

    /// The limits within the hard bounds.
    pub fn normalized(self) -> (limits: PdfCanvasLimits)
        ensures
            limits == self.in_bounds(),
    {
        PdfCanvasLimits {
            max_pages_per_frame: bounded_usize(
                self.max_pages_per_frame,
                1,
                ABSOLUTE_MAX_CANVAS_PAGES,
            ),
            max_tiles_per_frame: bounded_usize(
                self.max_tiles_per_frame,
                1,
                ABSOLUTE_MAX_CANVAS_TILES,
            ),
        }
    }
}

/// A rectangle in pixels of the screen.
#[derive(Clone, Copy, Debug, PartialEq, Eq, Structural)]
pub struct CanvasRect {
    pub x: FloatBits,
    pub y: FloatBits,
    pub width: FloatBits,
    pub height: FloatBits,
}

impl CanvasRect {
    /// The rectangle is somewhere and holds something.
    pub open spec fn is_sound(self) -> bool {
        &&& self.x.finite()
        &&& self.y.finite()
        &&& self.width.is_positive()
        &&& self.height.is_positive()
    }

    /// Whether the rectangle is somewhere and holds something.
    pub fn sound(self) -> (sound: bool)
        ensures
            sound == self.is_sound(),
    {
        self.x.is_finite() && self.y.is_finite() && self.width.positive() && self.height.positive()
    }
}

/// The geometry of a view.
#[derive(Clone, Copy, Debug, PartialEq, Eq, Structural)]
pub struct PdfCanvasMetrics {
    pub scroll: ScrollOffset,
    pub viewport_width: FloatBits,
    pub viewport_height: FloatBits,
    pub content_height: FloatBits,
    pub max_scroll_x: FloatBits,
}

/// A number that is not below zero.
pub open spec fn non_negative(value: FloatBits) -> FloatBits {
    if value.finite() {
        value.from_bound(FloatBits(0))
    } else {
        FloatBits(0)
    }
}

/// A number that is not below zero: zero where it is, or where it is not finite.
pub fn finite_non_negative(value: FloatBits) -> (result: FloatBits)
    ensures
        result == non_negative(value),
{
    if value.is_finite() {
        value.at_least(FloatBits(0))
    } else {
        FloatBits(0)
    }
}

/// A number that is not below one.
pub open spec fn from_one(value: FloatBits) -> FloatBits {
    if value.finite() {
        value.from_bound(FloatBits(ONE_BITS))
    } else {
        FloatBits(ONE_BITS)
    }
}

fn finite_positive(value: FloatBits) -> (result: FloatBits)
    ensures
        result == from_one(value),
{
    if value.is_finite() {
        value.at_least(FloatBits(ONE_BITS))
    } else {
        FloatBits(ONE_BITS)
    }
}

impl PdfCanvasMetrics {
    /// The geometry that a frame is painted with: finite, and of some size.
    pub open spec fn in_bounds(self) -> PdfCanvasMetrics {
        PdfCanvasMetrics {
            scroll: ScrollOffset {
                x: non_negative(self.scroll.x),
                y: non_negative(self.scroll.y),
            },
            viewport_width: from_one(self.viewport_width),
            viewport_height: from_one(self.viewport_height),
            content_height: from_one(self.content_height),
            max_scroll_x: non_negative(self.max_scroll_x),
        }
    }

    /// The geometry of a view.
    pub fn new(
        scroll: ScrollOffset,
        viewport_width: FloatBits,
        viewport_height: FloatBits,
        content_height: FloatBits,
        max_scroll_x: FloatBits,
    ) -> (metrics: PdfCanvasMetrics)
        ensures
            metrics == (PdfCanvasMetrics {
                scroll,
                viewport_width,
                viewport_height,
                content_height,
                max_scroll_x,
            }),
    {
        PdfCanvasMetrics { scroll, viewport_width, viewport_height, content_height, max_scroll_x }
    }

    /// The geometry that a frame is painted with.
    pub fn normalized(self) -> (metrics: PdfCanvasMetrics)
        ensures
            metrics == self.in_bounds(),
    {
        PdfCanvasMetrics {
            scroll: ScrollOffset {
                x: finite_non_negative(self.scroll.x),
                y: finite_non_negative(self.scroll.y),
            },
            viewport_width: finite_positive(self.viewport_width),
            viewport_height: finite_positive(self.viewport_height),
            content_height: finite_positive(self.content_height),
            max_scroll_x: finite_non_negative(self.max_scroll_x),
        }
    }

    /// What of the document is in view.
    pub fn content_viewport(self) -> (viewport: CanvasRect)
        ensures
            viewport == (CanvasRect {
                x: self.in_bounds().scroll.x,
                y: self.in_bounds().scroll.y,
                width: self.in_bounds().viewport_width,
                height: self.in_bounds().viewport_height,
            }),
            viewport.is_sound(),
    {
        let metrics = self.normalized();
        CanvasRect {
            x: metrics.scroll.x,
            y: metrics.scroll.y,
            width: metrics.viewport_width,
            height: metrics.viewport_height,
        }
    }

    /// Which scrollbars a frame shows: the one at the side where the document is
    /// higher than the view, and the one below where there is more to the right.
    pub fn shown_scrollbars(self) -> (shown: ShownScrollbars)
        ensures
            shown.vertical == (self.in_bounds().content_height.rank()
                > self.in_bounds().viewport_height.rank()),
            shown.horizontal == (self.in_bounds().max_scroll_x.rank() > 0),
    {
        let metrics = self.normalized();
        ShownScrollbars {
            vertical: metrics.content_height.order() > metrics.viewport_height.order(),
            horizontal: metrics.max_scroll_x.order() > 0,
        }
    }
}

/// Which scrollbars a frame shows.
#[derive(Clone, Copy, Debug, PartialEq, Eq, Structural)]
pub struct ShownScrollbars {
    pub vertical: bool,
    pub horizontal: bool,
}

/// A page that a host hands to a frame.
#[derive(Clone, Copy, Debug, PartialEq, Eq, Structural)]
pub struct PdfCanvasPageGeometry {
    pub page_index: usize,
    pub rect: CanvasRect,
    pub tile_count: usize,
}

/// A page that a frame takes.
#[derive(Clone, Copy, Debug, PartialEq, Eq, Structural)]
pub struct PlannedCanvasPage {
    /// Where it stands among the pages that were handed over.
    pub source_index: usize,
    pub page_index: usize,
    pub tile_count: usize,
}

/// What a frame takes, and what it leaves.
#[derive(Clone, Debug, PartialEq, Eq)]
pub struct PdfCanvasFramePlan {
    pub pages: Vec<PlannedCanvasPage>,
    pub admitted_tiles: usize,
    pub dropped_pages: usize,
    pub dropped_tiles: usize,
}

impl Default for PdfCanvasFramePlan {
    /// An empty frame.
    fn default() -> (plan: Self)
        ensures
            plan.pages@.len() == 0,
            plan.admitted_tiles == 0,
            plan.dropped_pages == 0,
            plan.dropped_tiles == 0,
    {
        PdfCanvasFramePlan {
            pages: Vec::new(),
            admitted_tiles: 0,
            dropped_pages: 0,
            dropped_tiles: 0,
        }
    }
}

/// A [`PdfCanvasFramePlan`] as it is seen, with the tiles that it can still
/// take.
pub struct FrameView {
    pub pages: Seq<PlannedCanvasPage>,
    pub admitted_tiles: int,
    pub dropped_pages: int,
    pub dropped_tiles: int,
    pub remaining_tiles: int,
}

/// The sum of two counts, or the greatest count where it does not fit.
pub open spec fn capped_sum(a: int, b: int) -> int {
    if a + b > usize::MAX {
        usize::MAX as int
    } else {
        a + b
    }
}

/// How many tiles the pages from one on have.
pub open spec fn tiles_from(pages: Seq<PdfCanvasPageGeometry>, from: int) -> int
    decreases pages.len() - from,
{
    if from < 0 || from >= pages.len() {
        0
    } else {
        capped_sum(pages[from].tile_count as int, tiles_from(pages, from + 1))
    }
}

impl FrameView {
    /// A frame that took nothing yet.
    pub open spec fn start(limits: PdfCanvasLimits) -> FrameView {
        FrameView {
            pages: Seq::empty(),
            admitted_tiles: 0,
            dropped_pages: 0,
            dropped_tiles: 0,
            remaining_tiles: limits.max_tiles_per_frame as int,
        }
    }

    /// The frame after one more page, where it can still take pages.
    pub open spec fn with_page(self, at: int, page: PdfCanvasPageGeometry) -> FrameView {
        if !page.rect.is_sound() {
            FrameView {
                dropped_pages: capped_sum(self.dropped_pages, 1),
                dropped_tiles: capped_sum(self.dropped_tiles, page.tile_count as int),
                ..self
            }
        } else {
            let taken = if page.tile_count <= self.remaining_tiles {
                page.tile_count as int
            } else {
                self.remaining_tiles
            };
            FrameView {
                pages: self.pages.push(
                    PlannedCanvasPage {
                        source_index: at as usize,
                        page_index: page.page_index,
                        tile_count: taken as usize,
                    },
                ),
                admitted_tiles: self.admitted_tiles + taken,
                dropped_pages: self.dropped_pages,
                dropped_tiles: capped_sum(self.dropped_tiles, page.tile_count - taken),
                remaining_tiles: self.remaining_tiles - taken,
            }
        }
    }
}

/// The frame after the pages from one on. A full frame leaves all that are
/// left, and counts those as what it left.
pub open spec fn frame_from(
    pages: Seq<PdfCanvasPageGeometry>,
    at: int,
    frame: FrameView,
    limits: PdfCanvasLimits,
) -> FrameView
    decreases pages.len() - at,
{
    if at < 0 || at >= pages.len() {
        frame
    } else if frame.pages.len() == limits.max_pages_per_frame {
        FrameView {
            dropped_pages: pages.len() - at,
            dropped_tiles: capped_sum(frame.dropped_tiles, tiles_from(pages, at)),
            ..frame
        }
    } else {
        frame_from(pages, at + 1, frame.with_page(at, pages[at]), limits)
    }
}

fn count_tiles_from(pages: &Vec<PdfCanvasPageGeometry>, from: usize) -> (total: usize)
    requires
        from <= pages@.len(),
    ensures
        total == tiles_from(pages@, from as int),
{
    proof {
        lemma_tiles_are_counted(pages@, from as int);
    }
    let mut total: usize = 0;
    let mut i: usize = from;
    while i < pages.len()
        invariant
            from <= i <= pages@.len(),
            capped_sum(total as int, tiles_from(pages@, i as int)) == capped_sum(
                0,
                tiles_from(pages@, from as int),
            ),
            tiles_from(pages@, i as int) <= usize::MAX,
            0 <= tiles_from(pages@, i as int),
            0 <= tiles_from(pages@, from as int) <= usize::MAX,
        decreases pages@.len() - i,
    {
        proof {
            lemma_tiles_are_counted(pages@, i + 1);
        }
        total = total.saturating_add(pages[i].tile_count);
        i += 1;
    }
    total
}

proof fn lemma_tiles_are_counted(pages: Seq<PdfCanvasPageGeometry>, from: int)
    ensures
        0 <= tiles_from(pages, from) <= usize::MAX,
    decreases pages.len() - from,
{
    if 0 <= from < pages.len() {
        lemma_tiles_are_counted(pages, from + 1);
    }
}

/// Decides what a frame takes of the pages that a host hands over, in their
/// order.
pub fn plan_pdf_canvas_frame(pages: &Vec<PdfCanvasPageGeometry>, limits: PdfCanvasLimits) -> (plan:
    PdfCanvasFramePlan)
    ensures
        ({
            let frame = frame_from(
                pages@,
                0,
                FrameView::start(limits.in_bounds()),
                limits.in_bounds(),
            );
            &&& plan.pages@ == frame.pages
            &&& plan.admitted_tiles == frame.admitted_tiles
            &&& plan.dropped_pages == frame.dropped_pages
            &&& plan.dropped_tiles == frame.dropped_tiles
        }),
{
    let used = limits.normalized();
    let mut plan = PdfCanvasFramePlan {
        pages: Vec::new(),
        admitted_tiles: 0,
        dropped_pages: 0,
        dropped_tiles: 0,
    };
    let mut remaining: usize = used.max_tiles_per_frame;
    let ghost whole = frame_from(pages@, 0, FrameView::start(used), used);
    let mut at: usize = 0;
    assert(plan.pages@ =~= Seq::empty());
    while at < pages.len()
        invariant
            used == limits.in_bounds(),
            whole == frame_from(pages@, 0, FrameView::start(used), used),
            at <= pages@.len(),
            plan.pages@.len() <= used.max_pages_per_frame,
            plan.admitted_tiles + remaining == used.max_tiles_per_frame,
            whole == frame_from(
                pages@,
                at as int,
                FrameView {
                    pages: plan.pages@,
                    admitted_tiles: plan.admitted_tiles as int,
                    dropped_pages: plan.dropped_pages as int,
                    dropped_tiles: plan.dropped_tiles as int,
                    remaining_tiles: remaining as int,
                },
                used,
            ),
        decreases pages@.len() - at,
    {
        if plan.pages.len() == used.max_pages_per_frame {
            proof {
                lemma_tiles_are_counted(pages@, at as int);
            }
            plan.dropped_pages = pages.len() - at;
            plan.dropped_tiles = plan.dropped_tiles.saturating_add(count_tiles_from(pages, at));
            return plan;
        }
        let page = pages[at];
        let ghost before = FrameView {
            pages: plan.pages@,
            admitted_tiles: plan.admitted_tiles as int,
            dropped_pages: plan.dropped_pages as int,
            dropped_tiles: plan.dropped_tiles as int,
            remaining_tiles: remaining as int,
        };
        if !page.rect.sound() {
            plan.dropped_pages = plan.dropped_pages.saturating_add(1);
            plan.dropped_tiles = plan.dropped_tiles.saturating_add(page.tile_count);
        } else {
            let taken: usize = if page.tile_count <= remaining {
                page.tile_count
            } else {
                remaining
            };
            remaining = remaining - taken;
            plan.admitted_tiles = plan.admitted_tiles + taken;
            plan.dropped_tiles = plan.dropped_tiles.saturating_add(page.tile_count - taken);
            plan.pages.push(
                PlannedCanvasPage {
                    source_index: at,
                    page_index: page.page_index,
                    tile_count: taken,
                },
            );
        }
        proof {
            let after = FrameView {
                pages: plan.pages@,
                admitted_tiles: plan.admitted_tiles as int,
                dropped_pages: plan.dropped_pages as int,
                dropped_tiles: plan.dropped_tiles as int,
                remaining_tiles: remaining as int,
            };
            assert(after.pages =~= before.with_page(at as int, page).pages);
            assert(after == before.with_page(at as int, page));
        }
        at += 1;
    }
    plan
}

/// How many tiles the pages of a frame have together.
pub open spec fn tiles_taken(pages: Seq<PlannedCanvasPage>) -> int
    decreases pages.len(),
{
    if pages.len() == 0 {
        0
    } else {
        tiles_taken(pages.drop_last()) + pages.last().tile_count
    }
}

/// The pages are those of a list, each where it stood and none before another
/// that stood after it.
pub open spec fn keeps_order(
    pages: Seq<PdfCanvasPageGeometry>,
    taken: Seq<PlannedCanvasPage>,
    end: int,
) -> bool {
    &&& forall|i: int|
        0 <= i < taken.len() ==> {
            &&& (#[trigger] taken[i]).source_index < end
            &&& taken[i].source_index < pages.len()
            &&& taken[i].page_index == pages[taken[i].source_index as int].page_index
            &&& taken[i].tile_count <= pages[taken[i].source_index as int].tile_count
            &&& pages[taken[i].source_index as int].rect.is_sound()
        }
    &&& forall|i: int, j: int|
        0 <= i < j < taken.len() ==> (#[trigger] taken[i]).source_index < (
        #[trigger] taken[j]).source_index
}

proof fn lemma_frame_is_bounded(
    pages: Seq<PdfCanvasPageGeometry>,
    at: int,
    frame: FrameView,
    limits: PdfCanvasLimits,
)
    requires
        0 <= at <= pages.len() <= usize::MAX,
        frame.pages.len() <= limits.max_pages_per_frame,
        frame.remaining_tiles >= 0,
        frame.admitted_tiles >= 0,
        frame.admitted_tiles + frame.remaining_tiles == limits.max_tiles_per_frame,
        frame.admitted_tiles == tiles_taken(frame.pages),
        keeps_order(pages, frame.pages, at),
    ensures
        ({
            let after = frame_from(pages, at, frame, limits);
            &&& after.pages.len() <= limits.max_pages_per_frame
            &&& after.admitted_tiles <= limits.max_tiles_per_frame
            &&& after.admitted_tiles == tiles_taken(after.pages)
            &&& keeps_order(pages, after.pages, pages.len() as int)
        }),
    decreases pages.len() - at,
{
    if at < pages.len() && frame.pages.len() != limits.max_pages_per_frame {
        let next = frame.with_page(at, pages[at]);
        if pages[at].rect.is_sound() {
            assert(next.pages.drop_last() =~= frame.pages);
            assert forall|i: int| 0 <= i < next.pages.len() implies {
                &&& (#[trigger] next.pages[i]).source_index < at + 1
                &&& next.pages[i].source_index < pages.len()
                &&& next.pages[i].page_index == pages[next.pages[i].source_index as int].page_index
                &&& next.pages[i].tile_count <= pages[next.pages[i].source_index as int].tile_count
                &&& pages[next.pages[i].source_index as int].rect.is_sound()
            } by {
                if i < frame.pages.len() {
                    assert(next.pages[i] == frame.pages[i]);
                }
            }
            assert forall|i: int, j: int| 0 <= i < j < next.pages.len() implies (
            #[trigger] next.pages[i]).source_index < (#[trigger] next.pages[j]).source_index by {
                assert(next.pages[i] == frame.pages[i]);
                if j < frame.pages.len() {
                    assert(next.pages[j] == frame.pages[j]);
                }
            }
        }
        lemma_frame_is_bounded(pages, at + 1, next, limits);
    }
}

/// Whatever a host hands over, a frame takes no more pages and no more tiles
/// than the limits let, takes only pages that are somewhere, never more tiles
/// of a page than it has, and keeps the order.
pub proof fn law_frames_are_bounded(
    pages: Seq<PdfCanvasPageGeometry>,
    limits: PdfCanvasLimits,
)
    requires
        pages.len() <= usize::MAX,
    ensures
        ({
            let used = limits.in_bounds();
            let frame = frame_from(pages, 0, FrameView::start(used), used);
            &&& frame.pages.len() <= used.max_pages_per_frame <= ABSOLUTE_MAX_CANVAS_PAGES
            &&& frame.admitted_tiles <= used.max_tiles_per_frame <= ABSOLUTE_MAX_CANVAS_TILES
            &&& frame.admitted_tiles == tiles_taken(frame.pages)
            &&& keeps_order(pages, frame.pages, pages.len() as int)
        }),
{
    let used = limits.in_bounds();
    lemma_frame_is_bounded(pages, 0, FrameView::start(used), used);
}

/// A decoded tile that a host hands to a frame.
#[derive(Clone, Copy, Debug, PartialEq, Eq, Structural)]
pub struct CanvasTile {
    /// What of the document it shows.
    pub core_rect: CanvasRect,
    /// What it covers with its edges.
    pub render_rect: CanvasRect,
    /// What it shows lies on its page and in the view.
    pub in_view: bool,
}

impl CanvasTile {
    /// The tile is somewhere, and in view.
    pub open spec fn is_painted(self) -> bool {
        self.core_rect.is_sound() && self.render_rect.is_sound() && self.in_view
    }
}

/// A page with its tiles that a host hands to a frame.
#[derive(Clone, Debug, PartialEq, Eq)]
pub struct CanvasPage {
    pub rect: CanvasRect,
    pub tiles: Vec<CanvasTile>,
}

/// Something that a frame paints. Pages and tiles are given by where they stand
/// among those that were handed over.
#[derive(Clone, Copy, Debug, PartialEq, Eq, Structural)]
pub enum PaintStep {
    Pane,
    Shadow { page: usize },
    Paper { page: usize },
    Tile { page: usize, tile: usize },
    /// What the host paints over a page.
    Overlay { page: usize },
    VerticalScrollbar,
    HorizontalScrollbar,
}

/// The page that a step belongs to.
pub open spec fn page_of_step(step: PaintStep) -> Option<usize> {
    match step {
        PaintStep::Shadow { page } => Some(page),
        PaintStep::Paper { page } => Some(page),
        PaintStep::Tile { page, .. } => Some(page),
        PaintStep::Overlay { page } => Some(page),
        _ => None,
    }
}

/// The steps of the first tiles of a page.
pub open spec fn tile_steps(page: int, tiles: Seq<CanvasTile>, count: int) -> Seq<PaintStep>
    decreases count,
{
    if count <= 0 {
        Seq::empty()
    } else {
        let before = tile_steps(page, tiles, count - 1);
        if tiles[count - 1].is_painted() {
            before.push(PaintStep::Tile { page: page as usize, tile: (count - 1) as usize })
        } else {
            before
        }
    }
}

/// The steps of a page: its shadow, its paper, its tiles, and then what the host
/// paints over it.
pub open spec fn page_steps(page: int, tiles: Seq<CanvasTile>, count: int) -> Seq<PaintStep> {
    (seq![PaintStep::Shadow { page: page as usize }, PaintStep::Paper { page: page as usize }]
        + tile_steps(page, tiles, count)).push(PaintStep::Overlay { page: page as usize })
}

/// The lesser of two counts.
pub open spec fn lesser(a: int, b: int) -> int {
    if a <= b {
        a
    } else {
        b
    }
}

/// The steps of the pages from one on.
pub open spec fn steps_from(
    pages: Seq<CanvasPage>,
    at: int,
    free_pages: int,
    free_tiles: int,
) -> Seq<PaintStep>
    decreases pages.len() - at,
{
    if at < 0 || at >= pages.len() || free_pages <= 0 {
        Seq::empty()
    } else if !pages[at].rect.is_sound() {
        steps_from(pages, at + 1, free_pages, free_tiles)
    } else {
        let count = lesser(pages[at].tiles@.len() as int, free_tiles);
        page_steps(at, pages[at].tiles@, count) + steps_from(
            pages,
            at + 1,
            free_pages - 1,
            free_tiles - count,
        )
    }
}

/// The steps of the scrollbars.
pub open spec fn scrollbar_steps(vertical: bool, horizontal: bool) -> Seq<PaintStep> {
    (if vertical {
        seq![PaintStep::VerticalScrollbar]
    } else {
        seq![]
    }) + (if horizontal {
        seq![PaintStep::HorizontalScrollbar]
    } else {
        seq![]
    })
}

/// The steps of a frame: the pane, the pages, and the scrollbars above all.
pub open spec fn frame_steps(
    pages: Seq<CanvasPage>,
    limits: PdfCanvasLimits,
    vertical: bool,
    horizontal: bool,
) -> Seq<PaintStep> {
    seq![PaintStep::Pane] + steps_from(
        pages,
        0,
        limits.in_bounds().max_pages_per_frame as int,
        limits.in_bounds().max_tiles_per_frame as int,
    ) + scrollbar_steps(vertical, horizontal)
}

fn push_page_steps(steps: &mut Vec<PaintStep>, page: usize, tiles: &Vec<CanvasTile>, count: usize)
    requires
        count <= tiles@.len(),
    ensures
        final(steps)@ == old(steps)@ + page_steps(page as int, tiles@, count as int),
{
    let ghost start = steps@;
    steps.push(PaintStep::Shadow { page });
    steps.push(PaintStep::Paper { page });
    let ghost head = seq![PaintStep::Shadow { page }, PaintStep::Paper { page }];
    let mut i: usize = 0;
    assert(steps@ =~= start + head + tile_steps(page as int, tiles@, 0));
    while i < count
        invariant
            i <= count <= tiles@.len(),
            head == seq![PaintStep::Shadow { page }, PaintStep::Paper { page }],
            steps@ == start + head + tile_steps(page as int, tiles@, i as int),
        decreases count - i,
    {
        let tile = tiles[i];
        let ghost before = tile_steps(page as int, tiles@, i as int);
        if tile.core_rect.sound() && tile.render_rect.sound() && tile.in_view {
            let step = PaintStep::Tile { page, tile: i };
            steps.push(step);
            assert((start + head + before).push(step) =~= start + head + before.push(step));
        }
        i += 1;
    }
    steps.push(PaintStep::Overlay { page });
    assert(steps@ =~= start + page_steps(page as int, tiles@, count as int));
}

/// Decides what a frame paints, and in what order.
pub fn paint_steps(
    pages: &Vec<CanvasPage>,
    limits: PdfCanvasLimits,
    vertical: bool,
    horizontal: bool,
) -> (steps: Vec<PaintStep>)
    ensures
        steps@ == frame_steps(pages@, limits, vertical, horizontal),
{
    let used = limits.normalized();
    let mut free_pages: usize = used.max_pages_per_frame;
    let mut free_tiles: usize = used.max_tiles_per_frame;
    let mut steps: Vec<PaintStep> = Vec::new();
    steps.push(PaintStep::Pane);
    let ghost whole = seq![PaintStep::Pane] + steps_from(
        pages@,
        0,
        free_pages as int,
        free_tiles as int,
    );
    let mut at: usize = 0;
    assert(steps@ =~= seq![PaintStep::Pane]);
    while at < pages.len() && free_pages > 0
        invariant
            at <= pages@.len(),
            steps@ + steps_from(pages@, at as int, free_pages as int, free_tiles as int) == whole,
        decreases pages@.len() - at,
    {
        let page = &pages[at];
        if page.rect.sound() {
            let count: usize = if page.tiles.len() <= free_tiles {
                page.tiles.len()
            } else {
                free_tiles
            };
            let ghost before = steps@;
            push_page_steps(&mut steps, at, &page.tiles, count);
            free_tiles = free_tiles - count;
            free_pages = free_pages - 1;
            proof {
                let own = page_steps(at as int, page.tiles@, count as int);
                let rest = steps_from(pages@, at + 1, free_pages as int, free_tiles as int);
                assert(before + (own + rest) =~= before + own + rest);
            }
        }
        at += 1;
    }
    assert(steps@ =~= whole);
    if vertical {
        steps.push(PaintStep::VerticalScrollbar);
    }
    if horizontal {
        steps.push(PaintStep::HorizontalScrollbar);
    }
    assert(steps@ =~= frame_steps(pages@, limits, vertical, horizontal));
    steps
}

/// How many tiles are painted.
pub open spec fn tiles_painted(steps: Seq<PaintStep>) -> int
    decreases steps.len(),
{
    if steps.len() == 0 {
        0
    } else {
        tiles_painted(steps.drop_last()) + if steps.last() is Tile {
            1int
        } else {
            0
        }
    }
}

/// Nothing of a page is painted after what the host painted over it.
pub open spec fn overlays_come_last(steps: Seq<PaintStep>) -> bool {
    forall|i: int, j: int|
        0 <= i < j < steps.len() && (#[trigger] steps[i]) is Overlay ==> page_of_step(
            #[trigger] steps[j],
        ) != page_of_step(steps[i])
}

proof fn lemma_tiles_painted_together(a: Seq<PaintStep>, b: Seq<PaintStep>)
    ensures
        tiles_painted(a + b) == tiles_painted(a) + tiles_painted(b),
    decreases b.len(),
{
    if b.len() == 0 {
        assert(a + b =~= a);
    } else {
        assert((a + b).drop_last() =~= a + b.drop_last());
        lemma_tiles_painted_together(a, b.drop_last());
    }
}

proof fn lemma_tile_steps(page: int, tiles: Seq<CanvasTile>, count: int)
    requires
        0 <= count,
    ensures
        tiles_painted(tile_steps(page, tiles, count)) <= count,
        forall|i: int|
            0 <= i < tile_steps(page, tiles, count).len() ==> {
                let step = #[trigger] tile_steps(page, tiles, count)[i];
                step is Tile && page_of_step(step) == Some(page as usize)
            },
    decreases count,
{
    if count > 0 {
        lemma_tile_steps(page, tiles, count - 1);
        let before = tile_steps(page, tiles, count - 1);
        let whole = tile_steps(page, tiles, count);
        if tiles[count - 1].is_painted() {
            assert(whole.drop_last() =~= before);
        }
        assert forall|i: int| 0 <= i < whole.len() implies {
            let step = #[trigger] whole[i];
            step is Tile && page_of_step(step) == Some(page as usize)
        } by {
            if i < before.len() {
                assert(whole[i] == before[i]);
            }
        }
    }
}

proof fn lemma_page_steps(page: int, tiles: Seq<CanvasTile>, count: int)
    requires
        0 <= count,
    ensures
        tiles_painted(page_steps(page, tiles, count)) <= count,
        forall|i: int|
            0 <= i < page_steps(page, tiles, count).len() ==> {
                let step = #[trigger] page_steps(page, tiles, count)[i];
                &&& page_of_step(step) == Some(page as usize)
                &&& step is Overlay ==> i == page_steps(page, tiles, count).len() - 1
            },
{
    lemma_tile_steps(page, tiles, count);
    let own = tile_steps(page, tiles, count);
    let head = seq![
        PaintStep::Shadow { page: page as usize },
        PaintStep::Paper { page: page as usize },
    ];
    let whole = page_steps(page, tiles, count);
    assert(whole.drop_last() =~= head + own);
    lemma_tiles_painted_together(head, own);
    assert(tiles_painted(head) == 0) by {
        reveal_with_fuel(tiles_painted, 3);
    }
    assert forall|i: int| 0 <= i < whole.len() implies {
        let step = #[trigger] whole[i];
        &&& page_of_step(step) == Some(page as usize)
        &&& step is Overlay ==> i == whole.len() - 1
    } by {
        if 2 <= i < whole.len() - 1 {
            assert(whole[i] == own[i - 2]);
        }
    }
}

proof fn lemma_steps_from(pages: Seq<CanvasPage>, at: int, free_pages: int, free_tiles: int)
    requires
        0 <= at <= pages.len() <= usize::MAX,
        0 <= free_tiles,
    ensures
        ({
            let steps = steps_from(pages, at, free_pages, free_tiles);
            &&& tiles_painted(steps) <= free_tiles
            &&& overlays_come_last(steps)
            &&& forall|i: int|
                0 <= i < steps.len() ==> (page_of_step(#[trigger] steps[i]) matches Some(page)
                    && at <= page)
        }),
    decreases pages.len() - at,
{
    if at < pages.len() && free_pages > 0 {
        if !pages[at].rect.is_sound() {
            lemma_steps_from(pages, at + 1, free_pages, free_tiles);
        } else {
            let count = lesser(pages[at].tiles@.len() as int, free_tiles);
            let own = page_steps(at, pages[at].tiles@, count);
            let rest = steps_from(pages, at + 1, free_pages - 1, free_tiles - count);
            let steps = steps_from(pages, at, free_pages, free_tiles);
            lemma_page_steps(at, pages[at].tiles@, count);
            lemma_steps_from(pages, at + 1, free_pages - 1, free_tiles - count);
            lemma_tiles_painted_together(own, rest);
            assert(steps == own + rest);
            assert forall|i: int| 0 <= i < steps.len() implies (page_of_step(#[trigger] steps[i])
                matches Some(page) && at <= page) by {
                if i < own.len() {
                    assert(steps[i] == own[i]);
                } else {
                    assert(steps[i] == rest[i - own.len()]);
                }
            }
            assert forall|i: int, j: int|
                0 <= i < j < steps.len() && (#[trigger] steps[i]) is Overlay implies page_of_step(
                #[trigger] steps[j],
            ) != page_of_step(steps[i]) by {
                if i < own.len() {
                    assert(steps[i] == own[i]);
                    assert(steps[j] == rest[j - own.len()]);
                } else {
                    assert(steps[i] == rest[i - own.len()]);
                    assert(steps[j] == rest[j - own.len()]);
                }
            }
        }
    }
}

/// The host paints over a page once at most, and only when all that belongs to
/// the page is painted. No frame paints more tiles than the limits let.
pub proof fn law_overlays_are_painted_last(
    pages: Seq<CanvasPage>,
    limits: PdfCanvasLimits,
    vertical: bool,
    horizontal: bool,
)
    requires
        pages.len() <= usize::MAX,
    ensures
        ({
            let steps = frame_steps(pages, limits, vertical, horizontal);
            &&& overlays_come_last(steps)
            &&& tiles_painted(steps) <= limits.in_bounds().max_tiles_per_frame
        }),
{
    let used = limits.in_bounds();
    let own = steps_from(
        pages,
        0,
        used.max_pages_per_frame as int,
        used.max_tiles_per_frame as int,
    );
    let pane = seq![PaintStep::Pane];
    let bars = scrollbar_steps(vertical, horizontal);
    let steps = frame_steps(pages, limits, vertical, horizontal);
    lemma_steps_from(
        pages,
        0,
        used.max_pages_per_frame as int,
        used.max_tiles_per_frame as int,
    );
    lemma_tiles_painted_together(pane, own);
    lemma_tiles_painted_together(pane + own, bars);
    assert(pane.drop_last() =~= Seq::empty());
    assert(tiles_painted(pane) == 0);
    reveal_with_fuel(tiles_painted, 3);
    assert(tiles_painted(bars) == 0);
    assert(steps == pane + own + bars);
    assert forall|i: int, j: int|
        0 <= i < j < steps.len() && (#[trigger] steps[i]) is Overlay implies page_of_step(
        #[trigger] steps[j],
    ) != page_of_step(steps[i]) by {
        assert(0 < i <= own.len());
        assert(steps[i] == own[i - 1]);
        if j <= own.len() {
            assert(steps[j] == own[j - 1]);
        }
    }
}

/// A frame takes up to 4096 pages and 65536 tiles, as many as are set within that.
pub proof fn law_frames_are_set_up_within_bounds(limits: PdfCanvasLimits)
    ensures
        1 <= limits.in_bounds().max_pages_per_frame <= 4_096,
        1 <= limits.in_bounds().max_tiles_per_frame <= 65_536,
        1 <= limits.max_pages_per_frame <= 4_096 ==> limits.in_bounds().max_pages_per_frame
            == limits.max_pages_per_frame,
        1 <= limits.max_tiles_per_frame <= 65_536 ==> limits.in_bounds().max_tiles_per_frame
            == limits.max_tiles_per_frame,
{
}

/// The geometry that a frame is painted with is finite and not below zero, and of one pixel
/// at least; what is so already is used as it is.
pub proof fn law_frames_have_a_geometry(metrics: PdfCanvasMetrics)
    ensures
        ({
            let used = metrics.in_bounds();
            &&& used.scroll.x.finite() && used.scroll.x.rank() >= 0
            &&& used.scroll.y.finite() && used.scroll.y.rank() >= 0
            &&& used.max_scroll_x.finite() && used.max_scroll_x.rank() >= 0
            &&& used.viewport_width.finite() && used.viewport_width.rank() >= 0x3f80_0000
            &&& used.viewport_height.finite() && used.viewport_height.rank() >= 0x3f80_0000
            &&& used.content_height.finite() && used.content_height.rank() >= 0x3f80_0000
            &&& metrics.scroll.x.finite() && metrics.scroll.x.rank() >= 0 ==> used.scroll.x
                == metrics.scroll.x
            &&& metrics.scroll.y.finite() && metrics.scroll.y.rank() >= 0 ==> used.scroll.y
                == metrics.scroll.y
            &&& metrics.max_scroll_x.finite() && metrics.max_scroll_x.rank() >= 0
                ==> used.max_scroll_x == metrics.max_scroll_x
            &&& metrics.viewport_width.finite() && metrics.viewport_width.rank() >= 0x3f80_0000
                ==> used.viewport_width == metrics.viewport_width
            &&& metrics.viewport_height.finite() && metrics.viewport_height.rank() >= 0x3f80_0000
                ==> used.viewport_height == metrics.viewport_height
            &&& metrics.content_height.finite() && metrics.content_height.rank() >= 0x3f80_0000
                ==> used.content_height == metrics.content_height
        }),
{
}

/// A scrollbar is shown at the side if and only if the document is higher than the view,
/// and below if and only if there is more to the right.
pub proof fn law_scrollbars_are_shown_where_there_is_more(
    metrics: PdfCanvasMetrics,
    shown: ShownScrollbars,
    viewport: CanvasRect,
)
    requires
        call_ensures(PdfCanvasMetrics::shown_scrollbars, (metrics,), shown),
        call_ensures(PdfCanvasMetrics::content_viewport, (metrics,), viewport),
    ensures
        shown.vertical <==> metrics.in_bounds().content_height.rank() > viewport.height.rank(),
        shown.horizontal <==> metrics.max_scroll_x.finite() && metrics.max_scroll_x.rank() > 0,
        metrics.scroll.x.finite() && metrics.scroll.x.rank() >= 0 ==> viewport.x
            == metrics.scroll.x,
        metrics.scroll.y.finite() && metrics.scroll.y.rank() >= 0 ==> viewport.y
            == metrics.scroll.y,
{
}

/// How many tiles the pages from one on have together.
pub open spec fn all_tiles(pages: Seq<PdfCanvasPageGeometry>, from: int) -> int
    decreases pages.len() - from,
{
    if from < 0 || from >= pages.len() {
        0
    } else {
        pages[from].tile_count + all_tiles(pages, from + 1)
    }
}

proof fn lemma_all_tiles(pages: Seq<PdfCanvasPageGeometry>, from: int)
    requires
        0 <= from,
    ensures
        all_tiles(pages, from) >= 0,
        all_tiles(pages, from) <= usize::MAX ==> tiles_from(pages, from) == all_tiles(pages, from),
    decreases pages.len() - from,
{
    if from < pages.len() {
        lemma_all_tiles(pages, from + 1);
    }
}

proof fn lemma_frames_lose_no_tile(
    pages: Seq<PdfCanvasPageGeometry>,
    at: int,
    frame: FrameView,
    limits: PdfCanvasLimits,
)
    requires
        0 <= at,
        frame.remaining_tiles >= 0,
        frame.admitted_tiles >= 0,
        frame.dropped_tiles >= 0,
        frame.admitted_tiles + frame.dropped_tiles + all_tiles(pages, at) <= usize::MAX,
    ensures
        ({
            let done = frame_from(pages, at, frame, limits);
            &&& done.admitted_tiles + done.dropped_tiles == frame.admitted_tiles
                + frame.dropped_tiles + all_tiles(pages, at)
            &&& done.admitted_tiles + done.remaining_tiles == frame.admitted_tiles
                + frame.remaining_tiles
        }),
    decreases pages.len() - at,
{
    lemma_all_tiles(pages, at);
    if at < pages.len() && frame.pages.len() != limits.max_pages_per_frame {
        lemma_all_tiles(pages, at + 1);
        lemma_frames_lose_no_tile(pages, at + 1, frame.with_page(at, pages[at]), limits);
    }
}

/// Every tile of the pages that are handed over is either taken or counted as left.
pub proof fn law_frames_account_for_every_tile(
    pages: Seq<PdfCanvasPageGeometry>,
    limits: PdfCanvasLimits,
)
    requires
        all_tiles(pages, 0) <= usize::MAX,
    ensures
        ({
            let used = limits.in_bounds();
            let frame = frame_from(pages, 0, FrameView::start(used), used);
            frame.admitted_tiles + frame.dropped_tiles == all_tiles(pages, 0)
        }),
{
    let used = limits.in_bounds();
    lemma_frames_lose_no_tile(pages, 0, FrameView::start(used), used);
}

proof fn lemma_fitting_pages_are_taken(
    pages: Seq<PdfCanvasPageGeometry>,
    at: int,
    frame: FrameView,
    limits: PdfCanvasLimits,
)
    requires
        0 <= at <= pages.len() <= usize::MAX,
        frame.pages.len() == at,
        frame.remaining_tiles >= all_tiles(pages, at),
        frame.dropped_tiles == 0,
        frame.dropped_pages == 0,
        pages.len() <= limits.max_pages_per_frame,
        forall|i: int| 0 <= i < pages.len() ==> (#[trigger] pages[i]).rect.is_sound(),
        forall|i: int|
            0 <= i < at ==> (#[trigger] frame.pages[i]) == (PlannedCanvasPage {
                source_index: i as usize,
                page_index: pages[i].page_index,
                tile_count: pages[i].tile_count,
            }),
    ensures
        ({
            let done = frame_from(pages, at, frame, limits);
            &&& done.pages.len() == pages.len()
            &&& done.dropped_pages == 0
            &&& done.dropped_tiles == 0
            &&& forall|i: int|
                0 <= i < pages.len() ==> (#[trigger] done.pages[i]) == (PlannedCanvasPage {
                    source_index: i as usize,
                    page_index: pages[i].page_index,
                    tile_count: pages[i].tile_count,
                })
        }),
    decreases pages.len() - at,
{
    if at < pages.len() {
        lemma_all_tiles(pages, at + 1);
        assert(pages[at].rect.is_sound());
        let next = frame.with_page(at, pages[at]);
        assert forall|i: int| 0 <= i < at + 1 implies (#[trigger] next.pages[i]) == (
        PlannedCanvasPage {
            source_index: i as usize,
            page_index: pages[i].page_index,
            tile_count: pages[i].tile_count,
        }) by {
            if i < at {
                assert(next.pages[i] == frame.pages[i]);
            }
        }
        lemma_fitting_pages_are_taken(pages, at + 1, next, limits);
    }
}

/// Pages that are somewhere are all taken with all their tiles, in their order, where the
/// limits let them.
pub proof fn law_pages_that_fit_are_all_taken(
    pages: Seq<PdfCanvasPageGeometry>,
    limits: PdfCanvasLimits,
    i: int,
)
    requires
        pages.len() <= limits.in_bounds().max_pages_per_frame,
        all_tiles(pages, 0) <= limits.in_bounds().max_tiles_per_frame,
        forall|k: int|
            0 <= k < pages.len() ==> {
                let rect = (#[trigger] pages[k]).rect;
                rect.x.finite() && rect.y.finite() && rect.width.is_positive()
                    && rect.height.is_positive()
            },
        0 <= i < pages.len(),
    ensures
        ({
            let used = limits.in_bounds();
            let frame = frame_from(pages, 0, FrameView::start(used), used);
            &&& frame.pages.len() == pages.len()
            &&& frame.dropped_pages == 0
            &&& frame.dropped_tiles == 0
            &&& frame.pages[i].source_index == i
            &&& frame.pages[i].page_index == pages[i].page_index
            &&& frame.pages[i].tile_count == pages[i].tile_count
        }),
{
    let used = limits.in_bounds();
    assert forall|k: int| 0 <= k < pages.len() implies (#[trigger] pages[k]).rect.is_sound() by {
        let rect = pages[k].rect;
        assert(rect.x.finite());
    }
    lemma_fitting_pages_are_taken(pages, 0, FrameView::start(used), used);
}

proof fn lemma_tiles_are_painted(page: int, tiles: Seq<CanvasTile>, count: int, tile: int)
    requires
        0 <= count <= tiles.len(),
        0 <= tile <= usize::MAX,
        tiles.len() <= usize::MAX,
    ensures
        tile_steps(page, tiles, count).contains(
            PaintStep::Tile { page: page as usize, tile: tile as usize },
        ) <==> tile < count && tiles[tile].is_painted(),
        forall|i: int|
            0 <= i < tile_steps(page, tiles, count).len() ==> ((#[trigger] tile_steps(
                page,
                tiles,
                count,
            )[i]) matches PaintStep::Tile { page: on, tile: which } && on == page as usize && which
                < count),
        forall|i: int, j: int|
            0 <= i < j < tile_steps(page, tiles, count).len() ==> (#[trigger] tile_steps(
                page,
                tiles,
                count,
            )[i])->tile < (#[trigger] tile_steps(page, tiles, count)[j])->tile,
    decreases count,
{
    let steps = tile_steps(page, tiles, count);
    let wanted = PaintStep::Tile { page: page as usize, tile: tile as usize };
    if count > 0 {
        let before = tile_steps(page, tiles, count - 1);
        lemma_tiles_are_painted(page, tiles, count - 1, tile);
        if before.contains(wanted) {
            let k = choose|k: int| 0 <= k < before.len() && before[k] == wanted;
            assert(steps[k] == wanted);
        }
        if tiles[count - 1].is_painted() {
            assert(steps[before.len() as int] == (PaintStep::Tile {
                page: page as usize,
                tile: (count - 1) as usize,
            }));
            if steps.contains(wanted) && tile != count - 1 {
                let k = choose|k: int| 0 <= k < steps.len() && steps[k] == wanted;
                assert(before[k] == wanted);
            }
            assert forall|i: int| 0 <= i < steps.len() implies ((
            #[trigger] steps[i]) matches PaintStep::Tile { page: on, tile: which } && on
                == page as usize && which < count) by {
                if i < before.len() {
                    assert(steps[i] == before[i]);
                }
            }
            assert forall|i: int, j: int| 0 <= i < j < steps.len() implies (
            #[trigger] steps[i])->tile < (#[trigger] steps[j])->tile by {
                assert(steps[i] == before[i]);
                if j < before.len() {
                    assert(steps[j] == before[j]);
                }
            }
        }
    }
}

/// A page is painted from below: its shadow, its paper, its tiles that are somewhere and in
/// view in their order, and last what the host paints over it.
pub proof fn law_pages_are_painted_from_below(
    page: int,
    tiles: Seq<CanvasTile>,
    count: int,
    tile: int,
)
    requires
        0 <= page <= usize::MAX,
        0 <= count <= tiles.len() <= usize::MAX,
        0 <= tile < tiles.len(),
    ensures
        ({
            let steps = page_steps(page, tiles, count);
            &&& steps.len() >= 3
            &&& steps[0] == (PaintStep::Shadow { page: page as usize })
            &&& steps[1] == (PaintStep::Paper { page: page as usize })
            &&& steps.last() == (PaintStep::Overlay { page: page as usize })
            &&& forall|i: int| 2 <= i < steps.len() - 1 ==> (#[trigger] steps[i]) is Tile
            &&& forall|i: int, j: int|
                2 <= i < j < steps.len() - 1 ==> (#[trigger] steps[i])->tile < (
                #[trigger] steps[j])->tile
            &&& steps.contains(PaintStep::Tile { page: page as usize, tile: tile as usize })
                <==> tile < count && tiles[tile].core_rect.is_sound()
                && tiles[tile].render_rect.is_sound() && tiles[tile].in_view
        }),
{
    let steps = page_steps(page, tiles, count);
    let inner = tile_steps(page, tiles, count);
    lemma_tiles_are_painted(page, tiles, count, tile);
    assert forall|i: int| 2 <= i < steps.len() - 1 implies #[trigger] steps[i] == inner[i - 2] by {}
    assert forall|i: int, j: int| 2 <= i < j < steps.len() - 1 implies (#[trigger] steps[i])->tile
        < (#[trigger] steps[j])->tile by {
        assert(steps[i] == inner[i - 2] && steps[j] == inner[j - 2]);
    }
    let wanted = PaintStep::Tile { page: page as usize, tile: tile as usize };
    if inner.contains(wanted) {
        let k = choose|k: int| 0 <= k < inner.len() && inner[k] == wanted;
        assert(steps[k + 2] == wanted);
    }
    if steps.contains(wanted) {
        let k = choose|k: int| 0 <= k < steps.len() && steps[k] == wanted;
        assert(inner[k - 2] == wanted);
    }
}

/// How many tiles pages from one on have together.
pub open spec fn tiles_handed_over(pages: Seq<CanvasPage>, from: int) -> int
    decreases pages.len() - from,
{
    if from < 0 || from >= pages.len() {
        0
    } else {
        pages[from].tiles@.len() + tiles_handed_over(pages, from + 1)
    }
}

proof fn lemma_handed_over(pages: Seq<CanvasPage>, from: int)
    requires
        0 <= from,
    ensures
        tiles_handed_over(pages, from) >= 0,
    decreases pages.len() - from,
{
    if from < pages.len() {
        lemma_handed_over(pages, from + 1);
    }
}

proof fn lemma_page_is_painted(
    pages: Seq<CanvasPage>,
    at: int,
    free_pages: int,
    free_tiles: int,
    page: int,
    step: PaintStep,
)
    requires
        0 <= at <= page < pages.len(),
        pages.len() - at <= free_pages,
        tiles_handed_over(pages, at) <= free_tiles,
        pages[page].rect.is_sound(),
        page_steps(page, pages[page].tiles@, pages[page].tiles@.len() as int).contains(step),
    ensures
        steps_from(pages, at, free_pages, free_tiles).contains(step),
    decreases pages.len() - at,
{
    lemma_handed_over(pages, at + 1);
    let count = pages[at].tiles@.len() as int;
    let all = steps_from(pages, at, free_pages, free_tiles);
    if pages[at].rect.is_sound() {
        let here = page_steps(at, pages[at].tiles@, count);
        let rest = steps_from(pages, at + 1, free_pages - 1, free_tiles - count);
        assert(all == here + rest);
        if at == page {
            let k = choose|k: int| 0 <= k < here.len() && here[k] == step;
            assert(all[k] == step);
        } else {
            lemma_page_is_painted(pages, at + 1, free_pages - 1, free_tiles - count, page, step);
            let k = choose|k: int| 0 <= k < rest.len() && rest[k] == step;
            assert(all[here.len() + k] == step);
        }
    } else {
        lemma_page_is_painted(pages, at + 1, free_pages, free_tiles, page, step);
    }
}

/// A frame paints the pane first, and where the limits let it all that belongs to every page
/// that is somewhere. The scrollbars that are to be shown come last.
pub proof fn law_frames_paint_every_page(
    pages: Seq<CanvasPage>,
    limits: PdfCanvasLimits,
    vertical: bool,
    horizontal: bool,
    page: int,
    step: PaintStep,
)
    requires
        0 <= page < pages.len(),
        pages.len() <= limits.in_bounds().max_pages_per_frame,
        tiles_handed_over(pages, 0) <= limits.in_bounds().max_tiles_per_frame,
        pages[page].rect.is_sound(),
        page_steps(page, pages[page].tiles@, pages[page].tiles@.len() as int).contains(step),
    ensures
        ({
            let steps = frame_steps(pages, limits, vertical, horizontal);
            &&& steps[0] is Pane
            &&& steps.contains(step)
            &&& horizontal ==> steps.last() is HorizontalScrollbar
            &&& vertical && !horizontal ==> steps.last() is VerticalScrollbar
            &&& vertical && horizontal ==> steps[steps.len() - 2] is VerticalScrollbar
        }),
{
    let used = limits.in_bounds();
    let middle = steps_from(
        pages,
        0,
        used.max_pages_per_frame as int,
        used.max_tiles_per_frame as int,
    );
    lemma_page_is_painted(
        pages,
        0,
        used.max_pages_per_frame as int,
        used.max_tiles_per_frame as int,
        page,
        step,
    );
    let k = choose|k: int| 0 <= k < middle.len() && middle[k] == step;
    let steps = frame_steps(pages, limits, vertical, horizontal);
    assert(steps[k + 1] == step);
}

/// Where nothing else is set a frame takes 512 pages and 4096 tiles.
pub proof fn law_usual_frames_are_these(limits: PdfCanvasLimits)
    requires
        call_ensures(PdfCanvasLimits::default, (), limits),
    ensures
        limits.max_pages_per_frame == 512,
        limits.max_tiles_per_frame == 4_096,
        limits.in_bounds() == limits,
{
}

} // verus!
