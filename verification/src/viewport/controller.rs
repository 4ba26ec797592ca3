//! The state of a view, and what its host hears of it.
//!
//! Where things are on the screen is worked out elsewhere. Each change comes in
//! two steps: the controller says whether it is to be made at all, and is then
//! told where everything has come to rest.

use crate::float_bits::{FloatBits, ONE_BITS};
use crate::runtime::engine::PageSize;
use crate::viewport::appearance::PdfReaderAppearance;
use crate::viewport::limits::PdfReaderConfig;
use vstd::prelude::*;

verus! {

/// The bits of 0.25.
pub const LEAST_SCALE: u32 = 0x3e80_0000;

/// The bits of 16.
pub const GREATEST_SCALE: u32 = 0x4180_0000;

/// How far a document is scrolled.
#[derive(Clone, Copy, Debug, PartialEq, Eq, Structural)]
pub struct ScrollOffset {
    pub x: FloatBits,
    pub y: FloatBits,
}

impl ScrollOffset {
    /// Not at all.
    pub open spec fn origin() -> ScrollOffset {
        ScrollOffset { x: FloatBits(0), y: FloatBits(0) }
    }

    /// An offset.
    pub fn new(x: FloatBits, y: FloatBits) -> (offset: ScrollOffset)
        ensures
            offset == (ScrollOffset { x, y }),
    {
        ScrollOffset { x, y }
    }

    /// The offsets are equal as numbers.
    pub open spec fn equals(self, other: ScrollOffset) -> bool {
        self.x.rank() == other.x.rank() && self.y.rank() == other.y.rank()
    }

    fn same(self, other: ScrollOffset) -> (same: bool)
        ensures
            same == self.equals(other),
    {
        self.x.same_value(other.x) && self.y.same_value(other.y)
    }

    /// Both numbers are finite.
    pub open spec fn is_finite(self) -> bool {
        self.x.finite() && self.y.finite()
    }

    fn finite(self) -> (finite: bool)
        ensures
            finite == self.is_finite(),
    {
        self.x.is_finite() && self.y.is_finite()
    }

    /// An offset can be the farthest that a view can scroll.
    pub open spec fn is_reach(self) -> bool {
        self.x.rank() >= 0 && self.y.rank() >= 0
    }

    /// The offset, no farther than a view can scroll.
    pub open spec fn within_reach(self, reach: ScrollOffset) -> ScrollOffset {
        ScrollOffset {
            x: self.x.within(FloatBits(0), reach.x),
            y: self.y.within(FloatBits(0), reach.y),
        }
    }

    /// The offset is one that a view can scroll to.
    pub open spec fn lies_in(self, reach: ScrollOffset) -> bool {
        &&& 0 <= self.x.rank() <= reach.x.rank()
        &&& 0 <= self.y.rank() <= reach.y.rank()
    }

    /// The offset, no farther than a view can scroll.
    pub fn clamped(self, reach: ScrollOffset) -> (offset: ScrollOffset)
        requires
            reach.is_reach(),
        ensures
            offset == self.within_reach(reach),
            offset.lies_in(reach),
    {
        ScrollOffset {
            x: self.x.clamped(FloatBits(0), reach.x),
            y: self.y.clamped(FloatBits(0), reach.y),
        }
    }
}

impl Default for ScrollOffset {
    fn default() -> (offset: Self)
        ensures
            offset == ScrollOffset::origin(),
    {
        ScrollOffset { x: FloatBits(0), y: FloatBits(0) }
    }
}

/// A point of a view.
#[derive(Clone, Copy, Debug, PartialEq, Eq, Structural)]
pub struct ViewportPoint {
    pub x: FloatBits,
    pub y: FloatBits,
}

impl Default for ViewportPoint {
    /// The top left corner.
    fn default() -> (point: Self)
        ensures
            point == (ViewportPoint { x: FloatBits(0), y: FloatBits(0) }),
    {
        ViewportPoint { x: FloatBits(0), y: FloatBits(0) }
    }
}

impl ViewportPoint {
    /// A point.
    pub fn new(x: FloatBits, y: FloatBits) -> (point: ViewportPoint)
        ensures
            point == (ViewportPoint { x, y }),
    {
        ViewportPoint { x, y }
    }

    /// The point of a view that is nearest.
    pub fn clamped(self, metrics: ViewportMetrics) -> (point: ViewportPoint)
        requires
            metrics.width.rank() >= 0,
            metrics.height.rank() >= 0,
        ensures
            point == (ViewportPoint {
                x: self.x.within(FloatBits(0), metrics.width),
                y: self.y.within(FloatBits(0), metrics.height),
            }),
    {
        ViewportPoint {
            x: self.x.clamped(FloatBits(0), metrics.width),
            y: self.y.clamped(FloatBits(0), metrics.height),
        }
    }
}

/// The size of a view.
#[derive(Clone, Copy, Debug, PartialEq, Eq, Structural)]
pub struct ViewportMetrics {
    pub width: FloatBits,
    pub height: FloatBits,
    /// How much of it is covered from the right.
    pub right_occlusion: FloatBits,
    pub scale_factor: FloatBits,
}

impl Default for ViewportMetrics {
    fn default() -> (metrics: Self)
        ensures
            metrics == ViewportMetrics::unseen(),
    {
        ViewportMetrics {
            width: FloatBits(ONE_BITS),
            height: FloatBits(ONE_BITS),
            right_occlusion: FloatBits(0),
            scale_factor: FloatBits(ONE_BITS),
        }
    }
}

impl ViewportMetrics {
    /// A view that nobody has measured yet.
    pub open spec fn unseen() -> ViewportMetrics {
        ViewportMetrics {
            width: FloatBits(ONE_BITS),
            height: FloatBits(ONE_BITS),
            right_occlusion: FloatBits(0),
            scale_factor: FloatBits(ONE_BITS),
        }
    }

    /// The sizes are equal as numbers.
    pub open spec fn equals(self, other: ViewportMetrics) -> bool {
        &&& self.width.rank() == other.width.rank()
        &&& self.height.rank() == other.height.rank()
        &&& self.right_occlusion.rank() == other.right_occlusion.rank()
        &&& self.scale_factor.rank() == other.scale_factor.rank()
    }

    /// The size can be that of a view.
    pub open spec fn is_sound(self) -> bool {
        &&& self.width.is_positive()
        &&& self.height.is_positive()
        &&& self.right_occlusion.finite()
        &&& self.scale_factor.is_positive()
    }

    /// The size within bounds, where `widest_occlusion` is one pixel less than
    /// the width, but not below zero.
    pub open spec fn in_bounds(self, maximum: FloatBits, widest_occlusion: FloatBits) -> ViewportMetrics {
        ViewportMetrics {
            width: self.width.up_to(maximum),
            height: self.height.up_to(maximum),
            right_occlusion: self.right_occlusion.within(FloatBits(0), widest_occlusion),
            scale_factor: self.scale_factor.within(
                FloatBits(LEAST_SCALE),
                FloatBits(GREATEST_SCALE),
            ),
        }
    }
}

/// How a view gets to a place.
#[derive(Clone, Copy, Debug, PartialEq, Eq, Structural)]
pub enum ScrollBehavior {
    Immediate,
    Smooth,
}

/// What became of an input.
#[derive(Clone, Copy, Debug, PartialEq, Eq, Structural)]
pub enum InputDisposition {
    Applied,
    Unchanged,
    IgnoredInvalid,
}

/// Why tiles have to be planned anew.
#[derive(Clone, Copy, Debug, PartialEq, Eq, Structural)]
pub enum DemandInvalidation {
    Document,
    Viewport,
    Scroll,
    Zoom,
    Appearance,
}

/// What a host hears.
#[derive(Clone, Copy, Debug, PartialEq, Eq, Structural)]
pub enum PdfReaderEvent {
    DocumentChanged { page_count: usize },
    ViewportChanged(ViewportMetrics),
    ScrollChanged { offset: ScrollOffset, target: ScrollOffset },
    ZoomChanged { zoom: FloatBits, fit_width: bool },
    CurrentPageChanged { page: usize },
    AppearanceChanged(PdfReaderAppearance),
    DemandInvalidated { revision: u64, cause: DemandInvalidation },
}

/// Why a document was refused.
#[derive(Clone, Copy, Debug, PartialEq, Eq, Structural)]
pub enum ViewportError {
    InvalidPageSize { page: usize },
}

impl ViewportError {
    /// The error in words. Pages are counted from one.
    pub fn message(self) -> (text: String)
        requires
            self matches ViewportError::InvalidPageSize { page } ==> page < usize::MAX,
        ensures
            self matches ViewportError::InvalidPageSize { page } ==> text@ == "page "@
                + crate::text::decimal_text((page + 1) as nat) + " has invalid dimensions"@,
    {
        match self {
            ViewportError::InvalidPageSize { page } => crate::text::join3(
                "page ",
                crate::text::decimal((page + 1) as u64).as_str(),
                " has invalid dimensions",
            ),
        }
    }
}

/// What a frame does to a view on its way.
#[derive(Clone, Copy, Debug, PartialEq, Eq, Structural)]
pub enum AdvanceStep {
    /// It has arrived; no more frames are needed.
    Arrive,
    /// The frame says nothing; wait for another.
    Wait,
    /// It gets on.
    Move,
}

/// Where a view has come to rest.
#[derive(Clone, Copy, Debug, PartialEq, Eq, Structural)]
pub struct RestingPlace {
    pub scroll: ScrollOffset,
    pub target: ScrollOffset,
    /// The page that is in the middle.
    pub current_page: Option<usize>,
}

/// A document as it is laid out.
#[derive(Clone, Copy, Debug, PartialEq, Eq, Structural)]
pub struct LaidOut {
    pub content_width: FloatBits,
    pub content_height: FloatBits,
    /// The first page that can be seen.
    pub first_visible_page: usize,
    /// The page after the last that can be seen.
    pub end_visible_page: usize,
}

impl LaidOut {
    /// No document.
    pub open spec fn nothing() -> LaidOut {
        LaidOut {
            content_width: FloatBits(0),
            content_height: FloatBits(0),
            first_visible_page: 0,
            end_visible_page: 0,
        }
    }
}

/// What a host sees of a view.
#[derive(Clone, Copy, Debug, PartialEq, Eq, Structural)]
pub struct ViewportSnapshot {
    pub page_count: usize,
    pub metrics: ViewportMetrics,
    pub scroll: ScrollOffset,
    pub scroll_target: ScrollOffset,
    pub zoom: FloatBits,
    pub fit_width: bool,
    pub laid_out: LaidOut,
    pub current_page: Option<usize>,
    pub demand_revision: u64,
}

/// The state of a view.
#[derive(Debug)]
pub struct ViewportController {
    pub config: PdfReaderConfig,
    pub page_sizes: Vec<PageSize>,
    pub metrics: ViewportMetrics,
    pub scroll: ScrollOffset,
    pub scroll_target: ScrollOffset,
    pub zoom: FloatBits,
    pub fit_width: bool,
    pub demand_revision: u64,
    pub current_page: Option<usize>,
    pub events: Vec<PdfReaderEvent>,
}

/// Where a view is, and where it goes.
#[derive(Clone, Copy, Debug, PartialEq, Eq, Structural)]
pub struct ScrollEnds {
    pub scroll: ScrollOffset,
    pub target: ScrollOffset,
}

impl ScrollEnds {
    /// Both are places that a view can scroll to.
    pub open spec fn lie_in(self, reach: ScrollOffset) -> bool {
        self.scroll.lies_in(reach) && self.target.lies_in(reach)
    }
}

/// Events after one more came: with no room left the oldest goes.
pub open spec fn pushed(
    events: Seq<PdfReaderEvent>,
    capacity: usize,
    event: PdfReaderEvent,
) -> Seq<PdfReaderEvent> {
    if events.len() == capacity {
        events.skip(1).push(event)
    } else {
        events.push(event)
    }
}

/// The revision after another.
pub open spec fn next_revision(revision: u64) -> u64 {
    if revision == u64::MAX {
        0
    } else {
        (revision + 1) as u64
    }
}

/// Events after the page in the middle may have changed.
pub open spec fn page_told(
    events: Seq<PdfReaderEvent>,
    capacity: usize,
    before: Option<usize>,
    after: Option<usize>,
) -> Seq<PdfReaderEvent> {
    if after != before && after is Some {
        pushed(events, capacity, PdfReaderEvent::CurrentPageChanged { page: after->Some_0 })
    } else {
        events
    }
}

/// Events after the view moved and tiles have to be planned anew.
pub open spec fn move_told(
    events: Seq<PdfReaderEvent>,
    capacity: usize,
    place: RestingPlace,
    revision: u64,
    cause: DemandInvalidation,
) -> Seq<PdfReaderEvent> {
    pushed(
        pushed(
            events,
            capacity,
            PdfReaderEvent::ScrollChanged { offset: place.scroll, target: place.target },
        ),
        capacity,
        PdfReaderEvent::DemandInvalidated { revision: next_revision(revision), cause },
    )
}

/// The first page whose size cannot be that of a page.
pub open spec fn size_error(sizes: Seq<PageSize>, from: int) -> Option<ViewportError>
    decreases sizes.len() - from,
{
    if from < 0 || from >= sizes.len() {
        None
    } else if !sizes[from].width.is_positive() || !sizes[from].height.is_positive() {
        Some(ViewportError::InvalidPageSize { page: from as usize })
    } else {
        size_error(sizes, from + 1)
    }
}

fn check_sizes(sizes: &Vec<PageSize>) -> (checked: Result<(), ViewportError>)
    ensures
        match size_error(sizes@, 0) {
            Some(error) => checked == Err::<(), ViewportError>(error),
            None => checked is Ok,
        },
{
    let mut page: usize = 0;
    while page < sizes.len()
        invariant
            page <= sizes@.len(),
            size_error(sizes@, 0) == size_error(sizes@, page as int),
        decreases sizes@.len() - page,
    {
        if !sizes[page].width.positive() || !sizes[page].height.positive() {
            return Err(ViewportError::InvalidPageSize { page });
        }
        page += 1;
    }
    Ok(())
}

/// The width of the widest of the first pages, and one point at least.
pub open spec fn widest_of(sizes: Seq<PageSize>, count: int) -> FloatBits
    decreases count,
{
    if count <= 0 {
        FloatBits(ONE_BITS)
    } else {
        sizes[count - 1].width.from_bound(widest_of(sizes, count - 1))
    }
}

/// The width of the widest page, and one point at least.
pub fn widest_page(sizes: &Vec<PageSize>) -> (widest: FloatBits)
    ensures
        widest == widest_of(sizes@, sizes@.len() as int),
        widest.rank() >= ONE_BITS,
        forall|i: int|
            0 <= i < sizes@.len() ==> (#[trigger] sizes@[i]).width.rank() <= widest.rank(),
{
    let mut widest = FloatBits(ONE_BITS);
    let mut i: usize = 0;
    while i < sizes.len()
        invariant
            i <= sizes@.len(),
            widest == widest_of(sizes@, i as int),
            widest.rank() >= ONE_BITS,
            forall|j: int| 0 <= j < i ==> (#[trigger] sizes@[j]).width.rank() <= widest.rank(),
        decreases sizes@.len() - i,
    {
        widest = sizes[i].width.at_least(widest);
        i += 1;
    }
    widest
}

impl ViewportController {
    /// How many events are kept.
    pub open spec fn capacity(&self) -> usize {
        self.config.limits.max_pending_events
    }

    /// The configuration is within its bounds, and so is what waits to be
    /// heard.
    pub open spec fn wf(&self) -> bool {
        &&& self.config.in_bounds() == self.config
        &&& self.events@.len() <= self.capacity()
        &&& self.config.limits.max_pending_events >= 1
    }

    /// A document is shown.
    pub open spec fn has_document(&self) -> bool {
        self.page_sizes@.len() > 0
    }

    /// Where the view rests.
    pub open spec fn place(&self) -> RestingPlace {
        RestingPlace {
            scroll: self.scroll,
            target: self.scroll_target,
            current_page: self.current_page,
        }
    }

    /// A view without a document.
    pub fn new(config: PdfReaderConfig) -> (controller: ViewportController)
        ensures
            controller.wf(),
            controller.config == config.in_bounds(),
            !controller.has_document(),
            controller.metrics == ViewportMetrics::unseen(),
            controller.zoom == config.in_bounds().initial_zoom,
            controller.fit_width == config.fit_width_on_open,
            controller.place() == (RestingPlace {
                scroll: ScrollOffset::origin(),
                target: ScrollOffset::origin(),
                current_page: None,
            }),
            controller.demand_revision == 0,
            controller.events@.len() == 0,
    {
        proof {
            crate::viewport::limits::law_used_configurations_are_bounded(config);
        }
        let config = config.normalized();
        ViewportController {
            config,
            page_sizes: Vec::new(),
            metrics: ViewportMetrics::default(),
            scroll: ScrollOffset::default(),
            scroll_target: ScrollOffset::default(),
            zoom: config.initial_zoom,
            fit_width: config.fit_width_on_open,
            demand_revision: 0,
            current_page: None,
            events: Vec::new(),
        }
    }

    /// Everything but the events is as in another state.
    pub open spec fn same_but_events(&self, other: ViewportController) -> bool {
        &&& self.config == other.config
        &&& self.page_sizes == other.page_sizes
        &&& self.metrics == other.metrics
        &&& self.scroll == other.scroll
        &&& self.scroll_target == other.scroll_target
        &&& self.zoom == other.zoom
        &&& self.fit_width == other.fit_width
        &&& self.demand_revision == other.demand_revision
        &&& self.current_page == other.current_page
    }

    fn push_event(&mut self, event: PdfReaderEvent)
        requires
            old(self).wf(),
        ensures
            final(self).wf(),
            final(self).same_but_events(*old(self)),
            final(self).events@ == pushed(old(self).events@, old(self).capacity(), event),
    {
        if self.events.len() == self.config.limits.max_pending_events {
            let ghost before = self.events@;
            self.events.remove(0);
            assert(self.events@ =~= before.skip(1));
        }
        self.events.push(event);
    }

    fn invalidate(&mut self, cause: DemandInvalidation)
        requires
            old(self).wf(),
        ensures
            final(self).wf(),
            final(self).demand_revision == next_revision(old(self).demand_revision),
            final(self).config == old(self).config,
            final(self).page_sizes == old(self).page_sizes,
            final(self).metrics == old(self).metrics,
            final(self).scroll == old(self).scroll,
            final(self).scroll_target == old(self).scroll_target,
            final(self).zoom == old(self).zoom,
            final(self).fit_width == old(self).fit_width,
            final(self).current_page == old(self).current_page,
            final(self).events@ == pushed(
                old(self).events@,
                old(self).capacity(),
                PdfReaderEvent::DemandInvalidated {
                    revision: next_revision(old(self).demand_revision),
                    cause,
                },
            ),
    {
        self.demand_revision = if self.demand_revision == u64::MAX {
            0
        } else {
            self.demand_revision + 1
        };
        let revision: u64 = self.demand_revision;
        self.push_event(PdfReaderEvent::DemandInvalidated { revision, cause });
    }

    fn rest_at(&mut self, place: RestingPlace)
        requires
            old(self).wf(),
        ensures
            final(self).wf(),
            final(self).place() == place,
            final(self).config == old(self).config,
            final(self).page_sizes == old(self).page_sizes,
            final(self).metrics == old(self).metrics,
            final(self).zoom == old(self).zoom,
            final(self).fit_width == old(self).fit_width,
            final(self).demand_revision == old(self).demand_revision,
            final(self).events@ == page_told(
                old(self).events@,
                old(self).capacity(),
                old(self).current_page,
                place.current_page,
            ),
    {
        self.scroll = place.scroll;
        self.scroll_target = place.target;
        let changed = match (self.current_page, place.current_page) {
            (Some(a), Some(b)) => a != b,
            (None, None) => false,
            _ => true,
        };
        if changed {
            self.current_page = place.current_page;
            if let Some(page) = place.current_page {
                self.push_event(PdfReaderEvent::CurrentPageChanged { page });
            }
        }
    }

    fn tell_move(&mut self, cause: DemandInvalidation)
        requires
            old(self).wf(),
        ensures
            final(self).wf(),
            final(self).place() == old(self).place(),
            final(self).config == old(self).config,
            final(self).page_sizes == old(self).page_sizes,
            final(self).metrics == old(self).metrics,
            final(self).zoom == old(self).zoom,
            final(self).fit_width == old(self).fit_width,
            final(self).demand_revision == next_revision(old(self).demand_revision),
            final(self).events@ == move_told(
                old(self).events@,
                old(self).capacity(),
                old(self).place(),
                old(self).demand_revision,
                cause,
            ),
    {
        let offset = self.scroll;
        let target = self.scroll_target;
        self.push_event(PdfReaderEvent::ScrollChanged { offset, target });
        self.invalidate(cause);
    }

    /// Shows a document from its start. Where its width is to be fitted,
    /// `fitted_zoom` is the zoom at which it fits.
    pub fn set_document_pages(&mut self, page_sizes: Vec<PageSize>, fitted_zoom: FloatBits) -> (
    outcome: Result<InputDisposition, ViewportError>)
        requires
            old(self).wf(),
        ensures
            final(self).wf(),
            match size_error(page_sizes@, 0) {
                Some(error) => outcome == Err::<InputDisposition, ViewportError>(error)
                    && *final(self) == *old(self),
                None => {
                    let config = old(self).config;
                    let zoom = if config.fit_width_on_open {
                        fitted_zoom
                    } else {
                        config.initial_zoom
                    };
                    let place = RestingPlace {
                        scroll: ScrollOffset::origin(),
                        target: ScrollOffset::origin(),
                        current_page: if page_sizes@.len() > 0 {
                            Some(0)
                        } else {
                            None
                        },
                    };
                    &&& outcome == Ok::<InputDisposition, ViewportError>(
                        InputDisposition::Applied,
                    )
                    &&& final(self).config == config
                    &&& final(self).metrics == old(self).metrics
                    &&& final(self).page_sizes == page_sizes
                    &&& final(self).zoom == zoom
                    &&& final(self).fit_width == config.fit_width_on_open
                    &&& final(self).place() == place
                    &&& final(self).demand_revision == next_revision(old(self).demand_revision)
                    &&& final(self).events@ == move_told(
                        pushed(
                            pushed(
                                old(self).events@,
                                old(self).capacity(),
                                PdfReaderEvent::DocumentChanged {
                                    page_count: page_sizes@.len() as usize,
                                },
                            ),
                            old(self).capacity(),
                            PdfReaderEvent::ZoomChanged {
                                zoom,
                                fit_width: config.fit_width_on_open,
                            },
                        ),
                        old(self).capacity(),
                        place,
                        old(self).demand_revision,
                        DemandInvalidation::Document,
                    )
                },
            },
    {
        if let Err(error) = check_sizes(&page_sizes) {
            return Err(error);
        }
        let page_count: usize = page_sizes.len();
        self.page_sizes = page_sizes;
        self.fit_width = self.config.fit_width_on_open;
        self.zoom = if self.fit_width {
            fitted_zoom
        } else {
            self.config.initial_zoom
        };
        self.scroll = ScrollOffset::default();
        self.scroll_target = ScrollOffset::default();
        self.current_page = if page_count > 0 {
            Some(0)
        } else {
            None
        };
        self.push_event(PdfReaderEvent::DocumentChanged { page_count });
        let zoom = self.zoom;
        let fit_width = self.fit_width;
        self.push_event(PdfReaderEvent::ZoomChanged { zoom, fit_width });
        self.tell_move(DemandInvalidation::Document);
        Ok(InputDisposition::Applied)
    }

    /// Shows no document.
    pub fn clear_document(&mut self) -> (disposition: InputDisposition)
        requires
            old(self).wf(),
        ensures
            final(self).wf(),
            !old(self).has_document() ==> disposition == InputDisposition::Unchanged
                && *final(self) == *old(self),
            old(self).has_document() ==> {
                &&& disposition == InputDisposition::Applied
                &&& final(self).config == old(self).config
                &&& final(self).metrics == old(self).metrics
                &&& !final(self).has_document()
                &&& final(self).zoom == old(self).config.initial_zoom
                &&& final(self).fit_width == old(self).config.fit_width_on_open
                &&& final(self).place() == (RestingPlace {
                    scroll: ScrollOffset::origin(),
                    target: ScrollOffset::origin(),
                    current_page: None,
                })
                &&& final(self).demand_revision == next_revision(old(self).demand_revision)
                &&& final(self).events@ == pushed(
                    pushed(
                        old(self).events@,
                        old(self).capacity(),
                        PdfReaderEvent::DocumentChanged { page_count: 0 },
                    ),
                    old(self).capacity(),
                    PdfReaderEvent::DemandInvalidated {
                        revision: next_revision(old(self).demand_revision),
                        cause: DemandInvalidation::Document,
                    },
                )
            },
    {
        if self.page_sizes.len() == 0 {
            return InputDisposition::Unchanged;
        }
        self.page_sizes = Vec::new();
        self.scroll = ScrollOffset::default();
        self.scroll_target = ScrollOffset::default();
        self.current_page = None;
        self.fit_width = self.config.fit_width_on_open;
        self.zoom = self.config.initial_zoom;
        self.push_event(PdfReaderEvent::DocumentChanged { page_count: 0 });
        self.invalidate(DemandInvalidation::Document);
        InputDisposition::Applied
    }

    /// What a view of a size would come to: nothing where the size is no size,
    /// and where it is the size that it has.
    pub fn judge_viewport(&self, metrics: ViewportMetrics, widest_occlusion: FloatBits) -> (judged:
        Result<ViewportMetrics, InputDisposition>)
        requires
            self.wf(),
            widest_occlusion.rank() >= 0,
        ensures
            ({
                let used = metrics.in_bounds(
                    self.config.limits.max_viewport_dimension,
                    widest_occlusion,
                );
                judged == if !metrics.is_sound() {
                    Err::<ViewportMetrics, InputDisposition>(InputDisposition::IgnoredInvalid)
                } else if used.equals(self.metrics) {
                    Err(InputDisposition::Unchanged)
                } else {
                    Ok(used)
                }
            }),
    {
        if !metrics.width.positive() || !metrics.height.positive()
            || !metrics.right_occlusion.is_finite() || !metrics.scale_factor.positive() {
            return Err(InputDisposition::IgnoredInvalid);
        }
        let maximum = self.config.limits.max_viewport_dimension;
        let used = ViewportMetrics {
            width: metrics.width.at_most(maximum),
            height: metrics.height.at_most(maximum),
            right_occlusion: metrics.right_occlusion.clamped(FloatBits(0), widest_occlusion),
            scale_factor: metrics.scale_factor.clamped(
                FloatBits(LEAST_SCALE),
                FloatBits(GREATEST_SCALE),
            ),
        };
        if used.width.same_value(self.metrics.width) && used.height.same_value(self.metrics.height)
            && used.right_occlusion.same_value(self.metrics.right_occlusion)
            && used.scale_factor.same_value(self.metrics.scale_factor) {
            return Err(InputDisposition::Unchanged);
        }
        Ok(used)
    }

    /// The view has a new size. `zoom_moved` says that its zoom is noticeably
    /// another.
    pub fn settle_viewport(
        &mut self,
        metrics: ViewportMetrics,
        zoom: FloatBits,
        zoom_moved: bool,
        place: RestingPlace,
    ) -> (disposition: InputDisposition)
        requires
            old(self).wf(),
        ensures
            final(self).wf(),
            disposition == InputDisposition::Applied,
            final(self).config == old(self).config,
            final(self).page_sizes == old(self).page_sizes,
            final(self).metrics == metrics,
            final(self).zoom == zoom,
            final(self).fit_width == old(self).fit_width,
            final(self).place() == place,
            final(self).demand_revision == next_revision(old(self).demand_revision),
            ({
                let capacity = old(self).capacity();
                let told = pushed(
                    page_told(
                        old(self).events@,
                        capacity,
                        old(self).current_page,
                        place.current_page,
                    ),
                    capacity,
                    PdfReaderEvent::ViewportChanged(metrics),
                );
                final(self).events@ == move_told(
                    if zoom_moved {
                        pushed(told, capacity, PdfReaderEvent::ZoomChanged { zoom, fit_width: true })
                    } else {
                        told
                    },
                    capacity,
                    place,
                    old(self).demand_revision,
                    DemandInvalidation::Viewport,
                )
            }),
    {
        self.metrics = metrics;
        self.zoom = zoom;
        self.rest_at(place);
        self.push_event(PdfReaderEvent::ViewportChanged(metrics));
        if zoom_moved {
            self.push_event(PdfReaderEvent::ZoomChanged { zoom, fit_width: true });
        }
        self.tell_move(DemandInvalidation::Viewport);
        InputDisposition::Applied
    }

    /// Puts on other colors.
    pub fn set_appearance(&mut self, appearance: PdfReaderAppearance) -> (disposition:
        InputDisposition)
        requires
            old(self).wf(),
        ensures
            final(self).wf(),
            appearance == old(self).config.appearance ==> disposition
                == InputDisposition::Unchanged && *final(self) == *old(self),
            appearance != old(self).config.appearance ==> {
                &&& disposition == InputDisposition::Applied
                &&& final(self).config == (PdfReaderConfig { appearance, ..old(self).config })
                &&& final(self).page_sizes == old(self).page_sizes
                &&& final(self).metrics == old(self).metrics
                &&& final(self).zoom == old(self).zoom
                &&& final(self).fit_width == old(self).fit_width
                &&& final(self).place() == old(self).place()
                &&& final(self).demand_revision == next_revision(old(self).demand_revision)
                &&& final(self).events@ == pushed(
                    pushed(
                        old(self).events@,
                        old(self).capacity(),
                        PdfReaderEvent::AppearanceChanged(appearance),
                    ),
                    old(self).capacity(),
                    PdfReaderEvent::DemandInvalidated {
                        revision: next_revision(old(self).demand_revision),
                        cause: DemandInvalidation::Appearance,
                    },
                )
            },
    {
        if appearance == self.config.appearance {
            return InputDisposition::Unchanged;
        }
        self.config.appearance = appearance;
        self.push_event(PdfReaderEvent::AppearanceChanged(appearance));
        self.invalidate(DemandInvalidation::Appearance);
        InputDisposition::Applied
    }

    /// Whether a move by or to an offset is to be made: not where the offset is
    /// no offset, and not without a document.
    pub fn judge_offset(&self, offset: ScrollOffset) -> (judged: Result<(), InputDisposition>)
        ensures
            judged == if !offset.is_finite() {
                Err::<(), InputDisposition>(InputDisposition::IgnoredInvalid)
            } else if !self.has_document() {
                Err(InputDisposition::Unchanged)
            } else {
                Ok(())
            },
    {
        if !offset.finite() {
            Err(InputDisposition::IgnoredInvalid)
        } else if self.page_sizes.len() == 0 {
            Err(InputDisposition::Unchanged)
        } else {
            Ok(())
        }
    }

    /// What a distance is added to: where the view is for a move at once, and
    /// where it goes for one on the way.
    pub fn scroll_start(&self, behavior: ScrollBehavior) -> (start: ScrollOffset)
        ensures
            start == match behavior {
                ScrollBehavior::Immediate => self.scroll,
                ScrollBehavior::Smooth => self.scroll_target,
            },
    {
        match behavior {
            ScrollBehavior::Immediate => self.scroll,
            ScrollBehavior::Smooth => self.scroll_target,
        }
    }

    /// Where a view that is sent to an offset is, and where it goes.
    pub open spec fn ends_of_move(
        &self,
        behavior: ScrollBehavior,
        offset: ScrollOffset,
        reach: ScrollOffset,
    ) -> ScrollEnds {
        let target = offset.within_reach(reach);
        ScrollEnds {
            scroll: match behavior {
                ScrollBehavior::Immediate => target,
                ScrollBehavior::Smooth => self.scroll.within_reach(reach),
            },
            target,
        }
    }

    /// Where a view that is sent to an offset is, and where it goes.
    pub fn send_to(&self, behavior: ScrollBehavior, offset: ScrollOffset, reach: ScrollOffset) -> (
    ends: ScrollEnds)
        requires
            reach.is_reach(),
        ensures
            ends == self.ends_of_move(behavior, offset, reach),
            ends.lie_in(reach),
    {
        let target = offset.clamped(reach);
        let scroll = match behavior {
            ScrollBehavior::Immediate => target,
            ScrollBehavior::Smooth => self.scroll.clamped(reach),
        };
        ScrollEnds { scroll, target }
    }

    /// Where a view whose pages were laid out anew is, and where it goes: at the
    /// offset that keeps its anchor in place, if there is one, and as far on as it
    /// was otherwise.
    pub open spec fn ends_at_anchor(&self, anchored: Option<ScrollOffset>, reach: ScrollOffset) -> ScrollEnds {
        match anchored {
            Some(offset) => ScrollEnds {
                scroll: offset.within_reach(reach),
                target: offset.within_reach(reach),
            },
            None => ScrollEnds {
                scroll: self.scroll.within_reach(reach),
                target: self.scroll_target.within_reach(reach),
            },
        }
    }

    /// Where a view whose pages were laid out anew is, and where it goes.
    pub fn hold_anchor(&self, anchored: Option<ScrollOffset>, reach: ScrollOffset) -> (ends:
        ScrollEnds)
        requires
            reach.is_reach(),
        ensures
            ends == self.ends_at_anchor(anchored, reach),
            ends.lie_in(reach),
    {
        match anchored {
            Some(offset) => {
                let held = offset.clamped(reach);
                ScrollEnds { scroll: held, target: held }
            },
            None => ScrollEnds {
                scroll: self.scroll.clamped(reach),
                target: self.scroll_target.clamped(reach),
            },
        }
    }

    /// The view was moved, or is on its way to another place.
    pub fn settle_scroll(&mut self, place: RestingPlace) -> (disposition: InputDisposition)
        requires
            old(self).wf(),
        ensures
            final(self).wf(),
            final(self).config == old(self).config,
            final(self).page_sizes == old(self).page_sizes,
            final(self).metrics == old(self).metrics,
            final(self).zoom == old(self).zoom,
            final(self).fit_width == old(self).fit_width,
            final(self).scroll == place.scroll,
            final(self).scroll_target == place.target,
            place.scroll.equals(old(self).scroll) && place.target.equals(old(self).scroll_target)
                ==> {
                &&& disposition == InputDisposition::Unchanged
                &&& final(self).current_page == old(self).current_page
                &&& final(self).demand_revision == old(self).demand_revision
                &&& final(self).events == old(self).events
            },
            !(place.scroll.equals(old(self).scroll) && place.target.equals(
                old(self).scroll_target,
            )) ==> {
                &&& disposition == InputDisposition::Applied
                &&& final(self).current_page == place.current_page
                &&& final(self).demand_revision == next_revision(old(self).demand_revision)
                &&& final(self).events@ == move_told(
                    page_told(
                        old(self).events@,
                        old(self).capacity(),
                        old(self).current_page,
                        place.current_page,
                    ),
                    old(self).capacity(),
                    place,
                    old(self).demand_revision,
                    DemandInvalidation::Scroll,
                )
            },
    {
        if place.scroll.same(self.scroll) && place.target.same(self.scroll_target) {
            self.scroll = place.scroll;
            self.scroll_target = place.target;
            return InputDisposition::Unchanged;
        }
        self.rest_at(place);
        self.tell_move(DemandInvalidation::Scroll);
        InputDisposition::Applied
    }

    /// The view is on its way to another place, and has not moved yet but for what
    /// brings it back within its reach.
    pub fn settle_target(&mut self, ends: ScrollEnds) -> (disposition: InputDisposition)
        requires
            old(self).wf(),
        ensures
            final(self).wf(),
            final(self).config == old(self).config,
            final(self).page_sizes == old(self).page_sizes,
            final(self).metrics == old(self).metrics,
            final(self).zoom == old(self).zoom,
            final(self).fit_width == old(self).fit_width,
            final(self).scroll == ends.scroll,
            final(self).scroll_target == ends.target,
            final(self).current_page == old(self).current_page,
            ends.target.equals(old(self).scroll_target) ==> {
                &&& disposition == InputDisposition::Unchanged
                &&& final(self).demand_revision == old(self).demand_revision
                &&& final(self).events == old(self).events
            },
            !ends.target.equals(old(self).scroll_target) ==> {
                &&& disposition == InputDisposition::Applied
                &&& final(self).demand_revision == next_revision(old(self).demand_revision)
                &&& final(self).events@ == move_told(
                    old(self).events@,
                    old(self).capacity(),
                    RestingPlace {
                        scroll: ends.scroll,
                        target: ends.target,
                        current_page: old(self).current_page,
                    },
                    old(self).demand_revision,
                    DemandInvalidation::Scroll,
                )
            },
    {
        let unchanged = ends.target.same(self.scroll_target);
        self.scroll = ends.scroll;
        self.scroll_target = ends.target;
        if unchanged {
            return InputDisposition::Unchanged;
        }
        self.tell_move(DemandInvalidation::Scroll);
        InputDisposition::Applied
    }

    /// What a frame does to a view on its way: nothing more where it is as good as
    /// there, and nothing yet where no time has passed.
    pub fn judge_advance(&self, is_scrolling: bool, elapsed_seconds: FloatBits) -> (step:
        AdvanceStep)
        ensures
            step == if !is_scrolling {
                AdvanceStep::Arrive
            } else if !elapsed_seconds.is_positive() {
                AdvanceStep::Wait
            } else {
                AdvanceStep::Move
            },
    {
        if !is_scrolling {
            AdvanceStep::Arrive
        } else if !elapsed_seconds.positive() {
            AdvanceStep::Wait
        } else {
            AdvanceStep::Move
        }
    }

    /// The view is where it was going. It was as good as there before, so nobody is
    /// told.
    pub fn arrive(&mut self)
        requires
            old(self).wf(),
        ensures
            final(self).wf(),
            *final(self) == (ViewportController { scroll: old(self).scroll_target, ..*old(self) }),
    {
        self.scroll = self.scroll_target;
    }

    /// The view got on on its way.
    pub fn settle_advance(&mut self, place: RestingPlace)
        requires
            old(self).wf(),
        ensures
            final(self).wf(),
            final(self).config == old(self).config,
            final(self).page_sizes == old(self).page_sizes,
            final(self).metrics == old(self).metrics,
            final(self).zoom == old(self).zoom,
            final(self).fit_width == old(self).fit_width,
            final(self).place() == place,
            final(self).demand_revision == next_revision(old(self).demand_revision),
            final(self).events@ == move_told(
                page_told(
                    old(self).events@,
                    old(self).capacity(),
                    old(self).current_page,
                    place.current_page,
                ),
                old(self).capacity(),
                place,
                old(self).demand_revision,
                DemandInvalidation::Scroll,
            ),
    {
        self.rest_at(place);
        self.tell_move(DemandInvalidation::Scroll);
    }

    /// Keeps the zoom, and fits the width no longer.
    pub fn disable_fit_width(&mut self) -> (disposition: InputDisposition)
        requires
            old(self).wf(),
        ensures
            final(self).wf(),
            !old(self).fit_width ==> disposition == InputDisposition::Unchanged && *final(self)
                == *old(self),
            old(self).fit_width ==> {
                &&& disposition == InputDisposition::Applied
                &&& !final(self).fit_width
                &&& final(self).config == old(self).config
                &&& final(self).page_sizes == old(self).page_sizes
                &&& final(self).metrics == old(self).metrics
                &&& final(self).zoom == old(self).zoom
                &&& final(self).place() == old(self).place()
                &&& final(self).demand_revision == old(self).demand_revision
                &&& final(self).events@ == pushed(
                    old(self).events@,
                    old(self).capacity(),
                    PdfReaderEvent::ZoomChanged { zoom: old(self).zoom, fit_width: false },
                )
            },
    {
        if !self.fit_width {
            return InputDisposition::Unchanged;
        }
        self.fit_width = false;
        let zoom = self.zoom;
        self.push_event(PdfReaderEvent::ZoomChanged { zoom, fit_width: false });
        InputDisposition::Applied
    }

    /// The zoom that a request comes to: none without a document, and none
    /// where the request or the point is no number.
    pub fn judge_zoom(&self, requested_zoom: FloatBits, point: ViewportPoint) -> (judged: Result<
        FloatBits,
        InputDisposition,
    >)
        requires
            self.wf(),
        ensures
            judged == if !self.has_document() {
                Err::<FloatBits, InputDisposition>(InputDisposition::Unchanged)
            } else if !requested_zoom.finite() || !point.x.finite() || !point.y.finite() {
                Err(InputDisposition::IgnoredInvalid)
            } else {
                Ok(
                    requested_zoom.within(
                        self.config.limits.min_zoom,
                        self.config.limits.max_zoom,
                    ),
                )
            },
    {
        if self.page_sizes.len() == 0 {
            return Err(InputDisposition::Unchanged);
        }
        if !requested_zoom.is_finite() || !point.x.is_finite() || !point.y.is_finite() {
            return Err(InputDisposition::IgnoredInvalid);
        }
        proof {
            crate::viewport::limits::law_used_limits_are_bounded(self.config.limits);
            assert(self.config.limits == self.config.limits.in_bounds());
        }
        Ok(requested_zoom.clamped(self.config.limits.min_zoom, self.config.limits.max_zoom))
    }

    /// The zoom stays as good as it was: only whether the width is fitted may
    /// be new.
    pub fn keep_zoom(&mut self, fit_width: bool) -> (disposition: InputDisposition)
        requires
            old(self).wf(),
        ensures
            final(self).wf(),
            old(self).fit_width == fit_width ==> disposition == InputDisposition::Unchanged
                && *final(self) == *old(self),
            old(self).fit_width != fit_width ==> {
                &&& disposition == InputDisposition::Applied
                &&& final(self).fit_width == fit_width
                &&& final(self).config == old(self).config
                &&& final(self).page_sizes == old(self).page_sizes
                &&& final(self).metrics == old(self).metrics
                &&& final(self).zoom == old(self).zoom
                &&& final(self).place() == old(self).place()
                &&& final(self).demand_revision == old(self).demand_revision
                &&& final(self).events@ == pushed(
                    old(self).events@,
                    old(self).capacity(),
                    PdfReaderEvent::ZoomChanged { zoom: old(self).zoom, fit_width },
                )
            },
    {
        if self.fit_width == fit_width {
            return InputDisposition::Unchanged;
        }
        self.fit_width = fit_width;
        let zoom = self.zoom;
        self.push_event(PdfReaderEvent::ZoomChanged { zoom, fit_width });
        InputDisposition::Applied
    }

    /// The view has another zoom.
    pub fn settle_zoom(&mut self, zoom: FloatBits, fit_width: bool, place: RestingPlace) -> (
    disposition: InputDisposition)
        requires
            old(self).wf(),
        ensures
            final(self).wf(),
            disposition == InputDisposition::Applied,
            final(self).config == old(self).config,
            final(self).page_sizes == old(self).page_sizes,
            final(self).metrics == old(self).metrics,
            final(self).zoom == zoom,
            final(self).fit_width == fit_width,
            final(self).place() == place,
            final(self).demand_revision == next_revision(old(self).demand_revision),
            final(self).events@ == move_told(
                pushed(
                    page_told(
                        old(self).events@,
                        old(self).capacity(),
                        old(self).current_page,
                        place.current_page,
                    ),
                    old(self).capacity(),
                    PdfReaderEvent::ZoomChanged { zoom, fit_width },
                ),
                old(self).capacity(),
                place,
                old(self).demand_revision,
                DemandInvalidation::Zoom,
            ),
    {
        self.zoom = zoom;
        self.fit_width = fit_width;
        self.rest_at(place);
        self.push_event(PdfReaderEvent::ZoomChanged { zoom, fit_width });
        self.tell_move(DemandInvalidation::Zoom);
        InputDisposition::Applied
    }

    /// Hands out what the host has not heard yet, the oldest first.
    pub fn drain_events(&mut self) -> (events: Vec<PdfReaderEvent>)
        requires
            old(self).wf(),
        ensures
            final(self).wf(),
            events@ == old(self).events@,
            final(self).events@.len() == 0,
            final(self).same_but_events(*old(self)),
    {
        let mut events: Vec<PdfReaderEvent> = Vec::new();
        events.append(&mut self.events);
        assert(events@ =~= old(self).events@);
        events
    }

    /// How the view is set up.
    pub fn config(&self) -> (result: &PdfReaderConfig)
        ensures
            *result == self.config,
    {
        &self.config
    }

    /// The sizes of the pages.
    pub fn page_sizes(&self) -> (result: &Vec<PageSize>)
        ensures
            *result == self.page_sizes,
    {
        &self.page_sizes
    }

    /// The zoom.
    pub fn zoom(&self) -> (result: FloatBits)
        ensures
            result == self.zoom,
    {
        self.zoom
    }

    /// Whether the zoom follows the width of the view.
    pub fn fit_width_enabled(&self) -> (result: bool)
        ensures
            result == self.fit_width,
    {
        self.fit_width
    }

    /// The size of the view.
    pub fn metrics(&self) -> (result: ViewportMetrics)
        ensures
            result == self.metrics,
    {
        self.metrics
    }

    /// Where the view is.
    pub fn scroll(&self) -> (result: ScrollOffset)
        ensures
            result == self.scroll,
    {
        self.scroll
    }

    /// Where the view goes.
    pub fn scroll_target(&self) -> (result: ScrollOffset)
        ensures
            result == self.scroll_target,
    {
        self.scroll_target
    }

    /// The state of the view, with the size of the document as it is laid out
    /// and the pages that can be seen. Without a document these are none.
    pub fn snapshot(&self, laid_out: Option<LaidOut>) -> (snapshot: ViewportSnapshot)
        ensures
            snapshot == (ViewportSnapshot {
                page_count: self.page_sizes@.len() as usize,
                metrics: self.metrics,
                scroll: self.scroll,
                scroll_target: self.scroll_target,
                zoom: self.zoom,
                fit_width: self.fit_width,
                laid_out: match laid_out {
                    Some(laid_out) => laid_out,
                    None => LaidOut::nothing(),
                },
                current_page: self.current_page,
                demand_revision: self.demand_revision,
            }),
    {
        ViewportSnapshot {
            page_count: self.page_sizes.len(),
            metrics: self.metrics,
            scroll: self.scroll,
            scroll_target: self.scroll_target,
            zoom: self.zoom,
            fit_width: self.fit_width,
            laid_out: match laid_out {
                Some(laid_out) => laid_out,
                None => LaidOut {
                    content_width: FloatBits(0),
                    content_height: FloatBits(0),
                    first_visible_page: 0,
                    end_visible_page: 0,
                },
            },
            current_page: self.current_page,
            demand_revision: self.demand_revision,
        }
    }

    /// A view of a document from its start.
    pub fn with_document(
        config: PdfReaderConfig,
        page_sizes: Vec<PageSize>,
        fitted_zoom: FloatBits,
    ) -> (made: Result<ViewportController, ViewportError>)
        ensures
            match size_error(page_sizes@, 0) {
                Some(error) => made == Err::<ViewportController, ViewportError>(error),
                None => {
                    &&& made is Ok
                    &&& made->Ok_0.wf()
                    &&& made->Ok_0.config == config.in_bounds()
                    &&& made->Ok_0.page_sizes == page_sizes
                    &&& made->Ok_0.zoom == if config.fit_width_on_open {
                        fitted_zoom
                    } else {
                        config.in_bounds().initial_zoom
                    }
                    &&& made->Ok_0.fit_width == config.fit_width_on_open
                    &&& made->Ok_0.place() == (RestingPlace {
                        scroll: ScrollOffset::origin(),
                        target: ScrollOffset::origin(),
                        current_page: if page_sizes@.len() > 0 {
                            Some(0)
                        } else {
                            None
                        },
                    })
                    &&& made->Ok_0.metrics == ViewportMetrics::unseen()
                    &&& made->Ok_0.demand_revision == 1
                    &&& made->Ok_0.events@ == move_told(
                        pushed(
                            pushed(
                                Seq::empty(),
                                config.in_bounds().limits.max_pending_events,
                                PdfReaderEvent::DocumentChanged {
                                    page_count: page_sizes@.len() as usize,
                                },
                            ),
                            config.in_bounds().limits.max_pending_events,
                            PdfReaderEvent::ZoomChanged {
                                zoom: made->Ok_0.zoom,
                                fit_width: config.fit_width_on_open,
                            },
                        ),
                        config.in_bounds().limits.max_pending_events,
                        made->Ok_0.place(),
                        0,
                        DemandInvalidation::Document,
                    )
                },
            },
    {
        let mut controller = ViewportController::new(config);
        assert(controller.events@ =~= Seq::empty());
        match controller.set_document_pages(page_sizes, fitted_zoom) {
            Err(error) => Err(error),
            Ok(_) => Ok(controller),
        }
    }
}

impl Default for ViewportController {
    fn default() -> (controller: Self)
        ensures
            controller.wf(),
            controller.config == PdfReaderConfig::usual().in_bounds(),
            !controller.has_document(),
            controller.metrics == ViewportMetrics::unseen(),
            controller.zoom == PdfReaderConfig::usual().in_bounds().initial_zoom,
            controller.fit_width == PdfReaderConfig::usual().fit_width_on_open,
            controller.place() == (RestingPlace {
                scroll: ScrollOffset::origin(),
                target: ScrollOffset::origin(),
                current_page: None,
            }),
            controller.demand_revision == 0,
            controller.events@.len() == 0,
    {
        ViewportController::new(PdfReaderConfig::default())
    }
}

/// However much happens, no more events wait than are kept, the latest is
/// always among them, and those that wait keep their order.
pub proof fn law_the_latest_events_are_kept(
    events: Seq<PdfReaderEvent>,
    capacity: usize,
    event: PdfReaderEvent,
)
    requires
        1 <= capacity,
        events.len() <= capacity,
    ensures
        pushed(events, capacity, event).len() <= capacity,
        pushed(events, capacity, event).last() == event,
        events.len() < capacity ==> pushed(events, capacity, event).drop_last() == events,
        events.len() == capacity ==> pushed(events, capacity, event).drop_last() == events.skip(1),
{
    let after = pushed(events, capacity, event);
    if events.len() < capacity {
        assert(after.drop_last() =~= events);
    } else {
        assert(after.drop_last() =~= events.skip(1));
    }
}

/// A view can scroll to an offset within its reach as it is, and else to the nearest on
/// each axis.
pub proof fn law_views_stay_within_their_reach(offset: ScrollOffset, reach: ScrollOffset)
    requires
        reach.is_reach(),
    ensures
        ({
            let used = offset.within_reach(reach);
            &&& 0 <= used.x.rank() <= reach.x.rank()
            &&& 0 <= used.y.rank() <= reach.y.rank()
            &&& 0 <= offset.x.rank() <= reach.x.rank() ==> used.x == offset.x
            &&& 0 <= offset.y.rank() <= reach.y.rank() ==> used.y == offset.y
            &&& offset.x.rank() > reach.x.rank() ==> used.x == reach.x
            &&& offset.y.rank() > reach.y.rank() ==> used.y == reach.y
            &&& offset.x.rank() < 0 ==> used.x.rank() == 0
            &&& offset.y.rank() < 0 ==> used.y.rank() == 0
        }),
{
}

/// A view that is sent somewhere at once is there; one that goes smoothly stays where it
/// is, if that is within its reach, and is on its way there. An anchor that is to stay in
/// place is where the view is and goes; without one both stay, as far as they can.
pub proof fn law_moves_end_where_they_are_sent(
    view: ViewportController,
    offset: ScrollOffset,
    reach: ScrollOffset,
)
    requires
        reach.is_reach(),
        offset.lies_in(reach),
        view.scroll.lies_in(reach),
        view.scroll_target.lies_in(reach),
    ensures
        ({
            let at_once = view.ends_of_move(ScrollBehavior::Immediate, offset, reach);
            let smooth = view.ends_of_move(ScrollBehavior::Smooth, offset, reach);
            let held = view.ends_at_anchor(Some(offset), reach);
            let free = view.ends_at_anchor(None, reach);
            &&& at_once.scroll == offset && at_once.target == offset
            &&& smooth.scroll == view.scroll && smooth.target == offset
            &&& held.scroll == offset && held.target == offset
            &&& free.scroll == view.scroll && free.target == view.scroll_target
        }),
{
}

/// A distance is added to where the view is for a move at once, and to where it goes for
/// one on the way, so that distances on the way add up.
pub proof fn law_smooth_distances_add_up(
    view: ViewportController,
    at_once: ScrollOffset,
    smooth: ScrollOffset,
)
    requires
        call_ensures(ViewportController::scroll_start, (&view, ScrollBehavior::Immediate), at_once),
        call_ensures(ViewportController::scroll_start, (&view, ScrollBehavior::Smooth), smooth),
    ensures
        at_once == view.scroll,
        smooth == view.scroll_target,
{
}

/// A zoom that is asked for is the zoom that is used where it lies within the limits, and
/// else the nearest that does. It is refused without a document, and as no number.
pub proof fn law_zooms_stay_within_the_limits(
    view: ViewportController,
    requested: FloatBits,
    point: ViewportPoint,
    judged: Result<FloatBits, InputDisposition>,
)
    requires
        view.wf(),
        call_ensures(ViewportController::judge_zoom, (&view, requested, point), judged),
    ensures
        judged is Ok <==> view.page_sizes@.len() > 0 && requested.finite() && point.x.finite()
            && point.y.finite(),
        judged matches Ok(zoom) ==> {
            let (low, high) = (view.config.limits.min_zoom, view.config.limits.max_zoom);
            &&& low.rank() <= zoom.rank() <= high.rank()
            &&& low.rank() <= requested.rank() <= high.rank() ==> zoom == requested
            &&& requested.rank() > high.rank() ==> zoom == high
            &&& requested.rank() < low.rank() ==> zoom == low
        },
        judged matches Err(InputDisposition::IgnoredInvalid) ==> view.page_sizes@.len() > 0,
        !(judged matches Err(InputDisposition::Applied)),
{
    crate::viewport::limits::law_limits_are_kept_within_their_bounds(view.config.limits);
}

/// A view takes on a size only if it is one, and not the size that it has: no greater than
/// the limit, covered by no more than it may be, and at a scale from a quarter to sixteen.
pub proof fn law_views_take_on_sizes_within_the_limits(
    view: ViewportController,
    metrics: ViewportMetrics,
    widest: FloatBits,
    judged: Result<ViewportMetrics, InputDisposition>,
)
    requires
        widest.rank() >= 0,
        call_ensures(ViewportController::judge_viewport, (&view, metrics, widest), judged),
    ensures
        judged matches Err(InputDisposition::IgnoredInvalid) <==> !(metrics.width.is_positive()
            && metrics.height.is_positive() && metrics.right_occlusion.finite()
            && metrics.scale_factor.is_positive()),
        judged matches Ok(used) ==> {
            let most = view.config.limits.max_viewport_dimension;
            &&& used.width.rank() <= most.rank() && used.height.rank() <= most.rank()
            &&& metrics.width.rank() <= most.rank() ==> used.width == metrics.width
            &&& metrics.height.rank() <= most.rank() ==> used.height == metrics.height
            &&& 0 <= used.right_occlusion.rank() <= widest.rank()
            &&& 0 <= metrics.right_occlusion.rank() <= widest.rank() ==> used.right_occlusion
                == metrics.right_occlusion
            &&& 0x3e80_0000 <= used.scale_factor.rank() <= 0x4180_0000
            &&& 0x3e80_0000 <= metrics.scale_factor.rank() <= 0x4180_0000 ==> used.scale_factor
                == metrics.scale_factor
            &&& used.width.rank() != view.metrics.width.rank() || used.height.rank()
                != view.metrics.height.rank() || used.right_occlusion.rank()
                != view.metrics.right_occlusion.rank() || used.scale_factor.rank()
                != view.metrics.scale_factor.rank()
        },
{
}

proof fn lemma_first_bad_page(sizes: Seq<PageSize>, from: int)
    requires
        0 <= from,
    ensures
        match size_error(sizes, from) {
            None => forall|i: int|
                from <= i < sizes.len() ==> (#[trigger] sizes[i]).width.is_positive()
                    && sizes[i].height.is_positive(),
            Some(ViewportError::InvalidPageSize { page }) => exists|at: int|
                from <= at < sizes.len() && page == at as usize && !((
                #[trigger] sizes[at]).width.is_positive() && sizes[at].height.is_positive())
                    && forall|i: int|
                    from <= i < at ==> (#[trigger] sizes[i]).width.is_positive()
                        && sizes[i].height.is_positive(),
        },
    decreases sizes.len() - from,
{
    if from < sizes.len() {
        if sizes[from].width.is_positive() && sizes[from].height.is_positive() {
            lemma_first_bad_page(sizes, from + 1);
        } else {
            assert(!(sizes[from].width.is_positive() && sizes[from].height.is_positive()));
        }
    }
}

/// A document is shown if and only if the sizes of all its pages are finite and above zero;
/// it is refused with the first page of which that is not so.
pub proof fn law_pages_have_a_size(sizes: Seq<PageSize>)
    ensures
        size_error(sizes, 0) is None <==> forall|i: int|
            0 <= i < sizes.len() ==> (#[trigger] sizes[i]).width.is_positive()
                && sizes[i].height.is_positive(),
        size_error(sizes, 0) matches Some(ViewportError::InvalidPageSize { page }) ==> exists|
            at: int,
        |
            0 <= at < sizes.len() && page == at as usize && !((
            #[trigger] sizes[at]).width.is_positive() && sizes[at].height.is_positive()) && forall|
                i: int,
            |
                0 <= i < at ==> (#[trigger] sizes[i]).width.is_positive()
                    && sizes[i].height.is_positive(),
{
    lemma_first_bad_page(sizes, 0);
}

/// The widest page is as wide as one of the pages, or one point, and none is wider.
pub proof fn law_the_widest_page_is_the_widest(sizes: Seq<PageSize>, count: int, i: int)
    requires
        0 <= count <= sizes.len(),
    ensures
        0 <= i < count ==> sizes[i].width.rank() <= widest_of(sizes, count).rank(),
        widest_of(sizes, count).rank() >= 0x3f80_0000,
        widest_of(sizes, count).rank() > 0x3f80_0000 ==> exists|at: int|
            0 <= at < count && (#[trigger] sizes[at]).width == widest_of(sizes, count),
    decreases count,
{
    if count > 0 {
        law_the_widest_page_is_the_widest(sizes, count - 1, i);
        if widest_of(sizes, count) != widest_of(sizes, count - 1) {
            assert(sizes[count - 1].width == widest_of(sizes, count));
        } else if widest_of(sizes, count).rank() > 0x3f80_0000 {
            let at = choose|at: int|
                0 <= at < count - 1 && (#[trigger] sizes[at]).width == widest_of(sizes, count - 1);
            assert(sizes[at].width == widest_of(sizes, count));
        }
    }
}

/// A host hears of another page in the middle if and only if it is another, and by its
/// number.
pub proof fn law_another_page_is_told(
    events: Seq<PdfReaderEvent>,
    capacity: usize,
    before: Option<usize>,
    after: Option<usize>,
)
    requires
        1 <= capacity,
        events.len() <= capacity,
    ensures
        after is None || before == after ==> page_told(events, capacity, before, after) == events,
        after matches Some(page) ==> (before != after ==> page_told(
            events,
            capacity,
            before,
            after,
        ).last() == (PdfReaderEvent::CurrentPageChanged { page })),
{
}

/// The last thing that a host hears of a move is that tiles are to be planned anew, for
/// what reason and under a revision of its own, and before that where the view is and
/// where it goes.
pub proof fn law_moves_are_told(
    events: Seq<PdfReaderEvent>,
    capacity: usize,
    place: RestingPlace,
    revision: u64,
    cause: DemandInvalidation,
)
    requires
        1 <= capacity,
        events.len() <= capacity,
    ensures
        ({
            let told = move_told(events, capacity, place, revision, cause);
            &&& told.last() matches PdfReaderEvent::DemandInvalidated {
                revision: now,
                cause: why,
            } && why == cause && now != revision && (revision < u64::MAX ==> now == revision + 1)
            &&& capacity > 1 ==> told[told.len() - 2] == (PdfReaderEvent::ScrollChanged {
                offset: place.scroll,
                target: place.target,
            })
            &&& told.len() <= capacity
        }),
{
}

/// Whatever changes what is shown gives the tiles that are asked for a new revision and
/// says why; where nothing changes there is no new revision, and nobody hears of anything.
pub proof fn law_changes_are_told_with_their_cause(
    before: ViewportController,
    place: RestingPlace,
    zoom: FloatBits,
    fit_width: bool,
    appearance: PdfReaderAppearance,
)
    requires
        before.wf(),
    ensures
        forall|view: &mut ViewportController, done: InputDisposition| #[trigger]
            call_ensures(ViewportController::settle_scroll, (view, place), done) && *view == before
                ==> {
                let moved = place.scroll.x.rank() != before.scroll.x.rank()
                    || place.scroll.y.rank() != before.scroll.y.rank() || place.target.x.rank()
                    != before.scroll_target.x.rank() || place.target.y.rank()
                    != before.scroll_target.y.rank();
                &&& done == InputDisposition::Applied <==> moved
                &&& final(view).scroll == place.scroll && final(view).scroll_target
                    == place.target
                &&& moved ==> final(view).demand_revision != before.demand_revision
                    && final(view).current_page == place.current_page
                    && final(view).events@.last() == (
                PdfReaderEvent::DemandInvalidated {
                    revision: final(view).demand_revision,
                    cause: DemandInvalidation::Scroll,
                })
                &&& !moved ==> final(view).demand_revision == before.demand_revision
                    && final(view).events == before.events
                &&& final(view).zoom == before.zoom && final(view).metrics == before.metrics
            },
        forall|view: &mut ViewportController, done: InputDisposition| #[trigger]
            call_ensures(ViewportController::settle_zoom, (view, zoom, fit_width, place), done)
                && *view == before ==> {
                &&& final(view).zoom == zoom && final(view).fit_width == fit_width
                &&& final(view).scroll == place.scroll && final(view).scroll_target
                    == place.target
                &&& final(view).demand_revision != before.demand_revision
                &&& final(view).events@.last() == (PdfReaderEvent::DemandInvalidated {
                    revision: final(view).demand_revision,
                    cause: DemandInvalidation::Zoom,
                })
            },
        forall|view: &mut ViewportController, done: InputDisposition| #[trigger]
            call_ensures(ViewportController::set_appearance, (view, appearance), done) && *view
                == before ==> {
                &&& done == InputDisposition::Applied <==> appearance != before.config.appearance
                &&& final(view).config.appearance == appearance
                &&& final(view).scroll == before.scroll && final(view).zoom == before.zoom
                &&& appearance != before.config.appearance ==> final(view).demand_revision
                    != before.demand_revision && final(view).events@.last() == (
                PdfReaderEvent::DemandInvalidated {
                    revision: final(view).demand_revision,
                    cause: DemandInvalidation::Appearance,
                })
            },
{
}

/// A document is shown from its start, at the zoom that fits it where that is configured and
/// at the initial zoom else; one that is refused changes nothing. Without a document the
/// view is at its start too.
pub proof fn law_documents_are_shown_from_their_start(
    before: ViewportController,
    sizes: Vec<PageSize>,
    fitted: FloatBits,
)
    requires
        before.wf(),
    ensures
        forall|view: &mut ViewportController, done: Result<InputDisposition, ViewportError>|
            #[trigger]
            call_ensures(ViewportController::set_document_pages, (view, sizes, fitted), done)
                && *view == before ==> {
                &&& done is Err ==> *final(view) == before
                &&& done is Ok ==> {
                    &&& final(view).page_sizes == sizes
                    &&& final(view).scroll.x.rank() == 0 && final(view).scroll.y.rank() == 0
                    &&& final(view).scroll_target.x.rank() == 0
                        && final(view).scroll_target.y.rank() == 0
                    &&& final(view).current_page == if sizes@.len() > 0 {
                        Some(0usize)
                    } else {
                        None
                    }
                    &&& before.config.fit_width_on_open ==> final(view).zoom == fitted
                        && final(view).fit_width
                    &&& !before.config.fit_width_on_open ==> final(view).zoom
                        == before.config.initial_zoom && !final(view).fit_width
                    &&& final(view).demand_revision != before.demand_revision
                    &&& final(view).events@.last() == (PdfReaderEvent::DemandInvalidated {
                        revision: final(view).demand_revision,
                        cause: DemandInvalidation::Document,
                    })
                }
            },
        forall|view: &mut ViewportController, done: InputDisposition| #[trigger]
            call_ensures(ViewportController::clear_document, (view,), done) && *view == before
                ==> {
                &&& done == InputDisposition::Applied <==> before.page_sizes@.len() > 0
                &&& final(view).page_sizes@.len() == 0
                &&& done == InputDisposition::Applied ==> final(view).scroll.y.rank() == 0
                    && final(view).current_page is None && final(view).demand_revision
                    != before.demand_revision
            },
{
}

/// A view that is not on its way has arrived, and one that is gets on when time has passed.
/// Arrived, it is where it was going.
pub proof fn law_views_get_on_while_time_passes(
    view: ViewportController,
    scrolling: bool,
    elapsed: FloatBits,
    step: AdvanceStep,
)
    requires
        call_ensures(ViewportController::judge_advance, (&view, scrolling, elapsed), step),
    ensures
        step == AdvanceStep::Arrive <==> !scrolling,
        step == AdvanceStep::Move <==> scrolling && elapsed.finite() && elapsed.rank() > 0,
        forall|moving: &mut ViewportController| #[trigger]
            call_ensures(ViewportController::arrive, (moving,), ())
                && *moving == view ==> final(moving).scroll == view.scroll_target
                && final(moving).scroll_target
                == view.scroll_target,
{
}

/// What a host sees of a view is the view as it is; without a document nothing is laid out
/// and no page can be seen.
pub proof fn law_hosts_see_the_view_as_it_is(
    view: ViewportController,
    laid_out: LaidOut,
    with: ViewportSnapshot,
    without: ViewportSnapshot,
)
    requires
        call_ensures(ViewportController::snapshot, (&view, Some(laid_out)), with),
        call_ensures(ViewportController::snapshot, (&view, None), without),
    ensures
        with.laid_out == laid_out,
        without.laid_out.content_width.rank() == 0,
        without.laid_out.content_height.rank() == 0,
        without.laid_out.first_visible_page == 0,
        without.laid_out.end_visible_page == 0,
        with.page_count == view.page_sizes.len(),
        with.metrics == view.metrics && with.zoom == view.zoom && with.fit_width == view.fit_width,
        with.scroll == view.scroll && with.scroll_target == view.scroll_target,
        with.current_page == view.current_page,
        with.demand_revision == view.demand_revision,
{
}

/// The point of a view that is nearest to another is that point where it lies in the view,
/// and else lies on an edge.
pub proof fn law_points_are_brought_into_the_view(
    point: ViewportPoint,
    metrics: ViewportMetrics,
    used: ViewportPoint,
)
    requires
        metrics.width.rank() >= 0,
        metrics.height.rank() >= 0,
        call_ensures(ViewportPoint::clamped, (point, metrics), used),
    ensures
        0 <= used.x.rank() <= metrics.width.rank(),
        0 <= used.y.rank() <= metrics.height.rank(),
        0 <= point.x.rank() <= metrics.width.rank() ==> used.x == point.x,
        0 <= point.y.rank() <= metrics.height.rank() ==> used.y == point.y,
        point.x.rank() > metrics.width.rank() ==> used.x == metrics.width,
        point.y.rank() > metrics.height.rank() ==> used.y == metrics.height,
{
}

/// A view that has a new size, goes on its way or is sent on another has a new revision with
/// its cause; one that only fits its width or no longer does has none.
pub proof fn law_steps_on_the_way_are_told(
    before: ViewportController,
    metrics: ViewportMetrics,
    zoom: FloatBits,
    moved: bool,
    place: RestingPlace,
    ends: ScrollEnds,
    fit_width: bool,
)
    requires
        before.wf(),
    ensures
        forall|view: &mut ViewportController, done: InputDisposition| #[trigger]
            call_ensures(
                ViewportController::settle_viewport,
                (view, metrics, zoom, moved, place),
                done,
            ) && *view == before ==> {
                &&& final(view).metrics == metrics && final(view).zoom == zoom
                &&& final(view).scroll == place.scroll && final(view).scroll_target
                    == place.target
                &&& final(view).demand_revision != before.demand_revision
                &&& final(view).events@.last() == (PdfReaderEvent::DemandInvalidated {
                    revision: final(view).demand_revision,
                    cause: DemandInvalidation::Viewport,
                })
            },
        forall|view: &mut ViewportController, done: InputDisposition| #[trigger]
            call_ensures(ViewportController::settle_target, (view, ends), done) && *view == before
                ==> {
                let sent = ends.target.x.rank() != before.scroll_target.x.rank()
                    || ends.target.y.rank() != before.scroll_target.y.rank();
                &&& done == InputDisposition::Applied <==> sent
                &&& final(view).scroll == ends.scroll && final(view).scroll_target == ends.target
                &&& sent ==> final(view).demand_revision != before.demand_revision
                &&& !sent ==> final(view).events == before.events
                &&& final(view).current_page == before.current_page
            },
        forall|view: &mut ViewportController| #[trigger]
            call_ensures(ViewportController::settle_advance, (view, place), ()) && *view == before
                ==> {
                &&& final(view).scroll == place.scroll && final(view).scroll_target
                    == place.target
                &&& final(view).current_page == place.current_page
                &&& final(view).events@.last() == (PdfReaderEvent::DemandInvalidated {
                    revision: final(view).demand_revision,
                    cause: DemandInvalidation::Scroll,
                })
            },
        forall|view: &mut ViewportController, done: InputDisposition| #[trigger]
            call_ensures(ViewportController::keep_zoom, (view, fit_width), done) && *view == before
                ==> {
                &&& done == InputDisposition::Applied <==> fit_width != before.fit_width
                &&& final(view).fit_width == fit_width && final(view).zoom == before.zoom
                &&& final(view).demand_revision == before.demand_revision
                &&& fit_width != before.fit_width ==> final(view).events@.last() == (
                PdfReaderEvent::ZoomChanged { zoom: before.zoom, fit_width })
            },
        forall|view: &mut ViewportController, done: InputDisposition| #[trigger]
            call_ensures(ViewportController::disable_fit_width, (view,), done) && *view == before
                ==> {
                &&& done == InputDisposition::Applied <==> before.fit_width
                &&& !final(view).fit_width && final(view).zoom == before.zoom
                &&& final(view).demand_revision == before.demand_revision
            },
        forall|view: &mut ViewportController, events: Vec<PdfReaderEvent>| #[trigger]
            call_ensures(ViewportController::drain_events, (view,), events) && *view == before
                ==> events@ == before.events@ && final(view).events@.len() == 0 && final(view).zoom
                == before.zoom && final(view).scroll == before.scroll,
{
}

/// A move is made if and only if its offset is one and there is a document to move.
pub proof fn law_moves_need_a_document(
    view: ViewportController,
    offset: ScrollOffset,
    judged: Result<(), InputDisposition>,
)
    requires
        call_ensures(ViewportController::judge_offset, (&view, offset), judged),
    ensures
        judged is Ok <==> offset.x.finite() && offset.y.finite() && view.page_sizes@.len() > 0,
        judged matches Err(why) ==> (why == InputDisposition::IgnoredInvalid <==> !(
        offset.x.finite() && offset.y.finite())) && why != InputDisposition::Applied,
{
}

} // verus!
