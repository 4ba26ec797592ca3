use key_pdf::float_bits::FloatBits;
use key_pdf::geometry::{PixelRect, RasterSize, TileKey};
use key_pdf::runtime::demand::{ColorMode, DemandIntent, PixelColor};
use key_pdf::runtime::engine::PageSize;
use key_pdf::runtime::priority::DemandPriority;
use key_pdf::runtime::session::DocumentSessionManager;
use key_pdf::viewport::appearance::{
    appearance_from_theme, PdfReaderAppearance, ThemeColors, ViewportColor,
};
use key_pdf::viewport::canvas::{
    finite_non_negative, paint_steps, plan_pdf_canvas_frame, CanvasPage, CanvasRect, CanvasTile, PaintStep,
    PdfCanvasLimits, PdfCanvasMetrics, PdfCanvasPageGeometry, DEFAULT_MAX_CANVAS_PAGES,
};
use key_pdf::viewport::controller::{
    widest_page, AdvanceStep, DemandInvalidation, InputDisposition, LaidOut, PdfReaderEvent,
    RestingPlace, ScrollBehavior, ScrollEnds, ScrollOffset, ViewportController, ViewportError,
    ViewportMetrics, ViewportPoint,
};
use key_pdf::viewport::input::{NavigationAction, NavigationCommand, WheelAction, WheelInput};
use key_pdf::viewport::limits::{
    PdfReaderConfig, PdfReaderLimits, DEFAULT_MAX_RASTER_DIMENSION, DEFAULT_MAX_ZOOM,
    DEFAULT_MIN_ZOOM, DEFAULT_TILE_BLEED, DEFAULT_TILE_SIZE,
};
use key_pdf::viewport::planning::{
    inflate_tile_rect, order_tiles, plan_visible_tiles, quantized_width, tile_core_rect,
    tiles_of_pages, DemandTier, PageWindow, PlannedTile, TileDemandPlan, TileMark,
    TilePlanningInput, TileRequest,
};
use std::collections::HashSet;

fn bits(value: f32) -> FloatBits {
    FloatBits(value.to_bits())
}

fn number(value: FloatBits) -> f32 {
    f32::from_bits(value.0)
}

#[derive(Clone, Copy, Debug, PartialEq)]
struct Rect {
    x: f32,
    y: f32,
    width: f32,
    height: f32,
}

impl Rect {
    fn right(self) -> f32 {
        self.x + self.width
    }

    fn bottom(self) -> f32 {
        self.y + self.height
    }

    fn meets(self, other: Rect) -> Option<Rect> {
        let left = self.x.max(other.x);
        let top = self.y.max(other.y);
        let right = self.right().min(other.right());
        let bottom = self.bottom().min(other.bottom());
        (left < right && top < bottom).then_some(Rect {
            x: left,
            y: top,
            width: right - left,
            height: bottom - top,
        })
    }
}

const MARGIN: f32 = 24.0;
const POINT: f32 = 96.0 / 72.0;

/// Pages below each other, in the middle of the view where there is room.
struct Layout {
    pages: Vec<Rect>,
    width: f32,
    height: f32,
}

impl Layout {
    fn new(sizes: &[(f32, f32)], zoom: f32, view_width: f32) -> Layout {
        let mut pages = Vec::new();
        let mut y = MARGIN;
        let mut widest = 0.0_f32;
        for (width, height) in sizes {
            let (width, height) = (width * zoom * POINT, height * zoom * POINT);
            pages.push(Rect {
                x: ((view_width - width) * 0.5).max(MARGIN),
                y,
                width,
                height,
            });
            y += height + MARGIN;
            widest = widest.max(width);
        }
        Layout {
            pages,
            width: (widest + MARGIN * 2.0).max(view_width),
            height: y,
        }
    }

    fn visible(&self, top: f32, height: f32, overscan: f32) -> std::ops::Range<usize> {
        let first = self
            .pages
            .iter()
            .position(|page| page.bottom() > top - overscan)
            .unwrap_or(self.pages.len());
        let end = self
            .pages
            .iter()
            .rposition(|page| page.y < top + height + overscan)
            .map_or(first, |last| last + 1);
        first..end.max(first)
    }
}

fn raster_of(page: Rect, scale: f32, limits: &PdfReaderLimits) -> RasterSize {
    let aspect = f64::from(page.height) / f64::from(page.width);
    let maximum = limits.max_raster_dimension;
    let cap = ((f64::from(maximum) / aspect).floor() as u32).clamp(1, maximum);
    let raw = (f64::from(page.width) * f64::from(scale))
        .ceil()
        .clamp(1.0, f64::from(cap)) as u32;
    let width = quantized_width(raw, limits.render_quantum, cap);
    let height = (aspect * f64::from(width))
        .round()
        .clamp(1.0, f64::from(maximum)) as u32;
    RasterSize { width, height }
}

fn on_page(page: Rect, raster: RasterSize, pixels: PixelRect) -> Rect {
    let across = page.width / raster.width as f32;
    let down = page.height / raster.height as f32;
    Rect {
        x: page.x + pixels.x as f32 * across,
        y: page.y + pixels.y as f32 * down,
        width: pixels.width as f32 * across,
        height: pixels.height as f32 * down,
    }
}

fn plan(layout: &Layout, view: Rect, scale: f32, limits: &PdfReaderLimits) -> TileDemandPlan {
    let limits = limits.normalized();
    let visible = layout.visible(view.y, view.height, 0.0);
    let mut windows = Vec::new();
    for page in layout.visible(view.y, view.height, limits.tile_size as f32 / scale) {
        let rect = layout.pages[page];
        let raster = raster_of(rect, scale, &limits);
        let wide = rect.width * limits.tile_size as f32 / raster.width as f32;
        let high = rect.height * limits.tile_size as f32 / raster.height as f32;
        let around = Rect {
            x: view.x - wide,
            y: view.y - high,
            width: view.width + wide * 2.0,
            height: view.height + high * 2.0,
        };
        let Some(part) = rect.meets(around) else {
            continue;
        };
        let x = |value: f32| (value - rect.x) / rect.width * raster.width as f32;
        let y = |value: f32| (value - rect.y) / rect.height * raster.height as f32;
        windows.push(PageWindow {
            page,
            raster,
            left: x(part.x).floor() as u32,
            right: x(part.right()).ceil().min(raster.width as f32) as u32,
            top: y(part.y).floor() as u32,
            bottom: y(part.bottom()).ceil().min(raster.height as f32) as u32,
        });
    }
    let requests = tiles_of_pages(&windows, &limits);
    let marks = requests
        .iter()
        .map(|request| {
            let rect = on_page(
                layout.pages[request.key.page],
                request.key.raster,
                request.core_rect,
            );
            let x = rect.x + rect.width * 0.5 - view.x - view.width * 0.5;
            let y = rect.y + rect.height * 0.5 - view.y - view.height * 0.5;
            TileMark {
                tier: if rect.meets(view).is_some() {
                    DemandTier::Visible
                } else {
                    DemandTier::Prefetch
                },
                distance: (x * x + y * y).round() as u64,
            }
        })
        .collect::<Vec<_>>();
    plan_visible_tiles(visible.start, visible.end, &requests, &marks, &limits)
}

fn letter_pages(count: usize) -> Vec<(f32, f32)> {
    vec![(612.0, 792.0); count]
}

/// A place on a page, as parts of its width and height.
struct Anchor {
    page: usize,
    x_fraction: f32,
    y_fraction: f32,
}

/// A view that does the arithmetic for its controller.
struct Host {
    controller: ViewportController,
    sizes: Vec<(f32, f32)>,
    layout: Layout,
}

impl Host {
    fn new(pages: usize, width: f32, height: f32) -> Host {
        let sizes = letter_pages(pages);
        let page_sizes = sizes
            .iter()
            .map(|(width, height)| PageSize {
                width: bits(*width),
                height: bits(*height),
            })
            .collect();
        let controller =
            ViewportController::with_document(PdfReaderConfig::default(), page_sizes, bits(1.0))
                .unwrap();
        let mut host = Host {
            layout: Layout::new(&sizes, 1.0, 1.0),
            controller,
            sizes,
        };
        let metrics = ViewportMetrics {
            width: bits(width),
            height: bits(height),
            right_occlusion: bits(0.0),
            scale_factor: bits(2.0),
        };
        let used = host
            .controller
            .judge_viewport(metrics, bits(width - 1.0))
            .unwrap();
        let zoom = host.controller.zoom();
        host.layout = Layout::new(&host.sizes, number(zoom), width);
        let place = host.place(ScrollEnds {
            scroll: ScrollOffset::default(),
            target: ScrollOffset::default(),
        });
        assert_eq!(
            host.controller.settle_viewport(used, zoom, false, place),
            InputDisposition::Applied
        );
        host.controller.drain_events();
        host
    }

    fn reach(&self) -> ScrollOffset {
        let metrics = self.controller.metrics();
        ScrollOffset::new(
            bits(
                (self.layout.width - number(metrics.width) + number(metrics.right_occlusion))
                    .max(0.0),
            ),
            bits((self.layout.height - number(metrics.height)).max(0.0)),
        )
    }

    fn place(&self, ends: ScrollEnds) -> RestingPlace {
        let height = number(self.controller.metrics().height);
        let middle = number(ends.scroll.y) + height * 0.5;
        RestingPlace {
            scroll: ends.scroll,
            target: ends.target,
            current_page: self
                .layout
                .pages
                .iter()
                .position(|page| page.bottom() + MARGIN > middle)
                .or(Some(self.layout.pages.len() - 1)),
        }
    }

    fn center(metrics: ViewportMetrics) -> (f32, f32) {
        let safe = (number(metrics.width) - number(metrics.right_occlusion)).max(1.0);
        (safe * 0.5, number(metrics.height) * 0.5)
    }

    fn anchor_at_center(&self) -> Anchor {
        let scroll = self.controller.scroll();
        let center = Host::center(self.controller.metrics());
        let (x, y) = (number(scroll.x) + center.0, number(scroll.y) + center.1);
        let page = self
            .layout
            .pages
            .iter()
            .position(|page| page.bottom() > y)
            .unwrap();
        let rect = self.layout.pages[page];
        Anchor {
            page,
            x_fraction: (x - rect.x) / rect.width,
            y_fraction: (y - rect.y) / rect.height,
        }
    }

    fn fit_width_zoom(&self, metrics: ViewportMetrics) -> f32 {
        let config = self.controller.config();
        let widest = number(widest_page(self.controller.page_sizes()));
        let available = (Host::center(metrics).0 * 2.0 - MARGIN * 2.0)
            .max(number(config.fit_width_minimum));
        (available / (widest * POINT)).clamp(
            number(config.limits.min_zoom),
            number(config.limits.max_zoom),
        )
    }

    fn set_viewport(&mut self, width: f32, height: f32, occlusion: f32) -> InputDisposition {
        let metrics = ViewportMetrics {
            width: bits(width),
            height: bits(height),
            right_occlusion: bits(occlusion),
            scale_factor: bits(2.0),
        };
        let used = match self.controller.judge_viewport(metrics, bits(width - 1.0)) {
            Ok(used) => used,
            Err(disposition) => return disposition,
        };
        let anchor = self.anchor_at_center();
        let before = number(self.controller.zoom());
        let zoom = if self.controller.fit_width_enabled() {
            self.fit_width_zoom(used)
        } else {
            before
        };
        self.layout = Layout::new(&self.sizes, zoom, number(used.width));
        let rect = self.layout.pages[anchor.page];
        let center = Host::center(used);
        let anchored = ScrollOffset::new(
            bits(rect.x + anchor.x_fraction * rect.width - center.0),
            bits(rect.y + anchor.y_fraction * rect.height - center.1),
        );
        let reach = ScrollOffset::new(
            bits((self.layout.width - number(used.width) + number(used.right_occlusion)).max(0.0)),
            bits((self.layout.height - number(used.height)).max(0.0)),
        );
        let place = self.place(self.controller.hold_anchor(Some(anchored), reach));
        let moved = (zoom - before).abs() > 0.0001;
        self.controller
            .settle_viewport(used, bits(zoom), moved, place)
    }

    fn go_to(&mut self, offset: ScrollOffset, behavior: ScrollBehavior) -> InputDisposition {
        let ends = self.controller.send_to(behavior, offset, self.reach());
        let place = self.place(ends);
        self.controller.settle_scroll(place)
    }

    fn scroll_by(&mut self, x: f32, y: f32, behavior: ScrollBehavior) -> InputDisposition {
        if let Err(disposition) = self
            .controller
            .judge_offset(ScrollOffset::new(bits(x), bits(y)))
        {
            return disposition;
        }
        let start = self.controller.scroll_start(behavior);
        let offset = ScrollOffset::new(
            bits((number(start.x) + x).clamp(f32::MIN, f32::MAX)),
            bits((number(start.y) + y).clamp(f32::MIN, f32::MAX)),
        );
        self.go_to(offset, behavior)
    }

    fn set_scroll(&mut self, offset: ScrollOffset) -> InputDisposition {
        match self.controller.judge_offset(offset) {
            Err(disposition) => disposition,
            Ok(()) => self.go_to(offset, ScrollBehavior::Immediate),
        }
    }

    fn scroll_to(&mut self, x: f32, y: f32) -> InputDisposition {
        let offset = ScrollOffset::new(bits(x), bits(y));
        if let Err(disposition) = self.controller.judge_offset(offset) {
            return disposition;
        }
        let ends = self
            .controller
            .send_to(ScrollBehavior::Smooth, offset, self.reach());
        self.controller.settle_target(ends)
    }

    fn is_scrolling(&self) -> bool {
        let scroll = self.controller.scroll();
        let target = self.controller.scroll_target();
        (number(target.x) - number(scroll.x)).abs() + (number(target.y) - number(scroll.y)).abs()
            >= 0.35
    }

    fn advance(&mut self, seconds: f32) {
        match self
            .controller
            .judge_advance(self.is_scrolling(), bits(seconds))
        {
            AdvanceStep::Arrive => return self.controller.arrive(),
            AdvanceStep::Wait => return,
            AdvanceStep::Move => {}
        }
        let response = number(self.controller.config().scroll_animation_response);
        let blend = 1.0 - (-response * seconds).exp();
        let scroll = self.controller.scroll();
        let target = self.controller.scroll_target();
        let step = |from: FloatBits, to: FloatBits| {
            bits(number(from) + (number(to) - number(from)) * blend)
        };
        let mut scroll = ScrollOffset::new(step(scroll.x, target.x), step(scroll.y, target.y));
        let left = (number(target.x) - number(scroll.x)).abs()
            + (number(target.y) - number(scroll.y)).abs();
        if left < 0.35 {
            scroll = target;
        }
        let place = self.place(ScrollEnds { scroll, target });
        self.controller.settle_advance(place);
    }

    fn zoom_at(&mut self, zoom: f32, fit_width: bool) -> InputDisposition {
        let metrics = self.controller.metrics();
        let point = ViewportPoint::new(
            bits(number(metrics.width) * 0.5),
            bits(number(metrics.height) * 0.5),
        );
        let zoom = match self.controller.judge_zoom(bits(zoom), point) {
            Ok(zoom) => zoom,
            Err(disposition) => return disposition,
        };
        if (number(zoom) - number(self.controller.zoom())).abs() < 0.0001 {
            return self.controller.keep_zoom(fit_width);
        }
        self.layout = Layout::new(&self.sizes, number(zoom), number(metrics.width));
        let held = Some(self.controller.scroll());
        let place = self.place(self.controller.hold_anchor(held, self.reach()));
        self.controller.settle_zoom(zoom, fit_width, place)
    }

    fn zoom_from_wheel(&mut self, delta: f32) -> InputDisposition {
        let input = WheelInput {
            delta_x: bits(0.0),
            delta_y: bits(delta),
            precise: true,
            shift: false,
            zoom_modifier: true,
            position: ViewportPoint::new(bits(0.0), bits(0.0)),
        };
        match input.action() {
            WheelAction::Zoom { delta_y, .. } => {
                let factor = (number(delta_y) / 420.0).clamp(-1.5, 1.5).exp();
                let zoom = number(self.controller.zoom()) * factor;
                self.zoom_at(zoom, false)
            }
            _ => InputDisposition::IgnoredInvalid,
        }
    }
}

#[test]
fn rapid_zoom_packets_stay_finite_and_inside_contract_limits() {
    let mut host = Host::new(4, 1_000.0, 700.0);
    let allowed = f32::from_bits(DEFAULT_MIN_ZOOM)..=f32::from_bits(DEFAULT_MAX_ZOOM);
    for index in 0..20_000 {
        let delta = if index % 2 == 0 { f32::MAX } else { -f32::MAX };
        assert_ne!(
            host.zoom_from_wheel(delta),
            InputDisposition::IgnoredInvalid
        );
        let zoom = number(host.controller.zoom());
        assert!(zoom.is_finite());
        assert!(allowed.contains(&zoom));
        let scroll = host.controller.scroll();
        assert!(number(scroll.x).is_finite() && number(scroll.y).is_finite());
    }
    assert_eq!(
        host.zoom_from_wheel(f32::NAN),
        InputDisposition::IgnoredInvalid
    );
}

#[test]
fn planner_requests_bounded_tiles_from_both_partially_visible_pages() {
    let layout = Layout::new(&letter_pages(2), 1.0, 1_100.0);
    let first = layout.pages[0];
    let second = layout.pages[1];
    let scroll_y = first.bottom() - 80.0;
    let viewport_height = second.y - scroll_y + 90.0;
    let plan = plan(
        &layout,
        Rect {
            x: 0.0,
            y: scroll_y,
            width: 1_100.0,
            height: viewport_height,
        },
        2.0,
        &PdfReaderLimits::default(),
    );
    let visible_pages: HashSet<_> = plan
        .tiles
        .iter()
        .filter(|tile| tile.tier == DemandTier::Visible)
        .map(|tile| tile.request.key.page)
        .collect();
    assert_eq!(visible_pages, HashSet::from([0, 1]));
    assert!(plan.tiles.iter().all(|tile| {
        tile.request.render_rect.width <= DEFAULT_TILE_SIZE + DEFAULT_TILE_BLEED * 2
            && tile.request.render_rect.height <= DEFAULT_TILE_SIZE + DEFAULT_TILE_BLEED * 2
            && tile.request.core_rect.width > 0
            && tile.request.core_rect.height > 0
    }));
    let unique: HashSet<_> = plan.tiles.iter().map(|tile| tile.request.key).collect();
    assert_eq!(unique.len(), plan.tiles.len());
    assert_eq!((plan.first_visible_page, plan.end_visible_page), (0, 2));
    let visible = plan.visible_tile_count();
    assert!(plan.tiles[..visible]
        .iter()
        .all(|tile| tile.tier == DemandTier::Visible));
    assert_eq!(plan.text_pages(8).len(), 2);
    assert_eq!(plan.text_pages(1).len(), 1);
}

#[test]
fn horizontal_panning_only_demands_nearby_columns() {
    let layout = Layout::new(&letter_pages(1), 5.0, 900.0);
    let page = layout.pages[0];
    let raster = raster_of(page, 2.0, &PdfReaderLimits::default());
    let plan = plan(
        &layout,
        Rect {
            x: page.x + page.width * 0.65,
            y: page.y + 400.0,
            width: 700.0,
            height: 600.0,
        },
        2.0,
        &PdfReaderLimits::default(),
    );
    let columns: HashSet<_> = plan
        .tiles
        .iter()
        .map(|tile| tile.request.key.column)
        .collect();
    assert!(!columns.is_empty());
    assert!(columns.len() <= 4);
    assert!(columns
        .iter()
        .all(|column| *column < raster.width.div_ceil(DEFAULT_TILE_SIZE)));
    assert!(!columns.contains(&0));
}

#[test]
fn high_zoom_raster_is_sharp_without_allocating_a_full_page() {
    let limits = PdfReaderLimits::default();
    let raster = raster_of(
        Rect {
            x: 0.0,
            y: 0.0,
            width: 4_080.0,
            height: 5_280.0,
        },
        2.0,
        &limits,
    );
    assert!(raster.width > 4_096 && raster.height > 4_096);
    assert!(raster.width <= DEFAULT_MAX_RASTER_DIMENSION);
    assert!(raster.height <= DEFAULT_MAX_RASTER_DIMENSION);
    let key = TileKey {
        page: 0,
        raster,
        column: 3,
        row: 4,
    };
    let core = tile_core_rect(key, &limits).unwrap();
    let rendered = inflate_tile_rect(core, raster, &limits);
    assert!(core.width <= DEFAULT_TILE_SIZE && core.height <= DEFAULT_TILE_SIZE);
    assert!(rendered.width <= DEFAULT_TILE_SIZE + DEFAULT_TILE_BLEED * 2);
    assert!(rendered.height <= DEFAULT_TILE_SIZE + DEFAULT_TILE_BLEED * 2);
    assert!(rendered.width as usize * rendered.height as usize * 4 < 5 * 1024 * 1024);
}

#[test]
fn raster_and_tile_inputs_are_finite_clipped_and_non_zero() {
    let limits = PdfReaderLimits::default();
    let raster = RasterSize {
        width: 2_050,
        height: 1_025,
    };
    assert_eq!(
        tile_core_rect(
            TileKey {
                page: 0,
                raster,
                column: 2,
                row: 1,
            },
            &limits,
        ),
        Some(PixelRect {
            x: 2_048,
            y: 1_024,
            width: 2,
            height: 1,
        })
    );
    assert!(tile_core_rect(
        TileKey {
            page: 0,
            raster,
            column: u32::MAX,
            row: 0,
        },
        &limits,
    )
    .is_none());
    assert_eq!(quantized_width(1, 64, 1), 1);
    assert_eq!(quantized_width(65, 64, 1_000), 128);
    assert_eq!(quantized_width(0, 64, 1_000), 1);
}

#[test]
fn horizontal_scroll_and_smooth_navigation_are_bounded() {
    let mut host = Host::new(1, 700.0, 600.0);
    host.zoom_at(5.0, false);
    assert_eq!(
        host.scroll_by(f32::MAX, f32::MAX, ScrollBehavior::Smooth),
        InputDisposition::Applied
    );
    assert!(number(host.controller.scroll_target().x).is_finite());
    assert!(number(host.controller.scroll_target().y).is_finite());
    for _ in 0..300 {
        host.advance(1.0 / 60.0);
    }
    assert!(!host.is_scrolling());
    assert_eq!(host.controller.scroll(), host.controller.scroll_target());
    assert!(number(host.controller.scroll().x) > 0.0);
}

#[test]
fn planner_honors_a_hard_consumer_tile_cap() {
    let layout = Layout::new(&letter_pages(10), 5.0, 32_000.0);
    let limits = PdfReaderLimits {
        max_planned_tiles: 7,
        ..PdfReaderLimits::default()
    };
    let plan = plan(
        &layout,
        Rect {
            x: 0.0,
            y: 0.0,
            width: 32_000.0,
            height: 32_000.0,
        },
        2.0,
        &limits,
    );
    assert_eq!(plan.tiles.len(), 7);
    let order = |tile: &PlannedTile| {
        let key = tile.request.key;
        (
            tile.tier == DemandTier::Prefetch,
            tile.distance,
            key.page,
            key.raster.width,
            key.raster.height,
            key.column,
            key.row,
        )
    };
    assert!(plan
        .tiles
        .windows(2)
        .all(|pair| order(&pair[0]) <= order(&pair[1])));
}

#[test]
fn tiles_that_come_twice_are_planned_once() {
    let limits = PdfReaderLimits::default();
    let raster = RasterSize {
        width: 64,
        height: 64,
    };
    let whole = PixelRect {
        x: 0,
        y: 0,
        width: 64,
        height: 64,
    };
    let tile = |page, tier, distance| PlannedTile {
        request: TileRequest {
            key: TileKey {
                page,
                raster,
                column: 0,
                row: 0,
            },
            core_rect: whole,
            render_rect: whole,
        },
        tier,
        distance,
    };
    let planned = order_tiles(
        &vec![
            tile(0, DemandTier::Prefetch, 1),
            tile(1, DemandTier::Visible, 9),
            tile(2, DemandTier::Visible, 4),
            tile(2, DemandTier::Visible, 4),
        ],
        &limits,
    );
    assert_eq!(
        planned
            .iter()
            .map(|tile| tile.request.key.page)
            .collect::<Vec<_>>(),
        vec![2, 1, 0]
    );
}

#[test]
fn viewport_resize_and_overlay_occlusion_preserve_the_center_page_anchor() {
    let mut host = Host::new(6, 1_200.0, 760.0);
    host.set_scroll(ScrollOffset::new(bits(0.0), bits(1_900.0)));
    let before = host.anchor_at_center();
    assert_eq!(
        host.set_viewport(856.0, 760.0, 0.0),
        InputDisposition::Applied
    );
    let resized = host.anchor_at_center();
    assert_eq!(before.page, resized.page);
    assert!((before.x_fraction - resized.x_fraction).abs() < 0.0001);
    assert!((before.y_fraction - resized.y_fraction).abs() < 0.0001);

    let before_overlay = resized;
    host.set_viewport(1_200.0, 760.0, 344.0);
    let overlay = host.anchor_at_center();
    assert_eq!(before_overlay.page, overlay.page);
    assert!((before_overlay.x_fraction - overlay.x_fraction).abs() < 0.0001);
    assert!((before_overlay.y_fraction - overlay.y_fraction).abs() < 0.0001);
}

#[test]
fn fit_width_reacts_to_resize_and_preserves_a_center_anchor() {
    let mut host = Host::new(5, 1_100.0, 720.0);
    let fitted = host.fit_width_zoom(host.controller.metrics());
    host.zoom_at(fitted, true);
    host.set_scroll(ScrollOffset::new(bits(0.0), bits(1_600.0)));
    let before = host.anchor_at_center();
    let old_zoom = number(host.controller.zoom());
    host.set_viewport(800.0, 720.0, 0.0);
    let after = host.anchor_at_center();
    assert!(host.controller.fit_width_enabled());
    assert!(number(host.controller.zoom()) < old_zoom);
    assert_eq!(before.page, after.page);
    assert!((before.y_fraction - after.y_fraction).abs() < 0.0001);
}

#[test]
fn replacement_document_with_equal_page_count_uses_its_own_geometry() {
    let mut host = Host::new(1, 900.0, 700.0);
    let old = host.layout.pages[0];
    let pages = vec![PageSize {
        width: bits(300.0),
        height: bits(1_200.0),
    }];
    host.controller.set_document_pages(pages, bits(1.0)).unwrap();
    let sizes = host
        .controller
        .page_sizes()
        .iter()
        .map(|page| (number(page.width), number(page.height)))
        .collect::<Vec<_>>();
    let replacement = Layout::new(&sizes, number(host.controller.zoom()), 900.0).pages[0];
    assert_ne!(old.width, replacement.width);
    assert_ne!(old.height, replacement.height);
    assert!((replacement.width / replacement.height - 0.25).abs() < 0.0001);
}

#[test]
fn a_view_never_scrolls_beyond_its_reach() {
    let reach = ScrollOffset::new(bits(100.0), bits(50.0));
    let offset = |x: f32, y: f32| ScrollOffset::new(bits(x), bits(y));
    assert_eq!(offset(-3.0, 60.0).clamped(reach), offset(0.0, 50.0));
    assert_eq!(offset(7.5, 49.0).clamped(reach), offset(7.5, 49.0));
    let mut controller = ViewportController::default();
    controller.scroll = offset(120.0, 10.0);
    controller.scroll_target = offset(90.0, 20.0);
    assert_eq!(
        controller.scroll_start(ScrollBehavior::Immediate),
        offset(120.0, 10.0)
    );
    assert_eq!(
        controller.scroll_start(ScrollBehavior::Smooth),
        offset(90.0, 20.0)
    );
    assert_eq!(
        controller.send_to(ScrollBehavior::Smooth, offset(-1.0, 70.0), reach),
        ScrollEnds {
            scroll: offset(100.0, 10.0),
            target: offset(0.0, 50.0),
        }
    );
    assert_eq!(
        controller.send_to(ScrollBehavior::Immediate, offset(-1.0, 70.0), reach),
        ScrollEnds {
            scroll: offset(0.0, 50.0),
            target: offset(0.0, 50.0),
        }
    );
    assert_eq!(
        controller.hold_anchor(None, reach),
        ScrollEnds {
            scroll: offset(100.0, 10.0),
            target: offset(90.0, 20.0),
        }
    );
    let metrics = ViewportMetrics {
        width: bits(30.0),
        height: bits(40.0),
        ..ViewportMetrics::default()
    };
    assert_eq!(
        ViewportPoint::new(bits(31.0), bits(-1.0)).clamped(metrics),
        ViewportPoint::new(bits(30.0), bits(0.0))
    );
    assert_eq!(number(finite_non_negative(bits(f32::NAN))), 0.0);
    assert_eq!(number(finite_non_negative(bits(2.5))), 2.5);
}

#[test]
fn fit_width_emits_only_the_final_enabled_zoom_state() {
    let mut host = Host::new(2, 1_000.0, 700.0);
    let fitted = (1_000.0 - MARGIN * 2.0) / (612.0 * POINT);
    assert_eq!(host.zoom_at(fitted, true), InputDisposition::Applied);
    let zoom_events = host
        .controller
        .drain_events()
        .into_iter()
        .filter_map(|event| match event {
            PdfReaderEvent::ZoomChanged { zoom, fit_width } => Some((number(zoom), fit_width)),
            _ => None,
        })
        .collect::<Vec<_>>();
    assert_eq!(zoom_events.len(), 1);
    assert!(zoom_events[0].0.is_finite());
    assert!(zoom_events[0].1);
    assert!(host.controller.fit_width_enabled());
    assert_eq!(
        host.controller.disable_fit_width(),
        InputDisposition::Applied
    );
    assert_eq!(
        host.controller.disable_fit_width(),
        InputDisposition::Unchanged
    );
}

#[test]
fn planned_geometry_binds_to_a_generation_checked_runtime_demand() {
    let layout = Layout::new(&letter_pages(1), 1.0, 900.0);
    let tile = plan(
        &layout,
        Rect {
            x: 0.0,
            y: 0.0,
            width: 900.0,
            height: 700.0,
        },
        2.0,
        &PdfReaderLimits::default(),
    )
    .tiles[0];
    let session = DocumentSessionManager::new().begin().unwrap();
    let demand = tile
        .request
        .render_demand(
            &session,
            ColorMode::Original,
            DemandPriority::visible(),
            DemandIntent::Visible,
        )
        .unwrap();
    assert_eq!(demand.key(), tile.request.key);
    assert_eq!(demand.core_rect(), tile.request.core_rect);
    assert_eq!(demand.render_rect(), tile.request.render_rect);
    assert_eq!(demand.stamp().generation(), session.generation());
}

#[test]
fn cancelling_a_smooth_scroll_by_setting_the_current_position_is_observable() {
    let mut host = Host::new(4, 900.0, 700.0);
    host.set_scroll(ScrollOffset::new(bits(0.0), bits(700.0)));
    host.controller.drain_events();
    host.scroll_by(0.0, 500.0, ScrollBehavior::Smooth);
    let current = host.controller.scroll();
    assert_ne!(current, host.controller.scroll_target());
    assert_eq!(host.set_scroll(current), InputDisposition::Applied);
    assert_eq!(host.controller.scroll(), host.controller.scroll_target());
    assert!(host
        .controller
        .drain_events()
        .iter()
        .any(|event| matches!(
            event,
            PdfReaderEvent::ScrollChanged { offset, target }
                if *offset == current && *target == current
        )));
}

#[test]
fn hostile_planner_limits_are_normalized_before_use() {
    let normalized = PdfReaderLimits {
        tile_size: 0,
        max_raster_dimension: u32::MAX,
        max_planned_tiles: usize::MAX,
        max_viewport_dimension: bits(f32::INFINITY),
        ..PdfReaderLimits::default()
    }
    .normalized();
    assert!(normalized.tile_size >= 256);
    assert_eq!(
        normalized.max_raster_dimension,
        DEFAULT_MAX_RASTER_DIMENSION
    );
    assert!(normalized.max_planned_tiles <= 4_096);
    assert!(number(normalized.max_viewport_dimension).is_finite());
}

#[test]
fn absolute_smooth_navigation_uses_the_same_bounded_target_state() {
    let mut host = Host::new(4, 900.0, 700.0);
    assert_eq!(
        host.scroll_to(f32::MAX, f32::MAX),
        InputDisposition::Applied
    );
    let reach = host.reach();
    let (x, y) = (number(reach.x), number(reach.y));
    assert_eq!(
        host.controller.scroll_target(),
        ScrollOffset::new(bits(x), bits(y))
    );
    assert_ne!(host.controller.scroll(), host.controller.scroll_target());
    assert_eq!(
        host.scroll_to(f32::MAX, f32::MAX),
        InputDisposition::Unchanged
    );
}

#[test]
fn defaults_are_the_numbers_that_their_names_say() {
    let config = PdfReaderConfig::default();
    assert_eq!(number(config.limits.min_zoom), 0.2);
    assert_eq!(number(config.limits.max_zoom), 5.0);
    assert_eq!(number(config.limits.max_viewport_dimension), 32_768.0);
    assert_eq!(number(config.initial_zoom), 1.0);
    assert_eq!(number(config.zoom_step), 1.15);
    assert_eq!(number(config.scroll_step), 64.0);
    assert_eq!(number(config.page_scroll_fraction), 0.9);
    assert_eq!(number(config.scroll_animation_response), 18.0);
    assert_eq!(number(config.fit_width_minimum), 100.0);
    let hostile = PdfReaderConfig {
        initial_zoom: bits(f32::NAN),
        zoom_step: bits(0.0),
        ..config
    }
    .normalized();
    assert_eq!(number(hostile.initial_zoom), 1.0);
    assert_eq!(number(hostile.zoom_step), 1.001);
}

#[test]
fn pages_without_a_size_and_views_without_a_document_are_told_apart() {
    let bad = vec![
        PageSize {
            width: bits(1.0),
            height: bits(1.0),
        },
        PageSize {
            width: bits(1.0),
            height: bits(f32::NAN),
        },
    ];
    let error = ViewportController::with_document(PdfReaderConfig::default(), bad, bits(1.0))
        .unwrap_err();
    assert_eq!(error, ViewportError::InvalidPageSize { page: 1 });
    assert_eq!(error.message(), "page 2 has invalid dimensions");

    let mut empty = ViewportController::default();
    let offset = ScrollOffset::new(bits(1.0), bits(1.0));
    assert_eq!(
        empty.judge_offset(offset),
        Err(InputDisposition::Unchanged)
    );
    assert_eq!(
        empty.judge_offset(ScrollOffset::new(bits(f32::NAN), bits(0.0))),
        Err(InputDisposition::IgnoredInvalid)
    );
    assert_eq!(empty.clear_document(), InputDisposition::Unchanged);
    assert_eq!(
        empty.judge_viewport(
            ViewportMetrics {
                width: bits(-1.0),
                ..ViewportMetrics::default()
            },
            bits(0.0)
        ),
        Err(InputDisposition::IgnoredInvalid)
    );
    let snapshot = empty.snapshot(None);
    assert_eq!(snapshot.page_count, 0);
    assert_eq!(snapshot.laid_out.end_visible_page, 0);
    let snapshot = Host::new(3, 500.0, 500.0).controller.snapshot(Some(LaidOut {
        content_width: bits(10.0),
        content_height: bits(20.0),
        first_visible_page: 1,
        end_visible_page: 2,
    }));
    assert_eq!(snapshot.page_count, 3);
    assert_eq!(number(snapshot.laid_out.content_height), 20.0);
}

#[test]
fn only_the_latest_events_wait_for_the_host() {
    let mut config = PdfReaderConfig::default();
    config.limits.max_pending_events = 2;
    let mut controller = ViewportController::new(config);
    let appearance = PdfReaderAppearance {
        selection: ViewportColor::rgba(1, 2, 3, 4),
        ..PdfReaderAppearance::default()
    };
    assert_eq!(
        controller.set_appearance(appearance),
        InputDisposition::Applied
    );
    assert_eq!(
        controller.set_appearance(appearance),
        InputDisposition::Unchanged
    );
    assert_eq!(
        controller.set_appearance(PdfReaderAppearance::default()),
        InputDisposition::Applied
    );
    assert_eq!(
        controller.drain_events(),
        vec![
            PdfReaderEvent::AppearanceChanged(PdfReaderAppearance::default()),
            PdfReaderEvent::DemandInvalidated {
                revision: 2,
                cause: DemandInvalidation::Appearance,
            },
        ]
    );
}

#[test]
fn wheels_and_keys_are_answered() {
    let wheel = WheelInput {
        delta_x: bits(0.0),
        delta_y: bits(30.0),
        precise: false,
        shift: true,
        zoom_modifier: false,
        position: ViewportPoint::new(bits(0.0), bits(0.0)),
    };
    assert!(matches!(
        wheel.action(),
        WheelAction::Scroll { by, behavior: ScrollBehavior::Smooth }
            if number(by.x) == -30.0 && number(by.y) == 0.0
    ));
    assert_eq!(
        WheelInput {
            delta_x: bits(f32::INFINITY),
            ..wheel
        }
        .action(),
        WheelAction::Invalid
    );
    let config = PdfReaderConfig::default();
    assert!(matches!(
        NavigationCommand::ScrollUp.action(&config),
        NavigationAction::ScrollBy(by) if number(by.y) == -64.0
    ));
    assert!(matches!(
        NavigationCommand::PageUp.action(&config),
        NavigationAction::ScrollByHeight { fraction } if number(fraction) == -0.9
    ));
}

fn canvas_rect(x: f32, y: f32, width: f32, height: f32) -> CanvasRect {
    CanvasRect {
        x: bits(x),
        y: bits(y),
        width: bits(width),
        height: bits(height),
    }
}

#[test]
fn frame_planning_is_bounded_and_keeps_caller_order() {
    let pages = vec![
        PdfCanvasPageGeometry {
            page_index: 8,
            rect: canvas_rect(20.0, 40.0, 400.0, 600.0),
            tile_count: 3,
        },
        PdfCanvasPageGeometry {
            page_index: 2,
            rect: canvas_rect(20.0, 664.0, 400.0, 600.0),
            tile_count: 4,
        },
        PdfCanvasPageGeometry {
            page_index: 4,
            rect: canvas_rect(20.0, 1_288.0, 400.0, 600.0),
            tile_count: 5,
        },
    ];
    let plan = plan_pdf_canvas_frame(
        &pages,
        PdfCanvasLimits {
            max_pages_per_frame: 2,
            max_tiles_per_frame: 5,
        },
    );
    assert_eq!(plan.pages.len(), 2);
    assert_eq!(plan.pages[0].page_index, 8);
    let rect = pages[plan.pages[0].source_index].rect;
    assert_eq!(number(rect.x) - 5.0, 15.0);
    assert_eq!(number(rect.y) - 100.0, -60.0);
    assert_eq!(plan.pages[0].tile_count, 3);
    assert_eq!(plan.pages[1].page_index, 2);
    assert_eq!(plan.pages[1].tile_count, 2);
    assert_eq!(plan.admitted_tiles, 5);
    assert_eq!(plan.dropped_pages, 1);
    assert_eq!(plan.dropped_tiles, 7);
}

#[test]
fn malformed_geometry_is_dropped_and_metrics_are_finite() {
    let pages = vec![PdfCanvasPageGeometry {
        page_index: 0,
        rect: canvas_rect(f32::NAN, 0.0, 100.0, 100.0),
        tile_count: usize::MAX,
    }];
    let plan = plan_pdf_canvas_frame(&pages, PdfCanvasLimits::default());
    assert!(plan.pages.is_empty());
    assert_eq!(plan.dropped_pages, 1);
    assert_eq!(plan.dropped_tiles, usize::MAX);

    let metrics = PdfCanvasMetrics::new(
        ScrollOffset::new(bits(f32::NAN), bits(f32::INFINITY)),
        bits(f32::NAN),
        bits(-1.0),
        bits(f32::INFINITY),
        bits(f32::NAN),
    )
    .normalized();
    assert_eq!(number(metrics.scroll.x), 0.0);
    assert_eq!(number(metrics.scroll.y), 0.0);
    assert_eq!(number(metrics.viewport_width), 1.0);
    assert_eq!(number(metrics.viewport_height), 1.0);
    assert_eq!(number(metrics.content_height), 1.0);
    assert_eq!(number(metrics.max_scroll_x), 0.0);
    assert_eq!(metrics.content_viewport(), canvas_rect(0.0, 0.0, 1.0, 1.0));
}

#[test]
fn an_external_host_can_plan_a_bounded_canvas_without_an_engine() {
    let pages = vec![
        PdfCanvasPageGeometry {
            page_index: 0,
            rect: canvas_rect(40.0, 24.0, 600.0, 800.0),
            tile_count: 4,
        },
        PdfCanvasPageGeometry {
            page_index: 1,
            rect: canvas_rect(40.0, 848.0, 600.0, 800.0),
            tile_count: 4,
        },
    ];
    let metrics = PdfCanvasMetrics::new(
        ScrollOffset::new(bits(0.0), bits(760.0)),
        bits(700.0),
        bits(800.0),
        bits(1_672.0),
        bits(0.0),
    );
    let plan = plan_pdf_canvas_frame(&pages, PdfCanvasLimits::default());

    assert_eq!(plan.pages.len(), 2);
    let scroll = metrics.normalized().scroll;
    let top = |planned: usize| {
        number(pages[plan.pages[planned].source_index].rect.y) - number(scroll.y)
    };
    assert_eq!(top(0), -736.0);
    assert_eq!(top(1), 88.0);
    assert_eq!(plan.admitted_tiles, 8);
}

#[test]
fn a_host_that_hands_over_everything_is_still_bounded() {
    let pages = (0..DEFAULT_MAX_CANVAS_PAGES + 5)
        .map(|page_index| PdfCanvasPageGeometry {
            page_index,
            rect: canvas_rect(0.0, page_index as f32 * 10.0, 8.0, 8.0),
            tile_count: 1,
        })
        .collect::<Vec<_>>();
    let plan = plan_pdf_canvas_frame(&pages, PdfCanvasLimits::default());
    assert_eq!(plan.pages.len(), DEFAULT_MAX_CANVAS_PAGES);
    assert_eq!(plan.dropped_pages, 5);
    assert_eq!(plan.dropped_tiles, 5);
}

#[test]
fn a_page_is_painted_before_what_lies_over_it() {
    let sound = canvas_rect(0.0, 0.0, 10.0, 10.0);
    let tile = |in_view| CanvasTile {
        core_rect: sound,
        render_rect: sound,
        in_view,
    };
    let steps = paint_steps(
        &vec![
            CanvasPage {
                rect: canvas_rect(0.0, 0.0, 0.0, 10.0),
                tiles: vec![tile(true)],
            },
            CanvasPage {
                rect: sound,
                tiles: vec![tile(false), tile(true), tile(true)],
            },
        ],
        PdfCanvasLimits {
            max_pages_per_frame: 8,
            max_tiles_per_frame: 2,
        },
        true,
        false,
    );
    assert_eq!(
        steps,
        vec![
            PaintStep::Pane,
            PaintStep::Shadow { page: 1 },
            PaintStep::Paper { page: 1 },
            PaintStep::Tile { page: 1, tile: 1 },
            PaintStep::Overlay { page: 1 },
            PaintStep::VerticalScrollbar,
        ]
    );
}

#[test]
fn frames_without_time_leave_a_moving_view_alone() {
    let mut host = Host::new(3, 800.0, 600.0);
    assert_eq!(
        host.controller.judge_advance(true, bits(f32::NAN)),
        AdvanceStep::Wait
    );
    assert_eq!(
        host.controller.judge_advance(true, bits(0.0)),
        AdvanceStep::Wait
    );
    host.scroll_to(0.0, 0.2);
    host.controller.drain_events();
    let revision = host.controller.snapshot(None).demand_revision;
    host.advance(1.0 / 60.0);
    assert_eq!(number(host.controller.scroll().y), 0.2);
    assert!(host.controller.drain_events().is_empty());
    assert_eq!(host.controller.snapshot(None).demand_revision, revision);
}

#[test]
fn plans_are_made_only_for_views_that_hold_something() {
    let limits = PdfReaderLimits::default();
    let view = |width: f32| CanvasRect {
        x: bits(0.0),
        y: bits(10.0),
        width: bits(width),
        height: bits(20.0),
    };
    assert_eq!(
        TilePlanningInput::new(view(f32::NAN), bits(1.0)).normalized(&limits),
        None
    );
    assert_eq!(
        TilePlanningInput::new(view(0.0), bits(1.0)).normalized(&limits),
        None
    );
    let used = TilePlanningInput::new(view(1.0e9), bits(100.0))
        .normalized(&limits)
        .unwrap();
    assert_eq!(number(used.viewport.width), 32_768.0);
    assert_eq!(number(used.viewport.y), 10.0);
    assert_eq!(number(used.scale_factor), 16.0);
    let used = TilePlanningInput::new(view(5.0), bits(-3.0))
        .normalized(&limits)
        .unwrap();
    assert_eq!(number(used.scale_factor), 1.0);
}

#[test]
fn scrollbars_are_shown_where_there_is_more_to_see() {
    let metrics = |content: f32, beyond: f32| {
        PdfCanvasMetrics::new(
            ScrollOffset::default(),
            bits(1_000.0),
            bits(800.0),
            bits(content),
            bits(beyond),
        )
    };
    let shown = metrics(2_400.0, 1_000.0).shown_scrollbars();
    assert!(shown.vertical && shown.horizontal);
    let shown = metrics(800.0, 0.0).shown_scrollbars();
    assert!(!shown.vertical && !shown.horizontal);
    let shown = metrics(f32::INFINITY, f32::NAN).shown_scrollbars();
    assert!(!shown.vertical && !shown.horizontal);
}

#[test]
fn paper_stands_out_from_the_pane() {
    let grey = ViewportColor::rgba(40, 40, 250, 255);
    let theme = ThemeColors {
        canvas: grey,
        background: grey,
        border: ViewportColor::rgba(1, 2, 3, 255),
        selection: ViewportColor::rgba(4, 5, 6, 96),
        primary: ViewportColor::rgba(240, 241, 242, 255),
    };
    let plain = appearance_from_theme(theme, false);
    assert_eq!(plain.pane_background, grey);
    assert_eq!(
        plain.paper_background,
        ViewportColor::rgba(54, 54, 255, 255)
    );
    assert_eq!(plain.render_color_mode, ColorMode::Original);
    let forced = appearance_from_theme(theme, true);
    assert_eq!(
        forced.render_color_mode,
        ColorMode::Forced {
            background: PixelColor::from(plain.paper_background),
            foreground: PixelColor::from(theme.primary),
        }
    );
    let bright = ViewportColor::rgba(5, 250, 250, 255);
    let light = appearance_from_theme(
        ThemeColors {
            canvas: bright,
            background: bright,
            ..theme
        },
        false,
    );
    assert_eq!(
        light.paper_background,
        ViewportColor::rgba(0, 236, 236, 255)
    );
}

#[test]
fn a_plan_does_not_depend_on_the_order_in_which_tiles_are_found() {
    let limits = PdfReaderLimits::default();
    let raster = RasterSize {
        width: 2_500,
        height: 1_500,
    };
    let windows = vec![
        PageWindow {
            page: 3,
            raster,
            left: 0,
            right: 2_500,
            top: 0,
            bottom: 1_500,
        },
        PageWindow {
            page: 4,
            raster,
            left: 1_100,
            right: 1_101,
            top: 1_030,
            bottom: 1_031,
        },
    ];
    let requests = tiles_of_pages(&windows, &limits);
    assert_eq!(requests.len(), 7);
    let keys: HashSet<TileKey> = requests.iter().map(|request| request.key).collect();
    assert_eq!(keys.len(), requests.len());
    let last = requests[6];
    assert_eq!((last.key.column, last.key.row), (1, 1));
    let found: Vec<PlannedTile> = requests
        .iter()
        .map(|request| PlannedTile {
            request: *request,
            tier: DemandTier::Visible,
            distance: 7,
        })
        .collect();
    let mut backwards = found.clone();
    backwards.reverse();
    let planned = order_tiles(&found, &limits);
    assert_eq!(planned, order_tiles(&backwards, &limits));
    assert_eq!(planned.len(), found.len());
    assert!(found.iter().all(|tile| planned.contains(tile)));
}
