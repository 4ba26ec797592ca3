//! What a view may cost, and how it behaves.

use crate::float_bits::{FloatBits, ONE_BITS};
use crate::viewport::appearance::PdfReaderAppearance;
use vstd::prelude::*;

verus! {

/// The bits of 0.2.
pub const DEFAULT_MIN_ZOOM: u32 = 0x3e4c_cccd;

/// The bits of 5.
pub const DEFAULT_MAX_ZOOM: u32 = 0x40a0_0000;

/// Rasters are made in steps of so many pixels.
pub const DEFAULT_RENDER_QUANTUM: u32 = 64;

/// The side of a tile.
pub const DEFAULT_TILE_SIZE: u32 = 1_024;

/// How far a tile is rendered beyond its edge.
pub const DEFAULT_TILE_BLEED: u32 = 32;

/// The longest side of a raster.
pub const DEFAULT_MAX_RASTER_DIMENSION: u32 = 65_536;

pub const DEFAULT_MAX_CACHED_TILES: usize = 48;

pub const DEFAULT_MAX_CACHE_BYTES: usize = 134_217_728;

pub const DEFAULT_MAX_CACHED_TEXT_PAGES: usize = 16;

pub const DEFAULT_MAX_PLANNED_TILES: usize = 256;

pub const DEFAULT_MAX_PENDING_EVENTS: usize = 128;

/// The bits of 32768.
pub const DEFAULT_MAX_VIEWPORT_DIMENSION: u32 = 0x4700_0000;

/// The bits of 0.01.
pub const LEAST_ZOOM: u32 = 0x3c23_d70a;

/// The bits of 100.
pub const HUNDRED_BITS: u32 = 0x42c8_0000;

pub const ABSOLUTE_MIN_TILE_SIZE: u32 = 256;

pub const ABSOLUTE_MAX_TILE_SIZE: u32 = 4_096;

pub const ABSOLUTE_MAX_PLANNED_TILES: usize = 4_096;

pub const ABSOLUTE_MAX_CACHED: usize = 4_096;

pub const ABSOLUTE_MIN_CACHE_BYTES: usize = 1_024;

pub const ABSOLUTE_MAX_CACHE_BYTES: usize = 2_147_483_648;

pub const ABSOLUTE_MAX_PENDING_EVENTS: usize = 1_024;

/// What a view may cost. Any values can be set: they are brought within hard
/// bounds before they are used.
#[derive(Clone, Copy, Debug, PartialEq, Eq, Structural)]
pub struct PdfReaderLimits {
    pub min_zoom: FloatBits,
    pub max_zoom: FloatBits,
    pub render_quantum: u32,
    pub tile_size: u32,
    pub tile_bleed: u32,
    pub max_raster_dimension: u32,
    pub max_cached_tiles: usize,
    pub max_cache_bytes: usize,
    pub max_cached_text_pages: usize,
    pub max_planned_tiles: usize,
    pub max_pending_events: usize,
    pub max_viewport_dimension: FloatBits,
}

/// A number, or the bound that it is beyond.
pub open spec fn bounded(value: int, low: int, high: int) -> int {
    if value < low {
        low
    } else if value > high {
        high
    } else {
        value
    }
}

/// A number, or the bound that it is beyond.
pub fn bounded_u32(value: u32, low: u32, high: u32) -> (within: u32)
    ensures
        within == bounded(value as int, low as int, high as int),
{
    if value < low {
        low
    } else if value > high {
        high
    } else {
        value
    }
}

/// A number, or the bound that it is beyond.
pub fn bounded_usize(value: usize, low: usize, high: usize) -> (within: usize)
    ensures
        within == bounded(value as int, low as int, high as int),
{
    if value < low {
        low
    } else if value > high {
        high
    } else {
        value
    }
}

impl PdfReaderLimits {
    /// The limits where nothing else is set.
    pub open spec fn usual() -> PdfReaderLimits {
        PdfReaderLimits {
            min_zoom: FloatBits(DEFAULT_MIN_ZOOM),
            max_zoom: FloatBits(DEFAULT_MAX_ZOOM),
            render_quantum: DEFAULT_RENDER_QUANTUM,
            tile_size: DEFAULT_TILE_SIZE,
            tile_bleed: DEFAULT_TILE_BLEED,
            max_raster_dimension: DEFAULT_MAX_RASTER_DIMENSION,
            max_cached_tiles: DEFAULT_MAX_CACHED_TILES,
            max_cache_bytes: DEFAULT_MAX_CACHE_BYTES,
            max_cached_text_pages: DEFAULT_MAX_CACHED_TEXT_PAGES,
            max_planned_tiles: DEFAULT_MAX_PLANNED_TILES,
            max_pending_events: DEFAULT_MAX_PENDING_EVENTS,
            max_viewport_dimension: FloatBits(DEFAULT_MAX_VIEWPORT_DIMENSION),
        }
    }

    /// The limits within the hard bounds.
    pub open spec fn in_bounds(self) -> PdfReaderLimits {
        let min_zoom = self.min_zoom.or_finite(FloatBits(DEFAULT_MIN_ZOOM)).within(
            FloatBits(LEAST_ZOOM),
            FloatBits(HUNDRED_BITS),
        );
        let max_raster_dimension = bounded(
            self.max_raster_dimension as int,
            1,
            DEFAULT_MAX_RASTER_DIMENSION as int,
        );
        let tile_size = bounded(
            self.tile_size as int,
            ABSOLUTE_MIN_TILE_SIZE as int,
            ABSOLUTE_MAX_TILE_SIZE as int,
        );
        PdfReaderLimits {
            min_zoom,
            max_zoom: self.max_zoom.or_finite(FloatBits(DEFAULT_MAX_ZOOM)).within(
                min_zoom,
                FloatBits(HUNDRED_BITS),
            ),
            render_quantum: bounded(self.render_quantum as int, 1, max_raster_dimension) as u32,
            tile_size: tile_size as u32,
            tile_bleed: bounded(self.tile_bleed as int, 0, tile_size) as u32,
            max_raster_dimension: max_raster_dimension as u32,
            max_cached_tiles: bounded(
                self.max_cached_tiles as int,
                1,
                ABSOLUTE_MAX_CACHED as int,
            ) as usize,
            max_cache_bytes: bounded(
                self.max_cache_bytes as int,
                ABSOLUTE_MIN_CACHE_BYTES as int,
                ABSOLUTE_MAX_CACHE_BYTES as int,
            ) as usize,
            max_cached_text_pages: bounded(
                self.max_cached_text_pages as int,
                1,
                ABSOLUTE_MAX_CACHED as int,
            ) as usize,
            max_planned_tiles: bounded(
                self.max_planned_tiles as int,
                1,
                ABSOLUTE_MAX_PLANNED_TILES as int,
            ) as usize,
            max_pending_events: bounded(
                self.max_pending_events as int,
                1,
                ABSOLUTE_MAX_PENDING_EVENTS as int,
            ) as usize,
            max_viewport_dimension: self.max_viewport_dimension.or_finite(
                FloatBits(DEFAULT_MAX_VIEWPORT_DIMENSION),
            ).within(FloatBits(ONE_BITS), FloatBits(DEFAULT_MAX_VIEWPORT_DIMENSION)),
        }
    }

    /// The limits within the hard bounds.
    pub fn normalized(self) -> (limits: PdfReaderLimits)
        ensures
            limits == self.in_bounds(),
    {
        let min_zoom = self.min_zoom.finite_or(FloatBits(DEFAULT_MIN_ZOOM)).clamped(
            FloatBits(LEAST_ZOOM),
            FloatBits(HUNDRED_BITS),
        );
        let max_zoom = self.max_zoom.finite_or(FloatBits(DEFAULT_MAX_ZOOM)).clamped(
            min_zoom,
            FloatBits(HUNDRED_BITS),
        );
        let max_raster_dimension = bounded_u32(
            self.max_raster_dimension,
            1,
            DEFAULT_MAX_RASTER_DIMENSION,
        );
        let tile_size = bounded_u32(self.tile_size, ABSOLUTE_MIN_TILE_SIZE, ABSOLUTE_MAX_TILE_SIZE);
        PdfReaderLimits {
            min_zoom,
            max_zoom,
            render_quantum: bounded_u32(self.render_quantum, 1, max_raster_dimension),
            tile_size,
            tile_bleed: bounded_u32(self.tile_bleed, 0, tile_size),
            max_raster_dimension,
            max_cached_tiles: bounded_usize(self.max_cached_tiles, 1, ABSOLUTE_MAX_CACHED),
            max_cache_bytes: bounded_usize(
                self.max_cache_bytes,
                ABSOLUTE_MIN_CACHE_BYTES,
                ABSOLUTE_MAX_CACHE_BYTES,
            ),
            max_cached_text_pages: bounded_usize(
                self.max_cached_text_pages,
                1,
                ABSOLUTE_MAX_CACHED,
            ),
            max_planned_tiles: bounded_usize(
                self.max_planned_tiles,
                1,
                ABSOLUTE_MAX_PLANNED_TILES,
            ),
            max_pending_events: bounded_usize(
                self.max_pending_events,
                1,
                ABSOLUTE_MAX_PENDING_EVENTS,
            ),
            max_viewport_dimension: self.max_viewport_dimension.finite_or(
                FloatBits(DEFAULT_MAX_VIEWPORT_DIMENSION),
            ).clamped(FloatBits(ONE_BITS), FloatBits(DEFAULT_MAX_VIEWPORT_DIMENSION)),
        }
    }
}

impl Default for PdfReaderLimits {
    fn default() -> (limits: Self)
        ensures
            limits == PdfReaderLimits::usual(),
    {
        PdfReaderLimits {
            min_zoom: FloatBits(DEFAULT_MIN_ZOOM),
            max_zoom: FloatBits(DEFAULT_MAX_ZOOM),
            render_quantum: DEFAULT_RENDER_QUANTUM,
            tile_size: DEFAULT_TILE_SIZE,
            tile_bleed: DEFAULT_TILE_BLEED,
            max_raster_dimension: DEFAULT_MAX_RASTER_DIMENSION,
            max_cached_tiles: DEFAULT_MAX_CACHED_TILES,
            max_cache_bytes: DEFAULT_MAX_CACHE_BYTES,
            max_cached_text_pages: DEFAULT_MAX_CACHED_TEXT_PAGES,
            max_planned_tiles: DEFAULT_MAX_PLANNED_TILES,
            max_pending_events: DEFAULT_MAX_PENDING_EVENTS,
            max_viewport_dimension: FloatBits(DEFAULT_MAX_VIEWPORT_DIMENSION),
        }
    }
}

/// Whatever limits are set, those that are used are finite, positive and within
/// the hard bounds, and to bring them within the bounds again changes nothing.
pub proof fn law_used_limits_are_bounded(limits: PdfReaderLimits)
    ensures
        ({
            let used = limits.in_bounds();
            &&& used.in_bounds() == used
            &&& used.min_zoom.is_positive()
            &&& used.max_zoom.is_positive()
            &&& used.min_zoom.rank() <= used.max_zoom.rank()
            &&& 1 <= used.render_quantum <= used.max_raster_dimension
            &&& used.max_raster_dimension <= DEFAULT_MAX_RASTER_DIMENSION
            &&& ABSOLUTE_MIN_TILE_SIZE <= used.tile_size <= ABSOLUTE_MAX_TILE_SIZE
            &&& used.tile_bleed <= used.tile_size
            &&& 1 <= used.max_planned_tiles <= ABSOLUTE_MAX_PLANNED_TILES
            &&& 1 <= used.max_pending_events <= ABSOLUTE_MAX_PENDING_EVENTS
            &&& used.max_viewport_dimension.is_positive()
            &&& used.max_viewport_dimension.rank() <= FloatBits(
                DEFAULT_MAX_VIEWPORT_DIMENSION,
            ).rank()
        }),
{
}

/// How a view behaves and looks.
#[derive(Clone, Copy, Debug, PartialEq, Eq, Structural)]
pub struct PdfReaderConfig {
    pub limits: PdfReaderLimits,
    pub appearance: PdfReaderAppearance,
    pub initial_zoom: FloatBits,
    pub fit_width_on_open: bool,
    pub zoom_step: FloatBits,
    pub scroll_step: FloatBits,
    pub page_scroll_fraction: FloatBits,
    pub scroll_animation_response: FloatBits,
    pub fit_width_minimum: FloatBits,
}

/// The bits of 1.15.
pub const DEFAULT_ZOOM_STEP: u32 = 0x3f93_3333;

/// The bits of 64.
pub const DEFAULT_SCROLL_STEP: u32 = 0x4280_0000;

/// The bits of 0.9.
pub const DEFAULT_PAGE_FRACTION: u32 = 0x3f66_6666;

/// The bits of 18.
pub const DEFAULT_RESPONSE: u32 = 0x4190_0000;

/// The bits of 1.001.
pub const LEAST_ZOOM_STEP: u32 = 0x3f80_20c5;

/// The bits of 4.
pub const FOUR_BITS: u32 = 0x4080_0000;

/// The bits of 4096.
pub const GREATEST_STEP: u32 = 0x4580_0000;

/// The bits of 0.1.
pub const LEAST_PAGE_FRACTION: u32 = 0x3dcc_cccd;

impl PdfReaderConfig {
    /// The configuration where nothing else is set.
    pub open spec fn usual() -> PdfReaderConfig {
        PdfReaderConfig {
            limits: PdfReaderLimits::usual(),
            appearance: PdfReaderAppearance::usual(),
            initial_zoom: FloatBits(ONE_BITS),
            fit_width_on_open: false,
            zoom_step: FloatBits(DEFAULT_ZOOM_STEP),
            scroll_step: FloatBits(DEFAULT_SCROLL_STEP),
            page_scroll_fraction: FloatBits(DEFAULT_PAGE_FRACTION),
            scroll_animation_response: FloatBits(DEFAULT_RESPONSE),
            fit_width_minimum: FloatBits(HUNDRED_BITS),
        }
    }

    /// The configuration within its bounds.
    pub open spec fn in_bounds(self) -> PdfReaderConfig {
        let limits = self.limits.in_bounds();
        PdfReaderConfig {
            limits,
            appearance: self.appearance,
            initial_zoom: self.initial_zoom.or_finite(FloatBits(ONE_BITS)).within(
                limits.min_zoom,
                limits.max_zoom,
            ),
            fit_width_on_open: self.fit_width_on_open,
            zoom_step: self.zoom_step.or_finite(FloatBits(DEFAULT_ZOOM_STEP)).within(
                FloatBits(LEAST_ZOOM_STEP),
                FloatBits(FOUR_BITS),
            ),
            scroll_step: self.scroll_step.or_finite(FloatBits(DEFAULT_SCROLL_STEP)).within(
                FloatBits(ONE_BITS),
                FloatBits(GREATEST_STEP),
            ),
            page_scroll_fraction: self.page_scroll_fraction.or_finite(
                FloatBits(DEFAULT_PAGE_FRACTION),
            ).within(FloatBits(LEAST_PAGE_FRACTION), FloatBits(ONE_BITS)),
            scroll_animation_response: self.scroll_animation_response.or_finite(
                FloatBits(DEFAULT_RESPONSE),
            ).within(FloatBits(ONE_BITS), FloatBits(HUNDRED_BITS)),
            fit_width_minimum: self.fit_width_minimum.or_finite(FloatBits(HUNDRED_BITS)).within(
                FloatBits(ONE_BITS),
                FloatBits(GREATEST_STEP),
            ),
        }
    }

    /// The configuration within its bounds.
    pub fn normalized(self) -> (config: PdfReaderConfig)
        ensures
            config == self.in_bounds(),
    {
        let limits = self.limits.normalized();
        proof {
            law_used_limits_are_bounded(self.limits);
        }
        PdfReaderConfig {
            limits,
            appearance: self.appearance,
            initial_zoom: self.initial_zoom.finite_or(FloatBits(ONE_BITS)).clamped(
                limits.min_zoom,
                limits.max_zoom,
            ),
            fit_width_on_open: self.fit_width_on_open,
            zoom_step: self.zoom_step.finite_or(FloatBits(DEFAULT_ZOOM_STEP)).clamped(
                FloatBits(LEAST_ZOOM_STEP),
                FloatBits(FOUR_BITS),
            ),
            scroll_step: self.scroll_step.finite_or(FloatBits(DEFAULT_SCROLL_STEP)).clamped(
                FloatBits(ONE_BITS),
                FloatBits(GREATEST_STEP),
            ),
            page_scroll_fraction: self.page_scroll_fraction.finite_or(
                FloatBits(DEFAULT_PAGE_FRACTION),
            ).clamped(FloatBits(LEAST_PAGE_FRACTION), FloatBits(ONE_BITS)),
            scroll_animation_response: self.scroll_animation_response.finite_or(
                FloatBits(DEFAULT_RESPONSE),
            ).clamped(FloatBits(ONE_BITS), FloatBits(HUNDRED_BITS)),
            fit_width_minimum: self.fit_width_minimum.finite_or(FloatBits(HUNDRED_BITS)).clamped(
                FloatBits(ONE_BITS),
                FloatBits(GREATEST_STEP),
            ),
        }
    }
}

/// To bring a configuration within its bounds again changes nothing.
pub proof fn law_used_configurations_are_bounded(config: PdfReaderConfig)
    ensures
        config.in_bounds().in_bounds() == config.in_bounds(),
        1 <= config.in_bounds().limits.max_pending_events <= ABSOLUTE_MAX_PENDING_EVENTS,
        config.in_bounds().zoom_step.is_positive(),
        config.in_bounds().initial_zoom.is_positive(),
{
    law_used_limits_are_bounded(config.limits);
    let used = config.in_bounds();
    let again = used.in_bounds();
    assert(again.limits == used.limits);
    assert(again.initial_zoom == used.initial_zoom);
    assert(again.zoom_step == used.zoom_step);
    assert(again.scroll_step == used.scroll_step);
    assert(again.page_scroll_fraction == used.page_scroll_fraction);
    assert(again.scroll_animation_response == used.scroll_animation_response);
    assert(again.fit_width_minimum == used.fit_width_minimum);
}

impl Default for PdfReaderConfig {
    fn default() -> (config: Self)
        ensures
            config == PdfReaderConfig::usual(),
    {
        PdfReaderConfig {
            limits: PdfReaderLimits::default(),
            appearance: PdfReaderAppearance::default(),
            initial_zoom: FloatBits(ONE_BITS),
            fit_width_on_open: false,
            zoom_step: FloatBits(DEFAULT_ZOOM_STEP),
            scroll_step: FloatBits(DEFAULT_SCROLL_STEP),
            page_scroll_fraction: FloatBits(DEFAULT_PAGE_FRACTION),
            scroll_animation_response: FloatBits(DEFAULT_RESPONSE),
            fit_width_minimum: FloatBits(HUNDRED_BITS),
        }
    }
}

/// Limits are used as they are set where they lie within the hard bounds, and else the
/// bound that is nearer is used; what is no finite number is replaced by the usual one.
pub proof fn law_limits_are_kept_within_their_bounds(limits: PdfReaderLimits)
    ensures
        ({
            let used = limits.in_bounds();
            &&& 256 <= used.tile_size <= 4_096
            &&& 256 <= limits.tile_size <= 4_096 ==> used.tile_size == limits.tile_size
            &&& limits.tile_size < 256 ==> used.tile_size == 256
            &&& limits.tile_size > 4_096 ==> used.tile_size == 4_096
            &&& used.tile_bleed <= used.tile_size
            &&& limits.tile_bleed <= used.tile_size ==> used.tile_bleed == limits.tile_bleed
            &&& limits.tile_bleed > used.tile_size ==> used.tile_bleed == used.tile_size
            &&& 1 <= used.max_raster_dimension <= 65_536
            &&& 1 <= limits.max_raster_dimension <= 65_536 ==> used.max_raster_dimension
                == limits.max_raster_dimension
            &&& limits.max_raster_dimension > 65_536 ==> used.max_raster_dimension == 65_536
            &&& 1 <= limits.render_quantum <= used.max_raster_dimension ==> used.render_quantum
                == limits.render_quantum
            &&& limits.render_quantum == 0 ==> used.render_quantum == 1
            &&& 1 <= used.max_cached_tiles <= 4_096
            &&& 1 <= limits.max_cached_tiles <= 4_096 ==> used.max_cached_tiles
                == limits.max_cached_tiles
            &&& 1_024 <= used.max_cache_bytes <= 0x8000_0000
            &&& 1_024 <= limits.max_cache_bytes <= 0x8000_0000 ==> used.max_cache_bytes
                == limits.max_cache_bytes
            &&& 1 <= used.max_cached_text_pages <= 4_096
            &&& 1 <= limits.max_cached_text_pages <= 4_096 ==> used.max_cached_text_pages
                == limits.max_cached_text_pages
            &&& 1 <= used.max_planned_tiles <= 4_096
            &&& 1 <= limits.max_planned_tiles <= 4_096 ==> used.max_planned_tiles
                == limits.max_planned_tiles
            &&& 1 <= used.max_pending_events <= 1_024
            &&& 1 <= limits.max_pending_events <= 1_024 ==> used.max_pending_events
                == limits.max_pending_events
            &&& used.min_zoom.rank() <= used.max_zoom.rank() <= 0x42c8_0000
            &&& 0x3c23_d70a <= used.min_zoom.rank()
            &&& limits.min_zoom.finite() && 0x3c23_d70a <= limits.min_zoom.rank() <= 0x42c8_0000
                ==> used.min_zoom == limits.min_zoom
            &&& limits.max_zoom.finite() && used.min_zoom.rank() <= limits.max_zoom.rank()
                <= 0x42c8_0000 ==> used.max_zoom == limits.max_zoom
            &&& 0x3f80_0000 <= used.max_viewport_dimension.rank() <= 0x4700_0000
            &&& limits.max_viewport_dimension.finite() && 0x3f80_0000
                <= limits.max_viewport_dimension.rank() <= 0x4700_0000
                ==> used.max_viewport_dimension == limits.max_viewport_dimension
        }),
{
}

/// A configuration is used as it is set where it lies within its bounds: a zoom between the
/// least and the greatest, zoom steps above one and up to four, scroll steps from one, and
/// pages of a tenth of the view and up to all of it.
pub proof fn law_configurations_are_kept_within_their_bounds(config: PdfReaderConfig)
    ensures
        ({
            let used = config.in_bounds();
            &&& used.limits == config.limits.in_bounds()
            &&& used.appearance == config.appearance
            &&& used.fit_width_on_open == config.fit_width_on_open
            &&& used.limits.min_zoom.rank() <= used.initial_zoom.rank()
                <= used.limits.max_zoom.rank()
            &&& config.initial_zoom.finite() && used.limits.min_zoom.rank()
                <= config.initial_zoom.rank() <= used.limits.max_zoom.rank() ==> used.initial_zoom
                == config.initial_zoom
            &&& 0x3f80_20c5 <= used.zoom_step.rank() <= 0x4080_0000
            &&& config.zoom_step.finite() && 0x3f80_20c5 <= config.zoom_step.rank() <= 0x4080_0000
                ==> used.zoom_step == config.zoom_step
            &&& 0x3f80_0000 <= used.scroll_step.rank() <= 0x4580_0000
            &&& config.scroll_step.finite() && 0x3f80_0000 <= config.scroll_step.rank()
                <= 0x4580_0000 ==> used.scroll_step == config.scroll_step
            &&& 0x3dcc_cccd <= used.page_scroll_fraction.rank() <= 0x3f80_0000
            &&& config.page_scroll_fraction.finite() && 0x3dcc_cccd
                <= config.page_scroll_fraction.rank() <= 0x3f80_0000 ==> used.page_scroll_fraction
                == config.page_scroll_fraction
            &&& 0x3f80_0000 <= used.scroll_animation_response.rank() <= 0x42c8_0000
            &&& config.scroll_animation_response.finite() && 0x3f80_0000
                <= config.scroll_animation_response.rank() <= 0x42c8_0000
                ==> used.scroll_animation_response == config.scroll_animation_response
            &&& 0x3f80_0000 <= used.fit_width_minimum.rank() <= 0x4580_0000
            &&& config.fit_width_minimum.finite() && 0x3f80_0000
                <= config.fit_width_minimum.rank() <= 0x4580_0000 ==> used.fit_width_minimum
                == config.fit_width_minimum
        }),
{
    law_used_limits_are_bounded(config.limits);
}

/// What is usual lies within the bounds, and so is used as it is.
pub proof fn law_usual_settings_are_used_as_they_are()
    ensures
        PdfReaderLimits::usual().in_bounds() == PdfReaderLimits::usual(),
        PdfReaderConfig::usual().in_bounds() == PdfReaderConfig::usual(),
        PdfReaderLimits::usual().tile_size == 1_024,
        PdfReaderLimits::usual().tile_bleed == 32,
        PdfReaderLimits::usual().render_quantum == 64,
        PdfReaderLimits::usual().max_raster_dimension == 65_536,
        PdfReaderLimits::usual().max_cached_tiles == 48,
        PdfReaderLimits::usual().max_cache_bytes == 128 * 1_024 * 1_024,
        PdfReaderLimits::usual().max_cached_text_pages == 16,
        PdfReaderLimits::usual().max_planned_tiles == 256,
        PdfReaderLimits::usual().max_pending_events == 128,
        PdfReaderLimits::usual().min_zoom.rank() == 0x3e4c_cccd,
        PdfReaderLimits::usual().max_zoom.rank() == 0x40a0_0000,
        PdfReaderConfig::usual().initial_zoom.rank() == 0x3f80_0000,
        PdfReaderConfig::usual().zoom_step.rank() == 0x3f93_3333,
        PdfReaderConfig::usual().scroll_step.rank() == 0x4280_0000,
        PdfReaderConfig::usual().page_scroll_fraction.rank() == 0x3f66_6666,
        PdfReaderConfig::usual().scroll_animation_response.rank() == 0x4190_0000,
        PdfReaderConfig::usual().fit_width_minimum.rank() == 0x42c8_0000,
        !PdfReaderConfig::usual().fit_width_on_open,
{
    let used = PdfReaderConfig::usual().in_bounds();
    assert(used.limits == PdfReaderLimits::usual());
    assert(used.initial_zoom == PdfReaderConfig::usual().initial_zoom);
}

} // verus!
