//! Integer raster geometry shared by planning and rendering.

use vstd::prelude::*;

verus! {

/// Size of a page raster in pixels.
#[derive(Clone, Copy, Debug, PartialEq, Eq, Hash, PartialOrd, Ord, Structural)]
pub struct RasterSize {
    pub width: u32,
    pub height: u32,
}

/// A rectangle of raster pixels.
#[derive(Clone, Copy, Debug, PartialEq, Eq, Hash, Structural)]
pub struct PixelRect {
    pub x: u32,
    pub y: u32,
    pub width: u32,
    pub height: u32,
}

/// One tile of one page at one raster size.
#[derive(Clone, Copy, Debug, PartialEq, Eq, Hash, PartialOrd, Ord, Structural)]
pub struct TileKey {
    pub page: usize,
    pub raster: RasterSize,
    pub column: u32,
    pub row: u32,
}

impl PixelRect {
    /// The column just right of the rectangle.
    pub open spec fn right(self) -> int {
        self.x + self.width
    }

    /// The row just below the rectangle.
    pub open spec fn bottom(self) -> int {
        self.y + self.height
    }

    /// The rectangle covers no pixel.
    pub open spec fn is_empty(self) -> bool {
        self.width == 0 || self.height == 0
    }

    /// Every pixel lies on the raster.
    pub open spec fn lies_on(self, raster: RasterSize) -> bool {
        self.right() <= raster.width && self.bottom() <= raster.height
    }

    /// Every pixel of `inner` is one of this rectangle.
    pub open spec fn covers(self, inner: PixelRect) -> bool {
        &&& self.x <= inner.x
        &&& self.y <= inner.y
        &&& inner.right() <= self.right()
        &&& inner.bottom() <= self.bottom()
    }
}

} // verus!
