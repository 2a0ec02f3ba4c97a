//! The canonical workspace: a fixed 768x1024 integer pixel coordinate
//! space shared by capture, analysis and all drawing primitives,
//! independent of the physical device resolution.

use vstd::prelude::*;

verus! {

/// Width of the canonical workspace in pixels.
pub const VIRTUAL_WIDTH: i32 = 768;

/// Height of the canonical workspace in pixels.
pub const VIRTUAL_HEIGHT: i32 = 1024;

/// A rectangular region of interest in canonical coordinates.
#[derive(Debug, Clone, Copy, PartialEq, Eq, Structural)]
pub struct BoundingBox {
    pub x: i32,
    pub y: i32,
    pub width: i32,
    pub height: i32,
}

impl BoundingBox {
    /// A box is well formed when its extents are non-negative.
    pub open spec fn well_formed(self) -> bool {
        self.width >= 0 && self.height >= 0
    }

    pub fn new(x: i32, y: i32, width: i32, height: i32) -> (r: BoundingBox)
        ensures
            r.x == x && r.y == y && r.width == width && r.height == height,
    {
        BoundingBox { x, y, width, height }
    }
}

/// Larger of two values.
pub fn imax(a: i32, b: i32) -> (r: i32)
    ensures
        r == vstd::math::max(a as int, b as int),
{
    if a >= b {
        a
    } else {
        b
    }
}

/// Smaller of two values.
pub fn imin(a: i32, b: i32) -> (r: i32)
    ensures
        r == vstd::math::min(a as int, b as int),
{
    if a <= b {
        a
    } else {
        b
    }
}

/// Where the clamped box starts: the origin pulled into the workspace,
/// but never so far right or down that the (possibly shrunk) extent
/// would no longer fit.
pub open spec fn spec_clamped_origin(pos: int, extent: int, limit: int) -> int {
    vstd::math::min(vstd::math::max(pos, 0), limit - vstd::math::max(extent, 1))
}

/// The extent of the clamped box: at least one pixel, and cut off at
/// the workspace edge.
pub open spec fn spec_clamped_extent(pos: int, extent: int, limit: int) -> int {
    vstd::math::min(vstd::math::max(extent, 1), limit - spec_clamped_origin(pos, extent, limit))
}

impl BoundingBox {
    /// Pull the box into the canonical workspace: the result covers at
    /// least one pixel in each direction and never reaches past the
    /// right or bottom edge.
    pub fn clamp_to_workspace(&self) -> (r: BoundingBox)
        ensures
            r.x == spec_clamped_origin(self.x as int, self.width as int, VIRTUAL_WIDTH as int),
            r.y == spec_clamped_origin(self.y as int, self.height as int, VIRTUAL_HEIGHT as int),
            r.width == spec_clamped_extent(self.x as int, self.width as int, VIRTUAL_WIDTH as int),
            r.height == spec_clamped_extent(
                self.y as int,
                self.height as int,
                VIRTUAL_HEIGHT as int,
            ),
            r.width >= 1 && r.height >= 1,
            r.x + r.width <= VIRTUAL_WIDTH,
            r.y + r.height <= VIRTUAL_HEIGHT,
            self.width <= VIRTUAL_WIDTH ==> r.x >= 0,
            self.height <= VIRTUAL_HEIGHT ==> r.y >= 0,
    {
        let x = imin(imax(self.x, 0), VIRTUAL_WIDTH - imax(self.width, 1));
        let y = imin(imax(self.y, 0), VIRTUAL_HEIGHT - imax(self.height, 1));
        let width = imin(imax(self.width, 1), VIRTUAL_WIDTH - x);
        let height = imin(imax(self.height, 1), VIRTUAL_HEIGHT - y);
        BoundingBox { x, y, width, height }
    }
}

} // verus!
