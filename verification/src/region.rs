//! The rounded clip region.
//!
//! The widget's visible shape is a rounded square computed from the window's
//! current outer bounds: a fixed top gutter is reserved for the drag strip,
//! the square side is the larger dimension that still fits under the gutter,
//! and the square is centered horizontally.  The region is bounds-dependent,
//! so it must be recomputed after every resize.

use vstd::prelude::*;

verus! {

/// Height in pixels of the strip above the clip square, kept unclipped for
/// the drag affordance.
pub const TOP_GUTTER: i32 = 38;

/// Corner radius of the clip square, in pixels.
pub const CORNER_RADIUS: i32 = 24;

/// A rounded-rectangle region, in window coordinates.  `corner_width` and
/// `corner_height` are the width and height of the ellipse that draws the
/// rounded corners.
#[derive(Clone, Copy, Debug, PartialEq, Eq, Structural)]
pub struct RegionSpec {
    pub left: i32,
    pub top: i32,
    pub right: i32,
    pub bottom: i32,
    pub corner_width: i32,
    pub corner_height: i32,
}

/// The clip region for a window of the given outer size, or `None` when a
/// dimension is not positive (minimized or not yet laid out), in which case
/// the caller keeps the previous region.
pub open spec fn spec_clip_region(width: int, height: int) -> Option<RegionSpec> {
    if width <= 0 || height <= 0 {
        None
    } else {
        let side = if height - TOP_GUTTER < width { height - TOP_GUTTER } else { width };
        let x_offset = (width - side) / 2;
        Some(RegionSpec {
            left: x_offset as i32,
            top: TOP_GUTTER,
            right: (x_offset + side + 1) as i32,
            bottom: (TOP_GUTTER + side + 1) as i32,
            corner_width: (2 * CORNER_RADIUS) as i32,
            corner_height: (2 * CORNER_RADIUS) as i32,
        })
    }
}

/// Computes the clip region for the given outer bounds.
///
/// The bounds are bounded away from `i32::MAX` because the region's right
/// and bottom edges reach one pixel past the square and must still fit in a
/// 32-bit coordinate.
pub fn clip_region(width: i32, height: i32) -> (r: Option<RegionSpec>)
    requires
        width < i32::MAX,
        height < i32::MAX,
    ensures
        r == spec_clip_region(width as int, height as int),
{
    if width <= 0 || height <= 0 {
        None
    } else {
        let under_gutter: i64 = height as i64 - TOP_GUTTER as i64;
        let side: i64 = if under_gutter < width as i64 { under_gutter } else { width as i64 };
        let x_offset: i64 = (width as i64 - side) / 2;
        Some(RegionSpec {
            left: x_offset as i32,
            top: TOP_GUTTER,
            right: (x_offset + side + 1) as i32,
            bottom: (TOP_GUTTER as i64 + side + 1) as i32,
            corner_width: 2 * CORNER_RADIUS,
            corner_height: 2 * CORNER_RADIUS,
        })
    }
}

} // verus!
