//! Rectangles in the coordinate space of a painted element.

use vstd::prelude::*;

verus! {

/// A rectangle in the coordinate space of the element currently being
/// painted: the origin of the element (or of a span inside it) and its size.
#[derive(Clone, Copy, Debug, PartialEq, Eq, Structural)]
pub struct SpatialBounds {
    /// Horizontal origin.
    pub x: i32,
    /// Vertical origin.
    pub y: i32,
    /// Horizontal extent.
    pub width: u32,
    /// Vertical extent.
    pub height: u32,
}

impl SpatialBounds {
    /// Builds a rectangle from its origin and size.
    pub fn new(x: i32, y: i32, width: u32, height: u32) -> (r: SpatialBounds)
        ensures
            r == (SpatialBounds { x, y, width, height }),
    {
        SpatialBounds { x, y, width, height }
    }
}

/// An ideal coordinate clamped into the representable coordinate range.
pub open spec fn clamp_coord(v: int) -> int {
    if v < i32::MIN {
        i32::MIN as int
    } else if v > i32::MAX {
        i32::MAX as int
    } else {
        v
    }
}

/// An ideal extent clamped into the representable extent range.
pub open spec fn clamp_extent(v: int) -> int {
    if v < 0 {
        0
    } else if v > u32::MAX {
        u32::MAX as int
    } else {
        v
    }
}

/// Clamps an ideal coordinate, computed.
pub fn clamp_coord_exec(v: i64) -> (r: i32)
    ensures
        r as int == clamp_coord(v as int),
{
    if v < i32::MIN as i64 {
        i32::MIN
    } else if v > i32::MAX as i64 {
        i32::MAX
    } else {
        v as i32
    }
}

/// Clamps an ideal extent, computed.
pub fn clamp_extent_exec(v: i64) -> (r: u32)
    ensures
        r as int == clamp_extent(v as int),
{
    if v < 0 {
        0
    } else if v > u32::MAX as i64 {
        u32::MAX
    } else {
        v as u32
    }
}

} // verus!
