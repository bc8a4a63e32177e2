//! Points, sizes and rectangles in hundredths of a pixel.

use vstd::prelude::*;

verus! {

/// The number of length units in one pixel.
pub const UNITS_PER_PIXEL: u32 = 100;

/// Spacing between each row of the view.
pub const LINE_SPACING: u32 = 800;

/// General margin of the view, used both for padding the text and for
/// spacing the section separators, across and down alike.
pub const MARGIN: u32 = 1000;

/// A position handed in by the host.
#[derive(Clone, Copy, Debug, PartialEq, Eq, Structural)]
pub struct Point {
    pub x: i32,
    pub y: i32,
}

/// A width and a height.
#[derive(Clone, Copy, Debug, PartialEq, Eq, Structural)]
pub struct Size {
    pub width: u32,
    pub height: u32,
}

/// A rectangle handed in by the host: the bounds of the view.
#[derive(Clone, Copy, Debug, PartialEq, Eq, Structural)]
pub struct Rectangle {
    pub x: i32,
    pub y: i32,
    pub width: u32,
    pub height: u32,
}

/// A rectangle of the drawn scene.
#[derive(Clone, Copy, Debug, PartialEq, Eq, Structural)]
pub struct Area {
    pub x: i64,
    pub y: i64,
    pub width: i64,
    pub height: i64,
}

impl Rectangle {
    /// Whether a point lies in the rectangle, its four edges included.
    pub open spec fn holds(self, point: Point) -> bool {
        &&& self.x <= point.x <= self.x + self.width
        &&& self.y <= point.y <= self.y + self.height
    }

    /// Returns true if the given point is contained in the rectangle.
    pub fn contains(&self, point: Point) -> (r: bool)
        ensures
            r == self.holds(point),
    {
        let x: i64 = self.x as i64;
        let y: i64 = self.y as i64;
        let px: i64 = point.x as i64;
        let py: i64 = point.y as i64;
        x <= px && px <= x + self.width as i64 && y <= py && py <= y + self.height as i64
    }

    /// The width and the height of the rectangle.
    pub open spec fn size_of(self) -> Size {
        Size { width: self.width, height: self.height }
    }

    /// The size of the rectangle.
    pub fn size(&self) -> (s: Size)
        ensures
            s == self.size_of(),
    {
        Size { width: self.width, height: self.height }
    }
}

/// A value cut off at the ends of the range of `i64`.
pub open spec fn clip(v: int) -> i64 {
    if v > i64::MAX {
        i64::MAX
    } else if v < i64::MIN {
        i64::MIN
    } else {
        v as i64
    }
}

/// `base + count * step`, cut off at the largest coordinate.
pub fn advance(base: i64, count: usize, step: u32) -> (r: i64)
    ensures
        r == clip(base + count * step),
{
    assert(0 <= count * step <= 0xffff_ffff_ffff_ffff * 0xffff_ffff) by (nonlinear_arith)
        requires
            0 <= count <= 0xffff_ffff_ffff_ffff,
            0 <= step <= 0xffff_ffff,
    ;
    let span: i128 = (count as i128) * (step as i128);
    let wide: i128 = base as i128 + span;
    if wide > i64::MAX as i128 {
        i64::MAX
    } else {
        wide as i64
    }
}

} // verus!
