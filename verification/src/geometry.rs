//! Integer screen geometry: points and axis-aligned rectangles.
//!
//! The rectangle is stored by its two corners (`min` inclusive, `max`
//! exclusive), exactly as the window layout reasons about frames.
use vstd::prelude::*;

verus! {

/// Smallest value an `i32` takes, as a mathematical integer.
pub open spec fn i32_min() -> int {
    -0x8000_0000
}

/// Largest value an `i32` takes, as a mathematical integer.
pub open spec fn i32_max() -> int {
    0x7fff_ffff
}

/// Whether a mathematical integer is representable as an `i32`.
pub open spec fn fits_i32(v: int) -> bool {
    i32_min() <= v <= i32_max()
}

/// Minimum of two integers.
pub open spec fn min_int(a: int, b: int) -> int {
    if a <= b { a } else { b }
}

/// Maximum of two integers.
pub open spec fn max_int(a: int, b: int) -> int {
    if a >= b { a } else { b }
}

/// A point (or a size) with integer coordinates.
#[derive(Clone, Copy, Debug, PartialEq, Eq, Structural)]
pub struct IVec2 {
    pub x: i32,
    pub y: i32,
}

/// An axis-aligned rectangle given by its minimum and maximum corners.
#[derive(Clone, Copy, Debug, PartialEq, Eq, Structural)]
pub struct IRect {
    pub min: IVec2,
    pub max: IVec2,
}

impl IVec2 {
    /// Builds a point from its coordinates.
    pub fn new(x: i32, y: i32) -> (r: IVec2)
        ensures
            r.x == x,
            r.y == y,
    {
        IVec2 { x, y }
    }

    /// The origin.
    pub fn zero() -> (r: IVec2)
        ensures
            r.x == 0,
            r.y == 0,
    {
        IVec2 { x: 0, y: 0 }
    }

    /// Componentwise minimum.
    pub fn min(self, other: IVec2) -> (r: IVec2)
        ensures
            r.x == min_int(self.x as int, other.x as int),
            r.y == min_int(self.y as int, other.y as int),
    {
        IVec2 {
            x: if self.x <= other.x { self.x } else { other.x },
            y: if self.y <= other.y { self.y } else { other.y },
        }
    }

    /// Componentwise maximum.
    pub fn max(self, other: IVec2) -> (r: IVec2)
        ensures
            r.x == max_int(self.x as int, other.x as int),
            r.y == max_int(self.y as int, other.y as int),
    {
        IVec2 {
            x: if self.x >= other.x { self.x } else { other.x },
            y: if self.y >= other.y { self.y } else { other.y },
        }
    }

    /// Componentwise clamp: `self.max(lo).min(hi)`.
    pub fn clamp(self, lo: IVec2, hi: IVec2) -> (r: IVec2)
        ensures
            r.x == min_int(max_int(self.x as int, lo.x as int), hi.x as int),
            r.y == min_int(max_int(self.y as int, lo.y as int), hi.y as int),
    {
        self.max(lo).min(hi)
    }
}

impl IRect {
    /// The rectangle spanned by two opposite corners, in any order.
    pub fn from_corners(p0: IVec2, p1: IVec2) -> (r: IRect)
        ensures
            r.min.x == min_int(p0.x as int, p1.x as int),
            r.min.y == min_int(p0.y as int, p1.y as int),
            r.max.x == max_int(p0.x as int, p1.x as int),
            r.max.y == max_int(p0.y as int, p1.y as int),
    {
        IRect { min: p0.min(p1), max: p0.max(p1) }
    }

    /// The rectangle spanned by the corners `(x0, y0)` and `(x1, y1)`.
    pub fn new(x0: i32, y0: i32, x1: i32, y1: i32) -> (r: IRect)
        ensures
            r.min.x == min_int(x0 as int, x1 as int),
            r.min.y == min_int(y0 as int, y1 as int),
            r.max.x == max_int(x0 as int, x1 as int),
            r.max.y == max_int(y0 as int, y1 as int),
    {
        IRect::from_corners(IVec2 { x: x0, y: y0 }, IVec2 { x: x1, y: y1 })
    }

    /// The rectangle spanned by corners given as mathematical integers.
    pub open spec fn spec_from_corners_int(x0: int, y0: int, x1: int, y1: int) -> IRect {
        IRect {
            min: IVec2 { x: min_int(x0, x1) as i32, y: min_int(y0, y1) as i32 },
            max: IVec2 { x: max_int(x0, x1) as i32, y: max_int(y0, y1) as i32 },
        }
    }

    /// Horizontal extent.
    pub open spec fn spec_width(self) -> int {
        self.max.x - self.min.x
    }

    /// Vertical extent.
    pub open spec fn spec_height(self) -> int {
        self.max.y - self.min.y
    }

    /// Whether width and height are representable.
    pub open spec fn size_fits(self) -> bool {
        fits_i32(self.spec_width()) && fits_i32(self.spec_height())
    }

    /// Horizontal extent.
    pub fn width(&self) -> (w: i32)
        requires
            fits_i32(self.spec_width()),
        ensures
            w == self.spec_width(),
    {
        self.max.x - self.min.x
    }

    /// Vertical extent.
    pub fn height(&self) -> (h: i32)
        requires
            fits_i32(self.spec_height()),
        ensures
            h == self.spec_height(),
    {
        self.max.y - self.min.y
    }

    /// Width and height as a vector.
    pub fn size(&self) -> (s: IVec2)
        requires
            self.size_fits(),
        ensures
            s.x == self.spec_width(),
            s.y == self.spec_height(),
    {
        IVec2 { x: self.max.x - self.min.x, y: self.max.y - self.min.y }
    }
}

} // verus!
