//! Integer geometry shared by the rest of the crate.

use vstd::prelude::*;

verus! {

/// Smallest coordinate a rectangle edge may take.
pub const COORD_MIN: i64 = -2147483648;

/// Largest coordinate a rectangle edge may take.
pub const COORD_MAX: i64 = 2147483648;

/// Width and height of an area.
#[derive(Clone, Copy, Debug, PartialEq, Eq, Structural, Default)]
pub struct Size {
    pub w: i32,
    pub h: i32,
}

/// An axis-aligned rectangle given by its top-left corner and its size.
#[derive(Clone, Copy, Debug, PartialEq, Eq, Structural)]
pub struct Rect {
    pub x: i64,
    pub y: i64,
    pub w: i64,
    pub h: i64,
}

impl Rect {
    /// Both extremities of the rectangle lie within the coordinate range, and its size is not
    /// negative.
    pub open spec fn valid(self) -> bool {
        &&& 0 <= self.w
        &&& 0 <= self.h
        &&& COORD_MIN <= self.x
        &&& COORD_MIN <= self.y
        &&& self.x + self.w <= COORD_MAX
        &&& self.y + self.h <= COORD_MAX
    }

    /// The rectangle at the origin with no area.
    pub open spec fn zero() -> Rect {
        Rect { x: 0, y: 0, w: 0, h: 0 }
    }

    /// Smallest rectangle that covers both rectangles.
    pub open spec fn union(self, other: Rect) -> Rect {
        let left = if self.x <= other.x { self.x } else { other.x };
        let top = if self.y <= other.y { self.y } else { other.y };
        let right = if self.x + self.w >= other.x + other.w {
            self.x + self.w
        } else {
            other.x + other.w
        };
        let bottom = if self.y + self.h >= other.y + other.h {
            self.y + self.h
        } else {
            other.y + other.h
        };
        Rect { x: left, y: top, w: (right - left) as i64, h: (bottom - top) as i64 }
    }

    /// The point lies inside the rectangle, its right and bottom edges excluded.
    pub open spec fn contains_point(self, px: int, py: int) -> bool {
        self.x <= px < self.x + self.w && self.y <= py < self.y + self.h
    }

    /// The rectangle at the origin with no area.
    pub fn empty() -> (r: Rect)
        ensures
            r == Rect::zero(),
    {
        Rect { x: 0, y: 0, w: 0, h: 0 }
    }

    /// Smallest rectangle that covers both rectangles.
    pub fn merge(&self, other: &Rect) -> (r: Rect)
        requires
            self.valid(),
            other.valid(),
        ensures
            r == self.union(*other),
            r.valid(),
    {
        let left = if self.x <= other.x { self.x } else { other.x };
        let top = if self.y <= other.y { self.y } else { other.y };
        let right = if self.x + self.w >= other.x + other.w {
            self.x + self.w
        } else {
            other.x + other.w
        };
        let bottom = if self.y + self.h >= other.y + other.h {
            self.y + self.h
        } else {
            other.y + other.h
        };
        Rect { x: left, y: top, w: right - left, h: bottom - top }
    }

    /// Whether the point lies inside the rectangle, its right and bottom edges excluded.
    pub fn contains(&self, px: i64, py: i64) -> (r: bool)
        requires
            self.valid(),
        ensures
            r == self.contains_point(px as int, py as int),
    {
        self.x <= px && px < self.x + self.w && self.y <= py && py < self.y + self.h
    }
}

/// A point in logical pixels.
#[derive(Clone, Copy, Debug, PartialEq, Eq, Structural, Default)]
pub struct Point {
    pub x: i32,
    pub y: i32,
}

/// A rectangle in logical pixels, given by its top-left corner and its size.
#[derive(Clone, Copy, Debug, PartialEq, Eq, Structural, Default)]
pub struct Rectangle {
    pub loc: Point,
    pub size: Size,
}

impl Rectangle {
    /// The point lies inside the rectangle, its right and bottom edges excluded.
    pub open spec fn holds(self, p: Point) -> bool {
        &&& self.loc.x <= p.x < self.loc.x + self.size.w
        &&& self.loc.y <= p.y < self.loc.y + self.size.h
    }

    /// Whether the point lies inside the rectangle, its right and bottom edges excluded.
    pub fn contains(&self, p: Point) -> (r: bool)
        ensures
            r == self.holds(p),
    {
        let px = p.x as i64;
        let py = p.y as i64;
        let x = self.loc.x as i64;
        let y = self.loc.y as i64;
        x <= px && px < x + self.size.w as i64 && y <= py && py < y + self.size.h as i64
    }
}

/// Geometry of the active output, as its owner computes it.
#[derive(Clone, Copy, Debug, PartialEq, Eq, Structural)]
pub struct Output {
    /// Logical size of the output.
    pub size: Size,
    /// Area of the primary window when it is alone.
    pub primary_full: Rectangle,
    /// Area of the primary window when a secondary window shares the output.
    pub primary_split: Rectangle,
    /// Area of the secondary window.
    pub secondary: Rectangle,
}

impl Output {
    /// Area of the primary window, depending on whether a secondary window is visible.
    pub open spec fn primary_area(self, secondary_visible: bool) -> Rectangle {
        if secondary_visible {
            self.primary_split
        } else {
            self.primary_full
        }
    }

    /// Area of the primary window, depending on whether a secondary window is visible.
    pub fn primary_rectangle(&self, secondary_visible: bool) -> (r: Rectangle)
        ensures
            r == self.primary_area(secondary_visible),
    {
        if secondary_visible {
            self.primary_split
        } else {
            self.primary_full
        }
    }

    /// Area of the secondary window.
    pub fn secondary_rectangle(&self) -> (r: Rectangle)
        ensures
            r == self.secondary,
    {
        self.secondary
    }
}

} // verus!
