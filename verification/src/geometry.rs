//! Points, sizes and rectangles on the pixel grid.
//!
//! Coordinates are `i32` and extents are `u32`. A rectangle covers the pixels
//! `(x, y)` with `left() <= x < right()` and `top() <= y < bottom()`.

use embedded_graphics::{geometry, primitives};
use vstd::math::{max, min};
use vstd::prelude::*;

verus! {

/// A position on the pixel grid.
#[derive(Clone, Copy, Debug, PartialEq, Eq, Structural)]
pub struct Point {
    pub x: i32,
    pub y: i32,
}

impl Point {
    /// The pixel in column `x` and row `y`.
    pub fn new(x: i32, y: i32) -> (p: Point)
        ensures
            p == (Point { x, y }),
    {
        Point { x, y }
    }

    /// The origin.
    pub fn zero() -> (p: Point)
        ensures
            p == (Point { x: 0, y: 0 }),
    {
        Point { x: 0, y: 0 }
    }
}

/// A width and a height, in pixels.
#[derive(Clone, Copy, Debug, PartialEq, Eq, Structural)]
pub struct Size {
    pub width: u32,
    pub height: u32,
}

impl Size {
    /// The size of `width` by `height` pixels.
    pub fn new(width: u32, height: u32) -> (s: Size)
        ensures
            s == (Size { width, height }),
    {
        Size { width, height }
    }

    /// Both extents are within the coordinate range, so that every pixel of
    /// an area of this size placed at the origin has `i32` coordinates.
    pub open spec fn addressable(self) -> bool {
        self.width <= i32::MAX && self.height <= i32::MAX
    }

    /// Tells whether both extents are within the coordinate range.
    pub fn is_addressable(&self) -> (b: bool)
        ensures
            b == self.addressable(),
    {
        self.width <= 0x7fff_ffff && self.height <= 0x7fff_ffff
    }
}

/// An axis-aligned rectangle, given by its top left pixel and its size.
#[derive(Clone, Copy, Debug, PartialEq, Eq, Structural)]
pub struct Rectangle {
    pub top_left: Point,
    pub size: Size,
}

impl Rectangle {
    /// The rectangle of the given size whose top left pixel is `top_left`.
    pub fn new(top_left: Point, size: Size) -> (r: Rectangle)
        ensures
            r == (Rectangle { top_left, size }),
    {
        Rectangle { top_left, size }
    }

    /// The rectangle of the given size at the origin.
    pub open spec fn at_origin(size: Size) -> Rectangle {
        Rectangle { top_left: Point { x: 0, y: 0 }, size }
    }

    /// The empty rectangle at the origin.
    pub open spec fn zero() -> Rectangle {
        Rectangle { top_left: Point { x: 0, y: 0 }, size: Size { width: 0, height: 0 } }
    }

    /// First column.
    pub open spec fn left(self) -> int {
        self.top_left.x as int
    }

    /// First row.
    pub open spec fn top(self) -> int {
        self.top_left.y as int
    }

    /// The column after the last one.
    pub open spec fn right(self) -> int {
        self.top_left.x + self.size.width
    }

    /// The row after the last one.
    pub open spec fn bottom(self) -> int {
        self.top_left.y + self.size.height
    }

    /// The rectangle has no pixel.
    pub open spec fn is_empty(self) -> bool {
        self.size.width == 0 || self.size.height == 0
    }

    /// The pixel `(x, y)` lies in the rectangle.
    pub open spec fn contains(self, x: int, y: int) -> bool {
        self.left() <= x < self.right() && self.top() <= y < self.bottom()
    }

    /// The size and the far edges are within the coordinate range.
    pub open spec fn addressable(self) -> bool {
        self.size.addressable() && self.right() <= i32::MAX && self.bottom() <= i32::MAX
    }

    /// Tells whether the rectangle has no pixel.
    pub fn is_zero_sized(&self) -> (b: bool)
        ensures
            b == self.is_empty(),
    {
        self.size.width == 0 || self.size.height == 0
    }

    /// Tells whether the size and the far edges are within the coordinate
    /// range.
    pub fn is_addressable(&self) -> (b: bool)
        ensures
            b == self.addressable(),
    {
        self.size.is_addressable()
            && self.top_left.x as i64 + self.size.width as i64 <= 0x7fff_ffff
            && self.top_left.y as i64 + self.size.height as i64 <= 0x7fff_ffff
    }

    /// The common part of two rectangles. Two rectangles that both have
    /// pixels share the pixels between the larger of their near edges and
    /// the smaller of their far edges, if there are any. An empty rectangle
    /// whose top left pixel lies in the other one is kept as it is. In every
    /// other case the result is the empty rectangle at the origin.
    pub open spec fn spec_intersection(self, other: Rectangle) -> Rectangle {
        if !self.is_empty() && !other.is_empty() {
            let left = max(self.left(), other.left());
            let top = max(self.top(), other.top());
            let right = min(self.right(), other.right());
            let bottom = min(self.bottom(), other.bottom());
            if left < right && top < bottom {
                Rectangle {
                    top_left: Point { x: left as i32, y: top as i32 },
                    size: Size { width: (right - left) as u32, height: (bottom - top) as u32 },
                }
            } else {
                Rectangle::zero()
            }
        } else if !other.is_empty() && other.contains(self.left(), self.top()) {
            self
        } else if !self.is_empty() && self.contains(other.left(), other.top()) {
            other
        } else {
            Rectangle::zero()
        }
    }

    /// The common part of two rectangles: it holds exactly the pixels that
    /// lie in both.
    pub fn intersection(&self, other: &Rectangle) -> (r: Rectangle)
        requires
            self.addressable(),
            other.addressable(),
        ensures
            r == self.spec_intersection(*other),
            forall|x: int, y: int|
                r.contains(x, y) <==> self.contains(x, y) && other.contains(x, y),
    {
        proof {
            lemma_intersection_pixels(*self, *other);
        }
        intersection_of(self, other)
    }
}

/// A pixel lies in the common part of two rectangles exactly when it lies in
/// both of them.
pub proof fn lemma_intersection_pixels(a: Rectangle, b: Rectangle)
    ensures
        forall|x: int, y: int|
            a.spec_intersection(b).contains(x, y) <==> a.contains(x, y) && b.contains(x, y),
{
}

/// `Rectangle::intersection` of embedded-graphics, on rectangles whose corners
/// it can compute without overflow. Its source tells four cases apart by
/// whether each rectangle has a bottom right pixel; the contract states the
/// result of each as `spec_intersection` does.
#[verifier::external_body]
fn intersection_of(a: &Rectangle, b: &Rectangle) -> (r: Rectangle)
    requires
        a.addressable(),
        b.addressable(),
    ensures
        r == a.spec_intersection(*b),
{
    let first = primitives::Rectangle::new(
        geometry::Point::new(a.top_left.x, a.top_left.y),
        geometry::Size::new(a.size.width, a.size.height),
    );
    let second = primitives::Rectangle::new(
        geometry::Point::new(b.top_left.x, b.top_left.y),
        geometry::Size::new(b.size.width, b.size.height),
    );
    let common = first.intersection(&second);
    Rectangle {
        top_left: Point { x: common.top_left.x, y: common.top_left.y },
        size: Size { width: common.size.width, height: common.size.height },
    }
}

} // verus!
