use vstd::prelude::*;

use embedded_graphics::geometry::{Point, Size};
use embedded_graphics::primitives::Rectangle;

verus! {

/// An axis-aligned rectangle: top-left corner and size in pixels.
#[derive(Clone, Copy, Debug, PartialEq, Eq, Structural)]
pub struct Rect {
    pub x: i32,
    pub y: i32,
    pub width: u32,
    pub height: u32,
}

impl Rect {
    pub open spec fn is_empty(self) -> bool {
        self.width == 0 || self.height == 0
    }

    /// Right-most column of a non-empty rectangle.
    pub open spec fn right(self) -> int {
        self.x + self.width - 1
    }

    /// Bottom-most row of a non-empty rectangle.
    pub open spec fn bottom(self) -> int {
        self.y + self.height - 1
    }

    /// A point lies in the rectangle (never in an empty one).
    pub open spec fn contains(self, px: int, py: int) -> bool {
        &&& !self.is_empty()
        &&& self.x <= px <= self.right()
        &&& self.y <= py <= self.bottom()
    }

    /// The corner arithmetic of a non-empty rectangle fits in `i32`.
    pub open spec fn corners_fit(self) -> bool {
        !self.is_empty() ==> {
            &&& self.width <= i32::MAX
            &&& self.height <= i32::MAX
            &&& self.x + self.width <= i32::MAX
            &&& self.y + self.height <= i32::MAX
        }
    }

    pub fn new(x: i32, y: i32, width: u32, height: u32) -> (r: Rect)
        ensures
            r == (Rect { x, y, width, height }),
    {
        Rect { x, y, width, height }
    }
}

pub open spec fn min_int(a: int, b: int) -> int {
    if a <= b { a } else { b }
}

pub open spec fn max_int(a: int, b: int) -> int {
    if a >= b { a } else { b }
}

/// Intersection of two rectangles as the graphics library computes it: the
/// overlap of two non-empty rectangles; an empty rectangle whose corner lies
/// in the other (non-empty) one is kept as it is; anything else gives the
/// zero rectangle at the origin.
pub open spec fn intersection_spec(a: Rect, b: Rect) -> Rect {
    let zero = Rect { x: 0, y: 0, width: 0, height: 0 };
    if !a.is_empty() && !b.is_empty() {
        if a.x <= b.right() && b.x <= a.right() && a.y <= b.bottom() && b.y <= a.bottom() {
            let left = max_int(a.x as int, b.x as int);
            let top = max_int(a.y as int, b.y as int);
            Rect {
                x: left as i32,
                y: top as i32,
                width: (min_int(a.right(), b.right()) - left + 1) as u32,
                height: (min_int(a.bottom(), b.bottom()) - top + 1) as u32,
            }
        } else {
            zero
        }
    } else if a.is_empty() && !b.is_empty() {
        if b.contains(a.x as int, a.y as int) { a } else { zero }
    } else if !a.is_empty() && b.is_empty() {
        if a.contains(b.x as int, b.y as int) { b } else { zero }
    } else {
        zero
    }
}

/// `Rectangle::intersection` of embedded-graphics, on plain values.
/// Its contract restates the source: overlap of two non-empty rectangles,
/// an empty rectangle kept where its corner lies in the other, the zero
/// rectangle otherwise. The corner arithmetic must fit in `i32`, where the
/// crate would overflow.
#[verifier::external_body]
pub(crate) fn intersection(a: Rect, b: Rect) -> (r: Rect)
    requires
        a.corners_fit(),
        b.corners_fit(),
    ensures
        r == intersection_spec(a, b),
{
    let ra = Rectangle::new(Point::new(a.x, a.y), Size::new(a.width, a.height));
    let rb = Rectangle::new(Point::new(b.x, b.y), Size::new(b.width, b.height));
    let r = ra.intersection(&rb);
    Rect { x: r.top_left.x, y: r.top_left.y, width: r.size.width, height: r.size.height }
}

} // verus!
