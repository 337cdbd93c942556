//! Axis-aligned rectangles with inclusive integer bounds, used both for the
//! map's own bounding box and for the generated rooms.

use vstd::prelude::*;

verus! {

/// An axis-aligned region spanning `x1..=x2` by `y1..=y2`.
/// Immutable once created; rooms and the map's bounding box are `Rect`s.
#[derive(Clone, Copy, PartialEq, Eq, Structural, Debug)]
pub struct Rect {
    pub x1: i32,
    pub y1: i32,
    pub x2: i32,
    pub y2: i32,
}

impl Rect {
    /// True when the two rectangles overlap; bounds are inclusive, so
    /// rectangles that merely touch along an edge count as overlapping.
    pub open spec fn intersect_spec(self, other: Rect) -> bool {
        self.x1 <= other.x2 && self.x2 >= other.x1 && self.y1 <= other.y2 && self.y2 >= other.y1
    }

    pub open spec fn width_spec(self) -> int {
        self.x2 - self.x1
    }

    pub open spec fn height_spec(self) -> int {
        self.y2 - self.y1
    }

    /// The center cell, rounding down.
    pub open spec fn center_spec(self) -> (int, int) {
        ((self.x1 + self.x2) / 2, (self.y1 + self.y2) / 2)
    }

    pub fn with_size(x: i32, y: i32, w: i32, h: i32) -> (r: Rect)
        requires
            i32::MIN <= x + w <= i32::MAX,
            i32::MIN <= y + h <= i32::MAX,
        ensures
            r.x1 == x,
            r.y1 == y,
            r.x2 == x + w,
            r.y2 == y + h,
    {
        Rect { x1: x, y1: y, x2: x + w, y2: y + h }
    }

    pub fn intersect(&self, other: &Rect) -> (r: bool)
        ensures
            r == self.intersect_spec(*other),
    {
        self.x1 <= other.x2 && self.x2 >= other.x1 && self.y1 <= other.y2 && self.y2 >= other.y1
    }

    pub fn width(&self) -> (r: i32)
        requires
            0 <= self.x1 <= self.x2,
        ensures
            r == self.width_spec(),
    {
        self.x2 - self.x1
    }

    pub fn height(&self) -> (r: i32)
        requires
            0 <= self.y1 <= self.y2,
        ensures
            r == self.height_spec(),
    {
        self.y2 - self.y1
    }

    pub fn center(&self) -> (r: (i32, i32))
        requires
            0 <= self.x1 <= self.x2,
            0 <= self.y1 <= self.y2,
            self.x1 + self.x2 <= i32::MAX,
            self.y1 + self.y2 <= i32::MAX,
        ensures
            r.0 == self.center_spec().0,
            r.1 == self.center_spec().1,
    {
        ((self.x1 + self.x2) / 2, (self.y1 + self.y2) / 2)
    }
}

} // verus!
