//! Axes, vectors and rectangles in whole units.

use vstd::prelude::*;

verus! {

/// The direction along which the members of an axis are laid out.
#[derive(Clone, Copy, Debug, PartialEq, Eq, Structural)]
pub enum Axis {
    Horizontal,
    Vertical,
}

impl Axis {
    /// The other axis.
    pub open spec fn spec_invert(self) -> Axis {
        match self {
            Axis::Horizontal => Axis::Vertical,
            Axis::Vertical => Axis::Horizontal,
        }
    }

    /// The other axis.
    #[verifier::when_used_as_spec(spec_invert)]
    pub fn invert(self) -> (other: Axis)
        ensures
            other == self.spec_invert(),
    {
        match self {
            Axis::Horizontal => Axis::Vertical,
            Axis::Vertical => Axis::Horizontal,
        }
    }
}

/// A point, an offset or an extent: one length for each axis.
#[derive(Clone, Copy, Debug, PartialEq, Eq, Structural)]
pub struct Vector2 {
    pub x: i32,
    pub y: i32,
}

impl Vector2 {
    pub fn new(x: i32, y: i32) -> (v: Vector2)
        ensures
            v == (Vector2 { x, y }),
    {
        Vector2 { x, y }
    }

    /// The vector with `along` as its component along `axis` and `across` as
    /// the other one.
    pub open spec fn spec_on_axis(axis: Axis, along: i32, across: i32) -> Vector2 {
        match axis {
            Axis::Horizontal => Vector2 { x: along, y: across },
            Axis::Vertical => Vector2 { x: across, y: along },
        }
    }

    /// The vector with `along` as its component along `axis` and `across` as
    /// the other one.
    #[verifier::when_used_as_spec(spec_on_axis)]
    pub fn on_axis(axis: Axis, along: i32, across: i32) -> (v: Vector2)
        ensures
            v == Vector2::spec_on_axis(axis, along, across),
    {
        match axis {
            Axis::Horizontal => Vector2 { x: along, y: across },
            Axis::Vertical => Vector2 { x: across, y: along },
        }
    }

    /// The component that lies along `axis`.
    pub open spec fn spec_along(self, axis: Axis) -> i32 {
        match axis {
            Axis::Horizontal => self.x,
            Axis::Vertical => self.y,
        }
    }

    /// The component that lies along `axis`.
    #[verifier::when_used_as_spec(spec_along)]
    pub fn along(self, axis: Axis) -> (length: i32)
        ensures
            length == self.spec_along(axis),
    {
        match axis {
            Axis::Horizontal => self.x,
            Axis::Vertical => self.y,
        }
    }
}

/// A rectangle, given by its upper left corner and its extent.
#[derive(Clone, Copy, Debug, PartialEq, Eq, Structural)]
pub struct Rect {
    pub origin: Vector2,
    pub size: Vector2,
}

impl Rect {
    pub fn new(origin: Vector2, size: Vector2) -> (r: Rect)
        ensures
            r == (Rect { origin, size }),
    {
        Rect { origin, size }
    }

    /// The least horizontal coordinate.
    pub open spec fn min_x(self) -> int {
        self.origin.x as int
    }

    /// The least vertical coordinate.
    pub open spec fn min_y(self) -> int {
        self.origin.y as int
    }

    /// The horizontal coordinate just past the rectangle.
    pub open spec fn max_x(self) -> int {
        self.origin.x + self.size.x
    }

    /// The vertical coordinate just past the rectangle.
    pub open spec fn max_y(self) -> int {
        self.origin.y + self.size.y
    }

    /// The extent along `axis`.
    pub open spec fn spec_length_along(self, axis: Axis) -> i32 {
        self.size.along(axis)
    }

    /// The extent along `axis`.
    #[verifier::when_used_as_spec(spec_length_along)]
    pub fn length_along(self, axis: Axis) -> (length: i32)
        ensures
            length == self.spec_length_along(axis),
    {
        self.size.along(axis)
    }

    /// Whether `point` lies in the rectangle. The sides at the least
    /// coordinates belong to the rectangle, the far sides do not.
    pub open spec fn spec_contains_point(self, point: Vector2) -> bool {
        &&& self.min_x() <= point.x < self.max_x()
        &&& self.min_y() <= point.y < self.max_y()
    }

    /// Whether `point` lies in the rectangle.
    #[verifier::when_used_as_spec(spec_contains_point)]
    pub fn contains_point(self, point: Vector2) -> (inside: bool)
        ensures
            inside == self.spec_contains_point(point),
    {
        self.origin.x <= point.x && (point.x as i64) < self.origin.x as i64 + self.size.x as i64
            && self.origin.y <= point.y && (point.y as i64) < self.origin.y as i64
            + self.size.y as i64
    }

    /// Whether the two rectangles have a point in common that lies inside
    /// both.
    pub open spec fn intersects(self, other: Rect) -> bool {
        &&& self.min_x() < other.max_x()
        &&& other.min_x() < self.max_x()
        &&& self.min_y() < other.max_y()
        &&& other.min_y() < self.max_y()
    }

    /// The greater of two coordinates.
    pub open spec fn greater(a: int, b: int) -> int {
        if a >= b {
            a
        } else {
            b
        }
    }

    /// The lesser of two coordinates.
    pub open spec fn lesser(a: int, b: int) -> int {
        if a <= b {
            a
        } else {
            b
        }
    }

    /// The part that the two rectangles have in common, if they intersect:
    /// it begins where the later of the two begins and ends where the earlier
    /// of the two ends.
    pub open spec fn spec_intersection(self, other: Rect) -> Option<Rect> {
        if self.intersects(other) {
            let left = Rect::greater(self.min_x(), other.min_x());
            let top = Rect::greater(self.min_y(), other.min_y());
            let right = Rect::lesser(self.max_x(), other.max_x());
            let bottom = Rect::lesser(self.max_y(), other.max_y());
            Some(
                Rect {
                    origin: Vector2 { x: left as i32, y: top as i32 },
                    size: Vector2 { x: (right - left) as i32, y: (bottom - top) as i32 },
                },
            )
        } else {
            None
        }
    }

    /// No extent of the rectangle is negative.
    pub open spec fn proper(self) -> bool {
        self.size.x >= 0 && self.size.y >= 0
    }

    /// The part that the two rectangles have in common, if they intersect:
    /// it begins where the later of the two begins and ends where the earlier
    /// of the two ends. Where no extent of the two is negative, it lies
    /// within both and none of its extents is negative.
    #[verifier::when_used_as_spec(spec_intersection)]
    pub fn intersection(self, other: Rect) -> (common: Option<Rect>)
        ensures
            common == self.spec_intersection(other),
            common is Some <==> self.intersects(other),
            common matches Some(r) ==> {
                &&& r.min_x() == Rect::greater(self.min_x(), other.min_x())
                &&& r.min_y() == Rect::greater(self.min_y(), other.min_y())
                &&& r.max_x() == Rect::lesser(self.max_x(), other.max_x())
                &&& r.max_y() == Rect::lesser(self.max_y(), other.max_y())
            },
            common matches Some(r) ==> (self.proper() && other.proper() ==> {
                &&& r.proper()
                &&& self.min_x() <= r.min_x() && r.max_x() <= self.max_x()
                &&& other.min_x() <= r.min_x() && r.max_x() <= other.max_x()
                &&& self.min_y() <= r.min_y() && r.max_y() <= self.max_y()
                &&& other.min_y() <= r.min_y() && r.max_y() <= other.max_y()
            }),
    {
        let self_right: i64 = self.origin.x as i64 + self.size.x as i64;
        let self_bottom: i64 = self.origin.y as i64 + self.size.y as i64;
        let other_right: i64 = other.origin.x as i64 + other.size.x as i64;
        let other_bottom: i64 = other.origin.y as i64 + other.size.y as i64;
        if (self.origin.x as i64) < other_right && (other.origin.x as i64) < self_right && (
        self.origin.y as i64) < other_bottom && (other.origin.y as i64) < self_bottom {
            let left: i32 = if self.origin.x >= other.origin.x {
                self.origin.x
            } else {
                other.origin.x
            };
            let top: i32 = if self.origin.y >= other.origin.y {
                self.origin.y
            } else {
                other.origin.y
            };
            let right: i64 = if self_right <= other_right {
                self_right
            } else {
                other_right
            };
            let bottom: i64 = if self_bottom <= other_bottom {
                self_bottom
            } else {
                other_bottom
            };
            Some(
                Rect {
                    origin: Vector2 { x: left, y: top },
                    size: Vector2 { x: (right - left as i64) as i32, y: (bottom - top as i64) as i32 },
                },
            )
        } else {
            None
        }
    }
}

} // verus!
