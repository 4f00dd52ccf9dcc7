//! The four directions in which a pane can be split.

use vstd::prelude::*;
use crate::geometry::{Axis, Rect, Vector2};

verus! {

/// Where the new pane goes, seen from the pane that is split.
#[derive(Clone, Copy, Debug, PartialEq, Eq, Structural)]
pub enum SplitDirection {
    Up,
    Down,
    Left,
    Right,
}

impl SplitDirection {
    /// The four directions: up, down, left, right.
    pub fn all() -> (directions: [SplitDirection; 4])
        ensures
            directions@ == seq![
                SplitDirection::Up,
                SplitDirection::Down,
                SplitDirection::Left,
                SplitDirection::Right,
            ],
    {
        [SplitDirection::Up, SplitDirection::Down, SplitDirection::Left, SplitDirection::Right]
    }

    /// The axis of the group that a split in this direction makes.
    pub open spec fn spec_axis(&self) -> Axis {
        match self {
            SplitDirection::Up | SplitDirection::Down => Axis::Vertical,
            SplitDirection::Left | SplitDirection::Right => Axis::Horizontal,
        }
    }

    /// The axis of the group that a split in this direction makes.
    #[verifier::when_used_as_spec(spec_axis)]
    pub fn axis(&self) -> (axis: Axis)
        ensures
            axis == self.spec_axis(),
    {
        match self {
            SplitDirection::Up | SplitDirection::Down => Axis::Vertical,
            SplitDirection::Left | SplitDirection::Right => Axis::Horizontal,
        }
    }

    /// Whether the new pane comes after the pane that is split.
    pub open spec fn spec_increasing(&self) -> bool {
        match self {
            SplitDirection::Left | SplitDirection::Up => false,
            SplitDirection::Down | SplitDirection::Right => true,
        }
    }

    /// Whether the new pane comes after the pane that is split.
    #[verifier::when_used_as_spec(spec_increasing)]
    pub fn increasing(&self) -> (after: bool)
        ensures
            after == self.spec_increasing(),
    {
        match self {
            SplitDirection::Left | SplitDirection::Up => false,
            SplitDirection::Down | SplitDirection::Right => true,
        }
    }

    /// The coordinate of the side of `rect` that faces this direction: its
    /// top for up, its bottom for down, its left side for left and its right
    /// side for right.
    pub open spec fn spec_edge(&self, rect: Rect) -> int {
        match self {
            SplitDirection::Up => rect.min_y(),
            SplitDirection::Down => rect.max_y(),
            SplitDirection::Left => rect.min_x(),
            SplitDirection::Right => rect.max_x(),
        }
    }

    /// The coordinate of the side of `rect` that faces this direction. The
    /// far sides are sums of two lengths, so the result is wider than a
    /// length.
    pub fn edge(&self, rect: Rect) -> (coordinate: i64)
        ensures
            coordinate == self.spec_edge(rect),
    {
        match self {
            SplitDirection::Up => rect.origin.y as i64,
            SplitDirection::Down => rect.origin.y as i64 + rect.size.y as i64,
            SplitDirection::Left => rect.origin.x as i64,
            SplitDirection::Right => rect.origin.x as i64 + rect.size.x as i64,
        }
    }

    /// Where the strip of `rect` that lies against the side facing this
    /// direction, `size` deep, begins along the axis of the direction.
    pub open spec fn strip_start(&self, rect: Rect, size: i32) -> int {
        match self {
            SplitDirection::Up => rect.min_y(),
            SplitDirection::Down => rect.max_y() - size,
            SplitDirection::Left => rect.min_x(),
            SplitDirection::Right => rect.max_x() - size,
        }
    }

    /// The strip of `rect` that lies against the side facing this direction:
    /// `size` deep along the axis of the direction, and as wide as `rect`
    /// across it.
    pub fn along_edge(&self, rect: Rect, size: i32) -> (strip: Rect)
        requires
            i32::MIN <= self.strip_start(rect, size) <= i32::MAX,
        ensures
            strip.origin.along(self.axis()) == self.strip_start(rect, size),
            strip.origin.along(self.axis().invert()) == rect.origin.along(self.axis().invert()),
            strip.size.along(self.axis()) == size,
            strip.size.along(self.axis().invert()) == rect.size.along(self.axis().invert()),
            self.spec_edge(strip) == self.spec_edge(rect),
    {
        match self {
            SplitDirection::Up => Rect::new(rect.origin, Vector2::new(rect.size.x, size)),
            SplitDirection::Down => Rect::new(
                Vector2::new(
                    rect.origin.x,
                    (rect.origin.y as i64 + rect.size.y as i64 - size as i64) as i32,
                ),
                Vector2::new(rect.size.x, size),
            ),
            SplitDirection::Left => Rect::new(rect.origin, Vector2::new(size, rect.size.y)),
            SplitDirection::Right => Rect::new(
                Vector2::new(
                    (rect.origin.x as i64 + rect.size.x as i64 - size as i64) as i32,
                    rect.origin.y,
                ),
                Vector2::new(size, rect.size.y),
            ),
        }
    }
}

} // verus!
