//! Resizing two neighbours of an axis by dragging the divider between them.

use vstd::prelude::*;
use crate::geometry::{Axis, Rect, Vector2};
use crate::model::FLEX_ONE;

verus! {

/// How thick the region around a divider is in which a drag can start.
pub const HANDLE_HITBOX_SIZE: i32 = 4;

/// The least extent to which a drag resizes a member of a horizontal axis.
pub const HORIZONTAL_MIN_SIZE: i32 = 100;

/// The least extent to which a drag resizes a member of a vertical axis.
pub const VERTICAL_MIN_SIZE: i32 = 80;

/// The least extent along `axis` to which a drag resizes a member.
pub open spec fn spec_min_size(axis: Axis) -> i32 {
    match axis {
        Axis::Horizontal => HORIZONTAL_MIN_SIZE,
        Axis::Vertical => VERTICAL_MIN_SIZE,
    }
}

/// The least extent along `axis` to which a drag resizes a member.
#[verifier::when_used_as_spec(spec_min_size)]
pub fn min_size(axis: Axis) -> (floor: i32)
    ensures
        floor == spec_min_size(axis),
{
    match axis {
        Axis::Horizontal => HORIZONTAL_MIN_SIZE,
        Axis::Vertical => VERTICAL_MIN_SIZE,
    }
}

/// `candidate`, held between `floor` and what is left of `combined` once the
/// neighbour has its `floor`.
pub open spec fn held(candidate: int, floor: int, combined: int) -> int {
    if candidate < floor {
        floor
    } else if candidate > combined - floor {
        combined - floor
    } else {
        candidate
    }
}

/// What a drag on one divider starts from: the place and size of the member
/// before the divider, the size of the member after it, and the bounds of
/// the axis in view. It is taken when the axis is painted and does not
/// change while the pointer moves.
#[derive(Clone, Copy, Debug, PartialEq, Eq, Structural)]
pub struct DividerDrag {
    pub axis: Axis,
    /// The index of the member before the divider.
    pub ix: usize,
    pub child_start: Vector2,
    pub child_size: Vector2,
    pub next_child_size: Vector2,
    pub drag_bounds: Rect,
}

impl DividerDrag {
    /// Neither neighbour is smaller than the least extent for the axis. A
    /// drag changes nothing otherwise.
    pub open spec fn resizable(&self) -> bool {
        &&& self.child_size.along(self.axis) >= min_size(self.axis)
        &&& self.next_child_size.along(self.axis) >= min_size(self.axis)
    }

    /// The extent that the pointer at `position` asks for the member before
    /// the divider: the distance from the start of that member to the
    /// pointer, along the axis.
    pub open spec fn candidate(&self, position: Vector2) -> int {
        position.along(self.axis) - self.child_start.along(self.axis)
    }

    /// The extent that the member before the divider is to have with the
    /// pointer at `position`: what the pointer asks for, held so that
    /// neither neighbour goes below the least extent.
    pub open spec fn spec_target_size(&self, position: Vector2) -> int {
        held(
            self.candidate(position),
            min_size(self.axis) as int,
            self.child_size.along(self.axis) + self.next_child_size.along(self.axis),
        )
    }

    /// The weight that moves from the member after the divider to the member
    /// before it with the pointer at `position`: the change of extent as a
    /// part of the length of the axis in view, rounded towards zero.
    pub open spec fn spec_flex_change(&self, position: Vector2) -> int {
        let scaled = (self.spec_target_size(position) - self.child_size.along(self.axis)) * FLEX_ONE;
        let length = self.drag_bounds.length_along(self.axis) as int;
        if scaled >= 0 {
            scaled / length
        } else {
            -((-scaled) / length)
        }
    }

    /// The extent that the member before the divider is to have with the
    /// pointer at `position`; none if a neighbour is below the least extent
    /// already. With that extent neither neighbour is below the least extent.
    pub fn target_size(&self, position: Vector2) -> (target: Option<i64>)
        ensures
            target == if self.resizable() {
                Some(self.spec_target_size(position) as i64)
            } else {
                None
            },
            target matches Some(t) ==> {
                &&& t == self.spec_target_size(position)
                &&& t >= min_size(self.axis)
                &&& self.child_size.along(self.axis) + self.next_child_size.along(self.axis) - t
                    >= min_size(self.axis)
            },
    {
        let floor: i64 = min_size(self.axis) as i64;
        let size: i64 = self.child_size.along(self.axis) as i64;
        let next_size: i64 = self.next_child_size.along(self.axis) as i64;
        if size < floor || next_size < floor {
            return None;
        }
        let candidate: i64 = position.along(self.axis) as i64 - self.child_start.along(self.axis) as i64;
        let ceiling: i64 = size + next_size - floor;
        if candidate < floor {
            Some(floor)
        } else if candidate > ceiling {
            Some(ceiling)
        } else {
            Some(candidate)
        }
    }

    /// The weight that moves from the member after the divider to the member
    /// before it with the pointer at `position`. There is none, and the drag
    /// changes nothing, if a neighbour is below the least extent already, or
    /// if the axis in view has no length to measure the change against.
    pub fn flex_change(&self, position: Vector2) -> (change: Option<i64>)
        ensures
            change == if self.resizable() && self.drag_bounds.length_along(self.axis) > 0 {
                Some(self.spec_flex_change(position) as i64)
            } else {
                None
            },
            change matches Some(c) ==> c == self.spec_flex_change(position),
    {
        let length: i64 = self.drag_bounds.length_along(self.axis) as i64;
        if length <= 0 {
            return None;
        }
        match self.target_size(position) {
            Some(target) => {
                let size: i64 = self.child_size.along(self.axis) as i64;
                let scaled: i64 = (target - size) * FLEX_ONE;
                if scaled >= 0 {
                    Some(scaled / length)
                } else {
                    Some(-((-scaled) / length))
                }
            },
            None => None,
        }
    }
}

/// What a divider is doing: nothing, or following the pointer.
#[derive(Clone, Copy, Debug, PartialEq, Eq, Structural)]
pub enum DividerState {
    Idle,
    Dragging,
}

/// What the pointer did.
#[derive(Clone, Copy, Debug, PartialEq, Eq, Structural)]
pub enum PointerEvent {
    /// The button went down at this point.
    Down(Vector2),
    /// The pointer moved to this point.
    Move(Vector2),
    /// The button went up.
    Up,
    /// The gesture was called off.
    Cancel,
}

/// One step of a drag on the divider with the hit region `hitbox`: the next
/// state, and the weight to move across the divider, if any.
///
/// A drag starts when the button goes down inside the hit region. While it
/// lasts, every move of the pointer moves the weight that `drag` gives for
/// the pointer's place. It ends when the button goes up or the gesture is
/// called off. Everything else changes nothing.
pub open spec fn spec_step(
    hitbox: Rect,
    drag: DividerDrag,
    state: DividerState,
    event: PointerEvent,
) -> (DividerState, Option<i64>) {
    match (state, event) {
        (DividerState::Idle, PointerEvent::Down(position)) => if hitbox.contains_point(position) {
            (DividerState::Dragging, None)
        } else {
            (DividerState::Idle, None)
        },
        (DividerState::Dragging, PointerEvent::Move(position)) => (
            DividerState::Dragging,
            if drag.resizable() && drag.drag_bounds.length_along(drag.axis) > 0 {
                Some(drag.spec_flex_change(position) as i64)
            } else {
                None
            },
        ),
        (DividerState::Dragging, PointerEvent::Up) => (DividerState::Idle, None),
        (DividerState::Dragging, PointerEvent::Cancel) => (DividerState::Idle, None),
        (state, _) => (state, None),
    }
}

/// One step of a drag on the divider with the hit region `hitbox`: the next
/// state, and the weight to move across the divider, if any.
#[verifier::when_used_as_spec(spec_step)]
pub fn step(hitbox: Rect, drag: DividerDrag, state: DividerState, event: PointerEvent) -> (next: (
    DividerState,
    Option<i64>,
))
    ensures
        next == spec_step(hitbox, drag, state, event),
        next.1 matches Some(change) ==> {
            &&& state == DividerState::Dragging
            &&& event matches PointerEvent::Move(position)
            &&& change == drag.spec_flex_change(position)
        },
{
    match state {
        DividerState::Idle => match event {
            PointerEvent::Down(position) => if hitbox.contains_point(position) {
                (DividerState::Dragging, None)
            } else {
                (DividerState::Idle, None)
            },
            _ => (DividerState::Idle, None),
        },
        DividerState::Dragging => match event {
            PointerEvent::Move(position) => (DividerState::Dragging, drag.flex_change(position)),
            PointerEvent::Up => (DividerState::Idle, None),
            PointerEvent::Cancel => (DividerState::Idle, None),
            PointerEvent::Down(_) => (DividerState::Dragging, None),
        },
    }
}

} // verus!
