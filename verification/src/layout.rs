//! The layout of one axis: how the space along it is shared out among its
//! members by weight, and where the members and the dividers between them
//! go.
//!
//! A pass over the members is run by the caller, who alone can lay out a
//! member: for each member in turn it asks for the constraint to offer,
//! lays the member out, and reports the size that the member took.

use vstd::prelude::*;
use crate::arith::{div_floor, mul_wide};
use crate::geometry::{Axis, Rect, Vector2};
use crate::resize::{DividerDrag, HANDLE_HITBOX_SIZE};

verus! {

/// An upper limit for each axis, or none.
#[derive(Clone, Copy, Debug, PartialEq, Eq, Structural)]
pub struct Limit {
    pub x: Option<i32>,
    pub y: Option<i32>,
}

impl Limit {
    /// The limits with `along` along `axis` and `across` on the other axis.
    pub open spec fn spec_on_axis(axis: Axis, along: Option<i32>, across: Option<i32>) -> Limit {
        match axis {
            Axis::Horizontal => Limit { x: along, y: across },
            Axis::Vertical => Limit { x: across, y: along },
        }
    }

    /// The limits with `along` along `axis` and `across` on the other axis.
    #[verifier::when_used_as_spec(spec_on_axis)]
    pub fn on_axis(axis: Axis, along: Option<i32>, across: Option<i32>) -> (limit: Limit)
        ensures
            limit == Limit::spec_on_axis(axis, along, across),
    {
        match axis {
            Axis::Horizontal => Limit { x: along, y: across },
            Axis::Vertical => Limit { x: across, y: along },
        }
    }

    /// The limit along `axis`.
    pub open spec fn spec_along(self, axis: Axis) -> Option<i32> {
        match axis {
            Axis::Horizontal => self.x,
            Axis::Vertical => self.y,
        }
    }

    /// The limit along `axis`.
    #[verifier::when_used_as_spec(spec_along)]
    pub fn along(self, axis: Axis) -> (limit: Option<i32>)
        ensures
            limit == self.spec_along(axis),
    {
        match axis {
            Axis::Horizontal => self.x,
            Axis::Vertical => self.y,
        }
    }
}

/// The sizes that an element may take: at least `min`, and at most `max`
/// along each axis that has a limit.
#[derive(Clone, Copy, Debug, PartialEq, Eq, Structural)]
pub struct SizeConstraint {
    pub min: Vector2,
    pub max: Limit,
}

impl SizeConstraint {
    /// The constraint that fixes the extent along `axis` to `span` and leaves
    /// the other axis as `outer` has it.
    pub open spec fn fixed_along(axis: Axis, span: i32, outer: SizeConstraint) -> SizeConstraint {
        SizeConstraint {
            min: Vector2::on_axis(axis, span, outer.min.along(axis.invert())),
            max: Limit::on_axis(axis, Some(span), outer.max.along(axis.invert())),
        }
    }
}

/// The sum of the weights from the index `from` up to, not including, `to`.
pub open spec fn flex_sum(flexes: Seq<i64>, from: int, to: int) -> int
    decreases to - from,
{
    if from >= to {
        0
    } else {
        flex_sum(flexes, from, to - 1) + flexes[to - 1]
    }
}

/// The span offered to a member with weight `flex` when `space` is left for
/// it and the members after it, whose weights add up to `remaining_flex`:
/// the part of the space that its weight is of the remaining weight, rounded
/// down; all of the space where no weight remains.
pub open spec fn share(space: int, flex: int, remaining_flex: int) -> int {
    if remaining_flex == 0 {
        space
    } else {
        (space * flex) / remaining_flex
    }
}

/// `value`, raised to `min` if it is less, then lowered to `max` if there is
/// one and it is less.
pub open spec fn clamped(value: int, min: int, max: Option<i32>) -> int {
    let raised = if value < min {
        min
    } else {
        value
    };
    match max {
        Some(m) => if raised > m {
            m as int
        } else {
            raised
        },
        None => raised,
    }
}

/// The element that lays the members of one axis out by weight.
#[derive(Debug, PartialEq, Eq)]
pub struct PaneAxisElement {
    pub axis: Axis,
    pub basis: usize,
    pub flexes: Vec<i64>,
}

/// The state of a layout pass: what is left to share out before the member
/// at index `next` is laid out.
#[derive(Clone, Copy, Debug, PartialEq, Eq, Structural)]
pub struct LayoutPass {
    /// The space along the axis that the members so far have not taken.
    pub remaining_space: i64,
    /// The sum of the weights of the members that are still to be laid out.
    pub remaining_flex: i128,
    /// The greatest extent across the axis of the members so far; at least 0.
    pub cross_axis_max: i32,
    /// The index of the member that is laid out next.
    pub next: usize,
}

impl LayoutPass {
    /// The pass runs over the weights of `element`: what remains of the
    /// weight is the sum of the weights from `next` on, and the remaining
    /// space is no further from zero than the members so far and the space
    /// at the start can have brought it.
    pub open spec fn spec_tracks(&self, element: &PaneAxisElement) -> bool {
        &&& self.next <= element.flexes@.len()
        &&& self.remaining_flex == flex_sum(
            element.flexes@,
            self.next as int,
            element.flexes@.len() as int,
        )
        &&& -(self.next + 1) * 0x8000_0000 <= self.remaining_space <= (self.next + 1) * 0x8000_0000
    }

    /// Whether the pass runs over the weights of `element`. A pass that
    /// `element` began, and that has taken note of its members one by one,
    /// does.
    #[verifier::when_used_as_spec(spec_tracks)]
    pub fn tracks(&self, element: &PaneAxisElement) -> (on_track: bool)
        ensures
            on_track == self.spec_tracks(element),
    {
        let n = element.flexes.len();
        if self.next > n {
            return false;
        }
        let mut rest: i128 = 0;
        let mut idx: usize = self.next;
        while idx < n
            invariant
                self.next <= idx <= n,
                n == element.flexes@.len(),
                rest == flex_sum(element.flexes@, self.next as int, idx as int),
                -(idx - self.next) * 0x8000_0000_0000_0000 <= rest <= (idx - self.next)
                    * 0x8000_0000_0000_0000,
            decreases n - idx,
        {
            rest = rest + element.flexes[idx] as i128;
            idx += 1;
        }
        let reach: i128 = (self.next as i128 + 1) * 0x8000_0000;
        self.remaining_flex == rest && -reach <= self.remaining_space as i128
            && self.remaining_space as i128 <= reach
    }
}

/// The sum of a range of weights is the sum of its two parts.
pub proof fn lemma_flex_sum_split(flexes: Seq<i64>, from: int, mid: int, to: int)
    requires
        from <= mid <= to,
    ensures
        flex_sum(flexes, from, to) == flex_sum(flexes, from, mid) + flex_sum(flexes, mid, to),
    decreases to - mid,
{
    if mid < to {
        lemma_flex_sum_split(flexes, from, mid, to - 1);
    }
}

/// The sum of weights of which none is negative is not negative.
pub proof fn lemma_flex_sum_nonnegative(flexes: Seq<i64>, from: int, to: int)
    requires
        0 <= from <= to <= flexes.len(),
        forall|i: int| 0 <= i < flexes.len() ==> #[trigger] flexes[i] >= 0,
    ensures
        flex_sum(flexes, from, to) >= 0,
    decreases to - from,
{
    if from < to {
        lemma_flex_sum_nonnegative(flexes, from, to - 1);
    }
}

/// The sum of a range of weights is within the range of sixty-four bits times
/// the number of weights.
pub proof fn lemma_flex_sum_bound(flexes: Seq<i64>, from: int, to: int)
    requires
        0 <= from <= to <= flexes.len(),
    ensures
        -(to - from) * 0x8000_0000_0000_0000 <= flex_sum(flexes, from, to) <= (to - from)
            * 0x8000_0000_0000_0000,
    decreases to - from,
{
    if from < to {
        lemma_flex_sum_bound(flexes, from, to - 1);
    }
}

impl PaneAxisElement {
    /// An element for the axis `axis` with one weight for each member.
    pub fn new(axis: Axis, basis: usize, flexes: Vec<i64>) -> (element: PaneAxisElement)
        ensures
            element.axis == axis,
            element.basis == basis,
            element.flexes == flexes,
    {
        PaneAxisElement { axis, basis, flexes }
    }

    /// No weight is negative, and there are no more weights than a length
    /// can count.
    pub open spec fn valid(&self) -> bool {
        &&& self.flexes@.len() <= i32::MAX
        &&& forall|i: int| 0 <= i < self.flexes@.len() ==> #[trigger] self.flexes@[i] >= 0
    }

    /// Whether the element is valid.
    pub fn is_valid(&self) -> (valid: bool)
        ensures
            valid == self.valid(),
    {
        if self.flexes.len() > 0x7fff_ffff {
            return false;
        }
        let n = self.flexes.len();
        let mut idx: usize = 0;
        while idx < n
            invariant
                idx <= n,
                n == self.flexes@.len(),
                forall|i: int| 0 <= i < idx ==> #[trigger] self.flexes@[i] >= 0,
            decreases n - idx,
        {
            if self.flexes[idx] < 0 {
                return false;
            }
            idx += 1;
        }
        true
    }

    /// Starts a layout pass: all of the space that `constraint` allows along
    /// the axis is left, and so is all of the weight.
    pub fn begin_layout(&self, constraint: &SizeConstraint) -> (pass: LayoutPass)
        requires
            constraint.max.along(self.axis) is Some,
        ensures
            pass.remaining_space == constraint.max.along(self.axis)->0,
            pass.remaining_flex == flex_sum(self.flexes@, 0, self.flexes@.len() as int),
            pass.cross_axis_max == 0,
            pass.next == 0,
            pass.tracks(self),
    {
        let n = self.flexes.len();
        let mut remaining_flex: i128 = 0;
        let mut idx: usize = 0;
        while idx < n
            invariant
                idx <= n,
                n == self.flexes@.len(),
                remaining_flex == flex_sum(self.flexes@, 0, idx as int),
                -idx * 0x8000_0000_0000_0000 <= remaining_flex <= idx * 0x8000_0000_0000_0000,
            decreases n - idx,
        {
            remaining_flex = remaining_flex + self.flexes[idx] as i128;
            idx += 1;
        }
        let remaining_space: i64 = match constraint.max.along(self.axis) {
            Some(space) => space as i64,
            None => 0,
        };
        LayoutPass { remaining_space, remaining_flex, cross_axis_max: 0, next: 0 }
    }

    /// The span that the next member of the pass is offered.
    pub open spec fn child_share(&self, pass: &LayoutPass) -> int {
        share(
            pass.remaining_space as int,
            self.flexes@[pass.next as int] as int,
            pass.remaining_flex as int,
        )
    }

    /// The constraint to lay the next member of the pass out with: the
    /// extent along the axis is fixed to the member's share of the remaining
    /// space, and the other axis is as `constraint` has it. There is none
    /// where the share is not a length.
    pub fn child_constraint(&self, constraint: &SizeConstraint, pass: &LayoutPass) -> (offer: Option<
        SizeConstraint,
    >)
        requires
            self.valid(),
            pass.tracks(self),
            pass.next < self.flexes@.len(),
        ensures
            offer == if i32::MIN <= self.child_share(pass) <= i32::MAX {
                Some(SizeConstraint::fixed_along(self.axis, self.child_share(pass) as i32, *constraint))
            } else {
                None
            },
    {
        let flex = self.flexes[pass.next];
        proof {
            lemma_flex_sum_split(
                self.flexes@,
                pass.next as int,
                pass.next + 1,
                self.flexes@.len() as int,
            );
            lemma_flex_sum_nonnegative(self.flexes@, pass.next + 1, self.flexes@.len() as int);
            assert(flex_sum(self.flexes@, pass.next as int, pass.next + 1) == flex) by {
                reveal_with_fuel(flex_sum, 2);
            }
        }
        let span: i128 = if pass.remaining_flex == 0 {
            pass.remaining_space as i128
        } else {
            div_floor(mul_wide(pass.remaining_space, flex), pass.remaining_flex)
        };
        if -0x8000_0000 <= span && span <= 0x7fff_ffff {
            let span = span as i32;
            let cross = self.axis.invert();
            Some(
                SizeConstraint {
                    min: Vector2::on_axis(self.axis, span, constraint.min.along(cross)),
                    max: Limit::on_axis(self.axis, Some(span), constraint.max.along(cross)),
                },
            )
        } else {
            None
        }
    }

    /// Takes note of the size that the next member of the pass took: its
    /// extent along the axis leaves the remaining space, its weight leaves
    /// the remaining weight, and its extent across the axis counts towards
    /// the greatest one.
    pub fn child_laid_out(&self, pass: &mut LayoutPass, child_size: Vector2)
        requires
            self.valid(),
            old(pass).tracks(self),
            old(pass).next < self.flexes@.len(),
        ensures
            final(pass).remaining_space == old(pass).remaining_space - child_size.along(self.axis),
            final(pass).remaining_flex == old(pass).remaining_flex - self.flexes@[old(pass).next as int],
            final(pass).cross_axis_max == if child_size.along(self.axis.invert()) > old(
                pass,
            ).cross_axis_max {
                child_size.along(self.axis.invert())
            } else {
                old(pass).cross_axis_max
            },
            final(pass).next == old(pass).next + 1,
            final(pass).tracks(self),
    {
        let flex = self.flexes[pass.next];
        proof {
            lemma_flex_sum_split(
                self.flexes@,
                pass.next as int,
                pass.next + 1,
                self.flexes@.len() as int,
            );
            lemma_flex_sum_bound(self.flexes@, pass.next as int, self.flexes@.len() as int);
            assert(flex_sum(self.flexes@, pass.next as int, pass.next + 1) == flex) by {
                reveal_with_fuel(flex_sum, 2);
            }
        }
        pass.remaining_space = pass.remaining_space - child_size.along(self.axis) as i64;
        pass.remaining_flex = pass.remaining_flex - flex as i128;
        let across = child_size.along(self.axis.invert());
        if across > pass.cross_axis_max {
            pass.cross_axis_max = across;
        }
        pass.next = pass.next + 1;
    }

    /// The size of the element at the end of a pass, and the space along the
    /// axis that was left over. Along the axis the size is what the members
    /// took of the space; across it, the greatest extent of a member. Both
    /// are raised to the least and then lowered to the greatest that
    /// `constraint` allows.
    pub fn finish_layout(&self, constraint: &SizeConstraint, pass: &LayoutPass) -> (result: (
        Vector2,
        i64,
    ))
        requires
            constraint.max.along(self.axis) is Some,
        ensures
            result.0.along(self.axis) == clamped(
                constraint.max.along(self.axis)->0 - pass.remaining_space,
                constraint.min.along(self.axis) as int,
                constraint.max.along(self.axis),
            ),
            result.0.along(self.axis.invert()) == clamped(
                pass.cross_axis_max as int,
                constraint.min.along(self.axis.invert()) as int,
                constraint.max.along(self.axis.invert()),
            ),
            result.1 == pass.remaining_space,
    {
        let cross = self.axis.invert();
        let space: i128 = match constraint.max.along(self.axis) {
            Some(space) => space as i128,
            None => 0,
        };
        let mut along: i128 = space - pass.remaining_space as i128;
        if along < constraint.min.along(self.axis) as i128 {
            along = constraint.min.along(self.axis) as i128;
        }
        if along > space {
            along = space;
        }
        let mut across: i32 = pass.cross_axis_max;
        if across < constraint.min.along(cross) {
            across = constraint.min.along(cross);
        }
        match constraint.max.along(cross) {
            Some(limit) => {
                if across > limit {
                    across = limit;
                }
            },
            None => {},
        }
        (Vector2::on_axis(self.axis, along as i32, across), pass.remaining_space)
    }
}

/// The greatest extent along `axis` of the first `k` sizes; zero if none of
/// them is greater.
pub open spec fn greatest(sizes: Seq<Vector2>, axis: Axis, k: int) -> int
    decreases k,
{
    if k <= 0 {
        0
    } else {
        let before = greatest(sizes, axis, k - 1);
        if sizes[k - 1].along(axis) > before {
            sizes[k - 1].along(axis) as int
        } else {
            before
        }
    }
}

impl PaneAxisElement {
    /// The size of the element, and the space along the axis that is left
    /// over, when its members take the sizes `child_sizes` whatever they are
    /// offered. What is left over is the space that `constraint` allows along
    /// the axis less the extents of the members. The size is, along the
    /// axis, the sum of the extents of the members, and across it the
    /// greatest of their extents, both held to what `constraint` allows.
    ///
    /// There is none if the element is not valid, if `constraint` has no
    /// limit along the axis, or if there is not one size for each weight.
    pub fn layout_with(&self, constraint: &SizeConstraint, child_sizes: &Vec<Vector2>) -> (result:
        Option<(Vector2, i64)>)
        ensures
            result is Some <==> self.valid() && constraint.max.along(self.axis) is Some
                && child_sizes@.len() == self.flexes@.len(),
            result matches Some((size, remaining_space)) ==> {
                let taken = offset(child_sizes@, self.axis, child_sizes@.len() as int);
                &&& remaining_space == constraint.max.along(self.axis)->0 - taken
                &&& size.along(self.axis) == clamped(
                    taken,
                    constraint.min.along(self.axis) as int,
                    constraint.max.along(self.axis),
                )
                &&& size.along(self.axis.invert()) == clamped(
                    greatest(child_sizes@, self.axis.invert(), child_sizes@.len() as int),
                    constraint.min.along(self.axis.invert()) as int,
                    constraint.max.along(self.axis.invert()),
                )
            },
    {
        if !self.is_valid() || constraint.max.along(self.axis).is_none() || child_sizes.len()
            != self.flexes.len() {
            return None;
        }
        let n = child_sizes.len();
        let mut pass = self.begin_layout(constraint);
        let mut idx: usize = 0;
        while idx < n
            invariant
                idx <= n,
                n == child_sizes@.len(),
                n == self.flexes@.len(),
                self.valid(),
                constraint.max.along(self.axis) is Some,
                pass.tracks(self),
                pass.next == idx,
                pass.remaining_space == constraint.max.along(self.axis)->0 - offset(
                    child_sizes@,
                    self.axis,
                    idx as int,
                ),
                pass.cross_axis_max == greatest(child_sizes@, self.axis.invert(), idx as int),
            decreases n - idx,
        {
            self.child_laid_out(&mut pass, child_sizes[idx]);
            idx += 1;
        }
        Some(self.finish_layout(constraint, &pass))
    }
}

/// The pointer shape that tells in which direction a divider moves.
#[derive(Clone, Copy, Debug, PartialEq, Eq, Structural)]
pub enum ResizeCursor {
    LeftRight,
    UpDown,
}

/// The region around the divider after a member in which a drag can start.
#[derive(Clone, Copy, Debug, PartialEq, Eq, Structural)]
pub struct Handle {
    /// The number that tells this handle from the others of the tree: the
    /// basis of the element and the index of the member, added up within the
    /// range of `usize`.
    pub id: usize,
    pub bounds: Rect,
    pub cursor: ResizeCursor,
    pub drag: DividerDrag,
}

/// Where a member goes, and the handle of the divider after it, if it is not
/// the last member.
#[derive(Clone, Copy, Debug, PartialEq, Eq, Structural)]
pub struct Placement {
    pub origin: Vector2,
    pub handle: Option<Handle>,
}

/// Where the members of an axis go.
#[derive(Debug, PartialEq, Eq)]
pub struct Painting {
    /// The bounds to clip the members to; none where they need no clipping.
    pub clip: Option<Rect>,
    /// One placement for each member, in layout order.
    pub children: Vec<Placement>,
}

/// The sum of the extents along `axis` of the first `k` sizes.
pub open spec fn offset(sizes: Seq<Vector2>, axis: Axis, k: int) -> int
    decreases k,
{
    if k <= 0 {
        0
    } else {
        offset(sizes, axis, k - 1) + sizes[k - 1].along(axis)
    }
}

/// The pointer shape for the dividers of an axis.
pub open spec fn spec_resize_cursor(axis: Axis) -> ResizeCursor {
    match axis {
        Axis::Horizontal => ResizeCursor::LeftRight,
        Axis::Vertical => ResizeCursor::UpDown,
    }
}

/// The pointer shape for the dividers of an axis.
#[verifier::when_used_as_spec(spec_resize_cursor)]
pub fn resize_cursor(axis: Axis) -> (cursor: ResizeCursor)
    ensures
        cursor == spec_resize_cursor(axis),
{
    match axis {
        Axis::Horizontal => ResizeCursor::LeftRight,
        Axis::Vertical => ResizeCursor::UpDown,
    }
}

/// The part of `bounds` that is in view: what it has in common with
/// `visible_bounds`, or the empty rectangle at the origin.
pub open spec fn spec_bounds_in_view(bounds: Rect, visible_bounds: Rect) -> Rect {
    match bounds.intersection(visible_bounds) {
        Some(common) => common,
        None => Rect { origin: Vector2 { x: 0, y: 0 }, size: Vector2 { x: 0, y: 0 } },
    }
}

/// The part of `bounds` that is in view.
#[verifier::when_used_as_spec(spec_bounds_in_view)]
pub fn bounds_in_view(bounds: Rect, visible_bounds: Rect) -> (in_view: Rect)
    ensures
        in_view == spec_bounds_in_view(bounds, visible_bounds),
{
    match bounds.intersection(visible_bounds) {
        Some(common) => common,
        None => Rect::new(Vector2::new(0, 0), Vector2::new(0, 0)),
    }
}

impl PaneAxisElement {
    /// Where the member at index `k` starts along the axis: at the start of
    /// `bounds`, moved on by the extents of the members before it.
    pub open spec fn child_start(&self, bounds: Rect, sizes: Seq<Vector2>, k: int) -> int {
        bounds.origin.along(self.axis) + offset(sizes, self.axis, k)
    }

    /// Every member starts at a coordinate that is a length, and so does the
    /// handle before every member but the first.
    pub open spec fn placeable(&self, bounds: Rect, sizes: Seq<Vector2>) -> bool {
        forall|k: int|
            0 <= k < sizes.len() ==> {
                &&& i32::MIN <= #[trigger] self.child_start(bounds, sizes, k) <= i32::MAX
                &&& k >= 1 ==> i32::MIN <= self.child_start(bounds, sizes, k) - HANDLE_HITBOX_SIZE / 2
            }
    }

    /// Where the member at index `k` goes. Its origin is at its start along
    /// the axis and at the origin of `bounds` across it. If it is not the
    /// last member, the divider after it has a handle: as thick as a handle
    /// is, centred on the start of the next member, and as wide across the
    /// axis as `in_view`.
    pub open spec fn placement(
        &self,
        bounds: Rect,
        in_view: Rect,
        sizes: Seq<Vector2>,
        k: int,
    ) -> Placement {
        let cross = self.axis.invert();
        let origin = Vector2::on_axis(
            self.axis,
            self.child_start(bounds, sizes, k) as i32,
            bounds.origin.along(cross),
        );
        Placement {
            origin,
            handle: if k + 1 < sizes.len() {
                Some(
                    Handle {
                        id: self.basis.wrapping_add(k as usize),
                        bounds: Rect {
                            origin: Vector2::on_axis(
                                self.axis,
                                (self.child_start(bounds, sizes, k + 1) - HANDLE_HITBOX_SIZE / 2) as i32,
                                bounds.origin.along(cross),
                            ),
                            size: Vector2::on_axis(
                                self.axis,
                                HANDLE_HITBOX_SIZE,
                                in_view.size.along(cross),
                            ),
                        },
                        cursor: resize_cursor(self.axis),
                        drag: DividerDrag {
                            axis: self.axis,
                            ix: k as usize,
                            child_start: origin,
                            child_size: sizes[k],
                            next_child_size: sizes[k + 1],
                            drag_bounds: in_view,
                        },
                    },
                )
            } else {
                None
            },
        }
    }

    /// Places members of the sizes `child_sizes` one after the other along
    /// the axis, from the origin of `bounds` on, with a handle on the divider
    /// between each two neighbours. The members are to be clipped to the part
    /// of `bounds` in view if they took more space than there was, that is,
    /// if `remaining_space` is negative. There is no painting where a member
    /// or a handle would start outside the range of lengths.
    pub fn paint(
        &self,
        bounds: Rect,
        visible_bounds: Rect,
        remaining_space: i64,
        child_sizes: &Vec<Vector2>,
    ) -> (painting: Option<Painting>)
        ensures
            painting is Some <==> self.placeable(bounds, child_sizes@),
            painting matches Some(p) ==> {
                let in_view = bounds_in_view(bounds, visible_bounds);
                &&& p.clip == if remaining_space < 0 {
                    Some(in_view)
                } else {
                    None
                }
                &&& p.children@.len() == child_sizes@.len()
                &&& forall|k: int|
                    0 <= k < child_sizes@.len() ==> #[trigger] p.children@[k] == self.placement(
                        bounds,
                        in_view,
                        child_sizes@,
                        k,
                    )
            },
    {
        let in_view = bounds_in_view(bounds, visible_bounds);
        let cross = self.axis.invert();
        let half: i64 = (HANDLE_HITBOX_SIZE / 2) as i64;
        let n = child_sizes.len();
        let mut children: Vec<Placement> = Vec::new();
        let mut start: i64 = bounds.origin.along(self.axis) as i64;
        let mut idx: usize = 0;
        while idx < n
            invariant
                idx <= n,
                n == child_sizes@.len(),
                cross == self.axis.invert(),
                half == HANDLE_HITBOX_SIZE / 2,
                in_view == bounds_in_view(bounds, visible_bounds),
                start == self.child_start(bounds, child_sizes@, idx as int),
                idx < n ==> i32::MIN <= start <= i32::MAX,
                children@.len() == idx,
                forall|k: int|
                    0 <= k < idx ==> {
                        &&& i32::MIN <= #[trigger] self.child_start(bounds, child_sizes@, k) <= i32::MAX
                        &&& k >= 1 ==> i32::MIN <= self.child_start(bounds, child_sizes@, k)
                            - HANDLE_HITBOX_SIZE / 2
                    },
                idx >= 1 && idx < n ==> i32::MIN <= start - HANDLE_HITBOX_SIZE / 2,
                forall|k: int|
                    0 <= k < idx ==> #[trigger] children@[k] == self.placement(
                        bounds,
                        in_view,
                        child_sizes@,
                        k,
                    ),
            decreases n - idx,
        {
            let size = child_sizes[idx];
            let origin = Vector2::on_axis(self.axis, start as i32, bounds.origin.along(cross));
            let next_start: i64 = start + size.along(self.axis) as i64;
            proof {
                assert(self.child_start(bounds, child_sizes@, idx + 1) == next_start);
            }
            let handle = if idx + 1 < n {
                if next_start - half < -0x8000_0000 || next_start > 0x7fff_ffff {
                    proof {
                        let k = idx + 1;
                        assert(!(i32::MIN <= self.child_start(bounds, child_sizes@, k) <= i32::MAX && (k
                            >= 1 ==> i32::MIN <= self.child_start(bounds, child_sizes@, k)
                            - HANDLE_HITBOX_SIZE / 2)));
                    }
                    return None;
                }
                Some(
                    Handle {
                        id: self.basis.wrapping_add(idx),
                        bounds: Rect::new(
                            Vector2::on_axis(
                                self.axis,
                                (next_start - half) as i32,
                                bounds.origin.along(cross),
                            ),
                            Vector2::on_axis(self.axis, HANDLE_HITBOX_SIZE, in_view.size.along(cross)),
                        ),
                        cursor: resize_cursor(self.axis),
                        drag: DividerDrag {
                            axis: self.axis,
                            ix: idx,
                            child_start: origin,
                            child_size: size,
                            next_child_size: child_sizes[idx + 1],
                            drag_bounds: in_view,
                        },
                    },
                )
            } else {
                None
            };
            children.push(Placement { origin, handle });
            start = next_start;
            idx += 1;
        }
        let clip = if remaining_space < 0 {
            Some(in_view)
        } else {
            None
        };
        Some(Painting { clip, children })
    }
}

} // verus!
