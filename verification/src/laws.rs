//! What holds of every pane tree and of every edit of one.

use vstd::prelude::*;
use crate::direction::SplitDirection;
use crate::geometry::Vector2;
use crate::layout::{flex_sum, share};
use crate::model::{new_axis, uniform_flexes, MemberView, PaneAxisView, PaneId, FLEX_ONE};
use crate::resize::{min_size, DividerDrag};

verus! {

/// The list of the leaves below the first `n` members of an axis is as long
/// as their count.
pub proof fn law_axis_pane_count(axis: PaneAxisView, n: nat)
    ensures
        axis.panes_of_first(n).len() == axis.pane_count_of_first(n),
    decreases axis, n,
{
    if n == 0 || n > axis.members.len() {
    } else {
        law_axis_pane_count(axis, (n - 1) as nat);
        law_pane_count(axis.members[n - 1]);
    }
}

/// The list of the panes of a tree is as long as the number of its leaves.
pub proof fn law_pane_count(member: MemberView)
    ensures
        member.panes().len() == member.pane_count(),
    decreases member, 0nat,
{
    match member {
        MemberView::Pane(_) => {},
        MemberView::Axis(axis) => {
            law_axis_pane_count(axis, axis.members.len());
        },
    }
}

/// A well-formed tree is never empty: it has a pane, and an axis in it has at
/// least two.
pub proof fn law_wf_has_a_pane(member: MemberView)
    requires
        member.wf(),
    ensures
        member.pane_count() >= 1,
        member is Axis ==> member.pane_count() >= 2,
    decreases member,
{
    match member {
        MemberView::Pane(_) => {},
        MemberView::Axis(axis) => {
            let n = axis.members.len();
            law_wf_has_a_pane(axis.members[n - 1]);
            law_wf_has_a_pane(axis.members[n - 2]);
            assert(axis.pane_count_of_first(n) == axis.pane_count_of_first((n - 2) as nat)
                + axis.members[n - 2].pane_count() + axis.members[n - 1].pane_count()) by {
                reveal_with_fuel(PaneAxisView::pane_count_of_first, 3);
            }
        },
    }
}

/// A pane is listed among the leaves below the first `n` members of an axis
/// if and only if one of these members contains it.
pub proof fn law_axis_listed(axis: PaneAxisView, n: nat, pane: PaneId)
    requires
        n <= axis.members.len(),
    ensures
        axis.panes_of_first(n).contains(pane) <==> exists|i: int|
            0 <= i < n && (#[trigger] axis.members[i]).contains(pane),
    decreases axis, n,
{
    if n == 0 {
        assert(axis.panes_of_first(n) =~= Seq::<PaneId>::empty());
    } else {
        let head = axis.panes_of_first((n - 1) as nat);
        let last = axis.members[n - 1].panes();
        law_axis_listed(axis, (n - 1) as nat, pane);
        law_listed(axis.members[n - 1], pane);
        assert(axis.panes_of_first(n) == head + last);
        if head.contains(pane) {
            let k = choose|k: int| 0 <= k < head.len() && head[k] == pane;
            assert((head + last)[k] == pane);
        }
        if last.contains(pane) {
            let k = choose|k: int| 0 <= k < last.len() && last[k] == pane;
            assert((head + last)[head.len() + k] == pane);
            assert(axis.members[n - 1].contains(pane));
        }
        if (head + last).contains(pane) {
            let k = choose|k: int| 0 <= k < (head + last).len() && (head + last)[k] == pane;
            if k < head.len() {
                assert(head[k] == pane);
            } else {
                assert(last[k - head.len()] == pane);
            }
        }
    }
}

/// A tree contains a pane if and only if the pane is in the list of its
/// panes.
pub proof fn law_listed(member: MemberView, pane: PaneId)
    ensures
        member.contains(pane) <==> member.panes().contains(pane),
    decreases member, 0nat,
{
    match member {
        MemberView::Pane(p) => {
            assert(seq![p][0] == p);
        },
        MemberView::Axis(axis) => {
            law_axis_listed(axis, axis.members.len(), pane);
        },
    }
}

/// Splitting a lone pane puts a two-member axis in its place: the pane and
/// the new pane, the new pane second if the direction is down or right and
/// first if it is up or left, along the axis of the direction and with the
/// weight one each.
pub proof fn law_split_lone_pane(old_pane: PaneId, new_pane: PaneId, direction: SplitDirection)
    ensures
        MemberView::Pane(old_pane).with_split(old_pane, new_pane, direction) matches MemberView::Axis(
            axis,
        ) && {
            &&& axis.axis == direction.axis()
            &&& axis.members == if direction.increasing() {
                seq![MemberView::Pane(old_pane), MemberView::Pane(new_pane)]
            } else {
                seq![MemberView::Pane(new_pane), MemberView::Pane(old_pane)]
            }
            &&& axis.flexes == seq![FLEX_ONE, FLEX_ONE]
        },
{
    assert(uniform_flexes(2) =~= seq![FLEX_ONE, FLEX_ONE]);
}

/// Splitting a pane that is a member of an axis, in a direction along that
/// axis, makes the new pane its neighbour in the same axis: after it if the
/// direction is increasing, before it otherwise. The axis has one member
/// more, and each of its weights is one.
pub proof fn law_split_along_axis(
    axis: PaneAxisView,
    i: int,
    old_pane: PaneId,
    new_pane: PaneId,
    direction: SplitDirection,
)
    requires
        0 <= i < axis.members.len(),
        axis.members[i] == MemberView::Pane(old_pane),
        forall|j: int| 0 <= j < i ==> !(#[trigger] axis.members[j]).contains(old_pane),
        direction.axis() == axis.axis,
    ensures
        ({
            let after = axis.with_split(old_pane, new_pane, direction);
            &&& after.axis == axis.axis
            &&& after.members == axis.members.insert(
                if direction.increasing() {
                    i + 1
                } else {
                    i
                },
                MemberView::Pane(new_pane),
            )
            &&& after.members.len() == axis.members.len() + 1
            &&& after.flexes.len() == after.members.len()
            &&& forall|k: int| 0 <= k < after.flexes.len() ==> after.flexes[k] == FLEX_ONE
        }),
{
    axis.lemma_holder_is(old_pane, i);
}

/// Splitting a pane that is a member of an axis, in a direction across that
/// axis, puts a two-member axis in the place of that member and leaves the
/// other members and the weights as they were.
pub proof fn law_split_across_axis(
    axis: PaneAxisView,
    i: int,
    old_pane: PaneId,
    new_pane: PaneId,
    direction: SplitDirection,
)
    requires
        0 <= i < axis.members.len(),
        axis.members[i] == MemberView::Pane(old_pane),
        forall|j: int| 0 <= j < i ==> !(#[trigger] axis.members[j]).contains(old_pane),
        direction.axis() != axis.axis,
    ensures
        ({
            let after = axis.with_split(old_pane, new_pane, direction);
            &&& after.axis == axis.axis
            &&& after.members == axis.members.update(i, new_axis(old_pane, new_pane, direction))
            &&& after.flexes == axis.flexes
        }),
{
    axis.lemma_holder_is(old_pane, i);
}

/// Removing one of the two members of an axis, a pane, leaves the other
/// member in the place of the axis, whether that member is a pane or an axis.
pub proof fn law_remove_collapses(axis: PaneAxisView, i: int, pane: PaneId)
    requires
        axis.members.len() == 2,
        0 <= i < 2,
        axis.members[i] == MemberView::Pane(pane),
        i == 1 ==> !axis.members[0].contains(pane),
    ensures
        MemberView::Axis(axis).without(pane) == axis.members[1 - i],
{
    axis.lemma_holder_is(pane, i);
}

/// A split keeps an axis well formed: one weight for each member, every
/// weight positive, and at least two members in every axis.
pub proof fn law_axis_split_keeps_wf(
    axis: PaneAxisView,
    old_pane: PaneId,
    new_pane: PaneId,
    direction: SplitDirection,
)
    requires
        axis.wf(),
    ensures
        axis.with_split(old_pane, new_pane, direction).wf(),
    decreases axis,
{
    let i = axis.holder(old_pane);
    let after = axis.with_split(old_pane, new_pane, direction);
    if !(0 <= i < axis.members.len()) {
    } else if axis.members[i] is Pane && direction.axis() == axis.axis {
        assert forall|k: int| 0 <= k < after.members.len() implies (#[trigger] after.members[k]).wf() by {
            let at = if direction.increasing() {
                i + 1
            } else {
                i
            };
            if k < at {
                assert(after.members[k] == axis.members[k]);
            } else if k > at {
                assert(after.members[k] == axis.members[k - 1]);
            }
        }
    } else {
        law_split_keeps_wf(axis.members[i], old_pane, new_pane, direction);
        assert forall|k: int| 0 <= k < after.members.len() implies (#[trigger] after.members[k]).wf() by {
            if k != i {
                assert(after.members[k] == axis.members[k]);
            }
        }
    }
}

/// A split keeps a tree well formed.
pub proof fn law_split_keeps_wf(
    member: MemberView,
    old_pane: PaneId,
    new_pane: PaneId,
    direction: SplitDirection,
)
    requires
        member.wf(),
    ensures
        member.with_split(old_pane, new_pane, direction).wf(),
    decreases member,
{
    match member {
        MemberView::Pane(p) => {
            if p == old_pane {
                let made = new_axis(old_pane, new_pane, direction)->Axis_0;
                assert(made.members[0] is Pane && made.members[1] is Pane);
                assert(made.weighted());
            }
        },
        MemberView::Axis(axis) => {
            law_axis_split_keeps_wf(axis, old_pane, new_pane, direction);
        },
    }
}

/// A removal keeps an axis weighted: one weight for each member, every weight
/// positive, and every member well formed. The axis may be left with a
/// single member, which then takes its place.
pub proof fn law_axis_remove_keeps_weighted(axis: PaneAxisView, pane: PaneId)
    requires
        axis.wf(),
    ensures
        axis.without(pane).weighted(),
        axis.without(pane).members.len() >= 1,
    decreases axis,
{
    let i = axis.holder(pane);
    let after = axis.without(pane);
    if !(0 <= i < axis.members.len()) {
    } else if axis.members[i] is Pane {
        assert forall|k: int| 0 <= k < after.members.len() implies (#[trigger] after.members[k]).wf() by {
            if k < i {
                assert(after.members[k] == axis.members[k]);
            } else {
                assert(after.members[k] == axis.members[k + 1]);
            }
        }
    } else {
        law_remove_keeps_wf(axis.members[i], pane);
        assert forall|k: int| 0 <= k < after.members.len() implies (#[trigger] after.members[k]).wf() by {
            if k != i {
                assert(after.members[k] == axis.members[k]);
            }
        }
    }
}

/// A removal keeps a tree well formed.
pub proof fn law_remove_keeps_wf(member: MemberView, pane: PaneId)
    requires
        member.wf(),
    ensures
        member.without(pane).wf(),
    decreases member,
{
    match member {
        MemberView::Pane(_) => {},
        MemberView::Axis(axis) => {
            if axis.contains(pane) {
                law_axis_remove_keeps_weighted(axis, pane);
                let after = axis.without(pane);
                if after.members.len() == 1 {
                    assert(after.members[0].wf());
                }
            }
        },
    }
}

/// A drag on a divider whose neighbours are both at least as large as the
/// least extent resizes neither of them to less than the least extent.
pub proof fn law_drag_respects_min_size(drag: DividerDrag, position: Vector2)
    requires
        drag.resizable(),
    ensures
        drag.spec_target_size(position) >= min_size(drag.axis),
        drag.child_size.along(drag.axis) + drag.next_child_size.along(drag.axis)
            - drag.spec_target_size(position) >= min_size(drag.axis),
{
}

/// Two lists of weights that agree on a range have the same sum over it.
pub proof fn law_flex_sum_of_equal_ranges(a: Seq<i64>, b: Seq<i64>, from: int, to: int)
    requires
        forall|i: int| from <= i < to ==> a[i] == b[i],
    ensures
        flex_sum(a, from, to) == flex_sum(b, from, to),
    decreases to - from,
{
    if from < to {
        law_flex_sum_of_equal_ranges(a, b, from, to - 1);
    }
}

/// Moving weight across a divider changes the two weights beside it and
/// nothing else. What one of them gains the other loses: their sum stays, and
/// so does the sum of all the weights of the axis.
pub proof fn law_drag_conserves_flex(axis: PaneAxisView, ix: int, change: int)
    requires
        0 <= ix,
        ix + 1 < axis.flexes.len(),
        i64::MIN <= axis.flexes[ix] + change <= i64::MAX,
        i64::MIN <= axis.flexes[ix + 1] - change <= i64::MAX,
    ensures
        ({
            let after = axis.with_flex_shift(ix, change);
            &&& after.axis == axis.axis
            &&& after.members == axis.members
            &&& after.flexes.len() == axis.flexes.len()
            &&& after.flexes[ix] == axis.flexes[ix] + change
            &&& after.flexes[ix + 1] == axis.flexes[ix + 1] - change
            &&& after.flexes[ix] + after.flexes[ix + 1] == axis.flexes[ix] + axis.flexes[ix + 1]
            &&& forall|k: int|
                0 <= k < axis.flexes.len() && k != ix && k != ix + 1 ==> after.flexes[k]
                    == axis.flexes[k]
            &&& flex_sum(after.flexes, 0, after.flexes.len() as int) == flex_sum(
                axis.flexes,
                0,
                axis.flexes.len() as int,
            )
        }),
{
    let after = axis.with_flex_shift(ix, change);
    let n = axis.flexes.len() as int;
    crate::layout::lemma_flex_sum_split(axis.flexes, 0, ix, n);
    crate::layout::lemma_flex_sum_split(axis.flexes, ix, ix + 2, n);
    crate::layout::lemma_flex_sum_split(after.flexes, 0, ix, n);
    crate::layout::lemma_flex_sum_split(after.flexes, ix, ix + 2, n);
    law_flex_sum_of_equal_ranges(axis.flexes, after.flexes, 0, ix);
    law_flex_sum_of_equal_ranges(axis.flexes, after.flexes, ix + 2, n);
    assert(flex_sum(axis.flexes, ix, ix + 2) == axis.flexes[ix] + axis.flexes[ix + 1]) by {
        reveal_with_fuel(flex_sum, 3);
    }
    assert(flex_sum(after.flexes, ix, ix + 2) == after.flexes[ix] + after.flexes[ix + 1]) by {
        reveal_with_fuel(flex_sum, 3);
    }
}

/// Moving weight across a divider keeps an axis well formed if the two
/// weights beside the divider are positive afterwards.
pub proof fn law_flex_shift_keeps_wf(axis: PaneAxisView, ix: int, change: int)
    requires
        axis.wf(),
        0 <= ix,
        ix + 1 < axis.flexes.len(),
        0 < axis.flexes[ix] + change <= i64::MAX,
        0 < axis.flexes[ix + 1] - change <= i64::MAX,
    ensures
        axis.with_flex_shift(ix, change).wf(),
{
    let after = axis.with_flex_shift(ix, change);
    assert forall|i: int| 0 <= i < after.flexes.len() implies #[trigger] after.flexes[i] > 0 by {
        if i != ix && i != ix + 1 {
            assert(after.flexes[i] == axis.flexes[i]);
        }
    }
}

/// A drag keeps the two weights beside the divider positive if neither
/// neighbour is a larger part of the axis in view than its weight is of the
/// weight one.
pub proof fn law_drag_keeps_weights_positive(
    drag: DividerDrag,
    position: Vector2,
    flex: i64,
    next_flex: i64,
)
    requires
        drag.resizable(),
        drag.drag_bounds.length_along(drag.axis) > 0,
        drag.child_size.along(drag.axis) * FLEX_ONE <= flex * drag.drag_bounds.length_along(
            drag.axis,
        ),
        drag.next_child_size.along(drag.axis) * FLEX_ONE <= next_flex
            * drag.drag_bounds.length_along(drag.axis),
    ensures
        flex + drag.spec_flex_change(position) > 0,
        next_flex - drag.spec_flex_change(position) > 0,
{
    let floor = min_size(drag.axis) as int;
    let size = drag.child_size.along(drag.axis) as int;
    let next = drag.next_child_size.along(drag.axis) as int;
    let length = drag.drag_bounds.length_along(drag.axis) as int;
    let target = drag.spec_target_size(position);
    let scaled = (target - size) * FLEX_ONE;
    let f = flex as int;
    let g = next_flex as int;
    assert(floor >= 80);
    assert(f > 0 && g > 0) by (nonlinear_arith)
        requires
            size >= 80,
            next >= 80,
            length > 0,
            size * 65536 <= f * length,
            next * 65536 <= g * length,
    ;
    if scaled >= 0 {
        let q = scaled / length;
        vstd::arithmetic::div_mod::lemma_fundamental_div_mod(scaled, length);
        vstd::arithmetic::div_mod::lemma_mod_bound(scaled, length);
        assert(0 <= q < g) by (nonlinear_arith)
            requires
                scaled == length * q + scaled % length,
                0 <= scaled % length < length,
                scaled >= 0,
                scaled == (target - size) * 65536,
                target - size <= next - floor,
                floor >= 80,
                next * 65536 <= g * length,
                length > 0,
        ;
    } else {
        let q = (-scaled) / length;
        vstd::arithmetic::div_mod::lemma_fundamental_div_mod(-scaled, length);
        vstd::arithmetic::div_mod::lemma_mod_bound(-scaled, length);
        assert(0 <= q < f) by (nonlinear_arith)
            requires
                -scaled == length * q + (-scaled) % length,
                0 <= (-scaled) % length < length,
                scaled < 0,
                scaled == (target - size) * 65536,
                target - size >= floor - size,
                floor >= 80,
                size * 65536 <= f * length,
                length > 0,
        ;
    }
}

/// Moving weight across a divider somewhere in a tree keeps the tree well
/// formed if the two weights beside the divider are positive afterwards.
pub proof fn law_flex_shift_at_keeps_wf(
    member: MemberView,
    path: Seq<usize>,
    from: int,
    ix: int,
    change: int,
)
    requires
        member.wf(),
        0 <= from,
        member.axis_at(path, from) matches Some(axis) && {
            &&& 0 <= ix
            &&& ix + 1 < axis.flexes.len()
            &&& 0 < axis.flexes[ix] + change <= i64::MAX
            &&& 0 < axis.flexes[ix + 1] - change <= i64::MAX
        },
    ensures
        member.with_flex_shift_at(path, from, ix, change).wf(),
    decreases path.len() - from,
{
    let axis = member->Axis_0;
    if from >= path.len() {
        law_flex_shift_keeps_wf(axis, ix, change);
    } else {
        let at = path[from] as int;
        law_flex_shift_at_keeps_wf(axis.members[at], path, from + 1, ix, change);
        let after = member.with_flex_shift_at(path, from, ix, change)->Axis_0;
        assert forall|k: int| 0 <= k < after.members.len() implies (#[trigger] after.members[k]).wf() by {
            if k != at {
                assert(after.members[k] == axis.members[k]);
            }
        }
    }
}

/// The space that is left before the member at index `k` when every member
/// before it took exactly the span that it was offered.
pub open spec fn space_left(flexes: Seq<i64>, space: int, k: int) -> int
    decreases k,
{
    if k <= 0 {
        space
    } else {
        let before = space_left(flexes, space, k - 1);
        before - share(before, flexes[k - 1] as int, flex_sum(flexes, k - 1, flexes.len() as int))
    }
}

/// Members that take exactly the spans that they are offered never take more
/// than is left, and the last of them takes all that is left: together they
/// fill the space.
pub proof fn law_shares_fill_the_space(flexes: Seq<i64>, space: int, k: int)
    requires
        space >= 0,
        0 <= k <= flexes.len(),
        forall|i: int| 0 <= i < flexes.len() ==> #[trigger] flexes[i] >= 0,
    ensures
        0 <= space_left(flexes, space, k) <= space,
        k < flexes.len() ==> 0 <= share(
            space_left(flexes, space, k),
            flexes[k] as int,
            flex_sum(flexes, k, flexes.len() as int),
        ) <= space_left(flexes, space, k),
        k == flexes.len() && k >= 1 ==> space_left(flexes, space, k) == 0,
    decreases k,
{
    let n = flexes.len() as int;
    if k > 0 {
        law_shares_fill_the_space(flexes, space, k - 1);
    }
    let left = space_left(flexes, space, k);
    if k < n {
        let flex = flexes[k] as int;
        let rest = flex_sum(flexes, k, n);
        crate::layout::lemma_flex_sum_split(flexes, k, k + 1, n);
        crate::layout::lemma_flex_sum_nonnegative(flexes, k + 1, n);
        assert(flex_sum(flexes, k, k + 1) == flex) by {
            reveal_with_fuel(flex_sum, 2);
        }
        if rest != 0 {
            law_part_of_a_whole(left, flex, rest);
        }
    }
    if k == n && k >= 1 {
        let before = space_left(flexes, space, k - 1);
        let flex = flexes[k - 1] as int;
        assert(flex_sum(flexes, k - 1, n) == flex) by {
            reveal_with_fuel(flex_sum, 2);
        }
        if flex != 0 {
            vstd::arithmetic::div_mod::lemma_div_multiples_vanish(before, flex);
            assert(before * flex == flex * before) by (nonlinear_arith);
        }
    }
}

/// The part of a space that a weight is of a greater weight, rounded down, is
/// between nothing and the space.
pub proof fn law_part_of_a_whole(space: int, flex: int, whole: int)
    requires
        space >= 0,
        0 <= flex <= whole,
        whole > 0,
    ensures
        0 <= (space * flex) / whole <= space,
{
    let q = (space * flex) / whole;
    vstd::arithmetic::div_mod::lemma_fundamental_div_mod(space * flex, whole);
    vstd::arithmetic::div_mod::lemma_mod_bound(space * flex, whole);
    assert(0 <= q <= space) by (nonlinear_arith)
        requires
            space * flex == whole * q + (space * flex) % whole,
            0 <= (space * flex) % whole < whole,
            space >= 0,
            0 <= flex <= whole,
            whole > 0,
    ;
}

} // verus!
