//! What an edit of the tree does to the list of its panes.

use vstd::prelude::*;
use crate::direction::SplitDirection;
use crate::laws::{law_axis_listed, law_listed};
use crate::model::{MemberView, PaneAxisView, PaneId};

verus! {

/// The leaves below the members of `axis` from the index `from` up to, not
/// including, `to`, in order.
pub open spec fn panes_between(axis: PaneAxisView, from: int, to: int) -> Seq<PaneId>
    decreases to - from,
{
    if from >= to {
        Seq::empty()
    } else {
        panes_between(axis, from, to - 1) + axis.members[to - 1].panes()
    }
}

/// The least index from `from` on at which `pane` stands in `panes`; the
/// length of `panes` if it stands nowhere.
pub open spec fn first_index(panes: Seq<PaneId>, pane: PaneId, from: int) -> int
    decreases panes.len() - from,
{
    if from < 0 || from >= panes.len() {
        panes.len() as int
    } else if panes[from] == pane {
        from
    } else {
        first_index(panes, pane, from + 1)
    }
}

/// The leaves below the first members of an axis are the leaves between the
/// first member and the member that follows them.
pub proof fn lemma_between_from_the_first(axis: PaneAxisView, n: int)
    requires
        0 <= n <= axis.members.len(),
    ensures
        panes_between(axis, 0, n) == axis.panes_of_first(n as nat),
    decreases n,
{
    if n > 0 {
        lemma_between_from_the_first(axis, n - 1);
    }
}

/// The leaves below a range of members are those below its first part and
/// then those below the rest.
pub proof fn lemma_between_split(axis: PaneAxisView, from: int, mid: int, to: int)
    requires
        from <= mid <= to,
    ensures
        panes_between(axis, from, to) == panes_between(axis, from, mid) + panes_between(
            axis,
            mid,
            to,
        ),
    decreases to - mid,
{
    if mid < to {
        lemma_between_split(axis, from, mid, to - 1);
        assert(panes_between(axis, from, to) =~= panes_between(axis, from, mid) + panes_between(
            axis,
            mid,
            to,
        ));
    } else {
        assert(panes_between(axis, from, to) =~= panes_between(axis, from, mid) + panes_between(
            axis,
            mid,
            to,
        ));
    }
}

/// Two axes that have the same members in a range, the one `by` places
/// further on than the other, have the same leaves below them.
pub proof fn lemma_between_shifted(a: PaneAxisView, b: PaneAxisView, from: int, to: int, by: int)
    requires
        forall|j: int| from <= j < to ==> b.members[j + by] == #[trigger] a.members[j],
    ensures
        panes_between(b, from + by, to + by) == panes_between(a, from, to),
    decreases to - from,
{
    if from < to {
        lemma_between_shifted(a, b, from, to - 1, by);
        assert(b.members[to - 1 + by] == a.members[to - 1]);
    }
}

/// The search from `from` ends at `i` if `pane` stands nowhere from `from` up
/// to `i`, and at `i` unless `i` is the length.
pub proof fn lemma_first_index_is(panes: Seq<PaneId>, pane: PaneId, from: int, i: int)
    requires
        0 <= from <= i <= panes.len(),
        forall|j: int| from <= j < i ==> panes[j] != pane,
        i < panes.len() ==> panes[i] == pane,
    ensures
        first_index(panes, pane, from) == i,
    decreases i - from,
{
    if from < i {
        lemma_first_index_is(panes, pane, from + 1, i);
    }
}

/// The search for a pane that is listed ends at it, and the pane stands
/// nowhere before.
pub proof fn lemma_first_index_found(panes: Seq<PaneId>, pane: PaneId, from: int)
    requires
        0 <= from,
        exists|j: int| from <= j < panes.len() && panes[j] == pane,
    ensures
        from <= first_index(panes, pane, from) < panes.len(),
        panes[first_index(panes, pane, from)] == pane,
        forall|j: int| from <= j < first_index(panes, pane, from) ==> panes[j] != pane,
    decreases panes.len() - from,
{
    if panes[from] != pane {
        let j = choose|j: int| from <= j < panes.len() && panes[j] == pane;
        assert(from + 1 <= j);
        lemma_first_index_found(panes, pane, from + 1);
    }
}

/// The list of an axis in three parts: the leaves before the member at `i`,
/// the leaves of that member, and the leaves after it.
pub proof fn lemma_list_around(axis: PaneAxisView, i: int)
    requires
        0 <= i < axis.members.len(),
    ensures
        axis.panes() == panes_between(axis, 0, i) + axis.members[i].panes() + panes_between(
            axis,
            i + 1,
            axis.members.len() as int,
        ),
{
    let n = axis.members.len() as int;
    lemma_between_from_the_first(axis, n);
    lemma_between_split(axis, 0, i + 1, n);
    assert(panes_between(axis, 0, i + 1) == panes_between(axis, 0, i) + axis.members[i].panes());
}

/// Where a pane stands first in the list of an axis: after the leaves of the
/// members before the first member that contains it, as far on as it stands
/// first in the list of that member.
pub proof fn lemma_first_index_in_axis(axis: PaneAxisView, pane: PaneId)
    requires
        axis.contains(pane),
    ensures
        ({
            let i = axis.holder(pane);
            let before = panes_between(axis, 0, i);
            let within = axis.members[i].panes();
            &&& 0 <= i < axis.members.len()
            &&& axis.members[i].contains(pane)
            &&& forall|j: int| 0 <= j < i ==> !(#[trigger] axis.members[j]).contains(pane)
            &&& 0 <= first_index(within, pane, 0) < within.len()
            &&& first_index(axis.panes(), pane, 0) == before.len() + first_index(within, pane, 0)
        }),
{
    lemma_holder_found(axis, pane, 0);
    let i = axis.holder(pane);
    let before = panes_between(axis, 0, i);
    let within = axis.members[i].panes();
    lemma_list_around(axis, i);
    lemma_between_from_the_first(axis, i);
    law_axis_listed(axis, i as nat, pane);
    law_listed(axis.members[i], pane);
    assert(!before.contains(pane));
    lemma_first_index_found(within, pane, 0);
    let k = first_index(within, pane, 0);
    let whole = axis.panes();
    assert forall|j: int| 0 <= j < before.len() + k implies whole[j] != pane by {
        if j < before.len() {
            assert(whole[j] == before[j]);
            if before[j] == pane {
                assert(before.contains(pane));
            }
        } else {
            assert(whole[j] == within[j - before.len()]);
        }
    }
    assert(whole[before.len() + k] == within[k]);
    lemma_first_index_is(whole, pane, 0, before.len() + k);
}

/// The search for a member that contains `pane` ends at one if there is one
/// from `from` on, and no member before it contains the pane.
pub proof fn lemma_holder_found(axis: PaneAxisView, pane: PaneId, from: int)
    requires
        0 <= from,
        exists|j: int| from <= j < axis.members.len() && (#[trigger] axis.members[j]).contains(pane),
    ensures
        from <= axis.holder_from(pane, from) < axis.members.len(),
        axis.members[axis.holder_from(pane, from)].contains(pane),
        forall|j: int|
            from <= j < axis.holder_from(pane, from) ==> !(#[trigger] axis.members[j]).contains(pane),
    decreases axis.members.len() - from,
{
    if !axis.members[from].contains(pane) {
        let j = choose|j: int|
            from <= j < axis.members.len() && (#[trigger] axis.members[j]).contains(pane);
        assert(from + 1 <= j);
        lemma_holder_found(axis, pane, from + 1);
    }
}

/// A list with one pane more between two parts of it.
pub proof fn lemma_insert_within(
    before: Seq<PaneId>,
    within: Seq<PaneId>,
    behind: Seq<PaneId>,
    k: int,
    pane: PaneId,
)
    requires
        0 <= k <= within.len(),
    ensures
        before + within.insert(k, pane) + behind == (before + within + behind).insert(
            before.len() + k,
            pane,
        ),
{
    assert(before + within.insert(k, pane) + behind =~= (before + within + behind).insert(
        before.len() + k,
        pane,
    ));
}

/// A list with one pane less between two parts of it.
pub proof fn lemma_remove_within(
    before: Seq<PaneId>,
    within: Seq<PaneId>,
    behind: Seq<PaneId>,
    k: int,
)
    requires
        0 <= k < within.len(),
    ensures
        before + within.remove(k) + behind == (before + within + behind).remove(before.len() + k),
{
    assert(before + within.remove(k) + behind =~= (before + within + behind).remove(
        before.len() + k,
    ));
}

/// The list of an axis that has the members of `axis` and one more at `at`.
pub proof fn lemma_list_with_one_more(
    axis: PaneAxisView,
    more: PaneAxisView,
    at: int,
    member: MemberView,
)
    requires
        0 <= at <= axis.members.len(),
        more.members == axis.members.insert(at, member),
    ensures
        more.panes() == panes_between(axis, 0, at) + member.panes() + panes_between(
            axis,
            at,
            axis.members.len() as int,
        ),
{
    let n = axis.members.len() as int;
    lemma_list_around(more, at);
    lemma_between_shifted(axis, more, 0, at, 0);
    lemma_between_shifted(axis, more, at, n, 1);
}

/// The list of an axis that has the members of `axis` but for the one at `i`.
pub proof fn lemma_list_with_another(
    axis: PaneAxisView,
    other: PaneAxisView,
    i: int,
    member: MemberView,
)
    requires
        0 <= i < axis.members.len(),
        other.members == axis.members.update(i, member),
    ensures
        other.panes() == panes_between(axis, 0, i) + member.panes() + panes_between(
            axis,
            i + 1,
            axis.members.len() as int,
        ),
{
    let n = axis.members.len() as int;
    lemma_list_around(other, i);
    lemma_between_shifted(axis, other, 0, i, 0);
    lemma_between_shifted(axis, other, i + 1, n, 0);
}

/// The list of an axis that has the members of `axis` without the one at `i`.
pub proof fn lemma_list_with_one_less(axis: PaneAxisView, less: PaneAxisView, i: int)
    requires
        0 <= i < axis.members.len(),
        less.members == axis.members.remove(i),
    ensures
        less.panes() == panes_between(axis, 0, i) + panes_between(
            axis,
            i + 1,
            axis.members.len() as int,
        ),
{
    let n = axis.members.len() as int;
    lemma_between_from_the_first(less, n - 1);
    lemma_between_split(less, 0, i, n - 1);
    lemma_between_shifted(axis, less, 0, i, 0);
    lemma_between_shifted(axis, less, i + 1, n, -1);
}

/// The list of a member that is a pane.
pub proof fn lemma_list_of_a_pane(member: MemberView)
    requires
        member is Pane,
    ensures
        member.panes() == seq![member->Pane_0],
{
}

/// A split lists the new pane beside the pane that was split: in the list of
/// the panes, the new pane stands right after the first place of the old one
/// if the direction is increasing, and right before it otherwise. Every
/// other pane keeps its place in the order.
pub proof fn law_split_lists_new_beside_old(
    member: MemberView,
    old_pane: PaneId,
    new_pane: PaneId,
    direction: SplitDirection,
)
    requires
        member.contains(old_pane),
    ensures
        ({
            let at = first_index(member.panes(), old_pane, 0);
            member.with_split(old_pane, new_pane, direction).panes() == member.panes().insert(
                if direction.increasing() {
                    at + 1
                } else {
                    at
                },
                new_pane,
            )
        }),
    decreases member,
{
    let shift = if direction.increasing() {
        1int
    } else {
        0int
    };
    match member {
        MemberView::Pane(_) => {
            let listed = member.panes();
            let made = member.with_split(old_pane, new_pane, direction)->Axis_0;
            assert(listed == seq![old_pane]);
            assert(first_index(listed, old_pane, 0) == 0);
            let empty = PaneAxisView { axis: made.axis, members: Seq::empty(), flexes: made.flexes };
            let one = PaneAxisView {
                axis: made.axis,
                members: seq![MemberView::Pane(old_pane)],
                flexes: made.flexes,
            };
            assert(one.members =~= empty.members.insert(0, MemberView::Pane(old_pane)));
            lemma_list_with_one_more(empty, one, 0, MemberView::Pane(old_pane));
            assert(made.members =~= one.members.insert(shift, MemberView::Pane(new_pane)));
            lemma_list_with_one_more(one, made, shift, MemberView::Pane(new_pane));
            lemma_between_split(one, 0, shift, 1);
            lemma_between_from_the_first(one, 1);
            assert(panes_between(one, 0, 1) == listed);
            lemma_insert_within(
                panes_between(one, 0, shift),
                Seq::empty(),
                panes_between(one, shift, 1),
                0,
                new_pane,
            );
            assert(Seq::<PaneId>::empty().insert(0, new_pane) =~= seq![new_pane]);
            assert(panes_between(one, 0, shift) + Seq::<PaneId>::empty() =~= panes_between(
                one,
                0,
                shift,
            ));
            assert(panes_between(one, 0, shift).len() == shift) by {
                reveal_with_fuel(panes_between, 2);
            }
        },
        MemberView::Axis(axis) => {
            let n = axis.members.len() as int;
            lemma_first_index_in_axis(axis, old_pane);
            let i = axis.holder(old_pane);
            let before = panes_between(axis, 0, i);
            let within = axis.members[i].panes();
            let behind = panes_between(axis, i + 1, n);
            let k = first_index(within, old_pane, 0);
            lemma_list_around(axis, i);
            let split = axis.with_split(old_pane, new_pane, direction);
            if axis.members[i] is Pane && direction.axis() == axis.axis {
                lemma_list_of_a_pane(axis.members[i]);
                assert(k == 0);
                let at = i + shift;
                lemma_list_with_one_more(axis, split, at, MemberView::Pane(new_pane));
                let ahead = panes_between(axis, 0, at);
                let rest = panes_between(axis, at, n);
                lemma_between_split(axis, 0, at, n);
                lemma_between_from_the_first(axis, n);
                assert(ahead.len() == before.len() + shift) by {
                    if direction.increasing() {
                        assert(ahead == before + within);
                    }
                }
                lemma_insert_within(ahead, Seq::empty(), rest, 0, new_pane);
                assert(Seq::<PaneId>::empty().insert(0, new_pane) =~= seq![new_pane]);
                assert(ahead + Seq::<PaneId>::empty() =~= ahead);
            } else {
                law_split_lists_new_beside_old(axis.members[i], old_pane, new_pane, direction);
                lemma_list_with_another(
                    axis,
                    split,
                    i,
                    axis.members[i].with_split(old_pane, new_pane, direction),
                );
                lemma_insert_within(before, within, behind, k + shift, new_pane);
            }
        },
    }
}

/// A removal from an axis takes the pane out of the list of the panes at the
/// first place where it stood. Every other pane keeps its place in the
/// order.
pub proof fn law_remove_unlists_the_first(axis: PaneAxisView, pane: PaneId)
    requires
        axis.contains(pane),
    ensures
        MemberView::Axis(axis).without(pane).panes() == axis.panes().remove(
            first_index(axis.panes(), pane, 0),
        ),
        axis.without(pane).panes() == axis.panes().remove(first_index(axis.panes(), pane, 0)),
    decreases axis,
{
    let n = axis.members.len() as int;
    lemma_first_index_in_axis(axis, pane);
    let i = axis.holder(pane);
    let before = panes_between(axis, 0, i);
    let within = axis.members[i].panes();
    let behind = panes_between(axis, i + 1, n);
    let k = first_index(within, pane, 0);
    lemma_list_around(axis, i);
    let edited = axis.without(pane);
    if axis.members[i] is Pane {
        lemma_list_of_a_pane(axis.members[i]);
        assert(k == 0);
        lemma_list_with_one_less(axis, edited, i);
        lemma_remove_within(before, within, behind, 0);
        assert(within.remove(0) =~= Seq::<PaneId>::empty());
        assert(before + Seq::<PaneId>::empty() =~= before);
    } else {
        let inner = axis.members[i]->Axis_0;
        law_remove_unlists_the_first(inner, pane);
        lemma_list_with_another(axis, edited, i, axis.members[i].without(pane));
        lemma_remove_within(before, within, behind, k);
    }
    if edited.members.len() == 1 {
        let empty = PaneAxisView { axis: edited.axis, members: Seq::empty(), flexes: edited.flexes };
        assert(edited.members =~= empty.members.insert(0, edited.members[0]));
        lemma_list_with_one_more(empty, edited, 0, edited.members[0]);
        assert(panes_between(empty, 0, 0) + edited.members[0].panes() + panes_between(empty, 0, 0)
            =~= edited.members[0].panes());
    }
}

} // verus!
