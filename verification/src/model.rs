//! The mathematical model of a pane tree, and what splitting and removing
//! mean on it.

use vstd::prelude::*;
use crate::direction::SplitDirection;
use crate::geometry::Axis;

verus! {

/// The fixed-point weight that stands for one.
pub const FLEX_ONE: i64 = 65_536;

/// The identity of a pane. The tree knows nothing else of a pane.
#[derive(Clone, Copy, Debug, PartialEq, Eq, Hash, Structural)]
pub struct PaneId(pub u64);

/// A node of the tree, as a value.
pub enum MemberView {
    Pane(PaneId),
    Axis(PaneAxisView),
}

/// An axis of the tree, as a value: its members in layout order and one
/// weight for each.
pub struct PaneAxisView {
    pub axis: Axis,
    pub members: Seq<MemberView>,
    pub flexes: Seq<i64>,
}

/// `n` weights, each of them one.
pub open spec fn uniform_flexes(n: nat) -> Seq<i64> {
    Seq::new(n, |i: int| FLEX_ONE)
}

/// The two-member axis that takes the place of `old_pane` when it is split:
/// the new pane comes second if the direction is increasing, first otherwise.
pub open spec fn new_axis(old_pane: PaneId, new_pane: PaneId, direction: SplitDirection) -> MemberView {
    MemberView::Axis(
        PaneAxisView {
            axis: direction.axis(),
            members: if direction.increasing() {
                seq![MemberView::Pane(old_pane), MemberView::Pane(new_pane)]
            } else {
                seq![MemberView::Pane(new_pane), MemberView::Pane(old_pane)]
            },
            flexes: uniform_flexes(2),
        },
    )
}

impl MemberView {
    /// Whether `pane` is a leaf of this node.
    pub open spec fn contains(self, pane: PaneId) -> bool
        decreases self,
    {
        match self {
            MemberView::Pane(p) => p == pane,
            MemberView::Axis(a) => a.contains(pane),
        }
    }

    /// The leaves of this node, parents before children and members in
    /// layout order.
    pub open spec fn panes(self) -> Seq<PaneId>
        decreases self, 0nat,
    {
        match self {
            MemberView::Pane(p) => seq![p],
            MemberView::Axis(a) => a.panes(),
        }
    }

    /// The number of leaves of this node.
    pub open spec fn pane_count(self) -> nat
        decreases self, 0nat,
    {
        match self {
            MemberView::Pane(_) => 1,
            MemberView::Axis(a) => a.pane_count_of_first(a.members.len()),
        }
    }

    /// Every axis at or below this node has at least two members and is
    /// weighted as [`PaneAxisView::weighted`] says.
    pub open spec fn wf(self) -> bool
        decreases self, 0nat,
    {
        match self {
            MemberView::Pane(_) => true,
            MemberView::Axis(a) => a.wf(),
        }
    }

    /// This node after `old_pane` was split in `direction` to make room for
    /// `new_pane`; the node itself if it does not contain `old_pane`.
    pub open spec fn with_split(
        self,
        old_pane: PaneId,
        new_pane: PaneId,
        direction: SplitDirection,
    ) -> MemberView
        decreases self,
    {
        match self {
            MemberView::Pane(p) => if p == old_pane {
                new_axis(old_pane, new_pane, direction)
            } else {
                self
            },
            MemberView::Axis(a) => MemberView::Axis(a.with_split(old_pane, new_pane, direction)),
        }
    }

    /// The axis that is reached from this node by going, for each index of
    /// `path` from `from` on, to the member at that index; none if the way
    /// leaves the tree or ends at a pane.
    pub open spec fn axis_at(self, path: Seq<usize>, from: int) -> Option<PaneAxisView>
        decreases path.len() - from,
    {
        match self {
            MemberView::Pane(_) => None,
            MemberView::Axis(a) => if from < 0 || from >= path.len() {
                Some(a)
            } else if path[from] < a.members.len() {
                a.members[path[from] as int].axis_at(path, from + 1)
            } else {
                None
            },
        }
    }

    /// This node after the weight `change` has moved from the member at
    /// `ix + 1` to the member at `ix` in the axis at the end of `path`.
    pub open spec fn with_flex_shift_at(
        self,
        path: Seq<usize>,
        from: int,
        ix: int,
        change: int,
    ) -> MemberView
        decreases path.len() - from,
    {
        match self {
            MemberView::Pane(_) => self,
            MemberView::Axis(a) => if from < 0 || from >= path.len() {
                MemberView::Axis(a.with_flex_shift(ix, change))
            } else if path[from] < a.members.len() {
                MemberView::Axis(
                    PaneAxisView {
                        axis: a.axis,
                        members: a.members.update(
                            path[from] as int,
                            a.members[path[from] as int].with_flex_shift_at(path, from + 1, ix, change),
                        ),
                        flexes: a.flexes,
                    },
                )
            } else {
                self
            },
        }
    }

    /// This node after `pane` was removed from below it. A lone pane stays as
    /// it is, and so does an axis that does not contain `pane`; an axis that
    /// is left with one member gives way to that member.
    pub open spec fn without(self, pane: PaneId) -> MemberView
        decreases self,
    {
        match self {
            MemberView::Pane(_) => self,
            MemberView::Axis(a) => if a.contains(pane) {
                a.without(pane).collapsed()
            } else {
                self
            },
        }
    }
}

impl PaneAxisView {
    /// Whether `pane` is a leaf below this axis.
    pub open spec fn contains(self, pane: PaneId) -> bool
        decreases self,
    {
        exists|i: int| 0 <= i < self.members.len() && (#[trigger] self.members[i]).contains(pane)
    }

    /// The leaves below the first `n` members, in order.
    pub open spec fn panes_of_first(self, n: nat) -> Seq<PaneId>
        decreases self, n,
    {
        if n == 0 || n > self.members.len() {
            Seq::empty()
        } else {
            self.panes_of_first((n - 1) as nat) + self.members[n - 1].panes()
        }
    }

    /// The leaves below this axis, in order.
    pub open spec fn panes(self) -> Seq<PaneId>
        decreases self, self.members.len() + 1,
    {
        self.panes_of_first(self.members.len())
    }

    /// The number of leaves below the first `n` members.
    pub open spec fn pane_count_of_first(self, n: nat) -> nat
        decreases self, n,
    {
        if n == 0 || n > self.members.len() {
            0
        } else {
            self.pane_count_of_first((n - 1) as nat) + self.members[n - 1].pane_count()
        }
    }

    /// There is one weight for each member, every weight is positive, and
    /// every member is well formed.
    pub open spec fn weighted(self) -> bool
        decreases self, 0nat,
    {
        &&& self.flexes.len() == self.members.len()
        &&& forall|i: int| 0 <= i < self.flexes.len() ==> #[trigger] self.flexes[i] > 0
        &&& forall|i: int| 0 <= i < self.members.len() ==> (#[trigger] self.members[i]).wf()
    }

    /// The axis is weighted and has at least two members.
    pub open spec fn wf(self) -> bool
        decreases self, 1nat,
    {
        self.members.len() >= 2 && self.weighted()
    }

    /// The least index from `from` on of a member that contains `pane`; the
    /// number of members if there is none.
    pub open spec fn holder_from(self, pane: PaneId, from: int) -> int
        decreases self.members.len() - from,
    {
        if from < 0 || from >= self.members.len() {
            self.members.len() as int
        } else if self.members[from].contains(pane) {
            from
        } else {
            self.holder_from(pane, from + 1)
        }
    }

    /// The index of the first member that contains `pane`; the number of
    /// members if there is none.
    pub open spec fn holder(self, pane: PaneId) -> int {
        self.holder_from(pane, 0)
    }

    /// This axis after `old_pane` was split in `direction` to make room for
    /// `new_pane`; the axis itself if `old_pane` is not below it.
    ///
    /// The split happens in the first member that contains `old_pane`. Where
    /// that member is the pane and the direction runs along this axis, the
    /// new pane becomes its neighbour and every weight of this axis becomes
    /// one. Otherwise the member is split in place and the weights stay.
    pub open spec fn with_split(
        self,
        old_pane: PaneId,
        new_pane: PaneId,
        direction: SplitDirection,
    ) -> PaneAxisView
        decreases self,
    {
        let i = self.holder(old_pane);
        if !(0 <= i < self.members.len()) {
            self
        } else if self.members[i] is Pane && direction.axis() == self.axis {
            PaneAxisView {
                axis: self.axis,
                members: self.members.insert(
                    if direction.increasing() {
                        i + 1
                    } else {
                        i
                    },
                    MemberView::Pane(new_pane),
                ),
                flexes: uniform_flexes(self.members.len() + 1),
            }
        } else {
            PaneAxisView {
                axis: self.axis,
                members: self.members.update(
                    i,
                    self.members[i].with_split(old_pane, new_pane, direction),
                ),
                flexes: self.flexes,
            }
        }
    }

    /// This axis after `pane` was removed from below it, before the axis
    /// itself gives way to a single member that is left.
    ///
    /// The removal happens in the first member that contains `pane`. Where
    /// that member is the pane, it leaves and every weight of this axis
    /// becomes one. Otherwise the pane is removed from below the member and
    /// the weights stay.
    pub open spec fn without(self, pane: PaneId) -> PaneAxisView
        decreases self,
    {
        let i = self.holder(pane);
        if !(0 <= i < self.members.len()) {
            self
        } else if self.members[i] is Pane {
            PaneAxisView {
                axis: self.axis,
                members: self.members.remove(i),
                flexes: uniform_flexes((self.members.len() - 1) as nat),
            }
        } else {
            PaneAxisView {
                axis: self.axis,
                members: self.members.update(i, self.members[i].without(pane)),
                flexes: self.flexes,
            }
        }
    }

    /// What stands for this axis in its parent: its only member if it has
    /// exactly one, the axis itself otherwise.
    pub open spec fn collapsed(self) -> MemberView {
        if self.members.len() == 1 {
            self.members[0]
        } else {
            MemberView::Axis(self)
        }
    }

    /// The weight `change` can move from the member at `ix + 1` to the member
    /// at `ix`: both have a weight, and the new weights are within the range
    /// of weights.
    pub open spec fn can_shift_flex(self, ix: int, change: int) -> bool {
        &&& 0 <= ix
        &&& ix + 1 < self.flexes.len()
        &&& i64::MIN <= self.flexes[ix] + change <= i64::MAX
        &&& i64::MIN <= self.flexes[ix + 1] - change <= i64::MAX
    }

    /// This axis after the weight `change` has moved from the member at
    /// `ix + 1` to the member at `ix`.
    pub open spec fn with_flex_shift(self, ix: int, change: int) -> PaneAxisView {
        PaneAxisView {
            axis: self.axis,
            members: self.members,
            flexes: self.flexes.update(ix, (self.flexes[ix] + change) as i64).update(
                ix + 1,
                (self.flexes[ix + 1] - change) as i64,
            ),
        }
    }

    /// This axis with its members taken out.
    pub open spec fn emptied(self) -> PaneAxisView {
        PaneAxisView { axis: self.axis, members: Seq::empty(), flexes: self.flexes }
    }
}

} // verus!

verus! {

impl PaneAxisView {
    /// If no member from `from` up to `i` contains `pane`, and the member at
    /// `i` does or `i` is the number of members, then the search from `from`
    /// ends at `i`.
    pub proof fn lemma_holder_from(self, pane: PaneId, from: int, i: int)
        requires
            0 <= from <= i <= self.members.len(),
            forall|j: int| from <= j < i ==> !(#[trigger] self.members[j]).contains(pane),
            i < self.members.len() ==> self.members[i].contains(pane),
        ensures
            self.holder_from(pane, from) == i,
        decreases i - from,
    {
        if from < i {
            assert(!self.members[from].contains(pane));
            self.lemma_holder_from(pane, from + 1, i);
        }
    }

    /// The first member that contains `pane` is at `i`.
    pub proof fn lemma_holder_is(self, pane: PaneId, i: int)
        requires
            0 <= i < self.members.len(),
            forall|j: int| 0 <= j < i ==> !(#[trigger] self.members[j]).contains(pane),
            self.members[i].contains(pane),
        ensures
            self.holder(pane) == i,
            self.contains(pane),
    {
        self.lemma_holder_from(pane, 0, i);
    }

    /// No member contains `pane`: the search finds none, and neither a split
    /// nor a removal changes the axis.
    pub proof fn lemma_holder_none(self, pane: PaneId)
        requires
            forall|j: int| 0 <= j < self.members.len() ==> !(#[trigger] self.members[j]).contains(pane),
        ensures
            self.holder(pane) == self.members.len(),
            !self.contains(pane),
            forall|new_pane: PaneId, direction: SplitDirection|
                #[trigger] self.with_split(pane, new_pane, direction) == self,
            self.without(pane) == self,
    {
        self.lemma_holder_from(pane, 0, self.members.len() as int);
    }

    /// An axis that does not contain `pane` is left as it is by a split and
    /// by a removal of `pane`.
    pub proof fn lemma_absent(self, pane: PaneId)
        requires
            !self.contains(pane),
        ensures
            self.holder(pane) == self.members.len(),
            forall|new_pane: PaneId, direction: SplitDirection|
                #[trigger] self.with_split(pane, new_pane, direction) == self,
            self.without(pane) == self,
    {
        self.lemma_holder_none(pane);
    }
}

} // verus!
