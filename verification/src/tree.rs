//! The pane tree: panes, axes, and the group that holds the root.

use vstd::prelude::*;
use crate::direction::SplitDirection;
use crate::geometry::{Axis, Vector2};
use crate::laws::{
    law_axis_split_keeps_wf, law_pane_count, law_remove_keeps_wf, law_split_keeps_wf,
};
use crate::listing::{first_index, law_remove_unlists_the_first, law_split_lists_new_beside_old};
use crate::model::{new_axis, uniform_flexes, MemberView, PaneAxisView, PaneId, FLEX_ONE};
use crate::resize::DividerDrag;

verus! {

/// The one way in which an edit of the tree fails: the pane that it names is
/// nowhere in the tree.
#[derive(Clone, Copy, Debug, PartialEq, Eq, Structural)]
pub struct NotFound;

impl NotFound {
    /// The failure in words.
    pub fn message(&self) -> (text: &'static str)
        ensures
            text@ == "Pane not found"@,
    {
        "Pane not found"
    }
}

/// A node of the tree.
#[derive(Debug, PartialEq, Eq)]
pub enum Member {
    Axis(PaneAxis),
    Pane(PaneId),
}

/// Members that share an axis, in layout order, with one weight each.
#[derive(Debug, PartialEq, Eq)]
pub struct PaneAxis {
    pub axis: Axis,
    pub members: Vec<Member>,
    pub flexes: Vec<i64>,
}

/// A tree of panes. A well-formed tree always holds at least one pane.
#[derive(Debug, PartialEq, Eq)]
pub struct PaneGroup {
    pub root: Member,
}

impl Member {
    /// The node as a value.
    pub open spec fn model(&self) -> MemberView
        decreases self,
    {
        match self {
            Member::Pane(p) => MemberView::Pane(*p),
            Member::Axis(a) => MemberView::Axis(a.model()),
        }
    }
}

impl PaneAxis {
    /// The axis as a value.
    pub open spec fn model(&self) -> PaneAxisView
        decreases self,
    {
        PaneAxisView {
            axis: self.axis,
            members: Seq::new(
                self.members@.len(),
                |i: int|
                    if 0 <= i < self.members@.len() {
                        self.members@[i].model()
                    } else {
                        arbitrary()
                    },
            ),
            flexes: self.flexes@,
        }
    }

    /// The members of the model are the models of the members.
    pub proof fn lemma_model_members(&self)
        ensures
            self@.axis == self.axis,
            self@.flexes == self.flexes@,
            self@.members.len() == self.members@.len(),
            forall|i: int|
                0 <= i < self.members@.len() ==> #[trigger] self@.members[i] == self.members@[i]@,
    {
    }
}

impl View for Member {
    type V = MemberView;

    open spec fn view(&self) -> MemberView {
        self.model()
    }
}

impl View for PaneAxis {
    type V = PaneAxisView;

    open spec fn view(&self) -> PaneAxisView {
        self.model()
    }
}

impl View for PaneGroup {
    type V = MemberView;

    open spec fn view(&self) -> MemberView {
        self.root@
    }
}

/// `n` weights, each of them one.
fn uniform(n: usize) -> (flexes: Vec<i64>)
    ensures
        flexes@ == uniform_flexes(n as nat),
{
    let mut flexes: Vec<i64> = Vec::new();
    let mut i: usize = 0;
    while i < n
        invariant
            i <= n,
            flexes@ == uniform_flexes(i as nat),
        decreases n - i,
    {
        flexes.push(FLEX_ONE);
        i += 1;
    }
    flexes
}

impl PaneAxis {
    /// An axis over `members`, each with the weight one.
    pub fn new(axis: Axis, members: Vec<Member>) -> (group: PaneAxis)
        ensures
            group.axis == axis,
            group.members == members,
            group.flexes@ == uniform_flexes(members@.len()),
    {
        let flexes = uniform(members.len());
        PaneAxis { axis, members, flexes }
    }
}

impl Member {
    /// The two-member axis that takes the place of `old_pane` when it is
    /// split in `direction` to make room for `new_pane`.
    pub fn new_axis(old_pane: PaneId, new_pane: PaneId, direction: SplitDirection) -> (member: Member)
        ensures
            member@ == new_axis(old_pane, new_pane, direction),
    {
        let axis = direction.axis();
        let mut members: Vec<Member> = Vec::new();
        if direction.increasing() {
            members.push(Member::Pane(old_pane));
            members.push(Member::Pane(new_pane));
        } else {
            members.push(Member::Pane(new_pane));
            members.push(Member::Pane(old_pane));
        }
        let group = PaneAxis::new(axis, members);
        proof {
            group.lemma_model_members();
            assert(group@.members =~= new_axis(old_pane, new_pane, direction)->Axis_0.members);
        }
        Member::Axis(group)
    }
}

impl PaneAxis {
    /// Splits `old_pane` in `direction` to make room for `new_pane`.
    ///
    /// The split happens at the first member that contains `old_pane`. Fails,
    /// and changes nothing, if `old_pane` is not below this axis.
    pub fn split(&mut self, old_pane: &PaneId, new_pane: &PaneId, direction: SplitDirection) -> (r:
        Result<(), NotFound>)
        ensures
            r is Ok <==> old(self)@.contains(*old_pane),
            r is Err ==> final(self)@ == old(self)@,
            final(self)@ == old(self)@.with_split(*old_pane, *new_pane, direction),
            old(self)@.wf() ==> final(self)@.wf(),
        decreases old(self)@,
    {
        proof {
            if self@.wf() {
                law_axis_split_keeps_wf(self@, *old_pane, *new_pane, direction);
            }
        }
        let n = self.members.len();
        let mut idx: usize = 0;
        while idx < n
            invariant
                idx <= n,
                n == self.members@.len(),
                self@ == old(self)@,
                old(self)@.wf() ==> old(self)@.with_split(*old_pane, *new_pane, direction).wf(),
                forall|j: int| 0 <= j < idx ==> !(#[trigger] self@.members[j]).contains(*old_pane),
            decreases n - idx,
        {
            let ghost before = self@;
            proof {
                self.lemma_model_members();
            }
            let here = match &self.members[idx] {
                Member::Pane(pane) => *pane == *old_pane,
                Member::Axis(_) => false,
            };
            if here {
                if direction.axis() == self.axis {
                    let at = if direction.increasing() {
                        idx + 1
                    } else {
                        idx
                    };
                    self.members.insert(at, Member::Pane(*new_pane));
                    self.flexes = uniform(self.members.len());
                } else {
                    self.members[idx] = Member::new_axis(*old_pane, *new_pane, direction);
                }
                proof {
                    before.lemma_holder_is(*old_pane, idx as int);
                    self.lemma_model_members();
                    let after = before.with_split(*old_pane, *new_pane, direction);
                    assert(self@.members =~= after.members);
                }
                return Ok(());
            }
            let nested = match &mut self.members[idx] {
                Member::Axis(axis) => {
                    proof {
                        assert(before.members[idx as int] == MemberView::Axis(axis@));
                        assert(decreases_to!(before => before.members));
                        assert(decreases_to!(before.members => before.members[idx as int]));
                        assert(decreases_to!(before.members[idx as int] => before.members[idx as int]->Axis_0));
                    }
                    axis.split(old_pane, new_pane, direction).is_ok()
                },
                Member::Pane(_) => false,
            };
            proof {
                self.lemma_model_members();
                let child = before.members[idx as int];
                if nested {
                    before.lemma_holder_is(*old_pane, idx as int);
                    let after = before.with_split(*old_pane, *new_pane, direction);
                    assert(self@.members =~= after.members);
                } else {
                    if child is Axis {
                        child->Axis_0.lemma_absent(*old_pane);
                    }
                    assert(self@.members =~= before.members);
                }
            }
            if nested {
                return Ok(());
            }
            idx += 1;
        }
        proof {
            self@.lemma_holder_none(*old_pane);
        }
        Err(NotFound)
    }

    /// Removes `pane_to_remove` from below this axis.
    ///
    /// The removal happens at the first member that contains the pane. If the
    /// axis is left with exactly one member, that member is taken out and
    /// returned, for the parent to put in the place of this axis. Fails, and
    /// changes nothing, if the pane is not below this axis.
    pub fn remove(&mut self, pane_to_remove: &PaneId) -> (r: Result<Option<Member>, NotFound>)
        ensures
            r is Err <==> !old(self)@.contains(*pane_to_remove),
            r is Err ==> final(self)@ == old(self)@,
            r matches Ok(survivor) ==> {
                let edited = old(self)@.without(*pane_to_remove);
                if edited.members.len() == 1 {
                    &&& survivor matches Some(member)
                    &&& member@ == edited.members[0]
                    &&& final(self)@ == edited.emptied()
                } else {
                    &&& survivor is None
                    &&& final(self)@ == edited
                }
            },
        decreases old(self)@,
    {
        let n = self.members.len();
        let mut idx: usize = 0;
        let mut found_pane = false;
        while idx < n && !found_pane
            invariant
                idx <= n,
                !found_pane ==> n == self.members@.len(),
                !found_pane ==> self@ == old(self)@,
                !found_pane ==> forall|j: int|
                    0 <= j < idx ==> !(#[trigger] self@.members[j]).contains(*pane_to_remove),
                found_pane ==> old(self)@.contains(*pane_to_remove),
                found_pane ==> self@ == old(self)@.without(*pane_to_remove),
            decreases n - idx, if found_pane { 0int } else { 1int },
        {
            let ghost before = self@;
            proof {
                self.lemma_model_members();
            }
            let here = match &self.members[idx] {
                Member::Pane(pane) => *pane == *pane_to_remove,
                Member::Axis(_) => false,
            };
            if here {
                self.members.remove(idx);
                self.flexes = uniform(self.members.len());
                found_pane = true;
                proof {
                    before.lemma_holder_is(*pane_to_remove, idx as int);
                    self.lemma_model_members();
                    assert(self@.members =~= before.without(*pane_to_remove).members);
                }
            } else {
                let nested = match &mut self.members[idx] {
                    Member::Axis(axis) => {
                        proof {
                            assert(before.members[idx as int] == MemberView::Axis(axis@));
                            assert(decreases_to!(before => before.members));
                            assert(decreases_to!(before.members => before.members[idx as int]));
                            assert(decreases_to!(before.members[idx as int] => before.members[idx as int]->Axis_0));
                        }
                        axis.remove(pane_to_remove)
                    },
                    Member::Pane(_) => Err(NotFound),
                };
                match nested {
                    Ok(survivor) => {
                        if let Some(last_pane) = survivor {
                            self.members[idx] = last_pane;
                        }
                        found_pane = true;
                        proof {
                            before.lemma_holder_is(*pane_to_remove, idx as int);
                            self.lemma_model_members();
                            assert(self@.members =~= before.without(*pane_to_remove).members);
                        }
                    },
                    Err(_) => {
                        proof {
                            self.lemma_model_members();
                            assert(self@.members =~= before.members);
                        }
                        idx += 1;
                    },
                }
            }
        }
        if found_pane {
            if self.members.len() == 1 {
                let ghost edited = self@;
                proof {
                    self.lemma_model_members();
                }
                let survivor = self.members.pop();
                proof {
                    self.lemma_model_members();
                    assert(self@.members =~= edited.emptied().members);
                }
                Ok(survivor)
            } else {
                proof {
                    self.lemma_model_members();
                }
                Ok(None)
            }
        } else {
            proof {
                self@.lemma_holder_none(*pane_to_remove);
            }
            Err(NotFound)
        }
    }

    /// Moves the weight `change` from the member at `ix + 1` to the member
    /// at `ix`: the sum of the two weights stays, and so does every other
    /// weight and every member.
    pub fn shift_flex(&mut self, ix: usize, change: i64)
        requires
            old(self)@.can_shift_flex(ix as int, change as int),
        ensures
            final(self)@ == old(self)@.with_flex_shift(ix as int, change as int),
            final(self)@.flexes[ix as int] + final(self)@.flexes[ix + 1] == old(self)@.flexes[ix as int]
                + old(self)@.flexes[ix + 1],
    {
        assert(self.flexes@.len() == self.flexes.len());
        let after = ix + 1;
        let current = self.flexes[ix];
        let next = self.flexes[after];
        self.flexes[ix] = current + change;
        self.flexes[after] = next - change;
        proof {
            self.lemma_model_members();
            old(self).lemma_model_members();
            assert(self@.members =~= old(self)@.members);
        }
    }

    /// Whether the weight `change` can move from the member at `ix + 1` to
    /// the member at `ix`.
    pub fn can_shift_flex(&self, ix: usize, change: i64) -> (can: bool)
        ensures
            can == self@.can_shift_flex(ix as int, change as int),
    {
        let n = self.flexes.len();
        if n < 2 || ix >= n - 1 {
            return false;
        }
        self.flexes[ix].checked_add(change).is_some() && self.flexes[ix + 1].checked_sub(
            change,
        ).is_some()
    }
}

impl Member {
    /// Moves the weight `change` from the member at `ix + 1` to the member at
    /// `ix` in the axis that is reached by going, for each index of `path`
    /// from `from` on, to the member at that index.
    ///
    /// Returns whether the weight was moved. Nothing changes if the way
    /// leaves the tree or ends at a pane, or if the weight cannot move.
    pub fn shift_flex_at(&mut self, path: &Vec<usize>, from: usize, ix: usize, change: i64) -> (moved:
        bool)
        ensures
            moved == (old(self)@.axis_at(path@, from as int) matches Some(axis)
                && axis.can_shift_flex(ix as int, change as int)),
            final(self)@ == if moved {
                old(self)@.with_flex_shift_at(path@, from as int, ix as int, change as int)
            } else {
                old(self)@
            },
        decreases path@.len() - from,
    {
        match self {
            Member::Pane(_) => false,
            Member::Axis(axis) => {
                if from >= path.len() {
                    if axis.can_shift_flex(ix, change) {
                        axis.shift_flex(ix, change);
                        true
                    } else {
                        false
                    }
                } else {
                    let at = path[from];
                    if at < axis.members.len() {
                        let ghost before = axis@;
                        proof {
                            axis.lemma_model_members();
                        }
                        let moved = axis.members[at].shift_flex_at(path, from + 1, ix, change);
                        proof {
                            axis.lemma_model_members();
                            if moved {
                                assert(axis@.members =~= before.members.update(
                                    at as int,
                                    before.members[at as int].with_flex_shift_at(
                                        path@,
                                        from + 1,
                                        ix as int,
                                        change as int,
                                    ),
                                ));
                            } else {
                                assert(axis@.members =~= before.members);
                            }
                        }
                        moved
                    } else {
                        false
                    }
                }
            },
        }
    }

    /// Whether `needle` is a leaf of this node.
    pub fn contains(&self, needle: &PaneId) -> (found: bool)
        ensures
            found == self@.contains(*needle),
        decreases self@,
    {
        match self {
            Member::Axis(axis) => {
                let n = axis.members.len();
                let mut idx: usize = 0;
                while idx < n
                    invariant
                        idx <= n,
                        n == axis.members@.len(),
                        self@ == MemberView::Axis(axis@),
                        forall|j: int| 0 <= j < idx ==> !(#[trigger] axis@.members[j]).contains(*needle),
                    decreases n - idx,
                {
                    proof {
                        axis.lemma_model_members();
                        assert(decreases_to!(self@ => self@->Axis_0));
                        assert(decreases_to!(axis@ => axis@.members));
                        assert(decreases_to!(axis@.members => axis@.members[idx as int]));
                    }
                    if axis.members[idx].contains(needle) {
                        return true;
                    }
                    idx += 1;
                }
                false
            },
            Member::Pane(pane) => *pane == *needle,
        }
    }

    /// Appends the leaves of this node to `panes`, parents before children
    /// and members in layout order.
    pub fn collect_panes(&self, panes: &mut Vec<PaneId>)
        ensures
            final(panes)@ == old(panes)@ + self@.panes(),
        decreases self@,
    {
        match self {
            Member::Axis(axis) => {
                let n = axis.members.len();
                let mut idx: usize = 0;
                while idx < n
                    invariant
                        idx <= n,
                        n == axis.members@.len(),
                        self@ == MemberView::Axis(axis@),
                        panes@ == old(panes)@ + axis@.panes_of_first(idx as nat),
                    decreases n - idx,
                {
                    proof {
                        axis.lemma_model_members();
                        assert(decreases_to!(self@ => self@->Axis_0));
                        assert(decreases_to!(axis@ => axis@.members));
                        assert(decreases_to!(axis@.members => axis@.members[idx as int]));
                    }
                    axis.members[idx].collect_panes(panes);
                    proof {
                        let added = axis@.members[idx as int].panes();
                        assert(axis@.panes_of_first((idx + 1) as nat) == axis@.panes_of_first(
                            idx as nat,
                        ) + added);
                        assert(panes@ =~= old(panes)@ + axis@.panes_of_first((idx + 1) as nat));
                    }
                    idx += 1;
                }
            },
            Member::Pane(pane) => {
                panes.push(*pane);
                assert(panes@ =~= old(panes)@ + self@.panes());
            },
        }
    }
}

impl PaneGroup {
    /// A tree that holds `pane` alone.
    pub fn new(pane: PaneId) -> (group: PaneGroup)
        ensures
            group@ == MemberView::Pane(pane),
    {
        PaneGroup { root: Member::Pane(pane) }
    }

    /// A tree with the given root.
    pub fn with_root(root: Member) -> (group: PaneGroup)
        ensures
            group.root == root,
    {
        PaneGroup { root }
    }

    /// Splits `old_pane` in `direction` to make room for `new_pane`.
    ///
    /// A root that is the pane itself gives way to a two-member axis; an
    /// axis is split at the first member that contains `old_pane`. In the
    /// list of the panes the new pane then stands beside the old one. Fails,
    /// and changes nothing, if `old_pane` is not in the tree.
    pub fn split(&mut self, old_pane: &PaneId, new_pane: &PaneId, direction: SplitDirection) -> (r:
        Result<(), NotFound>)
        ensures
            r is Ok <==> old(self)@.contains(*old_pane),
            r is Err ==> final(self)@ == old(self)@,
            final(self)@ == old(self)@.with_split(*old_pane, *new_pane, direction),
            old(self)@.wf() ==> final(self)@.wf(),
            r is Ok ==> final(self)@.panes() == old(self)@.panes().insert(
                first_index(old(self)@.panes(), *old_pane, 0) + if direction.increasing() {
                    1int
                } else {
                    0int
                },
                *new_pane,
            ),
    {
        proof {
            if self@.wf() {
                law_split_keeps_wf(self@, *old_pane, *new_pane, direction);
            }
            if self@.contains(*old_pane) {
                law_split_lists_new_beside_old(self@, *old_pane, *new_pane, direction);
            }
        }
        let lone = match &self.root {
            Member::Pane(pane) => Some(*pane == *old_pane),
            Member::Axis(_) => None,
        };
        match lone {
            Some(true) => {
                self.root = Member::new_axis(*old_pane, *new_pane, direction);
                Ok(())
            },
            Some(false) => Err(NotFound),
            None => match &mut self.root {
                Member::Axis(axis) => axis.split(old_pane, new_pane, direction),
                Member::Pane(_) => Err(NotFound),
            },
        }
    }

    /// Removes `pane` from the tree.
    ///
    /// Returns `Ok(false)`, and changes nothing, if the root is a lone pane:
    /// the last pane is not removed. Returns `Ok(true)` if the pane was found
    /// and removed; an axis that is left with one member gives way to it.
    /// Fails, and changes nothing, if the root is an axis that does not
    /// contain `pane`.
    pub fn remove(&mut self, pane: &PaneId) -> (r: Result<bool, NotFound>)
        ensures
            r == if old(self)@ is Pane {
                Ok::<bool, NotFound>(false)
            } else if old(self)@.contains(*pane) {
                Ok::<bool, NotFound>(true)
            } else {
                Err::<bool, NotFound>(NotFound)
            },
            !(r matches Ok(true)) ==> final(self)@ == old(self)@,
            final(self)@ == old(self)@.without(*pane),
            old(self)@.wf() ==> final(self)@.wf(),
            r matches Ok(true) ==> final(self)@.panes() == old(self)@.panes().remove(
                first_index(old(self)@.panes(), *pane, 0),
            ),
    {
        proof {
            if self@.wf() {
                law_remove_keeps_wf(self@, *pane);
            }
            if self@ is Axis && self@.contains(*pane) {
                law_remove_unlists_the_first(self@->Axis_0, *pane);
            }
        }
        let removed = match &mut self.root {
            Member::Pane(_) => {
                return Ok(false);
            },
            Member::Axis(axis) => axis.remove(pane),
        };
        match removed {
            Ok(survivor) => {
                if let Some(last_pane) = survivor {
                    self.root = last_pane;
                }
                Ok(true)
            },
            Err(_) => {
                proof {
                    old(self)@->Axis_0.lemma_absent(*pane);
                }
                Err(NotFound)
            },
        }
    }

    /// Moves the weight `change` from the member at `ix + 1` to the member at
    /// `ix` in the axis that is reached from the root by going, for each
    /// index of `path`, to the member at that index.
    ///
    /// Returns whether the weight was moved. Nothing changes if the way
    /// leaves the tree or ends at a pane, or if the weight cannot move.
    pub fn shift_flex_at(&mut self, path: &Vec<usize>, ix: usize, change: i64) -> (moved: bool)
        ensures
            moved == (old(self)@.axis_at(path@, 0) matches Some(axis) && axis.can_shift_flex(
                ix as int,
                change as int,
            )),
            final(self)@ == if moved {
                old(self)@.with_flex_shift_at(path@, 0, ix as int, change as int)
            } else {
                old(self)@
            },
    {
        self.root.shift_flex_at(path, 0, ix, change)
    }

    /// Follows the pointer to `position` in a drag on a divider of the axis at
    /// the end of `path`: the weight that `drag` gives for that place moves
    /// from the member after the divider to the member before it.
    ///
    /// Returns whether the weights changed hands, after which the tree is to
    /// be laid out anew. Nothing changes if `drag` gives no weight for the
    /// place, if the way leaves the tree or ends at a pane, or if the weight
    /// cannot move.
    pub fn drag_divider(&mut self, path: &Vec<usize>, drag: &DividerDrag, position: Vector2) -> (moved:
        bool)
        ensures
            moved == (drag.resizable() && drag.drag_bounds.length_along(drag.axis) > 0 && (old(
                self,
            )@.axis_at(path@, 0) matches Some(axis) && axis.can_shift_flex(
                drag.ix as int,
                drag.spec_flex_change(position),
            ))),
            final(self)@ == if moved {
                old(self)@.with_flex_shift_at(
                    path@,
                    0,
                    drag.ix as int,
                    drag.spec_flex_change(position),
                )
            } else {
                old(self)@
            },
    {
        match drag.flex_change(position) {
            Some(change) => self.shift_flex_at(path, drag.ix, change),
            None => false,
        }
    }

    /// The panes of the tree, parents before children and members in layout
    /// order.
    pub fn panes(&self) -> (panes: Vec<PaneId>)
        ensures
            panes@ == self@.panes(),
            panes@.len() == self@.pane_count(),
    {
        let mut panes: Vec<PaneId> = Vec::new();
        self.root.collect_panes(&mut panes);
        proof {
            assert(panes@ =~= self@.panes());
            law_pane_count(self@);
        }
        panes
    }
}

impl Clone for Member {
    fn clone(&self) -> (copy: Member)
        ensures
            copy@ == self@,
        decreases self@,
    {
        match self {
            Member::Axis(axis) => {
                proof {
                    assert(decreases_to!(self@ => self@->Axis_0));
                }
                Member::Axis(axis.clone())
            },
            Member::Pane(pane) => Member::Pane(*pane),
        }
    }
}

impl Clone for PaneAxis {
    fn clone(&self) -> (copy: PaneAxis)
        ensures
            copy@ == self@,
        decreases self@,
    {
        let n = self.members.len();
        let mut members: Vec<Member> = Vec::new();
        let mut idx: usize = 0;
        while idx < n
            invariant
                idx <= n,
                n == self.members@.len(),
                members@.len() == idx,
                forall|k: int| 0 <= k < idx ==> (#[trigger] members@[k])@ == self.members@[k]@,
            decreases n - idx,
        {
            proof {
                self.lemma_model_members();
                assert(decreases_to!(self@ => self@.members));
                assert(decreases_to!(self@.members => self@.members[idx as int]));
            }
            members.push(self.members[idx].clone());
            idx += 1;
        }
        let m = self.flexes.len();
        let mut flexes: Vec<i64> = Vec::new();
        let mut at: usize = 0;
        while at < m
            invariant
                at <= m,
                m == self.flexes@.len(),
                flexes@ == self.flexes@.take(at as int),
            decreases m - at,
        {
            flexes.push(self.flexes[at]);
            at += 1;
            assert(flexes@ =~= self.flexes@.take(at as int));
        }
        let copy = PaneAxis { axis: self.axis, members, flexes };
        proof {
            copy.lemma_model_members();
            self.lemma_model_members();
            assert(copy@.members =~= self@.members);
            assert(copy@.flexes =~= self@.flexes);
        }
        copy
    }
}

impl Clone for PaneGroup {
    fn clone(&self) -> (copy: PaneGroup)
        ensures
            copy@ == self@,
    {
        PaneGroup { root: self.root.clone() }
    }
}

} // verus!
