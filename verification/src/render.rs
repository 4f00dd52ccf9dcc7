//! What to draw for a tree of panes: one box for each pane, with what marks
//! it as followed, and one flexible element for each axis.
//!
//! Nothing is drawn here. The result says what the caller is to draw, who
//! alone has the boxes of the panes and the means to style them.

use vstd::prelude::*;
use crate::geometry::Axis;
use crate::layout::PaneAxisElement;
use crate::model::{MemberView, PaneAxisView, PaneId};
use crate::tree::{Member, PaneAxis, PaneGroup};

verus! {

/// Where a participant of a call is.
#[derive(Clone, Copy, Debug, PartialEq, Eq, Structural)]
pub enum ParticipantLocation {
    /// In a shared project.
    SharedProject { project_id: u64 },
    /// In a project that is not shared.
    UnsharedProject,
    /// Outside of the application.
    External,
}

/// The participant whom a pane follows.
#[derive(Clone, Copy, Debug, PartialEq, Eq, Structural)]
pub struct Leader {
    pub peer: u64,
    pub location: ParticipantLocation,
}

/// A pane and the participant whom it follows.
#[derive(Clone, Copy, Debug, PartialEq, Eq, Structural)]
pub struct Following {
    pub pane: PaneId,
    pub leader: Leader,
}

/// What is written over a pane about its leader.
#[derive(Clone, Copy, Debug, PartialEq, Eq, Structural)]
pub enum LeaderStatus {
    /// The leader is in another shared project, which can be joined.
    FollowIntoProject { project_id: u64 },
    /// The leader is in a project that is not shared.
    UnsharedProject,
    /// The leader is outside of the application.
    External,
}

/// What the tree is drawn with, apart from the tree itself.
#[derive(Debug, PartialEq, Eq)]
pub struct RenderContext {
    /// The panes that follow someone. Of two entries for one pane the first
    /// counts.
    pub leaders: Vec<Following>,
    /// The shared project that this tree belongs to, if it belongs to one.
    pub project_id: Option<u64>,
    /// The pane that is zoomed, if one is: it is drawn elsewhere.
    pub zoomed: Option<PaneId>,
}

/// The side of a member on which the divider to the next member is drawn.
#[derive(Clone, Copy, Debug, PartialEq, Eq, Structural)]
pub enum DividerSide {
    Right,
    Bottom,
}

/// What to draw for a pane.
#[derive(Clone, Copy, Debug, PartialEq, Eq, Structural)]
pub struct PaneRender {
    pub pane: PaneId,
    /// The pane is zoomed: its place in the tree stays empty.
    pub zoomed: bool,
    /// The participant whom the pane follows, if any: the box of the pane
    /// gets a border in the leader's colour.
    pub leader: Option<Leader>,
    /// What is written over the pane about its leader, if anything.
    pub status: Option<LeaderStatus>,
}

/// What to draw for a member of an axis.
#[derive(Debug, PartialEq, Eq)]
pub struct ChildRender {
    pub member: Rendered,
    /// The side on which the divider to the next member is drawn; none for
    /// the last member.
    pub divider: Option<DividerSide>,
}

/// What to draw for an axis: the element that lays its members out, and the
/// members.
#[derive(Debug, PartialEq, Eq)]
pub struct AxisRender {
    pub element: PaneAxisElement,
    pub children: Vec<ChildRender>,
}

/// What to draw for a node of the tree.
#[derive(Debug, PartialEq, Eq)]
pub enum Rendered {
    Pane(PaneRender),
    Axis(AxisRender),
}

/// What is written over a pane whose leader is at `location`: nothing if the
/// leader is in the project of this tree.
pub open spec fn spec_leader_status(location: ParticipantLocation, project_id: Option<u64>) -> Option<
    LeaderStatus,
> {
    match location {
        ParticipantLocation::SharedProject { project_id: leader_project_id } => if project_id
            == Some(leader_project_id) {
            None
        } else {
            Some(LeaderStatus::FollowIntoProject { project_id: leader_project_id })
        },
        ParticipantLocation::UnsharedProject => Some(LeaderStatus::UnsharedProject),
        ParticipantLocation::External => Some(LeaderStatus::External),
    }
}

/// What is written over a pane whose leader is at `location`.
#[verifier::when_used_as_spec(spec_leader_status)]
pub fn leader_status(location: ParticipantLocation, project_id: Option<u64>) -> (status: Option<
    LeaderStatus,
>)
    ensures
        status == spec_leader_status(location, project_id),
{
    match location {
        ParticipantLocation::SharedProject { project_id: leader_project_id } => {
            let same = match project_id {
                Some(own) => own == leader_project_id,
                None => false,
            };
            if same {
                None
            } else {
                Some(LeaderStatus::FollowIntoProject { project_id: leader_project_id })
            }
        },
        ParticipantLocation::UnsharedProject => Some(LeaderStatus::UnsharedProject),
        ParticipantLocation::External => Some(LeaderStatus::External),
    }
}

/// The leader of the first entry for `pane` from the index `from` on.
pub open spec fn leader_from(leaders: Seq<Following>, pane: PaneId, from: int) -> Option<Leader>
    decreases leaders.len() - from,
{
    if from < 0 || from >= leaders.len() {
        None
    } else if leaders[from].pane == pane {
        Some(leaders[from].leader)
    } else {
        leader_from(leaders, pane, from + 1)
    }
}

/// The side on which the members of an axis have their dividers: below for
/// a vertical axis, on the right for a horizontal one.
pub open spec fn spec_divider_side(axis: Axis) -> DividerSide {
    match axis {
        Axis::Vertical => DividerSide::Bottom,
        Axis::Horizontal => DividerSide::Right,
    }
}

/// The side on which the members of an axis have their dividers.
#[verifier::when_used_as_spec(spec_divider_side)]
pub fn divider_side(axis: Axis) -> (side: DividerSide)
    ensures
        side == spec_divider_side(axis),
{
    match axis {
        Axis::Vertical => DividerSide::Bottom,
        Axis::Horizontal => DividerSide::Right,
    }
}

impl RenderContext {
    /// The participant whom `pane` follows.
    pub open spec fn leader_of(&self, pane: PaneId) -> Option<Leader> {
        leader_from(self.leaders@, pane, 0)
    }

    /// What to draw for `pane`.
    pub open spec fn spec_render_pane(&self, pane: PaneId) -> PaneRender {
        PaneRender {
            pane,
            zoomed: self.zoomed == Some(pane),
            leader: self.leader_of(pane),
            status: match self.leader_of(pane) {
                Some(leader) => leader_status(leader.location, self.project_id),
                None => None,
            },
        }
    }

    /// What to draw for `pane`.
    pub fn render_pane(&self, pane: PaneId) -> (drawn: PaneRender)
        ensures
            drawn == self.spec_render_pane(pane),
    {
        let n = self.leaders.len();
        let mut leader: Option<Leader> = None;
        let mut idx: usize = 0;
        while idx < n && leader.is_none()
            invariant
                idx <= n,
                n == self.leaders@.len(),
                leader is None ==> leader_from(self.leaders@, pane, idx as int) == self.leader_of(pane),
                leader is Some ==> leader == self.leader_of(pane),
            decreases n - idx, if leader is None { 1int } else { 0int },
        {
            if self.leaders[idx].pane == pane {
                leader = Some(self.leaders[idx].leader);
            } else {
                idx += 1;
            }
        }
        let zoomed = match self.zoomed {
            Some(zoomed) => zoomed == pane,
            None => false,
        };
        let status = match leader {
            Some(leader) => leader_status(leader.location, self.project_id),
            None => None,
        };
        PaneRender { pane, zoomed, leader, status }
    }
}

impl Rendered {
    /// This is what to draw for `member` when the handles of its dividers are
    /// numbered from `basis` on.
    pub open spec fn shows(&self, member: MemberView, basis: usize, context: &RenderContext) -> bool
        decreases member,
    {
        match member {
            MemberView::Pane(pane) => *self == Rendered::Pane(context.spec_render_pane(pane)),
            MemberView::Axis(axis) => self matches Rendered::Axis(drawn) && drawn.shows(
                axis,
                basis.wrapping_add(1),
                context,
            ),
        }
    }
}

impl AxisRender {
    /// This is what to draw for `axis` when the handles of its dividers are
    /// numbered from `basis` on: the element has the axis, the basis and the
    /// weights, every member is drawn with a basis of its own, and every
    /// member but the last has a divider.
    pub open spec fn shows(&self, axis: PaneAxisView, basis: usize, context: &RenderContext) -> bool
        decreases axis,
    {
        &&& self.element.axis == axis.axis
        &&& self.element.basis == basis
        &&& self.element.flexes@ == axis.flexes
        &&& self.children@.len() == axis.members.len()
        &&& forall|i: int|
            0 <= i < axis.members.len() ==> {
                &&& (#[trigger] self.children@[i]).member.shows(
                    axis.members[i],
                    basis.wrapping_add(i as usize).wrapping_mul(10),
                    context,
                )
                &&& self.children@[i].divider == if i + 1 < axis.members.len() {
                    Some(divider_side(axis.axis))
                } else {
                    None
                }
            }
    }
}

impl PaneAxis {
    /// What to draw for this axis when the handles of its dividers are
    /// numbered from `basis` on.
    pub fn render(&self, basis: usize, context: &RenderContext) -> (drawn: AxisRender)
        ensures
            drawn.shows(self@, basis, context),
        decreases self@, 0nat,
    {
        let n = self.members.len();
        let mut children: Vec<ChildRender> = Vec::new();
        let mut idx: usize = 0;
        while idx < n
            invariant
                idx <= n,
                n == self.members@.len(),
                children@.len() == idx,
                forall|i: int|
                    0 <= i < idx ==> {
                        &&& (#[trigger] children@[i]).member.shows(
                            self@.members[i],
                            basis.wrapping_add(i as usize).wrapping_mul(10),
                            context,
                        )
                        &&& children@[i].divider == if i + 1 < n {
                            Some(divider_side(self.axis))
                        } else {
                            None
                        }
                    },
            decreases n - idx,
        {
            proof {
                self.lemma_model_members();
                assert(decreases_to!(self@ => self@.members));
                assert(decreases_to!(self@.members => self@.members[idx as int]));
            }
            let member = self.members[idx].render(basis.wrapping_add(idx).wrapping_mul(10), context);
            let divider = if idx + 1 < n {
                Some(divider_side(self.axis))
            } else {
                None
            };
            children.push(ChildRender { member, divider });
            idx += 1;
        }
        proof {
            self.lemma_model_members();
        }
        AxisRender { element: PaneAxisElement::new(self.axis, basis, self.flexes.clone()), children }
    }
}

impl Member {
    /// What to draw for this node when the handles of its dividers are
    /// numbered from `basis` on.
    pub fn render(&self, basis: usize, context: &RenderContext) -> (drawn: Rendered)
        ensures
            drawn.shows(self@, basis, context),
        decreases self@, 1nat,
    {
        match self {
            Member::Pane(pane) => Rendered::Pane(context.render_pane(*pane)),
            Member::Axis(axis) => {
                proof {
                    assert(decreases_to!(self@ => self@->Axis_0));
                }
                Rendered::Axis(axis.render(basis.wrapping_add(1), context))
            },
        }
    }
}

impl PaneGroup {
    /// What to draw for the tree.
    pub fn render(&self, context: &RenderContext) -> (drawn: Rendered)
        ensures
            drawn.shows(self@, 0, context),
    {
        self.root.render(0, context)
    }
}

} // verus!
