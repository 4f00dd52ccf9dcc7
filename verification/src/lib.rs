//! A splittable, resizable arrangement of panes.
//!
//! The arrangement is a tree: its leaves are panes, known by identity only,
//! and its inner nodes are axes that lay their members out in a row or in a
//! column and give each member a flex weight. The tree is edited by splitting
//! a pane and by removing one; a layout pass shares the space of an axis out
//! among its members by weight, and a drag on the divider between two members
//! moves weight from one to the other.
//!
//! Lengths are whole units (`i32`); weights are fixed-point numbers
//! (`i64`, with [`FLEX_ONE`] standing for the weight one). Nothing here
//! draws, and nothing knows what is in a pane: the caller lays the panes out
//! and paints them, and is told what to offer them and where to put them.
//!
//! - [`model`] is the tree as a mathematical value, with what splitting and
//!   removing mean on it; [`tree`] is the tree itself.
//! - [`layout`] shares the space of an axis out and places its members;
//!   [`resize`] turns a drag on a divider into a change of weights.
//! - [`render`] says what is to be drawn for a tree.
//! - [`direction`] and [`geometry`] hold the split directions, axes,
//!   vectors and rectangles.
//! - [`laws`] and [`listing`] state and prove what holds of every tree and of
//!   every edit.

mod arith;
pub mod direction;
pub mod geometry;
pub mod laws;
pub mod layout;
pub mod listing;
pub mod model;
pub mod render;
pub mod resize;
pub mod tree;

pub use direction::SplitDirection;
pub use geometry::{Axis, Rect, Vector2};
pub use layout::{
    Handle, LayoutPass, Limit, Painting, PaneAxisElement, Placement, ResizeCursor, SizeConstraint,
};
pub use model::{PaneId, FLEX_ONE};
pub use render::{
    AxisRender, ChildRender, DividerSide, Following, Leader, LeaderStatus, PaneRender,
    ParticipantLocation, RenderContext, Rendered,
};
pub use resize::{
    DividerDrag, DividerState, PointerEvent, HANDLE_HITBOX_SIZE, HORIZONTAL_MIN_SIZE,
    VERTICAL_MIN_SIZE,
};
pub use tree::{Member, NotFound, PaneAxis, PaneGroup};
