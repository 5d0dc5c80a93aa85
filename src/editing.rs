//! Plain data shared with an editor built on the library: which part of a
//! selection's bounding box is grabbed, where scaling is anchored, which
//! bezier handle is dragged, and what panels report back.

use vstd::prelude::*;

verus! {

/// A handle of the bounding box around selected keyframes.
#[derive(Debug, Clone, Copy, PartialEq, Eq, Structural, Hash)]
pub enum BoundingBoxHandle {
    /// Top-left corner (scales both axes).
    TopLeft,
    /// Top edge center (scales Y only).
    Top,
    /// Top-right corner (scales both axes).
    TopRight,
    /// Left edge center (scales X only).
    Left,
    /// Right edge center (scales X only).
    Right,
    /// Bottom-left corner (scales both axes).
    BottomLeft,
    /// Bottom edge center (scales Y only).
    Bottom,
    /// Bottom-right corner (scales both axes).
    BottomRight,
    /// Interior (translates).
    Interior,
}

impl BoundingBoxHandle {
    /// Corners: the four handles that scale both axes.
    pub open spec fn corner(&self) -> bool {
        matches!(self, Self::TopLeft | Self::TopRight | Self::BottomLeft | Self::BottomRight)
    }

    /// Whether dragging this handle scales the X (time) axis: the corners
    /// and the left and right edges.
    pub fn scales_x(&self) -> (r: bool)
        ensures
            r == (self.corner() || *self == Self::Left || *self == Self::Right),
    {
        match self {
            Self::TopLeft | Self::TopRight | Self::Left | Self::Right | Self::BottomLeft | Self::BottomRight => true,
            _ => false,
        }
    }

    /// Whether dragging this handle scales the Y (value) axis: the corners
    /// and the top and bottom edges.
    pub fn scales_y(&self) -> (r: bool)
        ensures
            r == (self.corner() || *self == Self::Top || *self == Self::Bottom),
    {
        match self {
            Self::TopLeft | Self::Top | Self::TopRight | Self::BottomLeft | Self::Bottom | Self::BottomRight => true,
            _ => false,
        }
    }

    /// Whether this is a corner handle.
    pub fn is_corner(&self) -> (r: bool)
        ensures
            r == self.corner(),
    {
        match self {
            Self::TopLeft | Self::TopRight | Self::BottomLeft | Self::BottomRight => true,
            _ => false,
        }
    }
}

/// The point a scaling of selected keyframes keeps fixed.
#[derive(Debug, Clone, Copy, PartialEq, Eq, Structural, Hash)]
pub enum AnchorMode {
    /// The earliest selected keyframe.
    Start,
    /// The latest selected keyframe.
    End,
    /// The center of the selection.
    Center,
    /// The playhead.
    Playhead,
}

impl Default for AnchorMode {
    /// `Center`.
    fn default() -> (r: AnchorMode)
        ensures
            r == AnchorMode::Center,
    {
        AnchorMode::Center
    }
}

/// Which bezier handle of a keyframe is dragged.
#[derive(Debug, Clone, Copy, PartialEq, Eq, Structural, Hash)]
pub enum HandleSide {
    Left,
    Right,
}

/// What happened to the bounding box in one frame of interaction.
#[derive(Debug, Clone, Copy, PartialEq, Eq, Structural)]
pub struct BoundingBoxResponse {
    /// Handle under the pointer.
    pub hovered_handle: Option<BoundingBoxHandle>,
    /// Handle whose drag started.
    pub drag_started: Option<BoundingBoxHandle>,
    /// Handle being dragged.
    pub dragging_handle: Option<BoundingBoxHandle>,
    /// Whether a drag ended.
    pub drag_ended: bool,
}

impl Default for BoundingBoxResponse {
    /// Nothing hovered or dragged.
    fn default() -> (r: BoundingBoxResponse)
        ensures
            r == (BoundingBoxResponse { hovered_handle: None, drag_started: None, dragging_handle: None, drag_ended: false }),
    {
        BoundingBoxResponse { hovered_handle: None, drag_started: None, dragging_handle: None, drag_ended: false }
    }
}

/// What the property tree reports after one frame of interaction.
#[derive(Debug, Clone)]
pub struct PropertyTreeResponse {
    /// Row that was clicked.
    pub clicked_row: Option<String>,
    /// Row whose collapse state should toggle.
    pub toggle_collapse: Option<String>,
    /// Row that was double-clicked.
    pub double_clicked_row: Option<String>,
}

impl Default for PropertyTreeResponse {
    /// Nothing clicked.
    fn default() -> (r: PropertyTreeResponse)
        ensures
            r.clicked_row is None,
            r.toggle_collapse is None,
            r.double_clicked_row is None,
    {
        PropertyTreeResponse { clicked_row: None, toggle_collapse: None, double_clicked_row: None }
    }
}

} // verus!
