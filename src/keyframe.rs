//! Keyframes: a value at a time position, with bezier handles that shape the
//! curve around it.

use vstd::prelude::*;
use crate::fixed::UNIT;
use crate::ids::KeyframeId;
use crate::time::TimeTick;

verus! {

/// Bezier control handles of a keyframe, in fixed-point (see
/// [`crate::fixed`]).
///
/// The left handle shapes the segment coming in from the previous keyframe,
/// the right handle the segment going out to the next one. X coordinates are
/// fractions of the segment's duration, conventionally in `[0, 1]`; Y
/// coordinates are fractions of its value change and may overshoot. No range
/// is enforced.
#[derive(Debug, Clone, Copy, PartialEq, Eq, Structural, Hash)]
pub struct BezierHandles {
    /// Left handle X, the position of the incoming tangent anchor.
    pub left_x: i32,
    /// Left handle Y, the height of the incoming tangent anchor.
    pub left_y: i32,
    /// Right handle X, the position of the outgoing tangent anchor.
    pub right_x: i32,
    /// Right handle Y, the height of the outgoing tangent anchor.
    pub right_y: i32,
}

/// The linear handles `(0, 0, 1, 1)`: a straight line between keyframes.
pub open spec fn linear_handles() -> BezierHandles {
    BezierHandles { left_x: 0, left_y: 0, right_x: 1_000_000, right_y: 1_000_000 }
}

/// The handles `[left_x, left_y, right_x, right_y]` given as a sequence.
pub open spec fn handles_from_seq(s: Seq<i32>) -> BezierHandles {
    BezierHandles { left_x: s[0], left_y: s[1], right_x: s[2], right_y: s[3] }
}

/// The handles converted from CSS `cubic-bezier(x1, y1, x2, y2)`, whose two
/// control points both hang off the segment's start.
pub open spec fn handles_from_css(x1: int, y1: int, x2: int, y2: int) -> BezierHandles {
    BezierHandles {
        left_x: (UNIT - x2) as i32,
        left_y: (UNIT - y2) as i32,
        right_x: x1 as i32,
        right_y: y1 as i32,
    }
}

/// `UNIT - v` fits an `i32`.
pub open spec fn css_complement_fits(v: int) -> bool {
    i32::MIN <= UNIT - v <= i32::MAX
}

impl BezierHandles {
    /// The handles as the sequence `[left_x, left_y, right_x, right_y]`.
    pub open spec fn to_seq(&self) -> Seq<i32> {
        seq![self.left_x, self.left_y, self.right_x, self.right_y]
    }

    /// Handles from `[left_x, left_y, right_x, right_y]`.
    pub fn from_array(arr: [i32; 4]) -> (r: BezierHandles)
        ensures
            r == handles_from_seq(arr@),
    {
        BezierHandles { left_x: arr[0], left_y: arr[1], right_x: arr[2], right_y: arr[3] }
    }

    /// The handles as `[left_x, left_y, right_x, right_y]`.
    pub fn to_array(&self) -> (r: [i32; 4])
        ensures
            r@ == self.to_seq(),
    {
        let r = [self.left_x, self.left_y, self.right_x, self.right_y];
        assert(r@ =~= self.to_seq());
        r
    }

    /// The straight line between keyframes: `(0, 0, 1, 1)`.
    pub fn linear() -> (r: BezierHandles)
        ensures
            r == linear_handles(),
    {
        BezierHandles { left_x: 0, left_y: 0, right_x: 1_000_000, right_y: 1_000_000 }
    }

    /// Slow start, fast end: `(0, 0, 0.42, 0)`.
    pub fn ease_in() -> (r: BezierHandles)
        ensures
            r == (BezierHandles { left_x: 0, left_y: 0, right_x: 420_000, right_y: 0 }),
    {
        BezierHandles { left_x: 0, left_y: 0, right_x: 420_000, right_y: 0 }
    }

    /// Fast start, slow end: `(0.58, 1, 1, 1)`.
    pub fn ease_out() -> (r: BezierHandles)
        ensures
            r == (BezierHandles { left_x: 580_000, left_y: 1_000_000, right_x: 1_000_000, right_y: 1_000_000 }),
    {
        BezierHandles { left_x: 580_000, left_y: 1_000_000, right_x: 1_000_000, right_y: 1_000_000 }
    }

    /// Slow start and end: `(0.42, 0, 0.58, 1)`.
    pub fn ease_in_out() -> (r: BezierHandles)
        ensures
            r == (BezierHandles { left_x: 420_000, left_y: 0, right_x: 580_000, right_y: 1_000_000 }),
    {
        BezierHandles { left_x: 420_000, left_y: 0, right_x: 580_000, right_y: 1_000_000 }
    }

    /// Handles from CSS `cubic-bezier(x1, y1, x2, y2)`: `left = (1 - x2, 1 - y2)`,
    /// `right = (x1, y1)`.
    pub fn from_css(x1: i32, y1: i32, x2: i32, y2: i32) -> (r: BezierHandles)
        requires
            css_complement_fits(x2 as int),
            css_complement_fits(y2 as int),
        ensures
            r == handles_from_css(x1 as int, y1 as int, x2 as int, y2 as int),
    {
        BezierHandles {
            left_x: (UNIT - x2 as i64) as i32,
            left_y: (UNIT - y2 as i64) as i32,
            right_x: x1,
            right_y: y1,
        }
    }
}

/// Converting handles to an array and back gives the same handles.
pub proof fn lemma_handles_array_round_trip(h: BezierHandles)
    ensures
        handles_from_seq(h.to_seq()) == h,
{
}

impl Default for BezierHandles {
    /// The linear handles.
    fn default() -> (r: BezierHandles)
        ensures
            r == linear_handles(),
    {
        BezierHandles::linear()
    }
}

/// How the curve leaving a keyframe reaches the next one.
#[derive(Debug, Clone, Copy, PartialEq, Eq, Structural, Hash)]
pub enum KeyframeType {
    /// Along the bezier curve shaped by the handles.
    Bezier,
    /// Holding the value until the next keyframe (a step).
    Hold,
    /// Along a straight line, ignoring the handles.
    Linear,
}

impl Default for KeyframeType {
    /// `Bezier`.
    fn default() -> (r: KeyframeType)
        ensures
            r == KeyframeType::Bezier,
    {
        KeyframeType::Bezier
    }
}

/// A value at a time position, with handles, a type for the curve leaving it
/// and whether it connects to the next keyframe.
#[derive(Debug, Clone)]
pub struct Keyframe<T> {
    /// Identity, unique within a track.
    pub id: KeyframeId,
    /// The value at this keyframe.
    pub value: T,
    /// Time position.
    pub position: TimeTick,
    /// Bezier handles.
    pub handles: BezierHandles,
    /// Whether the curve continues to the next keyframe; if not, the value
    /// holds until the next keyframe.
    pub connected_right: bool,
    /// How the curve leaving this keyframe is drawn.
    pub keyframe_type: KeyframeType,
}

impl<T> Keyframe<T> {
    /// A keyframe with a fresh identity, linear handles, connected to the
    /// next one, of type `Bezier`.
    pub fn new(position: TimeTick, value: T) -> (r: Keyframe<T>)
        ensures
            r.value == value,
            r.position == position,
            r.handles == linear_handles(),
            r.connected_right,
            r.keyframe_type == KeyframeType::Bezier,
    {
        Keyframe::with_id(KeyframeId::new(), position, value)
    }

    /// A keyframe with the given identity, linear handles, connected to the
    /// next one, of type `Bezier`.
    pub fn with_id(id: KeyframeId, position: TimeTick, value: T) -> (r: Keyframe<T>)
        ensures
            r == (Keyframe {
                id,
                value,
                position,
                handles: linear_handles(),
                connected_right: true,
                keyframe_type: KeyframeType::Bezier,
            }),
    {
        Keyframe {
            id,
            value,
            position,
            handles: BezierHandles::default(),
            connected_right: true,
            keyframe_type: KeyframeType::default(),
        }
    }

    /// The keyframe with its handles replaced.
    pub fn with_handles(self, handles: BezierHandles) -> (r: Keyframe<T>)
        ensures
            r == (Keyframe { handles, ..self }),
    {
        let mut k = self;
        k.handles = handles;
        k
    }

    /// The keyframe with its type replaced.
    pub fn with_type(self, keyframe_type: KeyframeType) -> (r: Keyframe<T>)
        ensures
            r == (Keyframe { keyframe_type, ..self }),
    {
        let mut k = self;
        k.keyframe_type = keyframe_type;
        k
    }

    /// The keyframe with its connection to the next one replaced.
    pub fn with_connected(self, connected: bool) -> (r: Keyframe<T>)
        ensures
            r == (Keyframe { connected_right: connected, ..self }),
    {
        let mut k = self;
        k.connected_right = connected;
        k
    }
}

} // verus!
