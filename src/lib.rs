//! Keyframe animation curves: a time-position type, keyframes with bezier
//! handles, tracks of keyframes, a cubic-bezier solver and the engine that
//! evaluates a track at a time position.
//!
//! All numbers are integers: time is counted in ticks (see [`time`]) and
//! normalized quantities (handle coordinates, progression) are fixed-point
//! values in millionths (see [`fixed`]).

pub mod bezier;
pub mod easing;
pub mod editing;
pub mod fixed;
pub mod ids;
pub mod interpolation;
pub mod key_order;
pub mod keyframe;
pub mod time;
pub mod track;

pub use bezier::CubicBezier;
pub use easing::{handles_similar, match_preset, EasingPreset};
pub use editing::{AnchorMode, BoundingBoxHandle, BoundingBoxResponse, HandleSide, PropertyTreeResponse};
pub use fixed::UNIT;
pub use ids::{KeyframeId, TrackId};
pub use interpolation::{interpolate_at_position, InterpolationTriple, Lerp};
pub use keyframe::{BezierHandles, Keyframe, KeyframeType};
pub use time::{TimeTick, TICKS_PER_SECOND};
pub use track::Track;
