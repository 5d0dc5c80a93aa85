//! Identities of keyframes and tracks: random (version 4) UUIDs, held as
//! their 128-bit value.

use vstd::prelude::*;

verus! {

/// Relies on `uuid::Uuid::new_v4` for a fresh random UUID, and on
/// `Uuid::as_u128` for its 128-bit big-endian value. Nothing is promised of
/// the value: it is random.
#[verifier::external_body]
fn random_uuid_bits() -> (r: u128) {
    uuid::Uuid::new_v4().as_u128()
}

/// Unique identifier of a keyframe: the 128-bit value of a UUID.
#[derive(Debug, Clone, Copy, PartialEq, Eq, Structural, Hash)]
pub struct KeyframeId(pub u128);

impl KeyframeId {
    /// A fresh random identifier.
    pub fn new() -> (r: KeyframeId) {
        KeyframeId(random_uuid_bits())
    }
}

/// Unique identifier of a track: the 128-bit value of a UUID.
#[derive(Debug, Clone, Copy, PartialEq, Eq, Structural, Hash)]
pub struct TrackId(pub u128);

impl TrackId {
    /// A fresh random identifier.
    pub fn new() -> (r: TrackId) {
        TrackId(random_uuid_bits())
    }
}

} // verus!
