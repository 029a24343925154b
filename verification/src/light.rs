//! The state of one light device. `removed` is a tombstone: a removed device
//! keeps its last state and its key, but the public PUT path no longer
//! mutates it.

use vstd::prelude::*;

verus! {

/// Full state of one device. Replaced wholesale on PUT; no partial merge.
#[derive(Clone, Copy, Debug, PartialEq, Eq, Structural)]
pub struct LightState {
    pub is_on: bool,
    pub brightness: i32,
    pub color: i32,
    pub removed: bool,
}

/// Brightness ceiling used by the default state.
pub const FULL_BRIGHTNESS: i32 = 255;

/// Packed RGB white, the default color: 255 * 255 * 255.
pub const DEFAULT_COLOR: i32 = 16581375;

impl LightState {
    /// The state a freshly created device starts in: on, full brightness,
    /// default color, not removed.
    pub fn new_default() -> (s: LightState)
        ensures
            s == LightState::spec_default(),
    {
        LightState { is_on: true, brightness: FULL_BRIGHTNESS, color: DEFAULT_COLOR, removed: false }
    }

    /// Spec-level value of the default state.
    pub open spec fn spec_default() -> LightState {
        LightState { is_on: true, brightness: 255, color: 16581375, removed: false }
    }

    /// The same state with the tombstone flag raised; every other field kept.
    pub fn with_removed(self) -> (s: LightState)
        ensures
            s == (LightState { removed: true, ..self }),
    {
        LightState { removed: true, ..self }
    }
}

} // verus!
