//! What the ground station sends.
use vstd::prelude::*;

verus! {

/// The pilot's stick positions, scaled to the `i16` range.
#[derive(Debug, PartialEq, Eq, Structural, Clone, Copy, Default)]
pub struct ManualDroneInput {
    pub lift: i16,
    pub roll: i16,
    pub pitch: i16,
    pub yaw: i16,
}

} // verus!
