use vstd::prelude::*;

use crate::command::FSMState;
use crate::states::FlightMode;

verus! {

/// The Yaw mode.
pub struct FSMYaw;

impl FSMYaw {
    /// Only a panic request leaves this mode.
    pub fn step(&self, next_state: FSMState) -> (r: FlightMode)
        ensures
            r == (if next_state == FSMState::PanicMode {
                FlightMode::Panic
            } else {
                FlightMode::Yaw
            }),
    {
        match next_state {
            FSMState::PanicMode => FlightMode::Panic,
            _ => FlightMode::Yaw,
        }
    }

    pub fn get_state(&self) -> (r: FSMState)
        ensures
            r == FSMState::YawControl,
    {
        FSMState::YawControl
    }
}

} // verus!
