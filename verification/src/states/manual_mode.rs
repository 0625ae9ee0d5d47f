use vstd::prelude::*;

use crate::command::FSMState;
use crate::states::FlightMode;

verus! {

/// The Manual mode.
pub struct FSMManual;

impl FSMManual {
    /// Only a panic request leaves this mode.
    pub fn step(&self, next_state: FSMState) -> (r: FlightMode)
        ensures
            r == (if next_state == FSMState::PanicMode {
                FlightMode::Panic
            } else {
                FlightMode::Manual
            }),
    {
        match next_state {
            FSMState::PanicMode => FlightMode::Panic,
            _ => FlightMode::Manual,
        }
    }

    pub fn get_state(&self) -> (r: FSMState)
        ensures
            r == FSMState::ManualMode,
    {
        FSMState::ManualMode
    }
}

} // verus!
