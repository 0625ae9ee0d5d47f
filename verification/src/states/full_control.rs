use vstd::prelude::*;

use crate::command::FSMState;
use crate::states::FlightMode;

verus! {

/// Full control on the attitude that the motion processor reports.
pub struct FSMFullControl;

impl FSMFullControl {
    /// Panic and safe mode are entered directly; height control is entered
    /// on top of this mode.
    pub fn step(&self, next_state: FSMState) -> (r: FlightMode)
        ensures
            r == (match next_state {
                FSMState::PanicMode => FlightMode::Panic,
                FSMState::SafeMode => FlightMode::Safe,
                FSMState::HeightControlMode => FlightMode::HeightControl {
                    entered_from_raw_sensors: false,
                },
                _ => FlightMode::FullControl,
            }),
    {
        match next_state {
            FSMState::PanicMode => FlightMode::Panic,
            FSMState::SafeMode => FlightMode::Safe,
            FSMState::HeightControlMode => FlightMode::HeightControl {
                entered_from_raw_sensors: false,
            },
            _ => FlightMode::FullControl,
        }
    }

    pub fn get_state(&self) -> (r: FSMState)
        ensures
            r == FSMState::FullControlMode,
    {
        FSMState::FullControlMode
    }
}

} // verus!
