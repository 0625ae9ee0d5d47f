use vstd::prelude::*;

use crate::command::FSMState;
use crate::states::FlightMode;

verus! {

/// Full control on the attitude filtered from the raw sensor readings.
pub struct FSMRawFullControl;

impl FSMRawFullControl {
    /// Panic mode is entered directly; height control is entered on top of
    /// this mode.
    pub fn step(&self, next_state: FSMState) -> (r: FlightMode)
        ensures
            r == (match next_state {
                FSMState::PanicMode => FlightMode::Panic,
                FSMState::HeightControlMode => FlightMode::HeightControl {
                    entered_from_raw_sensors: true,
                },
                _ => FlightMode::RawSensorsFullControl,
            }),
    {
        match next_state {
            FSMState::PanicMode => FlightMode::Panic,
            FSMState::HeightControlMode => FlightMode::HeightControl {
                entered_from_raw_sensors: true,
            },
            _ => FlightMode::RawSensorsFullControl,
        }
    }

    pub fn get_state(&self) -> (r: FSMState)
        ensures
            r == FSMState::RawSensorsFullControlMode,
    {
        FSMState::RawSensorsFullControlMode
    }
}

} // verus!
