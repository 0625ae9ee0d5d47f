use vstd::prelude::*;

use crate::command::FSMState;
use crate::states::FlightMode;

verus! {

/// The Calibration mode.
pub struct FSMCalibration;

impl FSMCalibration {
    /// Only a panic request leaves this mode.
    pub fn step(&self, next_state: FSMState) -> (r: FlightMode)
        ensures
            r == (if next_state == FSMState::PanicMode {
                FlightMode::Panic
            } else {
                FlightMode::Calibration
            }),
    {
        match next_state {
            FSMState::PanicMode => FlightMode::Panic,
            _ => FlightMode::Calibration,
        }
    }

    pub fn get_state(&self) -> (r: FSMState)
        ensures
            r == FSMState::CalibrationMode,
    {
        FSMState::CalibrationMode
    }
}

} // verus!

verus! {

impl FSMCalibration {
    /// After the calibration time has passed the drone returns to safe
    /// mode (the new offsets then take effect); until then it keeps
    /// sampling.
    pub fn run_state_loop(&self, calibration_finished: bool) -> (r: FlightMode)
        ensures
            r == (if calibration_finished {
                FlightMode::Safe
            } else {
                FlightMode::Calibration
            }),
    {
        if calibration_finished {
            return FlightMode::Safe;
        }
        FlightMode::Calibration
    }
}

} // verus!
