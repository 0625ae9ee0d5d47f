use vstd::prelude::*;

use crate::command::FSMState;
use crate::states::FlightMode;

verus! {

/// Height control on top of one of the full-control modes.
pub struct FSMHeightControl {
    pub entered_from_raw_sensors: bool,
}

impl FSMHeightControl {
    /// The mode that height control was entered from.
    pub open spec fn spec_prev_state(&self) -> FlightMode {
        if self.entered_from_raw_sensors {
            FlightMode::RawSensorsFullControl
        } else {
            FlightMode::FullControl
        }
    }

    /// Only a panic request leaves this mode.
    pub fn step(&self, next_state: FSMState) -> (r: FlightMode)
        ensures
            r == (if next_state == FSMState::PanicMode {
                FlightMode::Panic
            } else {
                FlightMode::HeightControl { entered_from_raw_sensors: self.entered_from_raw_sensors }
            }),
    {
        match next_state {
            FSMState::PanicMode => FlightMode::Panic,
            _ => FlightMode::HeightControl { entered_from_raw_sensors: self.entered_from_raw_sensors },
        }
    }

    pub fn get_state(&self) -> (r: FSMState)
        ensures
            r == FSMState::HeightControlMode,
    {
        FSMState::HeightControlMode
    }

    /// Height is held only while the lift stays where it was when height
    /// control began; a changed lift returns to the previous mode.
    pub fn run_state_loop(&self, lift: i32, initial_lift: i32) -> (r: FlightMode)
        ensures
            r == (if lift != initial_lift {
                self.spec_prev_state()
            } else {
                FlightMode::HeightControl { entered_from_raw_sensors: self.entered_from_raw_sensors }
            }),
    {
        if lift != initial_lift {
            if self.entered_from_raw_sensors {
                return FlightMode::RawSensorsFullControl;
            }
            return FlightMode::FullControl;
        }
        FlightMode::HeightControl { entered_from_raw_sensors: self.entered_from_raw_sensors }
    }
}

} // verus!
