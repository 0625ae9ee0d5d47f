//! The flight-mode state machine: which mode a requested transition leads
//! to, and the decisions each mode takes on its own.
pub mod calibration_mode;
pub mod full_control;
pub mod height_control;
pub mod manual_mode;
pub mod panic_mode;
pub mod raw_sensor_full_control;
pub mod safe_mode;
pub mod wireless_mode;
pub mod yaw_control;

use vstd::prelude::*;

use crate::command::FSMState;
use crate::states::calibration_mode::FSMCalibration;
use crate::states::full_control::FSMFullControl;
use crate::states::height_control::FSMHeightControl;
use crate::states::manual_mode::FSMManual;
use crate::states::panic_mode::FSMPanic;
use crate::states::raw_sensor_full_control::FSMRawFullControl;
use crate::states::safe_mode::FSMSafe;
use crate::states::wireless_mode::FSMWireless;
use crate::states::yaw_control::FSMYaw;

verus! {

/// The mode the controller runs in. Height control remembers the mode it
/// was entered from, to return to it.
#[derive(PartialEq, Eq, Structural, Debug, Clone, Copy)]
pub enum FlightMode {
    Safe,
    Panic,
    Manual,
    Calibration,
    Yaw,
    FullControl,
    RawSensorsFullControl,
    HeightControl { entered_from_raw_sensors: bool },
    Wireless,
}

/// The state that a mode reports.
pub open spec fn state_of(mode: FlightMode) -> FSMState {
    match mode {
        FlightMode::Safe => FSMState::SafeMode,
        FlightMode::Panic => FSMState::PanicMode,
        FlightMode::Manual => FSMState::ManualMode,
        FlightMode::Calibration => FSMState::CalibrationMode,
        FlightMode::Yaw => FSMState::YawControl,
        FlightMode::FullControl => FSMState::FullControlMode,
        FlightMode::RawSensorsFullControl => FSMState::RawSensorsFullControlMode,
        FlightMode::HeightControl { .. } => FSMState::HeightControlMode,
        FlightMode::Wireless => FSMState::WirelessMode,
    }
}

/// Whether all four motors stand still.
pub open spec fn motors_off(motors: [u16; 4]) -> bool {
    motors@[0] == 0 && motors@[1] == 0 && motors@[2] == 0 && motors@[3] == 0
}

/// The mode that a transition request leads to, given the current motor
/// speeds (calibration may only start with the motors off).
pub open spec fn next_mode(mode: FlightMode, next_state: FSMState, motors: [u16; 4]) -> FlightMode {
    match mode {
        FlightMode::Safe => match next_state {
            FSMState::CalibrationMode => if motors_off(motors) {
                FlightMode::Calibration
            } else {
                FlightMode::Safe
            },
            FSMState::ManualMode => FlightMode::Manual,
            FSMState::YawControl => FlightMode::Yaw,
            FSMState::FullControlMode => FlightMode::FullControl,
            FSMState::PanicMode => FlightMode::Panic,
            _ => FlightMode::Safe,
        },
        FlightMode::Panic => match next_state {
            FSMState::SafeMode => FlightMode::Safe,
            _ => FlightMode::Panic,
        },
        FlightMode::FullControl => match next_state {
            FSMState::PanicMode => FlightMode::Panic,
            FSMState::SafeMode => FlightMode::Safe,
            FSMState::HeightControlMode => FlightMode::HeightControl {
                entered_from_raw_sensors: false,
            },
            _ => FlightMode::FullControl,
        },
        FlightMode::RawSensorsFullControl => match next_state {
            FSMState::PanicMode => FlightMode::Panic,
            FSMState::HeightControlMode => FlightMode::HeightControl {
                entered_from_raw_sensors: true,
            },
            _ => FlightMode::RawSensorsFullControl,
        },
        FlightMode::Wireless => FlightMode::Wireless,
        _ => match next_state {
            FSMState::PanicMode => FlightMode::Panic,
            _ => mode,
        },
    }
}

impl FlightMode {
    /// The state this mode reports.
    pub fn get_state(&self) -> (r: FSMState)
        ensures
            r == state_of(*self),
    {
        match self {
            FlightMode::Safe => FSMSafe.get_state(),
            FlightMode::Panic => FSMPanic.get_state(),
            FlightMode::Manual => FSMManual.get_state(),
            FlightMode::Calibration => FSMCalibration.get_state(),
            FlightMode::Yaw => FSMYaw.get_state(),
            FlightMode::FullControl => FSMFullControl.get_state(),
            FlightMode::RawSensorsFullControl => FSMRawFullControl.get_state(),
            FlightMode::HeightControl { entered_from_raw_sensors } => FSMHeightControl {
                entered_from_raw_sensors: *entered_from_raw_sensors,
            }.get_state(),
            FlightMode::Wireless => FSMWireless.get_state(),
        }
    }

    /// Handles a transition request by the rules of the current mode.
    pub fn step(&self, next_state: FSMState, motors: [u16; 4]) -> (r: FlightMode)
        ensures
            r == next_mode(*self, next_state, motors),
    {
        match self {
            FlightMode::Safe => FSMSafe.step(next_state, motors).mode,
            FlightMode::Panic => FSMPanic.step(next_state),
            FlightMode::Manual => FSMManual.step(next_state),
            FlightMode::Calibration => FSMCalibration.step(next_state),
            FlightMode::Yaw => FSMYaw.step(next_state),
            FlightMode::FullControl => FSMFullControl.step(next_state),
            FlightMode::RawSensorsFullControl => FSMRawFullControl.step(next_state),
            FlightMode::HeightControl { entered_from_raw_sensors } => FSMHeightControl {
                entered_from_raw_sensors: *entered_from_raw_sensors,
            }.step(next_state),
            FlightMode::Wireless => FSMWireless.step(next_state),
        }
    }
}

/// A panic request takes every mode but the wireless switch into panic
/// mode (the wireless switch leaves by itself, into panic mode).
pub proof fn lemma_panic_request_honoured(mode: FlightMode, motors: [u16; 4])
    requires
        mode != FlightMode::Wireless,
    ensures
        next_mode(mode, FSMState::PanicMode, motors) == FlightMode::Panic,
{
}

/// Panic mode is left only for safe mode.
pub proof fn lemma_panic_left_only_for_safe(next_state: FSMState, motors: [u16; 4])
    ensures
        next_mode(FlightMode::Panic, next_state, motors) == FlightMode::Panic || next_mode(
            FlightMode::Panic,
            next_state,
            motors,
        ) == FlightMode::Safe,
        next_mode(FlightMode::Panic, next_state, motors) == FlightMode::Safe <==> next_state
            == FSMState::SafeMode,
{
}

/// Calibration is entered only from safe mode, on request, with all motors
/// standing still.
pub proof fn lemma_calibration_needs_safe_and_motors_off(
    mode: FlightMode,
    next_state: FSMState,
    motors: [u16; 4],
)
    requires
        mode != FlightMode::Calibration,
        next_mode(mode, next_state, motors) == FlightMode::Calibration,
    ensures
        mode == FlightMode::Safe,
        next_state == FSMState::CalibrationMode,
        motors_off(motors),
{
}

/// Height control is entered only from one of the full-control modes, and
/// remembers which.
pub proof fn lemma_height_control_entered_from_full_control(
    mode: FlightMode,
    next_state: FSMState,
    motors: [u16; 4],
)
    requires
        !(mode is HeightControl),
        next_mode(mode, next_state, motors) is HeightControl,
    ensures
        next_state == FSMState::HeightControlMode,
        mode == FlightMode::FullControl || mode == FlightMode::RawSensorsFullControl,
        next_mode(mode, next_state, motors) == (FlightMode::HeightControl {
            entered_from_raw_sensors: mode == FlightMode::RawSensorsFullControl,
        }),
{
}

/// Manual, yaw and full control are entered only from safe mode.
pub proof fn lemma_flying_modes_entered_from_safe(
    mode: FlightMode,
    next_state: FSMState,
    motors: [u16; 4],
)
    requires
        mode != next_mode(mode, next_state, motors),
        next_mode(mode, next_state, motors) == FlightMode::Manual || next_mode(
            mode,
            next_state,
            motors,
        ) == FlightMode::Yaw || next_mode(mode, next_state, motors) == FlightMode::FullControl,
    ensures
        mode == FlightMode::Safe,
{
}

/// A transition request either leaves the reported state as it was or
/// leads to the requested state; it never leads anywhere else.
pub proof fn lemma_transition_targets(mode: FlightMode, next_state: FSMState, motors: [u16; 4])
    ensures
        ({
            let r = state_of(next_mode(mode, next_state, motors));
            r == state_of(mode) || r == next_state
        }),
{
}

} // verus!
