use vstd::prelude::*;

use crate::command::FSMState;
use crate::states::{motors_off, FlightMode};

verus! {

/// The safe mode: motors off, logged telemetry is sent out of the flash.
pub struct FSMSafe;

/// What a transition request in safe mode leads to: the new mode, whether
/// the red LED is switched off, and whether the calibration is reset.
#[derive(PartialEq, Eq, Structural, Debug, Clone, Copy)]
pub struct SafeTransition {
    pub mode: FlightMode,
    pub red_led_off: bool,
    pub reset_calibration: bool,
}

/// What a safe-mode tick does with the telemetry log in flash.
#[derive(PartialEq, Eq, Structural, Debug, Clone, Copy)]
pub enum FlashAction {
    /// Send the record that starts at this offset.
    SendRecord(usize),
    /// Erase the whole chip.
    EraseChip,
    Nothing,
}

/// A safe-mode tick: the motor speeds it sets, what it does with the flash
/// log, and the new head and tail offsets.
#[derive(PartialEq, Eq, Debug, Clone, Copy)]
pub struct FlashStep {
    pub motors: [u16; 4],
    pub action: FlashAction,
    pub flash_head: usize,
    pub flash_tail: usize,
}

/// Whether all four motors stand still.
pub fn is_throttle_zero(speed: [u16; 4]) -> (r: bool)
    ensures
        r == motors_off(speed),
{
    speed[0] == 0 && speed[1] == 0 && speed[2] == 0 && speed[3] == 0
}

impl FSMSafe {
    /// Calibration starts only with the motors off (and resets it); manual,
    /// yaw, full control and panic are entered directly; other requests
    /// keep the drone safe. Any request other than safe mode switches the
    /// red LED off.
    pub fn step(&self, next_state: FSMState, motors: [u16; 4]) -> (r: SafeTransition)
        ensures
            r.red_led_off == (next_state != FSMState::SafeMode),
            r.reset_calibration == (next_state == FSMState::CalibrationMode && motors_off(motors)),
            r.mode == (match next_state {
                FSMState::CalibrationMode => if motors_off(motors) {
                    FlightMode::Calibration
                } else {
                    FlightMode::Safe
                },
                FSMState::ManualMode => FlightMode::Manual,
                FSMState::YawControl => FlightMode::Yaw,
                FSMState::FullControlMode => FlightMode::FullControl,
                FSMState::PanicMode => FlightMode::Panic,
                _ => FlightMode::Safe,
            }),
    {
        let red_led_off = next_state != FSMState::SafeMode;
        match next_state {
            FSMState::CalibrationMode => {
                if is_throttle_zero(motors) {
                    return SafeTransition {
                        mode: FlightMode::Calibration,
                        red_led_off,
                        reset_calibration: true,
                    };
                }
                SafeTransition { mode: FlightMode::Safe, red_led_off, reset_calibration: false }
            },
            FSMState::ManualMode => SafeTransition {
                mode: FlightMode::Manual,
                red_led_off,
                reset_calibration: false,
            },
            FSMState::YawControl => SafeTransition {
                mode: FlightMode::Yaw,
                red_led_off,
                reset_calibration: false,
            },
            FSMState::FullControlMode => SafeTransition {
                mode: FlightMode::FullControl,
                red_led_off,
                reset_calibration: false,
            },
            FSMState::PanicMode => SafeTransition {
                mode: FlightMode::Panic,
                red_led_off,
                reset_calibration: false,
            },
            _ => SafeTransition { mode: FlightMode::Safe, red_led_off, reset_calibration: false },
        }
    }

    pub fn get_state(&self) -> (r: FSMState)
        ensures
            r == FSMState::SafeMode,
    {
        FSMState::SafeMode
    }

    /// One safe-mode tick: every motor is set to zero; while records of
    /// the flash log are left between tail and head, the record at the tail
    /// is sent and the tail moves on by `record_size`; once everything was
    /// sent, the chip is erased and both offsets return to zero.
    pub fn run_state_loop(&self, flash_head: usize, flash_tail: usize, record_size: usize) -> (r:
        FlashStep)
        requires
            flash_head != flash_tail ==> flash_tail + record_size <= usize::MAX,
        ensures
            r.motors@ == seq![0u16, 0u16, 0u16, 0u16],
            flash_head != flash_tail ==> r == (FlashStep {
                motors: r.motors,
                action: FlashAction::SendRecord(flash_tail),
                flash_head,
                flash_tail: (flash_tail + record_size) as usize,
            }),
            flash_head == flash_tail && flash_tail != 0 ==> r == (FlashStep {
                motors: r.motors,
                action: FlashAction::EraseChip,
                flash_head: 0,
                flash_tail: 0,
            }),
            flash_head == flash_tail && flash_tail == 0 ==> r == (FlashStep {
                motors: r.motors,
                action: FlashAction::Nothing,
                flash_head,
                flash_tail,
            }),
    {
        let motors: [u16; 4] = [0, 0, 0, 0];
        assert(motors@ =~= seq![0u16, 0u16, 0u16, 0u16]);
        if flash_head != flash_tail {
            FlashStep {
                motors,
                action: FlashAction::SendRecord(flash_tail),
                flash_head,
                flash_tail: flash_tail + record_size,
            }
        } else if flash_tail != 0 {
            FlashStep { motors, action: FlashAction::EraseChip, flash_head: 0, flash_tail: 0 }
        } else {
            FlashStep { motors, action: FlashAction::Nothing, flash_head, flash_tail }
        }
    }
}

} // verus!
