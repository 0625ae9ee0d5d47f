use vstd::prelude::*;

use crate::command::FSMState;
use crate::states::FlightMode;

verus! {

/// How much the equalized motor speed drops per tick.
pub const DESCENT_STEP: u16 = 2;

/// The panic mode: the motors are equalized and then slowed down until
/// they stop.
pub struct FSMPanic;

/// What a panic tick does: the speed to set on all four motors (if any),
/// how to switch the red LED (on, off, or left as it is), and the mode
/// afterwards.
#[derive(PartialEq, Eq, Structural, Debug, Clone, Copy)]
pub struct PanicAction {
    pub set_motors: Option<u16>,
    pub red_led: Option<bool>,
    pub mode: FlightMode,
}

pub open spec fn motor_sum(m: [u16; 4]) -> int {
    m@[0] + m@[1] + m@[2] + m@[3]
}

/// The average of the four speeds, rounded down.
pub open spec fn motor_average(m: [u16; 4]) -> int {
    motor_sum(m) / 4
}

pub open spec fn all_equal_to(m: [u16; 4], v: int) -> bool {
    m@[0] == v && m@[1] == v && m@[2] == v && m@[3] == v
}

/// What a panic tick does for the given motor speeds: motors that differ
/// are all set to their average (red LED on); equal running motors are
/// slowed down by `DESCENT_STEP`, but not below zero; stopped motors end the
/// panic (red LED off, safe mode).
pub open spec fn panic_action(m: [u16; 4]) -> PanicAction {
    let avg = motor_average(m);
    if !all_equal_to(m, avg) {
        PanicAction { set_motors: Some(avg as u16), red_led: Some(true), mode: FlightMode::Panic }
    } else if m@[0] == 0 {
        PanicAction { set_motors: None, red_led: Some(false), mode: FlightMode::Safe }
    } else {
        PanicAction {
            set_motors: Some(if m@[0] > DESCENT_STEP { (m@[0] - DESCENT_STEP) as u16 } else { 0u16 }),
            red_led: None,
            mode: FlightMode::Panic,
        }
    }
}

/// A panic tick never speeds a motor up beyond the fastest one, leaves
/// panic mode only when all motors stand still, and, once the motors are
/// equal, slows them down.
pub proof fn lemma_panic_never_speeds_up(m: [u16; 4])
    requires
        motor_sum(m) <= u16::MAX,
    ensures
        panic_action(m).set_motors matches Some(v) ==> (v <= m@[0] || v <= m@[1] || v <= m@[2]
            || v <= m@[3]) && v <= m@[0] + m@[1] + m@[2] + m@[3],
        panic_action(m).set_motors matches Some(v) ==> (v < m@[0] && v < m@[1] && v < m@[2]
            && v < m@[3]) || !all_equal_to(m, motor_average(m)),
        panic_action(m).mode == FlightMode::Safe ==> all_equal_to(m, 0),
        panic_action(m).mode == FlightMode::Safe || panic_action(m).mode == FlightMode::Panic,
{
}

impl FSMPanic {
    /// Only a request for safe mode leaves panic mode.
    pub fn step(&self, next_state: FSMState) -> (r: FlightMode)
        ensures
            r == (if next_state == FSMState::SafeMode {
                FlightMode::Safe
            } else {
                FlightMode::Panic
            }),
    {
        match next_state {
            FSMState::SafeMode => FlightMode::Safe,
            FSMState::PanicMode => FlightMode::Panic,
            _ => FlightMode::Panic,
        }
    }

    pub fn get_state(&self) -> (r: FSMState)
        ensures
            r == FSMState::PanicMode,
    {
        FSMState::PanicMode
    }

    /// One tick of the descent: motors that differ are all set to their
    /// average (red LED on); equal running motors are slowed down by
    /// `DESCENT_STEP`, but not below zero; stopped motors end the panic
    /// (red LED off, safe mode).
    pub fn run_control_loop(&self, current_speed: [u16; 4]) -> (r: PanicAction)
        requires
            motor_sum(current_speed) <= u16::MAX,
        ensures
            r == panic_action(current_speed),
    {
        let mut avg_speed: u16 = 0;
        avg_speed += current_speed[0];
        avg_speed += current_speed[1];
        avg_speed += current_speed[2];
        avg_speed += current_speed[3];
        avg_speed /= 4;
        if current_speed[0] != avg_speed || current_speed[1] != avg_speed || current_speed[2]
            != avg_speed || current_speed[3] != avg_speed {
            PanicAction { set_motors: Some(avg_speed), red_led: Some(true), mode: FlightMode::Panic }
        } else if current_speed[0] == 0 {
            PanicAction { set_motors: None, red_led: Some(false), mode: FlightMode::Safe }
        } else {
            // all motors are equalized
            let new_speed: u16 = avg_speed.saturating_sub(DESCENT_STEP);
            PanicAction { set_motors: Some(new_speed), red_led: None, mode: FlightMode::Panic }
        }
    }
}

} // verus!
