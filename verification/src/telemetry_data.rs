//! The integer telemetry records the drone sends.
use vstd::prelude::*;

use crate::command::FSMState;

verus! {

/// Loop time, battery level and mode.
#[derive(PartialEq, Eq, Structural, Debug, Clone, Copy)]
pub struct GeneralData {
    pub logged_in_flash: bool,
    pub dt: u32,
    pub bat: u16,
    pub cur_state: FSMState,
}

/// The speeds of the four motors.
#[derive(Debug, Clone, Copy)]
pub struct MotorData {
    pub logged_in_flash: bool,
    pub motors: [u16; 4],
}

/// Raw accelerometer and gyroscope readings.
#[derive(PartialEq, Eq, Structural, Debug, Clone, Copy)]
pub struct RawData {
    pub logged_in_flash: bool,
    pub accel_x: i16,
    pub accel_y: i16,
    pub accel_z: i16,
    pub gyro_x: i16,
    pub gyro_y: i16,
    pub gyro_z: i16,
}

} // verus!
