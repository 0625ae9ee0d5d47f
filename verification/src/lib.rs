//! Packet framing for the drone's serial and wireless link, and the
//! integer and fixed-point parts of its flight controller: sensor
//! calibration and filtering, the PID controller, motor mixing, flight-mode
//! transitions, the main loop's decisions, wireless chunking, and the data
//! records they exchange.
pub mod approx_funcs;
pub mod axis;
pub mod butterworth_filter;
pub mod calibration_state;
pub mod checksum;
pub mod command;
pub mod downlink;
pub mod fixed_point;
pub mod framing;
pub mod fsm_manual_mode;
pub mod kalman_filter;
pub mod keyboard;
pub mod laws;
pub mod main_loop;
pub mod pc_command;
pub mod pid_controller;
pub mod pressure_filter;
pub mod rpm_calculator;
pub mod sensor_calibration;
pub mod states;
pub mod telemetry_data;
pub mod trig;
pub mod transceiver;
pub mod wireless_log;
pub mod yaw_pitch_roll;

