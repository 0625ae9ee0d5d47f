use fixed::types::I16F16 as FixedI16F16;
use fixed::types::I20F12 as FixedI20F12;
use fixed::types::I28F4 as FixedI28F4;

use my_hdlc::approx_funcs::{approx_sqrt, approx_sqrt_i16f16};
use my_hdlc::butterworth_filter::ButterWorth;
use my_hdlc::sensor_calibration::CalibrationState as SensorCalibration;
use my_hdlc::axis::Axis as FixedAxis;
use my_hdlc::calibration_state::Axis as SensorAxis;
use my_hdlc::command::FSMState;
use my_hdlc::fixed_point::{I16F16, I20F12, I28F4};
use my_hdlc::kalman_filter::KalmanFilter;
use my_hdlc::keyboard::{keyboard_action, should_enter_panic, Key, KeyboardAction};
use my_hdlc::main_loop::{after_state_loop, battery_too_low, filter_battery_level};
use my_hdlc::pc_command::ManualDroneInput;
use my_hdlc::pressure_filter::{
    AttitudeTrig, PressureSensor, ACCELEROMETER_VARIANCE_BITS, BAROMETER_VARIANCE_BITS, GRAVITY_BITS,
};
use my_hdlc::pid_controller::{
    delta_t_from_micros, lift_is_defined, PIDController, TrimAxis, DEGREE_TO_RAD_BITS,
    HOVER_FORCE_BITS,
};
use my_hdlc::rpm_calculator::{
    actuate_motors_with_direct_joystick_input, actuate_motors_with_rates, map_rpm_square_to_pwm,
    DRG_DIV_BITS, THRESHOLD_LIFT_BITS, THR_DIV_BITS,
};
use my_hdlc::yaw_pitch_roll::{Quaternion, YawPitchRoll};

fn fx(bits: i32) -> I16F16 {
    I16F16::from_bits(bits)
}

fn ypr(lift: i32, yaw: i32, pitch: i32, roll: i32, pressure: i32) -> YawPitchRoll {
    YawPitchRoll { lift: fx(lift), yaw: fx(yaw), pitch: fx(pitch), roll: fx(roll), pressure: fx(pressure) }
}

#[test]
fn fixed_constants_match_their_literals() {
    assert_eq!(FixedI16F16::lit("1.25").to_bits(), THRESHOLD_LIFT_BITS);
    assert_eq!(FixedI28F4::lit("1250").to_bits(), THR_DIV_BITS);
    assert_eq!(FixedI28F4::lit("17857.286").to_bits(), DRG_DIV_BITS);
    assert_eq!(FixedI16F16::lit("0.0174").to_bits(), DEGREE_TO_RAD_BITS);
    assert_eq!(FixedI16F16::lit("7.5").to_bits(), HOVER_FORCE_BITS);
}

#[test]
fn fixed_arithmetic_rounds_as_stated() {
    // products round towards minus infinity, quotients towards zero
    assert_eq!(fx(-3).mul(fx(0x8000)).bits, -2);
    assert_eq!(fx(3).mul(fx(0x8000)).bits, 1);
    assert_eq!(fx(-0x10000).div(fx(0x30000)).bits, -21845);
    assert_eq!(fx(0x10000).div(fx(-0x30000)).bits, -21845);
    assert_eq!(fx(-1001).div_int(1000).bits, -1);
    assert_eq!(I28F4::from_bits(-17).mul(I28F4::from_bits(8)).bits, -9);
    assert_eq!(fx(0x7fff_0000).checked_add(fx(0x1_0000)), None);
    assert_eq!(fx(1).checked_div(fx(0)), None);
    assert_eq!(fx(0x10000).checked_div(fx(0x20000)).map(|v| v.bits), Some(0x8000));
}

#[test]
fn approx_sqrt_of_i28f4() {
    assert_eq!(approx_sqrt(I28F4::from_bits(256)).bits, 64);
    assert_eq!(approx_sqrt(I28F4::from_bits(16)).bits, 16);
    assert_eq!(approx_sqrt(I28F4::from_bits(1600)).bits, 160);
    assert_eq!(approx_sqrt(I28F4::from_bits(1)).bits, 4);
    assert_eq!(approx_sqrt(I28F4::from_bits(i32::MAX)).bits, 185363);
    assert_eq!(approx_sqrt(I28F4::from_bits(0)).bits, 0);
    assert_eq!(approx_sqrt(I28F4::from_bits(-5)).bits, 0);
}

#[test]
fn approx_sqrt_of_i16f16() {
    assert_eq!(approx_sqrt_i16f16(fx(4 << 16)).bits, 2 << 16);
    assert_eq!(approx_sqrt_i16f16(fx(1 << 16)).bits, 1 << 16);
    assert_eq!(approx_sqrt_i16f16(fx(2 << 16)).bits, 92681);
    assert_eq!(approx_sqrt_i16f16(fx(100 << 16)).bits, 10 << 16);
    assert_eq!(approx_sqrt_i16f16(fx(1)).bits, 256);
    assert_eq!(approx_sqrt_i16f16(fx(-1)).bits, 0);
}

#[test]
fn approx_sqrt_never_falls_a_unit_short() {
    for n in [1i32, 2, 3, 17, 255, 1000, 65535, 1 << 20, 123456789, i32::MAX] {
        let r = approx_sqrt(I28F4::from_bits(n)).bits as i64;
        assert!((r + 1) * (r + 1) > 16 * n as i64);
        let r16 = approx_sqrt_i16f16(fx(n)).bits as i64;
        assert!((r16 + 1) * (r16 + 1) > 65536 * n as i64);
    }
}

#[test]
fn sticks_scale_to_targets() {
    let full = YawPitchRoll::from_manual_input(&ManualDroneInput {
        lift: i16::MAX,
        roll: i16::MAX,
        pitch: i16::MAX,
        yaw: i16::MAX,
    });
    assert_eq!(full.lift.bits, 15 << 16);
    assert_eq!(full.yaw.bits, 120 << 16);
    assert_eq!(full.pitch.bits, 30 << 16);
    assert_eq!(full.roll.bits, 30 << 16);
    assert_eq!(full.pressure.bits, 0);
    let half = YawPitchRoll::from_manual_input(&ManualDroneInput { lift: 0, roll: -16384, pitch: 0, yaw: 0 });
    // -16384 / 32767 in I16F16, rounded towards zero, times 30
    assert_eq!(half.roll.bits, 30 * -32769);
}

#[test]
fn yaw_pitch_roll_arithmetic() {
    let a = ypr(1, 2, 3, 4, 5);
    let b = ypr(10, 20, 30, 40, 50);
    assert_eq!(a.add(b), ypr(11, 22, 33, 44, 55));
    assert_eq!(b.sub(a), ypr(9, 18, 27, 36, 45));
    let c = ypr(0x10000, 0x20000, -0x10000, 0x8000, 4);
    assert_eq!(c.mul(fx(0x8000)), ypr(0x8000, 0x10000, -0x8000, 0x4000, 2));
    assert_eq!(c.div(fx(0x20000)), ypr(0x8000, 0x10000, -0x8000, 0x4000, 2));
    assert_eq!(c.mul_pid_values([fx(0x20000), fx(0x10000), fx(0), fx(0x10000)]), ypr(0x10000, 0x40000, -0x10000, 0, 4));
    assert_eq!(YawPitchRoll::new(), ypr(0, 0, 0, 0, 0));
}

#[test]
fn level_quaternion_gives_zero_angles() {
    let q = Quaternion { w: fx(0x10000), x: fx(0), y: fx(0), z: fx(0) };
    assert_eq!(YawPitchRoll::from_quaternion(q), ypr(0, 0, 0, 0, 0));
}

#[test]
fn rolled_quaternion_gives_a_quarter_turn_of_roll() {
    // a quarter turn about the x axis: w = x = sqrt(1/2)
    let q = Quaternion { w: fx(46341), x: fx(46341), y: fx(0), z: fx(0) };
    let r = YawPitchRoll::from_quaternion(q);
    let expected_roll = cordic::atan2(FixedI16F16::from_bits(0x10000), FixedI16F16::from_bits(0)).to_bits();
    assert_eq!(r.roll.bits, expected_roll);
    assert!((r.roll.bits as f64 / 65536.0 - std::f64::consts::FRAC_PI_2).abs() < 0.001);
    assert_eq!(r.pitch.bits, 0);
    assert_eq!(r.yaw.bits, 0);
}

#[test]
fn yawed_quaternion_halves_the_arc_tangent() {
    // a small turn about z: w = 0.99, z = 0.14
    let (w, z) = (64881, 9175);
    let q = Quaternion { w: fx(w), x: fx(0), y: fx(0), z: fx(z) };
    let r = YawPitchRoll::from_quaternion(q);
    let wz = ((w as i64 * z as i64) >> 16) as i32;
    let zz = ((z as i64 * z as i64) >> 16) as i32;
    let angle = cordic::atan2(FixedI16F16::from_bits(2 * wz), FixedI16F16::from_bits(0x10000 - 2 * zz));
    assert_eq!(r.yaw.bits, (angle / FixedI16F16::from_num(2)).to_bits());
    assert!(r.yaw.bits > 0);
}

#[test]
fn map_rpm_square_to_pwm_scales_by_motor_max() {
    let squares = [
        I28F4::from_bits(980 * 980 * 16),
        I28F4::from_bits(490 * 490 * 16),
        I28F4::from_bits(0),
        I28F4::from_bits(100 * 16),
    ];
    assert_eq!(map_rpm_square_to_pwm(fx(0x20000), &squares, 1000), [1000, 500, 200, 200]);
    assert_eq!(map_rpm_square_to_pwm(fx(0x10000), &squares, 1000), [0, 0, 0, 0]);
    assert_eq!(map_rpm_square_to_pwm(fx(THRESHOLD_LIFT_BITS), &squares, 1000), [1000, 500, 200, 200]);
}

#[test]
fn direct_joystick_input_mixes_lift_yaw_pitch_roll() {
    let input = ypr(-(500 << 16), 10 << 16, 20 << 16, 30 << 16, 0);
    assert_eq!(actuate_motors_with_direct_joystick_input(&input, fx(0x20000), 1000), [200, 200, 200, 200]);
    let idle = ypr(-(100 << 16), 0, 0, 0, 0);
    assert_eq!(actuate_motors_with_direct_joystick_input(&idle, fx(0x10000), 400), [0, 0, 0, 0]);
}

#[test]
fn rates_mix_through_thrust_and_drag_factors() {
    let input = ypr(3 << 16, 1 << 16, (1 << 16) / 2, -(1 << 16) / 4, 0);
    assert_eq!(actuate_motors_with_rates(&input, fx(0x20000), 1000), [270, 257, 200, 218]);
    let level = ypr(0, 0, 0, 0, 0);
    assert_eq!(actuate_motors_with_rates(&level, fx(0x20000), 1000), [200, 200, 200, 200]);
    assert_eq!(actuate_motors_with_rates(&level, fx(0), 1000), [0, 0, 0, 0]);
}

#[test]
fn delta_t_is_in_seconds() {
    assert_eq!(delta_t_from_micros(20000).bits, 1310);
    assert_eq!(delta_t_from_micros(15).bits, 0);
    assert_eq!(delta_t_from_micros(16).bits, 1);
    assert_eq!(delta_t_from_micros(32767).bits, 2147);
}

#[test]
fn proportional_correction_and_lift() {
    let mut pid = PIDController::new();
    pid.set_gains(TrimAxis::Yaw, fx(0x10000), fx(0), fx(0));
    pid.set_gains(TrimAxis::Pitch, fx(0x20000), fx(0), fx(0));
    pid.set_gains(TrimAxis::Roll, fx(0x8000), fx(0), fx(0));
    pid.set_gains(TrimAxis::Lift, fx(0x10000), fx(0), fx(0));
    assert_eq!(pid.k_p.map(|v| v.bits), [0x10000, 0x20000, 0x8000, 0x10000]);
    let input = ypr(0, 0, 0, 0, 0);
    let target = ypr(5, 0x10000, 0x10000, 0x10000, 0x8000);
    let r = pid.compute_pid_correction(input, target, 1, delta_t_from_micros(20000));
    assert_eq!((r.yaw.bits, r.pitch.bits, r.roll.bits, r.pressure.bits), (0x10000, 0x20000, 0x8000, 0x8000));
    // the lift: (7.5 + pressure) over the tilt compensation at zero pitch and roll
    let cos0 = cordic::cos(FixedI16F16::from_bits(0));
    let tilt = cos0 * cos0;
    let expected = (FixedI16F16::from_bits(HOVER_FORCE_BITS) + FixedI16F16::from_bits(0x8000)) / tilt;
    assert_eq!(r.lift.bits, expected.to_bits());
    assert!((r.lift.bits as f64 / 65536.0 - 8.0).abs() < 0.01);
    // the proportional term alone keeps no state
    assert_eq!(pid.prev_error, YawPitchRoll::new());
    assert_eq!(pid.integration_build_up, YawPitchRoll::new());
}

#[test]
fn derivative_and_integral_terms_keep_state() {
    let mut pid = PIDController::new();
    pid.set_gains(TrimAxis::Yaw, fx(0), fx(0x10000), fx(0x10000));
    let dt = fx(0x8000);
    let input = ypr(0, 0, 0, 0, 0);
    let target = ypr(0, 0x10000, 0, 0, 0);
    // derivative: (1 - 0) / 0.5 = 2; integral: 1 * 0.5 = 0.5
    let r = pid.compute_pid_correction(input, target, 6, dt);
    assert_eq!(r.yaw.bits, 0x20000 + 0x8000);
    assert_eq!(pid.prev_error.yaw.bits, 0x10000);
    assert_eq!(pid.integration_build_up.yaw.bits, 0x8000);
    // the same error again: no derivative, the integral grows to 1
    let r2 = pid.compute_pid_correction(input, target, 6, dt);
    assert_eq!(r2.yaw.bits, 0x10000);
    assert_eq!(pid.integration_build_up.yaw.bits, 0x10000);
    pid.reset_error();
    assert_eq!(pid.prev_error, YawPitchRoll::new());
    assert_eq!(pid.integration_build_up, YawPitchRoll::new());
    assert_eq!(pid.k_i[0].bits, 0x10000);
}

#[test]
fn lift_is_undefined_at_a_right_angle_tilt() {
    let right = fx(90 << 16);
    assert!(!lift_is_defined(right, right, fx(0)));
    assert!(lift_is_defined(fx(0), fx(0), fx(0)));
    let mut pid = PIDController::new();
    let before_prev = pid.prev_error;
    let r = pid.try_compute_pid_correction(ypr(0, 0, right.bits, right.bits, 0), ypr(0, 0, 0, 0, 0), 2, fx(0x10000));
    assert!(r.is_none());
    assert_eq!(pid.prev_error, before_prev);
    let ok = pid.try_compute_pid_correction(ypr(0, 0, 0, 0, 0), ypr(0, 0, 0, 0, 0), 1, fx(0x10000));
    assert!(ok.is_some());
}

#[test]
fn kalman_filter_integrates_rates_towards_gravity() {
    let zero = FixedAxis { x: fx(0), y: fx(0), z: fx(0) };
    let mut k = KalmanFilter::new((zero, zero), 0);
    let accel = SensorAxis { x: 0, y: 0, z: 16384 };
    let gyro = SensorAxis { x: 100, y: -50, z: 30 };
    // within a millisecond of the last sample nothing happens
    k.append_new_reading(accel, gyro, 999);
    assert_eq!(k.reading.0.z.bits, 0);
    k.append_new_reading(accel, gyro, 10_500);
    assert_eq!(k.last_read_time_us, 10_500);
    assert_eq!(k.reading.0.z.bits, 0x10000);
    assert_eq!(k.reading.1.x.bits, 100 << 16);
    assert_eq!((k.roll.bits, k.bias_p.bits), (380, 1));
    assert_eq!((k.pitch.bits, k.bias_q.bits), (-190, -1));
    assert_eq!(k.yaw.bits, 19650);
    let r = k.get_reading();
    assert_eq!(r.roll.bits, ((380i64 * 3754931) >> 16) as i32);
    assert_eq!(r.pitch.bits, ((190i64 * 3754931) >> 16) as i32);
    assert_eq!(r.yaw.bits, 19650);
}

#[test]
fn kalman_filter_refuses_a_too_long_step() {
    let zero = FixedAxis { x: fx(0), y: fx(0), z: fx(0) };
    let mut k = KalmanFilter::new((zero, zero), 0);
    let accel = SensorAxis { x: 0, y: 0, z: 16384 };
    let gyro = SensorAxis { x: 0, y: 0, z: 0 };
    assert!(!k.try_append_new_reading(accel, gyro, 40_000_000));
    assert_eq!(k.reading.0.z.bits, 0);
    // too soon: nothing to do
    assert!(k.try_append_new_reading(accel, gyro, 500));
    assert_eq!(k.reading.0.z.bits, 0);
    assert!(k.try_append_new_reading(accel, gyro, 5000));
    assert_eq!(k.reading.0.z.bits, 0x10000);
}

#[test]
fn battery_level_is_smoothed() {
    let level = fx(1000 << 16);
    assert_eq!(filter_battery_level(level, 1000).bits, 1000 << 16);
    let once = filter_battery_level(level, 600);
    assert_eq!(filter_battery_level(once, 600).bits, 60554976);
    assert!(!battery_too_low(fx(700 << 16)));
    assert!(battery_too_low(fx((700 << 16) - 1)));
}

#[test]
fn main_loop_decisions() {
    let d = after_state_loop(10, 25, 200, false);
    assert!(!d.watchdog_panic && !d.is_wireless && d.send_telemetry && !d.log_to_flash);
    let d = after_state_loop(1000, 5, 200, false);
    assert!(d.watchdog_panic && d.is_wireless && d.send_telemetry && d.log_to_flash);
    let d = after_state_loop(999, 19, 99, true);
    assert!(!d.watchdog_panic && d.is_wireless && d.send_telemetry && !d.log_to_flash);
    let d = after_state_loop(2000, 19, 500, true);
    assert!(d.watchdog_panic && !d.is_wireless && !d.send_telemetry && !d.log_to_flash);
}

#[test]
fn keyboard_keys() {
    assert_eq!(keyboard_action(Key::Char('0'), false), KeyboardAction::Transition(FSMState::SafeMode));
    assert_eq!(keyboard_action(Key::Char('3'), false), KeyboardAction::Transition(FSMState::CalibrationMode));
    assert_eq!(keyboard_action(Key::Char('2'), true), KeyboardAction::Transition(FSMState::ManualMode));
    assert_eq!(keyboard_action(Key::Char('2'), false), KeyboardAction::Nothing);
    assert_eq!(keyboard_action(Key::Char('8'), true), KeyboardAction::Transition(FSMState::WirelessMode));
    assert_eq!(keyboard_action(Key::Char('7'), false), KeyboardAction::Nothing);
    assert_eq!(keyboard_action(Key::Esc, false), KeyboardAction::Panic);
    assert_eq!(keyboard_action(Key::Char(' '), true), KeyboardAction::Panic);
    assert_eq!(keyboard_action(Key::Char('1'), true), KeyboardAction::Panic);
    assert_eq!(keyboard_action(Key::Char('e'), true), KeyboardAction::LeaveRawMode);
    assert_eq!(keyboard_action(Key::Char('a'), true), KeyboardAction::TrimLift(2));
    assert_eq!(keyboard_action(Key::Char('z'), true), KeyboardAction::TrimLift(-2));
    assert_eq!(keyboard_action(Key::Right, true), KeyboardAction::TrimRoll(-2));
    assert_eq!(keyboard_action(Key::Up, true), KeyboardAction::TrimPitch(2));
    assert_eq!(keyboard_action(Key::Char('q'), true), KeyboardAction::TrimYaw(-2));
    assert_eq!(keyboard_action(Key::Char('i'), true), KeyboardAction::TrimRollPitchP(500));
    assert_eq!(keyboard_action(Key::Char('l'), true), KeyboardAction::TrimRollPitchD(-500));
    assert_eq!(keyboard_action(Key::Char('x'), true), KeyboardAction::Nothing);
    assert_eq!(keyboard_action(Key::Other, true), KeyboardAction::Nothing);
}

#[test]
fn panic_is_sent_on_any_request() {
    assert!(!should_enter_panic(false, false, false));
    assert!(should_enter_panic(true, false, false));
    assert!(should_enter_panic(false, true, false));
    assert!(should_enter_panic(false, false, true));
}

#[test]
fn sensor_calibration_averages_samples() {
    let level = Quaternion { w: fx(0x10000), x: fx(0), y: fx(0), z: fx(0) };
    let mut c = SensorCalibration::new();
    c.read_new_sample(level, SensorAxis { x: 10, y: -20, z: 16400 }, SensorAxis { x: 1, y: 2, z: 3 }, 100000);
    assert_eq!(c.pressure_average.bits, 600000);
    c.read_new_sample(level, SensorAxis { x: 12, y: -25, z: 16410 }, SensorAxis { x: 3, y: -2, z: 4 }, 100000);
    assert_eq!((c.accelerometer_sum.x, c.accelerometer_sum.y, c.accelerometer_sum.z), (22, -45, 32810));
    assert_eq!((c.gyro_sum.x, c.gyro_sum.y, c.gyro_sum.z), (4, 0, 7));
    assert_eq!(c.sample_cnt.bits, 2 << 16);
    assert_eq!(c.pressure_average.bits, 1143750);
    c.finalize_calibration();
    assert_eq!(c.accelerometer_offset.x.bits, 11 << 16);
    // -45 / 2 rounds towards zero
    assert_eq!(c.accelerometer_offset.y.bits, -22 << 16);
    assert_eq!(c.accelerometer_offset.z.bits, 21 << 16);
    assert_eq!((c.gyro_offset.x.bits, c.gyro_offset.y.bits, c.gyro_offset.z.bits), (2 << 16, 0, 3 << 16));
    assert_eq!(c.ypr_offset, YawPitchRoll::new());
    c.reset();
    assert_eq!(c.sample_cnt.bits, 0);
    assert_eq!(c.accelerometer_offset.x.bits, 0);
}

#[test]
fn sensor_calibration_refuses_what_does_not_fit() {
    let level = Quaternion { w: fx(0x10000), x: fx(0), y: fx(0), z: fx(0) };
    let mut c = SensorCalibration::new();
    assert!(!c.try_read_new_sample(level, SensorAxis { x: 1, y: 1, z: 1 }, SensorAxis { x: 1, y: 1, z: 1 }, 1 << 25));
    assert_eq!(c.sample_cnt.bits, 0);
    assert!(c.try_read_new_sample(level, SensorAxis { x: 1, y: 1, z: 1 }, SensorAxis { x: 1, y: 1, z: 1 }, 1000));
    assert_eq!(c.sample_cnt.bits, 1 << 16);
}

#[test]
fn quaternion_with_overflowing_products_is_refused() {
    let big = Quaternion { w: fx(i32::MAX), x: fx(i32::MAX), y: fx(0), z: fx(0) };
    assert!(YawPitchRoll::try_from_quaternion(big).is_none());
    let level = Quaternion { w: fx(0x10000), x: fx(0), y: fx(0), z: fx(0) };
    assert_eq!(YawPitchRoll::try_from_quaternion(level), Some(YawPitchRoll::new()));
}

#[test]
fn steady_battery_reading_is_kept() {
    for r in [0u16, 1, 700, 1100, 0x7fff] {
        let level = fx((r as i32) << 16);
        assert_eq!(filter_battery_level(level, r).bits, (r as i32) << 16);
    }
}

#[test]
fn butterworth_keeps_most_of_the_old_output() {
    let a = |x: i16, y: i16, z: i16| SensorAxis { x, y, z };
    let mut f = ButterWorth::new((a(100, -100, 0), a(3, -3, 32767)));
    f.append_new_reading((a(50, -51, 7), a(1, 1, 32767)));
    // 99 * 100 / 100 + 100 / 2 + 50 / 2 = 174; -99 - 50 - 25 = -174
    assert_eq!(f.output.0, a(174, -174, 3));
    // 2 + 1 + 0 = 3; -2 - 1 + 0 = -3; clamped at i16::MAX
    assert_eq!(f.output.1, a(3, -3, 32767));
    assert_eq!(f.prev_input, (a(50, -51, 7), a(1, 1, 32767)));
}

#[test]
fn height_filter_constants_match_their_sources() {
    assert_eq!(FixedI20F12::from_num(0.6f32).to_bits(), ACCELEROMETER_VARIANCE_BITS);
    assert_eq!(FixedI20F12::from_num(5e-2).to_bits(), BAROMETER_VARIANCE_BITS);
    assert_eq!(FixedI20F12::from_num(9.81).to_bits(), GRAVITY_BITS);
}

#[test]
fn height_filter_predicts_and_corrects() {
    let f12 = I20F12::from_bits;
    let mut p = PressureSensor::new(0);
    let zero = FixedAxis { x: fx(0), y: fx(0), z: fx(0) };
    let level = AttitudeTrig { sin_pitch: f12(0), sin_roll: f12(0), cos_pitch: f12(4096), cos_roll: f12(4096) };
    let up = SensorAxis { x: 0, y: 0, z: 16384 + 1638 };
    // within a millisecond of the last prediction nothing happens
    p.prediction(999, up, zero, level, f12(123));
    assert_eq!(p.uncertainty_matrix.1.bits, 0);
    assert_eq!(p.last_reading_accel_us, 0);
    // 1.1 g straight up for 0.03 s
    p.prediction(30000, up, zero, level, f12(123));
    assert_eq!(p.last_reading_accel_us, 30000);
    assert_eq!((p.current_state.0.bits, p.current_state.1.bits), (0, 120));
    let u = p.uncertainty_matrix;
    assert_eq!((u.0.bits, u.1.bits, u.2.bits, u.3.bits), (4099, 123, 123, 4097));
    // 12 Pa below the baseline: one metre up
    assert_eq!(p.pressure_to_meters(101313).bits, 4096);
    // within ten milliseconds of the last correction nothing happens
    p.correction(9999, 101313);
    assert_eq!(p.current_state.0.bits, 0);
    p.correction(30000, 101313);
    assert_eq!(p.last_reading_baro_us, 30000);
    assert_eq!((p.current_state.0.bits, p.current_state.1.bits), (3900, 237));
    let u = p.uncertainty_matrix;
    assert_eq!((u.0.bits, u.1.bits, u.2.bits, u.3.bits), (194, 4, 5, 4092));
    assert_eq!(p.get_reading().bits, 3900);
    p.reset(100000);
    assert_eq!(p.baseline_pressure, 100000);
    assert_eq!(p.get_reading().bits, 0);
}

#[test]
fn sensor_axes_convert_and_sum() {
    let v = SensorAxis { x: -3, y: 0, z: 16384 };
    let f = FixedAxis::<I16F16>::from_sensor(v);
    assert_eq!((f.x.bits, f.y.bits, f.z.bits), (-3 << 16, 0, 16384 << 16));
    let sums = FixedAxis::<i32> { x: 10, y: -10, z: 0 }.add_sensor(v);
    assert_eq!((sums.x, sums.y, sums.z), (7, -10, 16384));
}

#[test]
fn level_drone_at_rest_stays_level() {
    let zero = FixedAxis { x: fx(0), y: fx(0), z: fx(0) };
    let mut k = KalmanFilter::new((zero, zero), 0);
    for i in 1..4u64 {
        k.append_new_reading(SensorAxis { x: 0, y: 0, z: 16384 }, SensorAxis { x: 0, y: 0, z: 0 }, 2000 * i);
    }
    assert_eq!((k.pitch.bits, k.roll.bits, k.yaw.bits, k.bias_p.bits, k.bias_q.bits), (0, 0, 0, 0, 0));
    let unnormalised = Quaternion { w: fx(0x8000), x: fx(0), y: fx(0), z: fx(0) };
    assert_eq!(YawPitchRoll::from_quaternion(unnormalised), YawPitchRoll::new());
}

fn integer_sqrt(v: u64) -> u64 {
    let (mut lo, mut hi): (u64, u64) = (0, 1 << 32);
    while hi - lo > 1 {
        let mid = (lo + hi) / 2;
        if mid * mid <= v {
            lo = mid;
        } else {
            hi = mid;
        }
    }
    lo
}

#[test]
fn approx_sqrt_is_the_integer_root_or_one_more() {
    let samples: [i32; 10] = [1, 2, 3, 17, 255, 1000, 65_535, 1_000_003, 123_456_789, i32::MAX];
    for n in samples {
        let s = integer_sqrt(16 * n as u64) as i32;
        let r = approx_sqrt(I28F4::from_bits(n)).bits;
        assert!(r == s || r == s + 1, "I28F4 root of {} bits: {} vs {}", n, r, s);
        let s = integer_sqrt(65536 * n as u64) as i32;
        let r = approx_sqrt_i16f16(I16F16::from_bits(n)).bits;
        assert!(r == s || r == s + 1, "I16F16 root of {} bits: {} vs {}", n, r, s);
    }
}
