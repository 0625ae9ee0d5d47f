use my_hdlc::axis::Axis as FixedAxis;
use my_hdlc::calibration_state::{Axis, CalibrationState};
use my_hdlc::command::{DebugRpms, DroneInfo, FSMState};
use my_hdlc::fixed_point::I16F16;
use my_hdlc::fsm_manual_mode::{map_rpm_square_to_pwm, my_sqrt};
use my_hdlc::pid_controller::ControllerFlags;

#[test]
fn calibration_removes_dc_offset() {
    let mut calib = CalibrationState::new();

    // Simulate raw values with offset
    let fake_samples = [
        (Axis { x: 100, y: -50, z: 16380 }, Axis { x: 12, y: -8, z: 4 }),
        (Axis { x: 101, y: -49, z: 16382 }, Axis { x: 11, y: -7, z: 3 }),
        (Axis { x: 99, y: -51, z: 16381 }, Axis { x: 13, y: -9, z: 5 }),
        (Axis { x: 100, y: -50, z: 16379 }, Axis { x: 12, y: -8, z: 4 }),
    ];

    for (a, g) in fake_samples {
        calib.accumulate_calibration(a, g);
    }

    calib.finish_calibration();

    let (accel_corrected, gyro_corrected) = calib.apply_calibration(
        Axis { x: 100, y: -50, z: 16380 },
        Axis { x: 12, y: -8, z: 4 },
    );

    // Since drone was stationary, corrected values should be ~0
    assert!(accel_corrected.x.abs() <= 1);
    assert!(accel_corrected.y.abs() <= 1);
    assert!(accel_corrected.z.abs() <= 2);

    assert!(gyro_corrected.x.abs() <= 1);
    assert!(gyro_corrected.y.abs() <= 1);
    assert!(gyro_corrected.z.abs() <= 1);
}

#[test]
fn apply_before_calibration_returns_raw_values() {
    let mut calib = CalibrationState::new();

    let accel = Axis { x: 100, y: -50, z: 16380 };
    let gyro = Axis { x: 12, y: -8, z: 4 };

    calib.accumulate_calibration(accel, gyro);

    let (accel_out, gyro_out) = calib.apply_calibration(accel, gyro);

    assert_eq!(accel_out.x, accel.x);
    assert_eq!(accel_out.y, accel.y);
    assert_eq!(accel_out.z, accel.z);

    assert_eq!(gyro_out.x, gyro.x);
    assert_eq!(gyro_out.y, gyro.y);
    assert_eq!(gyro_out.z, gyro.z);
}

#[test]
fn calibration_averages_round_towards_zero() {
    let mut calib = CalibrationState::new();
    calib.accumulate_calibration(Axis { x: -3, y: 3, z: 7 }, Axis { x: 0, y: 0, z: 0 });
    calib.accumulate_calibration(Axis { x: -4, y: 4, z: 7 }, Axis { x: 0, y: 0, z: 0 });
    calib.finish_calibration();
    // averages -3.5 -> -3, 3.5 -> 3, 7
    let (a, g) = calib.apply_calibration(Axis { x: 0, y: 0, z: 0 }, Axis { x: 1, y: 2, z: 3 });
    assert_eq!(a, Axis { x: 3, y: -3, z: -7 });
    assert_eq!(g, Axis { x: 1, y: 2, z: 3 });
}

#[test]
fn calibration_correction_wraps_around() {
    let mut calib = CalibrationState::new();
    calib.accumulate_calibration(Axis { x: -100, y: 0, z: 0 }, Axis { x: 100, y: 0, z: 0 });
    calib.finish_calibration();
    let (a, g) = calib.apply_calibration(Axis { x: 32767, y: 0, z: 0 }, Axis { x: -32768, y: 0, z: 0 });
    assert_eq!(a.x, 32767i16.wrapping_sub(-100));
    assert_eq!(g.x, (-32768i16).wrapping_sub(100));
}

#[test]
fn finishing_without_samples_changes_nothing() {
    let mut calib = CalibrationState::new();
    calib.finish_calibration();
    let raw = Axis { x: 5, y: 6, z: 7 };
    assert_eq!(calib.apply_calibration(raw, raw), (raw, raw));
    calib.accumulate_calibration(raw, raw);
    calib.finish_calibration();
    assert_eq!(calib.apply_calibration(raw, raw), (Axis { x: 0, y: 0, z: 0 }, Axis { x: 0, y: 0, z: 0 }));
    calib.start_calibration();
    assert_eq!(calib.apply_calibration(raw, raw), (raw, raw));
}

#[test]
fn my_sqrt_rounds_up() {
    assert_eq!(my_sqrt(-5), 0);
    assert_eq!(my_sqrt(0), 0);
    assert_eq!(my_sqrt(1), 1);
    assert_eq!(my_sqrt(2), 2);
    assert_eq!(my_sqrt(16), 4);
    assert_eq!(my_sqrt(17), 5);
    assert_eq!(my_sqrt(46340 * 46340), 46340);
}

#[test]
fn rpm_squares_map_to_pwm() {
    // sqrt(21560^2) * 5000 / 21560 = 5000
    let pwm = map_rpm_square_to_pwm(&[21560 * 21560, 0, -7, 10000]);
    assert_eq!(pwm, [5000, 0, 0, 23]);
    let pwm = map_rpm_square_to_pwm(&[4_000_000]);
    assert_eq!(pwm, [463, 0, 0, 0]);
}

#[test]
fn axis_to_array_truncates_towards_minus_infinity() {
    let mut a = FixedAxis {
        x: I16F16::from_bits(0x28000),
        y: I16F16::from_bits(-0x28000),
        z: I16F16::from_bits(-1),
    };
    assert_eq!(a.to_array(), [2, -3, -1]);
}

#[test]
fn controller_flag_bits() {
    assert_eq!(ControllerFlags::AddP.bit(), 1);
    assert_eq!(ControllerFlags::AddD.bit(), 2);
    assert_eq!(ControllerFlags::AddI.bit(), 4);
    assert!(ControllerFlags::AddD.is_set_in(3));
    assert!(!ControllerFlags::AddI.is_set_in(3));
}

#[test]
fn drone_info_and_debug_rpms_keep_their_values() {
    let info = DroneInfo::new(FSMState::HeightControlMode, 1234);
    assert_eq!(info.state(), FSMState::HeightControlMode);
    assert_eq!(info.bat_level(), 1234);
    let rpms = DebugRpms::new(&[1, -2, 3, -4]);
    assert_eq!(rpms.rpms, [1, -2, 3, -4]);
}
