use my_hdlc::command::FSMState;
use my_hdlc::downlink::{deliver_frame, next_uplink, route_packet, PacketRoute, UplinkKind};
use my_hdlc::fixed_point::I16F16;
use my_hdlc::main_loop::{begin_iteration, end_iteration, ReceivedCommand};
use my_hdlc::pc_command::ManualDroneInput;
use my_hdlc::pid_controller::{PIDController, TrimAxis};
use my_hdlc::states::FlightMode;
use my_hdlc::yaw_pitch_roll::YawPitchRoll;

fn fx(bits: i32) -> I16F16 {
    I16F16::from_bits(bits)
}

#[test]
fn low_battery_requests_panic_before_the_command() {
    let mut pid = PIDController::new();
    let mut targets = YawPitchRoll::new();
    // level 700, reading 600: 0.1 * 600 + 0.9 * 700 = 690 < 700
    let r = begin_iteration(FlightMode::Manual, [200; 4], fx(700 << 16), 600, None, &mut pid, &mut targets);
    assert_eq!(r.mode, FlightMode::Panic);
    assert!(r.battery_level.bits < 700 << 16);
    assert!(!r.command_received);
    // a mode change in the same iteration is asked of panic mode
    let r = begin_iteration(
        FlightMode::Manual,
        [200; 4],
        fx(700 << 16),
        600,
        Some(ReceivedCommand::ChangeMode(FSMState::FullControlMode)),
        &mut pid,
        &mut targets,
    );
    assert_eq!(r.mode, FlightMode::Panic);
    assert!(r.command_received);
}

#[test]
fn healthy_battery_lets_the_command_through() {
    let mut pid = PIDController::new();
    let mut targets = YawPitchRoll::new();
    let r = begin_iteration(
        FlightMode::Safe,
        [0; 4],
        fx(1000 << 16),
        1000,
        Some(ReceivedCommand::ChangeMode(FSMState::CalibrationMode)),
        &mut pid,
        &mut targets,
    );
    assert_eq!(r.mode, FlightMode::Calibration);
    assert_eq!(r.battery_level.bits, 1000 << 16);
    assert_eq!(targets, YawPitchRoll::new());
}

#[test]
fn stick_command_sets_the_targets() {
    let mut pid = PIDController::new();
    let mut targets = YawPitchRoll::new();
    let input = ManualDroneInput { lift: 32767, roll: 0, pitch: 0, yaw: 0 };
    let r = begin_iteration(
        FlightMode::Manual,
        [0; 4],
        fx(1000 << 16),
        1000,
        Some(ReceivedCommand::ManualInput(input)),
        &mut pid,
        &mut targets,
    );
    assert_eq!(r.mode, FlightMode::Manual);
    assert_eq!(targets, YawPitchRoll::from_manual_input(&input));
    assert_eq!(targets.lift.bits, 15 << 16);
}

#[test]
fn trim_command_sets_the_gains_of_its_axis() {
    let mut pid = PIDController::new();
    let mut targets = YawPitchRoll::new();
    let trims = ReceivedCommand::Trims { axis: TrimAxis::Lift, p: fx(3 << 16), i: fx(1), d: fx(2) };
    begin_iteration(FlightMode::FullControl, [0; 4], fx(1000 << 16), 1000, Some(trims), &mut pid, &mut targets);
    assert_eq!(pid.k_p[3].bits, 3 << 16);
    assert_eq!(pid.k_i[3].bits, 1);
    assert_eq!(pid.k_d[3].bits, 2);
    let fresh = PIDController::new();
    assert_eq!(pid.k_p[0], fresh.k_p[0]);
}

#[test]
fn silent_link_panics_after_the_mode_work() {
    let (mode, d) = end_iteration(FlightMode::FullControl, [300; 4], 1000, 0, 0, false);
    assert_eq!(mode, FlightMode::Panic);
    assert!(d.watchdog_panic && d.is_wireless);
    let (mode, d) = end_iteration(FlightMode::FullControl, [300; 4], 999, 0, 0, false);
    assert_eq!(mode, FlightMode::FullControl);
    assert!(!d.watchdog_panic && !d.is_wireless);
}

#[test]
fn uplink_messages_alternate() {
    let (first, turn) = next_uplink(true);
    let (second, turn) = next_uplink(turn);
    let (third, _) = next_uplink(turn);
    assert_eq!(first, UplinkKind::ManualInput);
    assert_eq!(second, UplinkKind::Trims);
    assert_eq!(third, UplinkKind::ManualInput);
}

#[test]
fn wireless_package_is_filled_only_when_empty() {
    let frame = [0x7E, 1, 2, 3, 0x7E, 0, 0];
    let mut package = Vec::new();
    assert!(!deliver_frame(true, &mut package, &frame, 5));
    assert_eq!(package, vec![0x7E, 1, 2, 3, 0x7E]);
    let other = [0x7E, 9, 0x7E];
    assert!(!deliver_frame(true, &mut package, &other, 3));
    assert_eq!(package, vec![0x7E, 1, 2, 3, 0x7E]);
    let mut empty = Vec::new();
    assert!(deliver_frame(false, &mut empty, &other, 3));
    assert!(empty.is_empty());
}

#[test]
fn packets_are_routed_by_link_and_size() {
    assert_eq!(route_packet(true, 20), (PacketRoute::Bluetooth, 100));
    assert_eq!(route_packet(true, 21), (PacketRoute::Dropped, 100));
    assert_eq!(route_packet(false, 21), (PacketRoute::Serial, 50));
}
