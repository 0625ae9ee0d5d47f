use my_hdlc::command::FSMState;
use my_hdlc::states::calibration_mode::FSMCalibration;
use my_hdlc::states::height_control::FSMHeightControl;
use my_hdlc::states::panic_mode::{FSMPanic, PanicAction};
use my_hdlc::states::safe_mode::{is_throttle_zero, FSMSafe, FlashAction, FlashStep};
use my_hdlc::states::wireless_mode::FSMWireless;
use my_hdlc::states::FlightMode;
use my_hdlc::wireless_log::{flash_log_slots, SendMessageWirelessly, BLE_BUFFER_SIZE};
use my_hdlc::framing::STUFFED_MESSAGE_SIZE;

const ALL_STATES: [FSMState; 9] = [
    FSMState::SafeMode,
    FSMState::PanicMode,
    FSMState::ManualMode,
    FSMState::CalibrationMode,
    FSMState::YawControl,
    FSMState::FullControlMode,
    FSMState::RawSensorsFullControlMode,
    FSMState::HeightControlMode,
    FSMState::WirelessMode,
];

#[test]
fn safe_mode_transitions() {
    let off = [0u16; 4];
    let spinning = [0, 0, 5, 0];
    assert_eq!(FlightMode::Safe.step(FSMState::CalibrationMode, off), FlightMode::Calibration);
    assert_eq!(FlightMode::Safe.step(FSMState::CalibrationMode, spinning), FlightMode::Safe);
    assert_eq!(FlightMode::Safe.step(FSMState::ManualMode, spinning), FlightMode::Manual);
    assert_eq!(FlightMode::Safe.step(FSMState::YawControl, off), FlightMode::Yaw);
    assert_eq!(FlightMode::Safe.step(FSMState::FullControlMode, off), FlightMode::FullControl);
    assert_eq!(FlightMode::Safe.step(FSMState::HeightControlMode, off), FlightMode::Safe);
    assert_eq!(FlightMode::Safe.step(FSMState::WirelessMode, off), FlightMode::Safe);
    let t = FSMSafe.step(FSMState::CalibrationMode, off);
    assert!(t.red_led_off && t.reset_calibration);
    let t = FSMSafe.step(FSMState::SafeMode, off);
    assert!(!t.red_led_off && !t.reset_calibration && t.mode == FlightMode::Safe);
    assert!(is_throttle_zero(off));
    assert!(!is_throttle_zero(spinning));
}

#[test]
fn panic_request_is_honoured_everywhere_but_the_wireless_switch() {
    let modes = [
        FlightMode::Safe,
        FlightMode::Panic,
        FlightMode::Manual,
        FlightMode::Calibration,
        FlightMode::Yaw,
        FlightMode::FullControl,
        FlightMode::RawSensorsFullControl,
        FlightMode::HeightControl { entered_from_raw_sensors: true },
        FlightMode::HeightControl { entered_from_raw_sensors: false },
    ];
    for m in modes {
        assert_eq!(m.step(FSMState::PanicMode, [7, 7, 7, 7]), FlightMode::Panic);
    }
    assert_eq!(FlightMode::Wireless.step(FSMState::PanicMode, [0; 4]), FlightMode::Wireless);
    for s in ALL_STATES {
        let next = FlightMode::Panic.step(s, [0; 4]);
        assert!(next == FlightMode::Panic || (next == FlightMode::Safe && s == FSMState::SafeMode));
    }
}

#[test]
fn height_control_returns_to_the_mode_it_came_from() {
    let from_full = FlightMode::FullControl.step(FSMState::HeightControlMode, [0; 4]);
    assert_eq!(from_full, FlightMode::HeightControl { entered_from_raw_sensors: false });
    let from_raw = FlightMode::RawSensorsFullControl.step(FSMState::HeightControlMode, [0; 4]);
    assert_eq!(from_raw, FlightMode::HeightControl { entered_from_raw_sensors: true });
    let h = FSMHeightControl { entered_from_raw_sensors: true };
    assert_eq!(h.run_state_loop(5, 5), from_raw);
    assert_eq!(h.run_state_loop(6, 5), FlightMode::RawSensorsFullControl);
    let h = FSMHeightControl { entered_from_raw_sensors: false };
    assert_eq!(h.run_state_loop(6, 5), FlightMode::FullControl);
    assert_eq!(FlightMode::FullControl.step(FSMState::SafeMode, [0; 4]), FlightMode::Safe);
    assert_eq!(FlightMode::RawSensorsFullControl.step(FSMState::SafeMode, [0; 4]), FlightMode::RawSensorsFullControl);
}

#[test]
fn modes_report_their_state() {
    assert_eq!(FlightMode::Safe.get_state(), FSMState::SafeMode);
    assert_eq!(FlightMode::Wireless.get_state(), FSMState::WirelessMode);
    assert_eq!(
        FlightMode::HeightControl { entered_from_raw_sensors: true }.get_state(),
        FSMState::HeightControlMode
    );
    assert_eq!(FlightMode::RawSensorsFullControl.get_state(), FSMState::RawSensorsFullControlMode);
    assert_eq!(FSMCalibration.run_state_loop(true), FlightMode::Safe);
    assert_eq!(FSMCalibration.run_state_loop(false), FlightMode::Calibration);
}

#[test]
fn panic_descent_equalizes_then_slows_down() {
    assert_eq!(
        FSMPanic.run_control_loop([100, 200, 300, 400]),
        PanicAction { set_motors: Some(250), red_led: Some(true), mode: FlightMode::Panic }
    );
    assert_eq!(
        FSMPanic.run_control_loop([250, 250, 250, 250]),
        PanicAction { set_motors: Some(248), red_led: None, mode: FlightMode::Panic }
    );
    assert_eq!(
        FSMPanic.run_control_loop([0, 0, 0, 0]),
        PanicAction { set_motors: None, red_led: Some(false), mode: FlightMode::Safe }
    );
    // equal average but different speeds: still equalized first
    assert_eq!(
        FSMPanic.run_control_loop([1, 2, 0, 1]),
        PanicAction { set_motors: Some(1), red_led: Some(true), mode: FlightMode::Panic }
    );
}

#[test]
fn panic_descent_stops_at_zero() {
    assert_eq!(
        FSMPanic.run_control_loop([1, 1, 1, 1]),
        PanicAction { set_motors: Some(0), red_led: None, mode: FlightMode::Panic }
    );
    assert_eq!(
        FSMPanic.run_control_loop([2, 2, 2, 2]),
        PanicAction { set_motors: Some(0), red_led: None, mode: FlightMode::Panic }
    );
}

#[test]
fn safe_mode_drains_then_erases_the_flash_log() {
    assert_eq!(
        FSMSafe.run_state_loop(300, 100, 50),
        FlashStep { motors: [0, 0, 0, 0], action: FlashAction::SendRecord(100), flash_head: 300, flash_tail: 150 }
    );
    assert_eq!(
        FSMSafe.run_state_loop(300, 300, 50),
        FlashStep { motors: [0, 0, 0, 0], action: FlashAction::EraseChip, flash_head: 0, flash_tail: 0 }
    );
    assert_eq!(
        FSMSafe.run_state_loop(0, 0, 50),
        FlashStep { motors: [0, 0, 0, 0], action: FlashAction::Nothing, flash_head: 0, flash_tail: 0 }
    );
}

#[test]
fn wireless_mode_toggles_link_and_panics() {
    let mut is_wireless = false;
    let mut log = SendMessageWirelessly::new();
    assert_eq!(FSMWireless.run_state_loop(&mut is_wireless, &mut log), FlightMode::Panic);
    assert!(is_wireless);
    assert_eq!(log.message_to_read(), Some(1));
    // forced: the other link than the one in use
    assert!(!log.choose_link(true));
    assert_eq!(FSMWireless.step(FSMState::SafeMode), FlightMode::Wireless);
}

#[test]
fn messages_are_sent_in_chunks_that_reassemble() {
    let mut log = SendMessageWirelessly::new();
    assert!(log.choose_link(true));
    let mut fresh = [0u8; STUFFED_MESSAGE_SIZE];
    for (i, b) in fresh.iter_mut().enumerate() {
        *b = i as u8;
    }
    assert_eq!(log.message_to_read(), Some(0));
    let c1 = log.take_chunk(&fresh, 45);
    assert_eq!(c1.len(), BLE_BUFFER_SIZE);
    assert_eq!(log.message_to_read(), None);
    let other = [0xFFu8; STUFFED_MESSAGE_SIZE];
    let c2 = log.take_chunk(&other, 3);
    let c3 = log.take_chunk(&other, 3);
    assert_eq!(c3.len(), 5);
    let mut all = c1.clone();
    all.extend(c2);
    all.extend(c3);
    assert_eq!(all, fresh[..45].to_vec());
    // the next message starts
    assert_eq!(log.message_to_read(), Some(1));
}

#[test]
fn forced_round_ends_after_first_message() {
    let mut log = SendMessageWirelessly::new();
    let mut is_wireless = true;
    FSMWireless.run_state_loop(&mut is_wireless, &mut log);
    assert!(!is_wireless);
    let fresh = [1u8; STUFFED_MESSAGE_SIZE];
    // messages 1..=6, then 0: the round stays forced until message 0 is sent
    for expected in [1usize, 2, 3, 4, 5, 6, 0] {
        assert!(log.choose_link(is_wireless));
        assert_eq!(log.message_to_read(), Some(expected));
        log.take_chunk(&fresh, 10);
    }
    assert!(!log.choose_link(is_wireless));
    assert_eq!(log.message_to_read(), Some(1));
}

#[test]
fn flash_log_slots_stop_at_the_limit() {
    let (slots, next_tail) = flash_log_slots(1000).unwrap();
    assert_eq!(next_tail, 1000 + 7 * 66);
    assert_eq!(slots, vec![1000, 1066, 1132, 1198, 1264, 1330, 1396]);
    assert_eq!(
        flash_log_slots(0x01FFFF - 7 * 66),
        Some(((0..7).map(|i| 0x01FFFF - 7 * 66 + i * 66).collect(), 0x01FFFF))
    );
    assert_eq!(flash_log_slots(0x01FFFF - 7 * 66 + 1), None);
}
