//! The decisions of the drone's main loop that do not touch the hardware:
//! the smoothed battery level and when it is too low, the watchdog on the
//! link to the ground station, and when telemetry is sent or logged.
use vstd::prelude::*;

use crate::command::FSMState;
use crate::fixed_point::{fits_i32, I16F16};
use crate::pc_command::ManualDroneInput;
use crate::pid_controller::{gain_slot, PIDController, TrimAxis};
use crate::states::{next_mode, FlightMode};
use crate::yaw_pitch_roll::{bits_of, stick_scaled, YawPitchRoll, MAX_LIFT, PITCH_DEGREE, ROLL_DEGREE, YAW_RATE};

verus! {

/// Without a message for this long (milliseconds) the drone panics.
pub const WATCHDOG_TIMEOUT_MS: u64 = 1000;

/// How often the drone's state is sent over the cable (milliseconds).
pub const DRONE_STATE_PERIOD_WIRED_MS: u64 = 20;

/// How often the drone's state is sent over the wireless link
/// (milliseconds).
pub const DRONE_STATE_PERIOD_WIRELESS_MS: u64 = 5;

/// How often telemetry is logged to flash while wireless (milliseconds).
pub const SAVE_TO_LOG_PERIOD_MS: u64 = 100;

/// Below this smoothed battery level the drone panics.
pub const MIN_BAT_LEVEL: u16 = 700;

/// The weight of a new battery reading, 0.1, as `I16F16` bits.
pub const BATTERY_ALPHA_BITS: i32 = 6554;

/// The weight of the smoothed battery level, 0.9, as `I16F16` bits.
pub const BATTERY_BETA_BITS: i32 = 58982;

/// The bits of the smoothed battery level after a new reading: 0.1 times
/// the reading plus 0.9 times the old level (rounded down).
pub open spec fn filtered_battery_bits(level: int, reading: int) -> int {
    BATTERY_ALPHA_BITS * reading + (BATTERY_BETA_BITS * level) / 0x10000
}

/// The smoothed battery level after a new reading. A reading above
/// `i16::MAX` does not fit the integer part of `I16F16`.
pub fn filter_battery_level(level: I16F16, reading: u16) -> (r: I16F16)
    requires
        reading <= 0x7fff,
        fits_i32(filtered_battery_bits(level.bits as int, reading as int)),
    ensures
        r.bits == filtered_battery_bits(level.bits as int, reading as int),
{
    let alpha = I16F16::from_bits(BATTERY_ALPHA_BITS);
    let beta = I16F16::from_bits(BATTERY_BETA_BITS);
    let new_reading = I16F16::from_i32(reading as i32);
    proof {
        let b = new_reading.bits as int;
        assert(BATTERY_ALPHA_BITS * b == (BATTERY_ALPHA_BITS * reading) * 0x10000);
        vstd::arithmetic::div_mod::lemma_div_multiples_vanish(BATTERY_ALPHA_BITS * reading, 0x10000);
        assert(0 <= BATTERY_ALPHA_BITS * b * 0x10000 <= 6554 * 0x7fff * 0x10000 * 0x10000)
            by (nonlinear_arith)
            requires
                b == reading * 0x10000,
                0 <= reading <= 0x7fff,
        ;
        let l = level.bits as int;
        assert(-0x8000_0000 * 58982 * 0x10000 <= BATTERY_BETA_BITS * l * 0x10000 <= 0x8000_0000
            * 58982 * 0x10000) by (nonlinear_arith)
            requires
                -0x8000_0000 <= l <= 0x8000_0000,
        ;
    }
    let weighted_reading = alpha.mul(new_reading);
    let weighted_level = beta.mul(level);
    weighted_reading.add(weighted_level)
}

/// Whether the smoothed battery level is below `MIN_BAT_LEVEL`.
pub fn battery_too_low(level: I16F16) -> (r: bool)
    ensures
        r == (level.bits < MIN_BAT_LEVEL * 0x10000),
{
    level.bits < (MIN_BAT_LEVEL as i32) * 0x10000
}

/// What the main loop does after the mode's own work.
#[derive(PartialEq, Eq, Structural, Debug, Clone, Copy)]
pub struct LoopDecision {
    /// No message came for `WATCHDOG_TIMEOUT_MS`: switch the link and panic.
    pub watchdog_panic: bool,
    /// Whether the link is wireless from now on.
    pub is_wireless: bool,
    /// Send the drone's state now.
    pub send_telemetry: bool,
    /// Log telemetry to flash now.
    pub log_to_flash: bool,
}

/// The period of the drone's state messages on a link.
pub open spec fn drone_state_period(is_wireless: bool) -> u64 {
    if is_wireless {
        DRONE_STATE_PERIOD_WIRELESS_MS
    } else {
        DRONE_STATE_PERIOD_WIRED_MS
    }
}

/// The decisions after the mode's work, from the milliseconds since the
/// last message received, since the last state sent and since the last
/// log entry: the watchdog switches the link (wired to wireless and back)
/// and panics; the state is sent when its period on the (new) link has
/// passed; telemetry is logged while wireless every `SAVE_TO_LOG_PERIOD_MS`.
pub fn after_state_loop(since_message_ms: u64, since_send_ms: u64, since_log_ms: u64, is_wireless: bool) -> (r:
    LoopDecision)
    ensures
        r.watchdog_panic == (since_message_ms >= WATCHDOG_TIMEOUT_MS),
        r.is_wireless == (if r.watchdog_panic {
            !is_wireless
        } else {
            is_wireless
        }),
        r.send_telemetry == (since_send_ms >= drone_state_period(r.is_wireless)),
        r.log_to_flash == (r.is_wireless && since_log_ms >= SAVE_TO_LOG_PERIOD_MS),
{
    let watchdog_panic = since_message_ms >= WATCHDOG_TIMEOUT_MS;
    let wireless = if watchdog_panic {
        !is_wireless
    } else {
        is_wireless
    };
    let period = if wireless {
        DRONE_STATE_PERIOD_WIRELESS_MS
    } else {
        DRONE_STATE_PERIOD_WIRED_MS
    };
    LoopDecision {
        watchdog_panic,
        is_wireless: wireless,
        send_telemetry: since_send_ms >= period,
        log_to_flash: wireless && since_log_ms >= SAVE_TO_LOG_PERIOD_MS,
    }
}

/// A steady battery reading is a fixed point of the smoothing: the two
/// weights add up to one exactly.
pub proof fn lemma_steady_reading_is_kept(reading: int)
    ensures
        filtered_battery_bits(reading * 0x10000, reading) == reading * 0x10000,
{
    assert(BATTERY_BETA_BITS * (reading * 0x10000) == (BATTERY_BETA_BITS * reading) * 0x10000)
        by (nonlinear_arith);
    vstd::arithmetic::div_mod::lemma_div_multiples_vanish(BATTERY_BETA_BITS * reading, 0x10000);
}

/// A command from the ground station, as the main loop acts on it (the
/// gains of a trim message already in `I16F16`).
#[derive(PartialEq, Eq, Structural, Debug, Clone, Copy)]
pub enum ReceivedCommand {
    ChangeMode(FSMState),
    ManualInput(ManualDroneInput),
    Trims { axis: TrimAxis, p: I16F16, i: I16F16, d: I16F16 },
    /// Any other message: it only feeds the watchdog.
    Other,
}

/// The start of an iteration: the new smoothed battery level and the mode
/// after the battery check and the received command.
#[derive(PartialEq, Eq, Structural, Debug, Clone, Copy)]
pub struct IterationStart {
    pub mode: FlightMode,
    pub battery_level: I16F16,
    /// A command came in, so the watchdog starts counting anew.
    pub command_received: bool,
}

/// The mode after the battery check: a panic request when the smoothed
/// level is below `MIN_BAT_LEVEL`.
pub open spec fn after_battery_check(mode: FlightMode, level_bits: int, motors: [u16; 4]) -> FlightMode {
    if level_bits < MIN_BAT_LEVEL * 0x10000 {
        next_mode(mode, FSMState::PanicMode, motors)
    } else {
        mode
    }
}

/// The mode after a received command: a mode change is a transition
/// request; other commands leave the mode alone.
pub open spec fn after_command(mode: FlightMode, command: Option<ReceivedCommand>, motors: [u16; 4]) -> FlightMode {
    match command {
        Some(ReceivedCommand::ChangeMode(s)) => next_mode(mode, s, motors),
        _ => mode,
    }
}

/// The first half of an iteration of the main loop: the battery reading is
/// smoothed and, below `MIN_BAT_LEVEL`, panic mode is requested; then the
/// command received in this iteration, if any, is acted on: a mode change
/// is requested, stick positions become the targets, trims set the gains of
/// their axis.
pub fn begin_iteration(
    mode: FlightMode,
    motors: [u16; 4],
    battery_level: I16F16,
    battery_reading: u16,
    command: Option<ReceivedCommand>,
    pid: &mut PIDController,
    targets: &mut YawPitchRoll,
) -> (r: IterationStart)
    requires
        battery_reading <= 0x7fff,
        fits_i32(filtered_battery_bits(battery_level.bits as int, battery_reading as int)),
    ensures
        r.battery_level.bits == filtered_battery_bits(battery_level.bits as int, battery_reading as int),
        r.mode == after_command(
            after_battery_check(mode, r.battery_level.bits as int, motors),
            command,
            motors,
        ),
        r.command_received == command is Some,
        match command {
            Some(ReceivedCommand::ManualInput(input)) => bits_of(*final(targets)) == (
                stick_scaled(input.lift, MAX_LIFT as int),
                stick_scaled(input.yaw, YAW_RATE as int),
                stick_scaled(input.pitch, PITCH_DEGREE as int),
                stick_scaled(input.roll, ROLL_DEGREE as int),
                0int,
            ),
            _ => *final(targets) == *old(targets),
        },
        match command {
            Some(ReceivedCommand::Trims { axis, p, i, d }) => {
                &&& final(pid).k_p@ == old(pid).k_p@.update(gain_slot(axis), p)
                &&& final(pid).k_i@ == old(pid).k_i@.update(gain_slot(axis), i)
                &&& final(pid).k_d@ == old(pid).k_d@.update(gain_slot(axis), d)
                &&& final(pid).prev_error == old(pid).prev_error
                &&& final(pid).integration_build_up == old(pid).integration_build_up
            },
            _ => *final(pid) == *old(pid),
        },
{
    let level = filter_battery_level(battery_level, battery_reading);
    let mut current = mode;
    if battery_too_low(level) {
        current = current.step(FSMState::PanicMode, motors);
    }
    match command {
        Some(ReceivedCommand::ChangeMode(new_mode)) => {
            current = current.step(new_mode, motors);
        },
        Some(ReceivedCommand::ManualInput(input)) => {
            *targets = YawPitchRoll::from_manual_input(&input);
        },
        Some(ReceivedCommand::Trims { axis, p, i, d }) => {
            pid.set_gains(axis, p, i, d);
        },
        _ => {},
    }
    IterationStart { mode: current, battery_level: level, command_received: command.is_some() }
}

/// The end of an iteration, after the mode's own work: the decisions of
/// `after_state_loop`, and the mode after the watchdog, which requests
/// panic mode when no command came for `WATCHDOG_TIMEOUT_MS`.
pub fn end_iteration(
    mode: FlightMode,
    motors: [u16; 4],
    since_message_ms: u64,
    since_send_ms: u64,
    since_log_ms: u64,
    is_wireless: bool,
) -> (r: (FlightMode, LoopDecision))
    ensures
        r.1 == after_state_loop_spec(since_message_ms, since_send_ms, since_log_ms, is_wireless),
        r.0 == after_watchdog(mode, since_message_ms, motors),
{
    let decision = after_state_loop(since_message_ms, since_send_ms, since_log_ms, is_wireless);
    let next = if decision.watchdog_panic {
        mode.step(FSMState::PanicMode, motors)
    } else {
        mode
    };
    (next, decision)
}

/// The mode after the watchdog: a panic request when no command came for
/// `WATCHDOG_TIMEOUT_MS`.
pub open spec fn after_watchdog(mode: FlightMode, since_message_ms: u64, motors: [u16; 4]) -> FlightMode {
    if since_message_ms >= WATCHDOG_TIMEOUT_MS {
        next_mode(mode, FSMState::PanicMode, motors)
    } else {
        mode
    }
}

/// The decisions that `after_state_loop` takes.
pub open spec fn after_state_loop_spec(since_message_ms: u64, since_send_ms: u64, since_log_ms: u64, is_wireless: bool) -> LoopDecision {
    let watchdog_panic = since_message_ms >= WATCHDOG_TIMEOUT_MS;
    let wireless = if watchdog_panic { !is_wireless } else { is_wireless };
    LoopDecision {
        watchdog_panic,
        is_wireless: wireless,
        send_telemetry: since_send_ms >= drone_state_period(wireless),
        log_to_flash: wireless && since_log_ms >= SAVE_TO_LOG_PERIOD_MS,
    }
}

/// In every iteration a low smoothed battery, or a silent link for
/// `WATCHDOG_TIMEOUT_MS`, puts every mode but the wireless switch into
/// panic mode: at the battery check before any command is acted on, and
/// at the watchdog after the mode's work.
pub proof fn lemma_iteration_panics_on_low_battery_or_silence(
    mode: FlightMode,
    level_bits: int,
    since_message_ms: u64,
    motors: [u16; 4],
)
    requires
        mode != FlightMode::Wireless,
    ensures
        level_bits < MIN_BAT_LEVEL * 0x10000 ==> after_battery_check(mode, level_bits, motors)
            == FlightMode::Panic,
        since_message_ms >= WATCHDOG_TIMEOUT_MS ==> after_watchdog(mode, since_message_ms, motors)
            == FlightMode::Panic,
{
}

} // verus!
