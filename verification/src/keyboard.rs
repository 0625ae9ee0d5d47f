//! The ground station's keyboard: which key asks for what. Mode changes
//! into the flying modes are only asked for while the joystick is at rest.
use vstd::prelude::*;

use crate::command::FSMState;

verus! {

/// A key the pilot pressed.
#[derive(PartialEq, Eq, Structural, Debug, Clone, Copy)]
pub enum Key {
    Char(char),
    Esc,
    Left,
    Right,
    Up,
    Down,
    Other,
}

/// What a key press asks for.
#[derive(PartialEq, Eq, Structural, Debug, Clone, Copy)]
pub enum KeyboardAction {
    /// Ask the drone to change to this mode.
    Transition(FSMState),
    /// Mark the keyboard's panic request.
    Panic,
    /// Give the terminal back its line mode.
    LeaveRawMode,
    /// Add to the lift trim.
    TrimLift(i16),
    /// Add to the roll trim.
    TrimRoll(i16),
    /// Add to the pitch trim.
    TrimPitch(i16),
    /// Add to the yaw trim.
    TrimYaw(i16),
    /// Add to the yaw P gain trim.
    TrimYawP(i16),
    /// Add to the roll and pitch P gain trim.
    TrimRollPitchP(i16),
    /// Add to the roll and pitch D gain trim.
    TrimRollPitchD(i16),
    /// Nothing.
    Nothing,
}

/// A mode change that is only asked for while the joystick is at rest.
pub open spec fn guarded(mode: FSMState, joystick_zeroed: bool) -> KeyboardAction {
    if joystick_zeroed {
        KeyboardAction::Transition(mode)
    } else {
        KeyboardAction::Nothing
    }
}

/// The action of each key: `0` safe mode, `3` calibration, `2` and `4` to
/// `8` the flying modes (only with the joystick at rest); `Esc`, space and
/// `1` panic; `e` leaves raw mode; `a`/`z` lift, arrows roll and pitch,
/// `q`/`w` yaw trims by 2; `u`/`j` the yaw P gain by 2; `i`/`k` and `o`/`l`
/// the roll and pitch P and D gains by 500.
pub open spec fn key_action(key: Key, joystick_zeroed: bool) -> KeyboardAction {
    match key {
        Key::Char('0') => KeyboardAction::Transition(FSMState::SafeMode),
        Key::Char('2') => guarded(FSMState::ManualMode, joystick_zeroed),
        Key::Char('3') => KeyboardAction::Transition(FSMState::CalibrationMode),
        Key::Char('4') => guarded(FSMState::YawControl, joystick_zeroed),
        Key::Char('5') => guarded(FSMState::FullControlMode, joystick_zeroed),
        Key::Char('6') => guarded(FSMState::RawSensorsFullControlMode, joystick_zeroed),
        Key::Char('7') => guarded(FSMState::HeightControlMode, joystick_zeroed),
        Key::Char('8') => guarded(FSMState::WirelessMode, joystick_zeroed),
        Key::Char('e') => KeyboardAction::LeaveRawMode,
        Key::Esc => KeyboardAction::Panic,
        Key::Char(' ') => KeyboardAction::Panic,
        Key::Char('1') => KeyboardAction::Panic,
        Key::Char('a') => KeyboardAction::TrimLift(2i16),
        Key::Char('z') => KeyboardAction::TrimLift(-2i16),
        Key::Right => KeyboardAction::TrimRoll(-2i16),
        Key::Left => KeyboardAction::TrimRoll(2i16),
        Key::Up => KeyboardAction::TrimPitch(2i16),
        Key::Down => KeyboardAction::TrimPitch(-2i16),
        Key::Char('q') => KeyboardAction::TrimYaw(-2i16),
        Key::Char('w') => KeyboardAction::TrimYaw(2i16),
        Key::Char('u') => KeyboardAction::TrimYawP(2i16),
        Key::Char('j') => KeyboardAction::TrimYawP(-2i16),
        Key::Char('i') => KeyboardAction::TrimRollPitchP(500i16),
        Key::Char('k') => KeyboardAction::TrimRollPitchP(-500i16),
        Key::Char('o') => KeyboardAction::TrimRollPitchD(500i16),
        Key::Char('l') => KeyboardAction::TrimRollPitchD(-500i16),
        _ => KeyboardAction::Nothing,
    }
}

/// What a key press asks for, given whether the joystick is at rest.
pub fn keyboard_action(key: Key, joystick_zeroed: bool) -> (r: KeyboardAction)
    ensures
        r == key_action(key, joystick_zeroed),
{
    let guard = |mode: FSMState| -> (a: KeyboardAction)
        ensures
            a == guarded(mode, joystick_zeroed),
        {
            if joystick_zeroed {
                KeyboardAction::Transition(mode)
            } else {
                KeyboardAction::Nothing
            }
        };
    match key {
        Key::Char('0') => KeyboardAction::Transition(FSMState::SafeMode),
        Key::Char('2') => guard(FSMState::ManualMode),
        Key::Char('3') => KeyboardAction::Transition(FSMState::CalibrationMode),
        Key::Char('4') => guard(FSMState::YawControl),
        Key::Char('5') => guard(FSMState::FullControlMode),
        Key::Char('6') => guard(FSMState::RawSensorsFullControlMode),
        Key::Char('7') => guard(FSMState::HeightControlMode),
        Key::Char('8') => guard(FSMState::WirelessMode),
        Key::Char('e') => KeyboardAction::LeaveRawMode,
        Key::Esc => KeyboardAction::Panic,
        Key::Char(' ') => KeyboardAction::Panic,
        Key::Char('1') => KeyboardAction::Panic,
        Key::Char('a') => KeyboardAction::TrimLift(2),
        Key::Char('z') => KeyboardAction::TrimLift(-2),
        Key::Right => KeyboardAction::TrimRoll(-2),
        Key::Left => KeyboardAction::TrimRoll(2),
        Key::Up => KeyboardAction::TrimPitch(2),
        Key::Down => KeyboardAction::TrimPitch(-2),
        Key::Char('q') => KeyboardAction::TrimYaw(-2),
        Key::Char('w') => KeyboardAction::TrimYaw(2),
        Key::Char('u') => KeyboardAction::TrimYawP(2),
        Key::Char('j') => KeyboardAction::TrimYawP(-2),
        Key::Char('i') => KeyboardAction::TrimRollPitchP(500),
        Key::Char('k') => KeyboardAction::TrimRollPitchP(-500),
        Key::Char('o') => KeyboardAction::TrimRollPitchD(500),
        Key::Char('l') => KeyboardAction::TrimRollPitchD(-500),
        _ => KeyboardAction::Nothing,
    }
}

/// Whether the ground station sends the drone into panic mode: when the
/// joystick or the keyboard asks for it, or the joystick is gone.
pub fn should_enter_panic(joystick_panic: bool, keyboard_panic: bool, joystick_disconnected: bool) -> (r:
    bool)
    ensures
        r == (joystick_panic || keyboard_panic || joystick_disconnected),
{
    joystick_panic || keyboard_panic || joystick_disconnected
}

/// The flying modes: those the keyboard enters only with the joystick at
/// rest.
pub open spec fn is_flying_mode(mode: FSMState) -> bool {
    !(mode == FSMState::SafeMode || mode == FSMState::PanicMode || mode == FSMState::CalibrationMode)
}

/// No key press asks for a flying mode while the joystick is not at rest.
pub proof fn lemma_flying_modes_need_joystick_at_rest(key: Key, mode: FSMState)
    requires
        key_action(key, false) == KeyboardAction::Transition(mode),
    ensures
        !is_flying_mode(mode),
{
}

/// The trim keys come in pairs that move one trim by the same step in
/// opposite directions, whatever the joystick does: `a` raises and `z`
/// lowers the lift, `Left` and `Right` roll, `Up` and `Down` pitch, `w`
/// turns the yaw trim up and `q` down, `u`/`j` the yaw P gain, `i`/`k` the
/// roll and pitch P gain and `o`/`l` their D gain.
pub proof fn lemma_trim_keys_pair_up(joystick_zeroed: bool)
    ensures
        key_action(Key::Char('a'), joystick_zeroed) == KeyboardAction::TrimLift(2i16),
        key_action(Key::Char('z'), joystick_zeroed) == KeyboardAction::TrimLift(-2i16),
        key_action(Key::Left, joystick_zeroed) == KeyboardAction::TrimRoll(2i16),
        key_action(Key::Right, joystick_zeroed) == KeyboardAction::TrimRoll(-2i16),
        key_action(Key::Up, joystick_zeroed) == KeyboardAction::TrimPitch(2i16),
        key_action(Key::Down, joystick_zeroed) == KeyboardAction::TrimPitch(-2i16),
        key_action(Key::Char('w'), joystick_zeroed) == KeyboardAction::TrimYaw(2i16),
        key_action(Key::Char('q'), joystick_zeroed) == KeyboardAction::TrimYaw(-2i16),
        key_action(Key::Char('u'), joystick_zeroed) == KeyboardAction::TrimYawP(2i16),
        key_action(Key::Char('j'), joystick_zeroed) == KeyboardAction::TrimYawP(-2i16),
        key_action(Key::Char('i'), joystick_zeroed) == KeyboardAction::TrimRollPitchP(500i16),
        key_action(Key::Char('k'), joystick_zeroed) == KeyboardAction::TrimRollPitchP(-500i16),
        key_action(Key::Char('o'), joystick_zeroed) == KeyboardAction::TrimRollPitchD(500i16),
        key_action(Key::Char('l'), joystick_zeroed) == KeyboardAction::TrimRollPitchD(-500i16),
{
}

/// Safe mode and calibration are asked for whatever the joystick does;
/// the flying modes only with the joystick at rest; `Esc`, space and `1`
/// always panic.
pub proof fn lemma_mode_keys(joystick_zeroed: bool)
    ensures
        key_action(Key::Char('0'), joystick_zeroed) == KeyboardAction::Transition(FSMState::SafeMode),
        key_action(Key::Char('3'), joystick_zeroed) == KeyboardAction::Transition(
            FSMState::CalibrationMode,
        ),
        key_action(Key::Char('2'), true) == KeyboardAction::Transition(FSMState::ManualMode),
        key_action(Key::Char('4'), true) == KeyboardAction::Transition(FSMState::YawControl),
        key_action(Key::Char('5'), true) == KeyboardAction::Transition(FSMState::FullControlMode),
        key_action(Key::Char('6'), true) == KeyboardAction::Transition(
            FSMState::RawSensorsFullControlMode,
        ),
        key_action(Key::Char('7'), true) == KeyboardAction::Transition(FSMState::HeightControlMode),
        key_action(Key::Char('8'), true) == KeyboardAction::Transition(FSMState::WirelessMode),
        key_action(Key::Esc, joystick_zeroed) == KeyboardAction::Panic,
        key_action(Key::Char(' '), joystick_zeroed) == KeyboardAction::Panic,
        key_action(Key::Char('1'), joystick_zeroed) == KeyboardAction::Panic,
        key_action(Key::Char('e'), joystick_zeroed) == KeyboardAction::LeaveRawMode,
{
}

} // verus!
