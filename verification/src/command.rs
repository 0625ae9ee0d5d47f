use vstd::prelude::*;

verus! {

/// The flight modes of the drone's state machine.
#[derive(PartialEq, Eq, Structural, Debug, Clone, Copy)]
pub enum FSMState {
    SafeMode,
    PanicMode,
    ManualMode,
    CalibrationMode,
    YawControl,
    FullControlMode,
    RawSensorsFullControlMode,
    HeightControlMode,
    WirelessMode,
}

/// Motor speeds reported for debugging.
#[derive(Debug, Clone, Copy)]
pub struct DebugRpms {
    pub rpms: [i32; 4],
}

impl DebugRpms {
    /// Copies the four motor values.
    pub fn new(rpms: &[i32; 4]) -> (r: Self)
        ensures
            r.rpms@ == rpms@,
    {
        let r = DebugRpms { rpms: [rpms[0], rpms[1], rpms[2], rpms[3]] };
        assert(r.rpms@ =~= rpms@);
        r
    }
}

/// The mode the drone is in and its battery level.
#[derive(PartialEq, Eq, Structural, Debug, Clone, Copy)]
pub struct DroneInfo {
    state: FSMState,
    bat_level: u16,
}

impl DroneInfo {
    pub closed spec fn spec_state(self) -> FSMState {
        self.state
    }

    pub closed spec fn spec_bat_level(self) -> u16 {
        self.bat_level
    }

    pub fn new(state: FSMState, bat_level: u16) -> (r: Self)
        ensures
            r.spec_state() == state,
            r.spec_bat_level() == bat_level,
    {
        DroneInfo { state, bat_level }
    }

    pub fn state(&self) -> (r: FSMState)
        ensures
            r == self.spec_state(),
    {
        self.state
    }

    pub fn bat_level(&self) -> (r: u16)
        ensures
            r == self.spec_bat_level(),
    {
        self.bat_level
    }
}

} // verus!
