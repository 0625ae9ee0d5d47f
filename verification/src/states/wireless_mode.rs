use vstd::prelude::*;

use crate::command::FSMState;
use crate::states::FlightMode;
use crate::wireless_log::SendMessageWirelessly;

verus! {

/// Switching the telemetry link between the serial line and Bluetooth.
pub struct FSMWireless;

impl FSMWireless {
    /// This mode leaves by itself, never on request.
    pub fn step(&self, next_state: FSMState) -> (r: FlightMode)
        ensures
            r == FlightMode::Wireless,
    {
        FlightMode::Wireless
    }

    pub fn get_state(&self) -> (r: FSMState)
        ensures
            r == FSMState::WirelessMode,
    {
        FSMState::WirelessMode
    }

    /// Toggles the link, forces the telemetry to be sent again over the
    /// link it was not being sent on, from its second message, and enters
    /// panic mode.
    pub fn run_state_loop(&self, is_wireless: &mut bool, wireless_log: &mut SendMessageWirelessly) -> (r:
        FlightMode)
        ensures
            *final(is_wireless) == !*old(is_wireless),
            final(wireless_log).spec_forced_message(),
            final(wireless_log).spec_message_part() == 0,
            final(wireless_log).spec_message_ind() == 1,
            final(wireless_log).spec_stored() == old(wireless_log).spec_stored(),
            r == FlightMode::Panic,
    {
        *is_wireless = !*is_wireless;
        wireless_log.restart_forced();
        FlightMode::Panic
    }
}

} // verus!
