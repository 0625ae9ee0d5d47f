//! The ground station's sending decisions: stick and trim messages take
//! turns, and a frame goes out over the cable, or into the wireless
//! package when that is empty.
use vstd::prelude::*;

use crate::framing::STUFFED_MESSAGE_SIZE;
use crate::wireless_log::BLE_BUFFER_SIZE;

verus! {

/// Which message the ground station sends in a round.
#[derive(PartialEq, Eq, Structural, Debug, Clone, Copy)]
pub enum UplinkKind {
    /// The combined stick positions.
    ManualInput,
    /// The gain trims.
    Trims,
}

/// The message of a round: the sticks on the joystick's turn, else the
/// trims.
pub open spec fn uplink_kind(joystick_turn: bool) -> UplinkKind {
    if joystick_turn {
        UplinkKind::ManualInput
    } else {
        UplinkKind::Trims
    }
}

/// The message to send in this round, and whose turn the next round is.
pub fn next_uplink(joystick_turn: bool) -> (r: (UplinkKind, bool))
    ensures
        r.0 == uplink_kind(joystick_turn),
        r.1 == !joystick_turn,
{
    let kind = if joystick_turn {
        UplinkKind::ManualInput
    } else {
        UplinkKind::Trims
    };
    (kind, !joystick_turn)
}

/// Stick and trim messages take turns: of two rounds in a row, one sends
/// the sticks and the other the trims.
pub proof fn lemma_messages_alternate(joystick_turn: bool)
    ensures
        uplink_kind(joystick_turn) != uplink_kind(!joystick_turn),
        uplink_kind(!!joystick_turn) == uplink_kind(joystick_turn),
{
}

/// Hands a frame (its first `len` bytes) to the link. Over the cable it is
/// written directly (the result is `true`: the caller writes it). Over the
/// wireless link it becomes the wireless package, but only when the last
/// package has been taken (the package is empty); otherwise this frame is
/// dropped.
pub fn deliver_frame(wireless: bool, package: &mut Vec<u8>, frame: &[u8], len: usize) -> (r: bool)
    requires
        len <= frame@.len(),
    ensures
        r == !wireless,
        wireless && old(package)@.len() == 0 ==> final(package)@ == frame@.take(len as int),
        !(wireless && old(package)@.len() == 0) ==> final(package)@ == old(package)@,
{
    if !wireless {
        return true;
    }
    if package.len() == 0 {
        let mut i: usize = 0;
        while i < len
            invariant
                len <= frame@.len(),
                i <= len,
                package@ == frame@.take(i as int),
            decreases len - i,
        {
            package.push(frame[i]);
            i += 1;
            assert(package@ =~= frame@.take(i as int));
        }
    }
    false
}

/// Where a queued packet goes.
#[derive(PartialEq, Eq, Structural, Debug, Clone, Copy)]
pub enum PacketRoute {
    /// Written to the drone over Bluetooth.
    Bluetooth,
    /// Too long for one Bluetooth write: dropped.
    Dropped,
    /// Written over the serial line.
    Serial,
}

/// Routes a queued packet of `len` bytes: over the wireless link it is
/// written to Bluetooth when it fits one write of `BLE_BUFFER_SIZE` bytes
/// and dropped otherwise; over the cable it goes to the serial line (whose
/// send buffer holds `STUFFED_MESSAGE_SIZE` bytes). Also gives how long to
/// wait afterwards: 100 ms after the wireless link, 50 ms after the cable.
pub fn route_packet(wireless: bool, len: usize) -> (r: (PacketRoute, u64))
    requires
        wireless || len <= STUFFED_MESSAGE_SIZE,
    ensures
        r.0 == (if wireless {
            if len <= BLE_BUFFER_SIZE {
                PacketRoute::Bluetooth
            } else {
                PacketRoute::Dropped
            }
        } else {
            PacketRoute::Serial
        }),
        r.1 == (if wireless {
            100u64
        } else {
            50u64
        }),
{
    if wireless {
        if len <= BLE_BUFFER_SIZE {
            (PacketRoute::Bluetooth, 100)
        } else {
            (PacketRoute::Dropped, 100)
        }
    } else {
        (PacketRoute::Serial, 50)
    }
}

} // verus!
