//! Sending telemetry over Bluetooth, where one packet carries at most
//! `BLE_BUFFER_SIZE` bytes: the messages are cut into chunks, one chunk per
//! tick, and the telemetry messages are sent in turn.
use vstd::prelude::*;

use crate::framing::STUFFED_MESSAGE_SIZE;

verus! {

/// The most bytes one Bluetooth packet carries.
pub const BLE_BUFFER_SIZE: usize = 20;

/// How many different telemetry messages are sent in turn.
pub const TELEMETRY_MESSAGE_COUNT: usize = 7;

/// Where the sending of telemetry over Bluetooth stands.
pub struct SendMessageWirelessly {
    message_ind: usize,
    message_part: usize,
    forced_message: bool,
    stored_msg: Vec<u8>,
    message_len: usize,
}

/// Where the chunk that starts at `part` of a message of `len` bytes ends.
pub open spec fn chunk_end(part: int, len: int) -> int {
    if part + BLE_BUFFER_SIZE < len {
        part + BLE_BUFFER_SIZE
    } else {
        len
    }
}

/// The bytes of `msg` from `part` on, as they are sent chunk by chunk.
pub open spec fn chunks_from(msg: Seq<u8>, part: int) -> Seq<u8>
    decreases msg.len() - part,
{
    if part < 0 || part >= msg.len() {
        Seq::<u8>::empty()
    } else {
        msg.subrange(part, chunk_end(part, msg.len() as int)) + chunks_from(
            msg,
            chunk_end(part, msg.len() as int),
        )
    }
}

/// Sending a message chunk by chunk from any position delivers exactly the
/// rest of the message, in order: the chunks reassemble the message.
pub proof fn lemma_chunks_reassemble(msg: Seq<u8>, part: int)
    requires
        0 <= part <= msg.len(),
    ensures
        chunks_from(msg, part) == msg.skip(part),
    decreases msg.len() - part,
{
    if part < msg.len() {
        let e = chunk_end(part, msg.len() as int);
        lemma_chunks_reassemble(msg, e);
        assert(msg.subrange(part, e) + msg.skip(e) =~= msg.skip(part));
    } else {
        assert(msg.skip(part) =~= Seq::<u8>::empty());
    }
}

impl SendMessageWirelessly {
    /// The message being sent is stored in full, its sent part within it.
    #[verifier::type_invariant]
    closed spec fn wf(&self) -> bool {
        &&& self.message_ind < TELEMETRY_MESSAGE_COUNT
        &&& self.message_part <= self.message_len
        &&& self.message_len <= STUFFED_MESSAGE_SIZE
        &&& self.stored_msg@.len() == STUFFED_MESSAGE_SIZE
        &&& (self.message_part == 0 || self.message_part < self.message_len)
    }

    /// Which of the telemetry messages is being sent.
    pub closed spec fn spec_message_ind(&self) -> nat {
        self.message_ind as nat
    }

    /// How many bytes of the current message were sent.
    pub closed spec fn spec_message_part(&self) -> nat {
        self.message_part as nat
    }

    /// Whether the telemetry goes over the link it would otherwise not use,
    /// until one full round of messages was sent.
    pub closed spec fn spec_forced_message(&self) -> bool {
        self.forced_message
    }

    /// The message being sent.
    pub closed spec fn spec_stored(&self) -> Seq<u8> {
        self.stored_msg@.take(self.message_len as int)
    }

    /// Nothing sent yet, not forced, no message stored.
    pub fn new() -> (r: Self)
        ensures
            r.spec_message_ind() == 0,
            r.spec_message_part() == 0,
            !r.spec_forced_message(),
            r.spec_stored() == Seq::<u8>::empty(),
    {
        let mut stored_msg: Vec<u8> = Vec::new();
        while stored_msg.len() < STUFFED_MESSAGE_SIZE
            invariant
                stored_msg@.len() <= STUFFED_MESSAGE_SIZE,
            decreases STUFFED_MESSAGE_SIZE - stored_msg@.len(),
        {
            stored_msg.push(0u8);
        }
        let r = SendMessageWirelessly {
            message_ind: 0,
            message_part: 0,
            forced_message: false,
            stored_msg,
            message_len: 0,
        };
        assert(r.spec_stored() =~= Seq::<u8>::empty());
        r
    }

    /// Forces a new round over the other link, starting with the second
    /// message.
    pub fn restart_forced(&mut self)
        ensures
            final(self).spec_forced_message(),
            final(self).spec_message_part() == 0,
            final(self).spec_message_ind() == 1,
            final(self).spec_stored() == old(self).spec_stored(),
    {
        proof {
            use_type_invariant(&*self);
        }
        self.forced_message = true;
        self.message_part = 0;
        self.message_ind = 1;
    }

    /// Whether this tick's telemetry goes over Bluetooth: the link in use,
    /// flipped while a round is forced. Sending over the serial line ends a
    /// forced round.
    pub fn choose_link(&mut self, is_wireless: bool) -> (r: bool)
        ensures
            r == (is_wireless != old(self).spec_forced_message()),
            final(self).spec_forced_message() == (r && old(self).spec_forced_message()),
            final(self).spec_message_ind() == old(self).spec_message_ind(),
            final(self).spec_message_part() == old(self).spec_message_part(),
            final(self).spec_stored() == old(self).spec_stored(),
    {
        proof {
            use_type_invariant(&*self);
        }
        let should_send_wireless = is_wireless ^ self.forced_message;
        if !should_send_wireless {
            self.forced_message = false;
        }
        should_send_wireless
    }

    /// The message to read this tick, when a new one starts.
    pub fn message_to_read(&self) -> (r: Option<usize>)
        ensures
            self.spec_message_part() == 0 ==> r == Some(self.spec_message_ind() as usize),
            self.spec_message_part() != 0 ==> r is None,
    {
        if self.message_part == 0 {
            Some(self.message_ind)
        } else {
            None
        }
    }

    /// The next chunk to send. When a new message starts, the first
    /// `fresh_len` bytes of `fresh` become the message. A message sent to
    /// its end moves on to the next message (and ends a forced round after
    /// the first one).
    pub fn take_chunk(&mut self, fresh: &[u8], fresh_len: usize) -> (chunk: Vec<u8>)
        requires
            fresh@.len() == STUFFED_MESSAGE_SIZE,
            fresh_len <= STUFFED_MESSAGE_SIZE,
        ensures
            ({
                let msg = if old(self).spec_message_part() == 0 {
                    fresh@.take(fresh_len as int)
                } else {
                    old(self).spec_stored()
                };
                let part = old(self).spec_message_part() as int;
                let end = chunk_end(part, msg.len() as int);
                &&& final(self).spec_stored() == msg
                &&& chunk@ == msg.subrange(part, end)
                &&& end == msg.len() ==> {
                    &&& final(self).spec_message_part() == 0
                    &&& final(self).spec_message_ind() == (old(self).spec_message_ind() + 1)
                        % (TELEMETRY_MESSAGE_COUNT as nat)
                    &&& final(self).spec_forced_message() == (old(self).spec_forced_message()
                        && old(self).spec_message_ind() != 0)
                }
                &&& end < msg.len() ==> {
                    &&& final(self).spec_message_part() == end
                    &&& final(self).spec_message_ind() == old(self).spec_message_ind()
                    &&& final(self).spec_forced_message() == old(self).spec_forced_message()
                }
            }),
    {
        proof {
            use_type_invariant(&*self);
        }
        let part = self.message_part;
        if part == 0 {
            let mut copy: Vec<u8> = Vec::new();
            let mut i: usize = 0;
            while i < STUFFED_MESSAGE_SIZE
                invariant
                    i <= STUFFED_MESSAGE_SIZE,
                    fresh@.len() == STUFFED_MESSAGE_SIZE,
                    copy@ == fresh@.take(i as int),
                decreases STUFFED_MESSAGE_SIZE - i,
            {
                copy.push(fresh[i]);
                i += 1;
                assert(copy@ =~= fresh@.take(i as int));
            }
            assert(copy@ =~= fresh@);
            self.stored_msg = copy;
            self.message_len = fresh_len;
        }
        let len = self.message_len;
        let end = if part + BLE_BUFFER_SIZE < len {
            part + BLE_BUFFER_SIZE
        } else {
            len
        };
        let mut chunk: Vec<u8> = Vec::new();
        let mut i: usize = part;
        while i < end
            invariant
                part <= i <= end <= len,
                len == self.message_len,
                len <= self.stored_msg@.len(),
                chunk@ == self.stored_msg@.subrange(part as int, i as int),
            decreases end - i,
        {
            chunk.push(self.stored_msg[i]);
            i += 1;
            assert(chunk@ =~= self.stored_msg@.subrange(part as int, i as int));
        }
        assert(chunk@ =~= self.spec_stored().subrange(part as int, end as int));
        if end == len {
            if self.message_ind == 0 {
                self.forced_message = false;
            }
            self.message_ind = (self.message_ind + 1) % TELEMETRY_MESSAGE_COUNT;
            self.message_part = 0;
        } else {
            self.message_part = end;
        }
        chunk
    }
}

} // verus!

verus! {

/// The last flash offset that telemetry may be logged up to.
pub const FLASH_LOG_LIMIT: usize = 0x01FFFF;

/// Where the next round of telemetry is logged in flash: one slot of
/// `STUFFED_MESSAGE_SIZE` bytes per message, from `flash_tail` on, and the
/// tail after the round (moved on by all the slots); nothing when the round
/// would pass `FLASH_LOG_LIMIT`.
pub fn flash_log_slots(flash_tail: usize) -> (r: Option<(Vec<usize>, usize)>)
    ensures
        flash_tail + STUFFED_MESSAGE_SIZE * TELEMETRY_MESSAGE_COUNT > FLASH_LOG_LIMIT ==> r is None,
        flash_tail + STUFFED_MESSAGE_SIZE * TELEMETRY_MESSAGE_COUNT <= FLASH_LOG_LIMIT ==> {
            &&& r is Some
            &&& r.unwrap().0@.len() == TELEMETRY_MESSAGE_COUNT
            &&& forall|i: int|
                0 <= i < TELEMETRY_MESSAGE_COUNT ==> r.unwrap().0@[i] == flash_tail + i
                    * STUFFED_MESSAGE_SIZE
            &&& r.unwrap().1 == flash_tail + STUFFED_MESSAGE_SIZE * TELEMETRY_MESSAGE_COUNT
        },
{
    if flash_tail > FLASH_LOG_LIMIT || FLASH_LOG_LIMIT - flash_tail < STUFFED_MESSAGE_SIZE
        * TELEMETRY_MESSAGE_COUNT {
        return None;
    }
    assert(STUFFED_MESSAGE_SIZE == 66);
    let mut slots: Vec<usize> = Vec::new();
    let mut tail = flash_tail;
    let mut i: usize = 0;
    while i < TELEMETRY_MESSAGE_COUNT
        invariant
            i <= TELEMETRY_MESSAGE_COUNT,
            STUFFED_MESSAGE_SIZE == 66,
            flash_tail + STUFFED_MESSAGE_SIZE * TELEMETRY_MESSAGE_COUNT <= FLASH_LOG_LIMIT,
            tail == flash_tail + i * STUFFED_MESSAGE_SIZE,
            slots@.len() == i,
            forall|j: int| 0 <= j < i ==> slots@[j] == flash_tail + j * STUFFED_MESSAGE_SIZE,
        decreases TELEMETRY_MESSAGE_COUNT - i,
    {
        slots.push(tail);
        tail += STUFFED_MESSAGE_SIZE;
        i += 1;
    }
    Some((slots, tail))
}

} // verus!
