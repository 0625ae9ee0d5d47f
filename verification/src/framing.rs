//! The byte-level frame format: a payload followed by its one-byte
//! CRC-8, byte-stuffed so that it holds no boundary byte, and enclosed in
//! two boundary bytes.
use vstd::prelude::*;

use crate::checksum::{crc8, crc8_checksum};

verus! {

/// Marks the start and the end of a frame.
pub const FRAME_BOUNDARY: u8 = 0x7E;

/// Announces that the next byte was inverted with `INV_BYTE`.
pub const CTRL_ESCAPE: u8 = 0x7D;

/// The mask that an escaped byte is xored with.
pub const INV_BYTE: u8 = 0x20;

/// The largest serialized message, checksum included.
pub const MESSAGE_SIZE: usize = 32;

/// How many bytes the checksum takes after the payload.
pub const CHECKSUM_LEN: usize = 1;

/// The largest encoded frame: every byte escaped, plus the two boundaries.
pub const STUFFED_MESSAGE_SIZE: usize = MESSAGE_SIZE * 2 + 2;

pub open spec fn is_control(b: u8) -> bool {
    b == FRAME_BOUNDARY || b == CTRL_ESCAPE
}

/// How one byte appears inside a frame.
pub open spec fn stuff_byte(b: u8) -> Seq<u8> {
    if is_control(b) {
        seq![CTRL_ESCAPE, b ^ INV_BYTE]
    } else {
        seq![b]
    }
}

/// The escaped form of a byte sequence.
pub open spec fn stuff(s: Seq<u8>) -> Seq<u8>
    decreases s.len(),
{
    if s.len() == 0 {
        Seq::<u8>::empty()
    } else {
        stuff(s.drop_last()) + stuff_byte(s.last())
    }
}

/// Undoes the escaping: the bytes decoded so far, and whether the last
/// byte seen was an escape that still waits for its byte.
pub open spec fn unstuff(s: Seq<u8>) -> (Seq<u8>, bool)
    decreases s.len(),
{
    if s.len() == 0 {
        (Seq::<u8>::empty(), false)
    } else {
        let (out, pending) = unstuff(s.drop_last());
        let b = s.last();
        if b == CTRL_ESCAPE {
            (out, true)
        } else {
            (out.push(if pending { b ^ INV_BYTE } else { b }), false)
        }
    }
}

/// The checksum as it follows the payload: one byte.
pub open spec fn checksum_bytes(c: u8) -> Seq<u8> {
    seq![c]
}

/// The checksum that the last byte of a message carries.
pub open spec fn carried_checksum(m: Seq<u8>) -> u8
    recommends
        m.len() >= CHECKSUM_LEN,
{
    m[m.len() - 1]
}

/// A frame for `payload` whose checksum field holds `checksum`.
pub open spec fn framed(payload: Seq<u8>, checksum: u8) -> Seq<u8> {
    seq![FRAME_BOUNDARY] + stuff(payload + checksum_bytes(checksum)) + seq![FRAME_BOUNDARY]
}

/// Whether a payload is short enough to be sent.
pub open spec fn fits_in_frame(payload: Seq<u8>) -> bool {
    payload.len() + CHECKSUM_LEN < MESSAGE_SIZE
}

/// The frame produced for a payload and a checksum: empty when the payload
/// is too long.
pub open spec fn frame_for(payload: Seq<u8>, checksum: u8) -> Seq<u8> {
    if fits_in_frame(payload) {
        framed(payload, checksum)
    } else {
        Seq::<u8>::empty()
    }
}

/// The frame that is sent for a payload.
pub open spec fn encoded(payload: Seq<u8>) -> Seq<u8> {
    frame_for(payload, crc8(payload))
}

/// `s` followed by zeros up to length `n`.
pub open spec fn zero_padded(s: Seq<u8>, n: nat) -> Seq<u8> {
    s + Seq::new((n - s.len()) as nat, |i: int| 0u8)
}

/// The payload carried by the bytes between two boundaries, if its
/// checksum matches and it fits in a message.
pub open spec fn decode_body(body: Seq<u8>) -> Option<Seq<u8>> {
    let m = unstuff(body).0;
    if m.len() > MESSAGE_SIZE || m.len() < CHECKSUM_LEN {
        None
    } else if carried_checksum(m) != crc8(m.take(m.len() - CHECKSUM_LEN)) {
        None
    } else {
        Some(m.take(m.len() - CHECKSUM_LEN))
    }
}

pub proof fn lemma_escape_byte(b: u8)
    ensures
        (b ^ INV_BYTE) ^ INV_BYTE == b,
        is_control(b) ==> !is_control(b ^ INV_BYTE),
{
    assert((b ^ 0x20u8) ^ 0x20u8 == b) by (bit_vector);
    assert((b == 0x7Eu8 || b == 0x7Du8) ==> ((b ^ 0x20u8) != 0x7Eu8 && (b ^ 0x20u8) != 0x7Du8))
        by (bit_vector);
}

/// Stuffing distributes over concatenation.
pub proof fn lemma_stuff_append(a: Seq<u8>, b: Seq<u8>)
    ensures
        stuff(a + b) == stuff(a) + stuff(b),
    decreases b.len(),
{
    if b.len() == 0 {
        assert(a + b =~= a);
        assert(stuff(a) + stuff(b) =~= stuff(a));
    } else {
        assert((a + b).drop_last() =~= a + b.drop_last());
        assert((a + b).last() == b.last());
        lemma_stuff_append(a, b.drop_last());
        assert(stuff(a) + stuff(b) =~= stuff(a) + stuff(b.drop_last()) + stuff_byte(b.last()));
    }
}

/// A stuffed sequence holds no boundary byte and never ends in an escape
/// that waits for its byte.
pub proof fn lemma_stuff_no_boundary(s: Seq<u8>)
    ensures
        forall|i: int| 0 <= i < stuff(s).len() ==> stuff(s)[i] != FRAME_BOUNDARY,
        stuff(s).len() <= 2 * s.len(),
        stuff(s).len() >= s.len(),
    decreases s.len(),
{
    if s.len() > 0 {
        lemma_stuff_no_boundary(s.drop_last());
        lemma_escape_byte(s.last());
        let p = stuff(s.drop_last());
        let q = stuff_byte(s.last());
        assert forall|i: int| 0 <= i < stuff(s).len() implies stuff(s)[i] != FRAME_BOUNDARY by {
            if i >= p.len() {
                assert(stuff(s)[i] == q[i - p.len()]);
            } else {
                assert(stuff(s)[i] == p[i]);
            }
        }
    }
}

/// Decoding a stuffed sequence gives the sequence back, with no escape left
/// waiting.
pub proof fn lemma_unstuff_stuff(s: Seq<u8>)
    ensures
        unstuff(stuff(s)) == (s, false),
    decreases s.len(),
{
    if s.len() > 0 {
        let p = s.drop_last();
        let b = s.last();
        lemma_unstuff_stuff(p);
        lemma_escape_byte(b);
        let sp = stuff(p);
        if is_control(b) {
            let t1 = sp.push(CTRL_ESCAPE);
            let t2 = t1.push(b ^ INV_BYTE);
            assert(stuff(s) =~= t2);
            assert(t2.drop_last() =~= t1);
            assert(t1.drop_last() =~= sp);
            assert(unstuff(t1) == (p, true));
            assert(unstuff(t2) == (p.push(b), false));
        } else {
            let t1 = sp.push(b);
            assert(stuff(s) =~= t1);
            assert(t1.drop_last() =~= sp);
        }
        assert(p.push(b) =~= s);
    }
}

/// Decoding a prefix never yields more bytes than decoding the whole.
pub proof fn lemma_unstuff_prefix_len(s: Seq<u8>, j: int)
    requires
        0 <= j <= s.len(),
    ensures
        unstuff(s.take(j)).0.len() <= unstuff(s).0.len(),
    decreases s.len() - j,
{
    if j < s.len() {
        lemma_unstuff_prefix_len(s, j + 1);
        assert(s.take(j + 1).drop_last() =~= s.take(j));
    } else {
        assert(s.take(j) =~= s);
    }
}

/// Decoding a frame's body that was produced from a payload gives the
/// payload back.
pub proof fn lemma_decode_framed(payload: Seq<u8>)
    requires
        fits_in_frame(payload),
    ensures
        decode_body(stuff(payload + checksum_bytes(crc8(payload)))) == Some(payload),
{
    let c = crc8(payload);
    let m = payload + checksum_bytes(c);
    lemma_unstuff_stuff(m);
    assert(unstuff(stuff(m)).0 == m);
    assert(m.take(m.len() - CHECKSUM_LEN) =~= payload);
    assert(m[m.len() - 1] == c);
}

/// Appends zeros to `v` until it holds `n` bytes.
fn pad_with_zeros(v: &mut Vec<u8>, n: usize)
    requires
        old(v)@.len() <= n,
    ensures
        final(v)@ == zero_padded(old(v)@, n as nat),
{
    let ghost start = v@;
    while v.len() < n
        invariant
            start.len() <= v@.len() <= n,
            v@ == zero_padded(start, v@.len()),
        decreases n - v@.len(),
    {
        let ghost before = v@;
        v.push(0u8);
        assert(v@ =~= zero_padded(start, v@.len())) by {
            assert(zero_padded(start, v@.len()) =~= zero_padded(start, before.len()).push(0u8));
        }
    }
}

/// Builds the frame for `payload` with `checksum` in its checksum field,
/// zero-padded to `STUFFED_MESSAGE_SIZE` bytes, together with the number of
/// bytes that belong to the frame. A payload that leaves no room for the
/// checksum in a message gives an empty frame.
pub fn frame_payload(payload: &[u8], checksum: u8) -> (r: (Vec<u8>, usize))
    ensures
        r.1 == frame_for(payload@, checksum).len(),
        r.0@ == zero_padded(frame_for(payload@, checksum), STUFFED_MESSAGE_SIZE as nat),
{
    let mut stuffed: Vec<u8> = Vec::new();
    if payload.len() >= MESSAGE_SIZE - CHECKSUM_LEN {
        pad_with_zeros(&mut stuffed, STUFFED_MESSAGE_SIZE);
        assert(frame_for(payload@, checksum) =~= Seq::<u8>::empty());
        assert(Seq::<u8>::empty().push(0u8).len() == 1);
        return (stuffed, 0);
    }
    // the serialized message: payload, then the checksum byte
    let mut message: Vec<u8> = Vec::new();
    let mut i: usize = 0;
    while i < payload.len()
        invariant
            i <= payload@.len(),
            message@ == payload@.take(i as int),
        decreases payload@.len() - i,
    {
        message.push(payload[i]);
        i += 1;
        assert(message@ =~= payload@.take(i as int));
    }
    assert(payload@.take(payload@.len() as int) =~= payload@);
    message.push(checksum);
    assert(message@ =~= payload@ + checksum_bytes(checksum));

    stuffed.push(FRAME_BOUNDARY);
    let mut k: usize = 0;
    while k < message.len()
        invariant
            k <= message@.len(),
            message@.len() == payload@.len() + CHECKSUM_LEN,
            payload@.len() + CHECKSUM_LEN < MESSAGE_SIZE,
            stuffed@ == seq![FRAME_BOUNDARY] + stuff(message@.take(k as int)),
            stuffed@.len() <= 1 + 2 * k,
        decreases message@.len() - k,
    {
        let b = message[k];
        proof {
            lemma_stuff_no_boundary(message@.take(k as int));
            assert(message@.take(k as int + 1).drop_last() =~= message@.take(k as int));
        }
        if b == CTRL_ESCAPE || b == FRAME_BOUNDARY {
            stuffed.push(CTRL_ESCAPE);
            stuffed.push(b ^ INV_BYTE);
        } else {
            stuffed.push(b);
        }
        k += 1;
        assert(stuffed@ =~= seq![FRAME_BOUNDARY] + stuff(message@.take(k as int)));
    }
    assert(message@.take(k as int) =~= message@);
    stuffed.push(FRAME_BOUNDARY);
    let used = stuffed.len();
    assert(stuffed@ =~= framed(payload@, checksum));
    pad_with_zeros(&mut stuffed, STUFFED_MESSAGE_SIZE);
    (stuffed, used)
}

/// Whether the last byte of `message` carries `computed`. An empty message
/// never matches.
pub fn checksum_matches(message: &[u8], computed: u8) -> (r: bool)
    ensures
        r == (message@.len() >= CHECKSUM_LEN && carried_checksum(message@) == computed),
{
    let n = message.len();
    if n < CHECKSUM_LEN {
        return false;
    }
    message[n - 1] == computed
}

/// Removes the escaping from the bytes between the two boundaries of
/// `frame`. Gives `None` when the result would not fit in a message.
pub fn unstuff_frame_body(frame: &[u8]) -> (r: Option<Vec<u8>>)
    requires
        frame@.len() >= 2,
    ensures
        ({
            let m = unstuff(frame@.subrange(1, frame@.len() - 1)).0;
            match r {
                Some(v) => v@ == m && m.len() <= MESSAGE_SIZE,
                None => m.len() > MESSAGE_SIZE,
            }
        }),
{
    let ghost body = frame@.subrange(1, frame@.len() - 1);
    let mut out: Vec<u8> = Vec::new();
    let mut escape_next_byte = false;
    let mut i: usize = 1;
    while i < frame.len() - 1
        invariant
            frame@.len() >= 2,
            body == frame@.subrange(1, frame@.len() - 1),
            1 <= i <= frame@.len() - 1,
            unstuff(body.take(i - 1)) == (out@, escape_next_byte),
            out@.len() <= MESSAGE_SIZE,
        decreases frame@.len() - 1 - i,
    {
        let b = frame[i];
        proof {
            assert(body.take(i as int).drop_last() =~= body.take(i - 1));
            assert(body.take(i as int).last() == b);
        }
        if b == CTRL_ESCAPE {
            escape_next_byte = true;
        } else {
            if out.len() >= MESSAGE_SIZE {
                proof {
                    lemma_unstuff_prefix_len(body, i as int);
                }
                return None;
            }
            if escape_next_byte {
                out.push(b ^ INV_BYTE);
            } else {
                out.push(b);
            }
            escape_next_byte = false;
        }
        i += 1;
    }
    assert(body.take(i - 1) =~= body);
    Some(out)
}

/// The payload carried by `frame` if its checksum matches, computed with
/// the CRC-8 of the decoded payload.
pub fn decode_frame(frame: &[u8]) -> (r: Option<Vec<u8>>)
    requires
        frame@.len() >= 2,
    ensures
        match r {
            Some(v) => decode_body(frame@.subrange(1, frame@.len() - 1)) == Some(v@),
            None => decode_body(frame@.subrange(1, frame@.len() - 1)) is None,
        },
{
    let unstuffed = unstuff_frame_body(frame);
    let message = match unstuffed {
        Some(m) => m,
        None => return None,
    };
    let n = message.len();
    if n < CHECKSUM_LEN {
        return None;
    }
    let mut payload: Vec<u8> = Vec::new();
    let mut i: usize = 0;
    while i < n - CHECKSUM_LEN
        invariant
            n == message@.len(),
            n >= CHECKSUM_LEN,
            i <= n - CHECKSUM_LEN,
            payload@ == message@.take(i as int),
        decreases n - CHECKSUM_LEN - i,
    {
        payload.push(message[i]);
        i += 1;
        assert(payload@ =~= message@.take(i as int));
    }
    let computed = crc8_checksum(payload.as_slice());
    if !checksum_matches(message.as_slice(), computed) {
        return None;
    }
    Some(payload)
}

} // verus!
