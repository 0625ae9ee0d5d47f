//! What the framing promises across sending and receiving.
use vstd::prelude::*;

use crate::checksum::crc8;
use crate::framing::{
    checksum_bytes, decode_body, encoded, fits_in_frame, framed, lemma_decode_framed,
    lemma_stuff_no_boundary, stuff, FRAME_BOUNDARY, STUFFED_MESSAGE_SIZE,
};
use crate::transceiver::{
    first_boundary, junk_len, lemma_first_boundary_at, lemma_push_bytes_appends, push_bytes,
    read_model, BUFFER_SIZE,
};

verus! {

/// A sent frame opens and closes with a boundary byte, holds no other
/// boundary byte, and fits in `STUFFED_MESSAGE_SIZE` bytes.
pub proof fn lemma_encoded_frame_shape(payload: Seq<u8>)
    requires
        fits_in_frame(payload),
    ensures
        encoded(payload).len() >= 2,
        encoded(payload).len() <= STUFFED_MESSAGE_SIZE,
        encoded(payload)[0] == FRAME_BOUNDARY,
        encoded(payload)[encoded(payload).len() - 1] == FRAME_BOUNDARY,
        forall|i: int|
            1 <= i < encoded(payload).len() - 1 ==> encoded(payload)[i] != FRAME_BOUNDARY,
{
    let m = payload + checksum_bytes(crc8(payload));
    lemma_stuff_no_boundary(m);
    let e = encoded(payload);
    assert forall|i: int| 1 <= i < e.len() - 1 implies e[i] != FRAME_BOUNDARY by {
        assert(e[i] == stuff(m)[i - 1]);
    }
}

proof fn lemma_frame_in_front(payload: Seq<u8>, rest: Seq<u8>)
    requires
        fits_in_frame(payload),
    ensures
        ({
            let s = encoded(payload) + rest;
            let m = first_boundary(s, 1);
            &&& m < s.len()
            &&& decode_body(s.subrange(1, m)) == Some(payload)
            &&& s.skip(m + 1) == rest
            &&& s.len() - m - 1 == rest.len()
        }),
{
    let e = encoded(payload);
    let s = e + rest;
    let st = stuff(payload + checksum_bytes(crc8(payload)));
    lemma_encoded_frame_shape(payload);
    let m = e.len() - 1;
    assert forall|i: int| 1 <= i < m implies s[i] != FRAME_BOUNDARY by {
        assert(s[i] == e[i]);
    }
    assert(s[m] == e[m]);
    lemma_first_boundary_at(s, 1, m);
    assert(s.subrange(1, m) =~= st);
    lemma_decode_framed(payload);
    assert(s.skip(m + 1) =~= rest);
}

/// Reading from a FIFO that starts with a sent frame gives back the payload
/// that was sent and leaves exactly the bytes after the frame.
pub proof fn lemma_read_returns_written_frame(payload: Seq<u8>, rest: Seq<u8>, rem: nat)
    requires
        fits_in_frame(payload),
    ensures
        read_model(encoded(payload) + rest, rem) == (
            Some(payload),
            rest,
            (BUFFER_SIZE - rest.len()) as nat,
        ),
{
    let c = encoded(payload) + rest;
    lemma_encoded_frame_shape(payload);
    assert(c[0] == FRAME_BOUNDARY);
    lemma_first_boundary_at(c, 0, 0);
    assert(junk_len(c) == 0);
    assert(c.skip(0) =~= c);
    lemma_frame_in_front(payload, rest);
}

/// When the opening boundary of a frame was lost, its remaining bytes and
/// its closing boundary are discarded, and the read delivers the next sent
/// frame.
pub proof fn lemma_read_recovers_after_lost_opening_boundary(
    junk: Seq<u8>,
    payload: Seq<u8>,
    rest: Seq<u8>,
    rem: nat,
)
    requires
        junk.len() > 0,
        forall|i: int| 0 <= i < junk.len() ==> junk[i] != FRAME_BOUNDARY,
        fits_in_frame(payload),
    ensures
        read_model(junk + seq![FRAME_BOUNDARY] + encoded(payload) + rest, rem) == (
            Some(payload),
            rest,
            (BUFFER_SIZE - rest.len()) as nat,
        ),
{
    let c = junk + seq![FRAME_BOUNDARY] + encoded(payload) + rest;
    assert forall|i: int| 0 <= i < junk.len() implies c[i] != FRAME_BOUNDARY by {
        assert(c[i] == junk[i]);
    }
    assert(c[junk.len() as int] == FRAME_BOUNDARY);
    lemma_first_boundary_at(c, 0, junk.len() as int);
    assert(junk_len(c) == junk.len() + 1);
    assert(c.skip(junk.len() + 1int) =~= encoded(payload) + rest);
    lemma_frame_in_front(payload, rest);
}

/// A frame whose body does not decode (wrong checksum, wrong length) is
/// consumed and yields nothing; the bytes after it stay.
pub proof fn lemma_read_discards_damaged_frame(body: Seq<u8>, rest: Seq<u8>, rem: nat)
    requires
        forall|i: int| 0 <= i < body.len() ==> body[i] != FRAME_BOUNDARY,
        decode_body(body) is None,
    ensures
        read_model(seq![FRAME_BOUNDARY] + body + seq![FRAME_BOUNDARY] + rest, rem) == (
            None::<Seq<u8>>,
            rest,
            (BUFFER_SIZE - rest.len()) as nat,
        ),
{
    let c = seq![FRAME_BOUNDARY] + body + seq![FRAME_BOUNDARY] + rest;
    lemma_first_boundary_at(c, 0, 0);
    assert(c.skip(0) =~= c);
    let m = body.len() + 1int;
    assert forall|i: int| 1 <= i < m implies c[i] != FRAME_BOUNDARY by {
        assert(c[i] == body[i - 1]);
    }
    assert(c[m] == FRAME_BOUNDARY);
    lemma_first_boundary_at(c, 1, m);
    assert(c.subrange(1, m) =~= body);
    assert(c.skip(m + 1) =~= rest);
}

/// A frame whose closing boundary has not arrived yet is left in the FIFO
/// untouched.
pub proof fn lemma_read_keeps_incomplete_frame(c: Seq<u8>, rem: nat)
    requires
        c.len() > 0,
        c[0] == FRAME_BOUNDARY,
        forall|i: int| 1 <= i < c.len() ==> c[i] != FRAME_BOUNDARY,
    ensures
        read_model(c, rem) == (None::<Seq<u8>>, c, rem),
{
    lemma_first_boundary_at(c, 0, 0);
    assert(c.skip(0) =~= c);
    lemma_first_boundary_at(c, 1, c.len() as int);
}

/// Bytes without any boundary cannot belong to a frame that could still be
/// completed: a read discards them all.
pub proof fn lemma_read_discards_bytes_without_boundary(c: Seq<u8>, rem: nat)
    requires
        forall|i: int| 0 <= i < c.len() ==> c[i] != FRAME_BOUNDARY,
    ensures
        read_model(c, rem) == (None::<Seq<u8>>, Seq::<u8>::empty(), rem + c.len()),
{
    lemma_first_boundary_at(c, 0, c.len() as int);
    assert(c.skip(c.len() as int) =~= Seq::<u8>::empty());
}

/// Two frames received one after the other into an empty FIFO are read back
/// in the order they were sent, each with its own payload, and nothing is
/// left over.
pub proof fn lemma_frames_read_in_order(first: Seq<u8>, second: Seq<u8>)
    requires
        fits_in_frame(first),
        fits_in_frame(second),
        encoded(first).len() + encoded(second).len() < BUFFER_SIZE,
    ensures
        ({
            let (c0, r0) = push_bytes(
                Seq::<u8>::empty(),
                BUFFER_SIZE as nat,
                encoded(first) + encoded(second),
            );
            let (o1, c1, r1) = read_model(c0, r0);
            let (o2, c2, r2) = read_model(c1, r1);
            &&& o1 == Some(first)
            &&& o2 == Some(second)
            &&& c2 == Seq::<u8>::empty()
            &&& r2 == BUFFER_SIZE
        }),
{
    let both = encoded(first) + encoded(second);
    lemma_push_bytes_appends(Seq::<u8>::empty(), BUFFER_SIZE as nat, both);
    assert(Seq::<u8>::empty() + both =~= both);
    lemma_read_returns_written_frame(first, encoded(second), (BUFFER_SIZE - both.len()) as nat);
    assert(encoded(second) + Seq::<u8>::empty() =~= encoded(second));
    lemma_read_returns_written_frame(
        second,
        Seq::<u8>::empty(),
        (BUFFER_SIZE - encoded(second).len()) as nat,
    );
}

} // verus!
