//! A receive FIFO over a ring buffer that cuts the incoming byte stream into
//! frames, and the sending side that turns payloads into frames.
use vstd::prelude::*;

use crate::checksum::crc8_checksum;
use crate::framing::{
    decode_body, decode_frame, encoded, frame_payload, zero_padded, FRAME_BOUNDARY,
    STUFFED_MESSAGE_SIZE,
};

verus! {

/// How many bytes the receive buffer holds.
pub const BUFFER_SIZE: usize = 128;

/// The most bytes a caller should hand over in one tick.
pub const MAX_BYTES_PER_TICK: usize = STUFFED_MESSAGE_SIZE;

/// The index of the first boundary byte of `s` at or after `from`, or the
/// length of `s` when there is none.
pub open spec fn first_boundary(s: Seq<u8>, from: int) -> int
    decreases s.len() - from,
{
    if from >= s.len() {
        s.len() as int
    } else if s[from] == FRAME_BOUNDARY {
        from
    } else {
        first_boundary(s, from + 1)
    }
}

/// The FIFO after one byte arrives: refused when no room is left; when the
/// ring is full the oldest byte is overwritten.
pub open spec fn push_byte(c: Seq<u8>, rem: nat, b: u8) -> (Seq<u8>, nat) {
    if rem == 0 {
        (c, rem)
    } else if c.len() == BUFFER_SIZE - 1 {
        (c.drop_first().push(b), (rem - 1) as nat)
    } else {
        (c.push(b), (rem - 1) as nat)
    }
}

/// The FIFO after the bytes arrive one by one.
pub open spec fn push_bytes(c: Seq<u8>, rem: nat, bs: Seq<u8>) -> (Seq<u8>, nat)
    decreases bs.len(),
{
    if bs.len() == 0 {
        (c, rem)
    } else {
        let (c1, r1) = push_bytes(c, rem, bs.drop_last());
        push_byte(c1, r1, bs.last())
    }
}

/// How many leading bytes a read discards before it looks for a frame: none
/// when the FIFO starts with a boundary, otherwise everything up to and
/// including the first boundary (the end of a damaged frame).
pub open spec fn junk_len(c: Seq<u8>) -> int {
    let j = first_boundary(c, 0);
    if j == c.len() {
        c.len() as int
    } else if j == 0 {
        0
    } else {
        j + 1
    }
}

/// What a read returns and leaves behind: the decoded payload (if any), the
/// FIFO contents afterwards and the free room afterwards.
pub open spec fn read_model(c: Seq<u8>, rem: nat) -> (Option<Seq<u8>>, Seq<u8>, nat) {
    let d = junk_len(c);
    let s = c.skip(d);
    let rem1 = (rem + d) as nat;
    let m = first_boundary(s, 1);
    if m >= s.len() {
        (None, s, rem1)
    } else {
        (
            decode_body(s.subrange(1, m)),
            s.skip(m + 1),
            (BUFFER_SIZE - (s.len() - m - 1)) as nat,
        )
    }
}

pub proof fn lemma_first_boundary(s: Seq<u8>, from: int)
    requires
        0 <= from <= s.len(),
    ensures
        from <= first_boundary(s, from) <= s.len(),
        forall|i: int| from <= i < first_boundary(s, from) ==> s[i] != FRAME_BOUNDARY,
        first_boundary(s, from) < s.len() ==> s[first_boundary(s, from)] == FRAME_BOUNDARY,
    decreases s.len() - from,
{
    if from < s.len() && s[from] != FRAME_BOUNDARY {
        lemma_first_boundary(s, from + 1);
    }
}

pub proof fn lemma_first_boundary_at(s: Seq<u8>, from: int, j: int)
    requires
        0 <= from <= j <= s.len(),
        forall|i: int| from <= i < j ==> s[i] != FRAME_BOUNDARY,
        j == s.len() || s[j] == FRAME_BOUNDARY,
    ensures
        first_boundary(s, from) == j,
    decreases j - from,
{
    if from < j {
        lemma_first_boundary_at(s, from + 1, j);
    }
}

/// The position of the `i`-th byte of a ring that starts at `l`.
pub open spec fn ring(l: int, i: int) -> int {
    if l + i < BUFFER_SIZE {
        l + i
    } else {
        l + i - BUFFER_SIZE
    }
}

/// The `cnt` bytes of a ring buffer that start at position `l`.
pub open spec fn ring_contents(buff: Seq<u8>, l: int, cnt: int) -> Seq<u8> {
    Seq::new(cnt as nat, |i: int| buff[ring(l, i)])
}

/// The position after `i` in the ring.
pub open spec fn next(i: int) -> int {
    if i + 1 == BUFFER_SIZE {
        0
    } else {
        i + 1
    }
}

proof fn lemma_ring_write(buff: Seq<u8>, l: int, cnt: int, b: u8)
    requires
        buff.len() == BUFFER_SIZE,
        0 <= l < BUFFER_SIZE,
        0 <= cnt < BUFFER_SIZE,
    ensures
        ring_contents(buff.update(ring(l, cnt), b), l, cnt + 1) == ring_contents(
            buff,
            l,
            cnt,
        ).push(b),
{
    let a = ring_contents(buff.update(ring(l, cnt), b), l, cnt + 1);
    let e = ring_contents(buff, l, cnt).push(b);
    assert forall|i: int| 0 <= i < a.len() implies a[i] == e[i] by {
        if i < cnt {
            assert(ring(l, i) != ring(l, cnt));
        }
    }
    assert(a =~= e);
}

proof fn lemma_ring_advance(buff: Seq<u8>, l: int, cnt: int)
    requires
        buff.len() == BUFFER_SIZE,
        0 <= l < BUFFER_SIZE,
        0 < cnt <= BUFFER_SIZE,
    ensures
        ring_contents(buff, next(l), cnt - 1) == ring_contents(buff, l, cnt).drop_first(),
        ring_contents(buff, l, cnt)[0] == buff[l],
{
    let a = ring_contents(buff, next(l), cnt - 1);
    let e = ring_contents(buff, l, cnt).drop_first();
    assert forall|i: int| 0 <= i < a.len() implies a[i] == e[i] by {
        assert(ring(next(l), i) == ring(l, i + 1));
    }
    assert(a =~= e);
}

proof fn lemma_ring_skip(buff: Seq<u8>, l: int, cnt: int, j: int)
    requires
        buff.len() == BUFFER_SIZE,
        0 <= l < BUFFER_SIZE,
        0 <= j <= cnt <= BUFFER_SIZE,
    ensures
        ring_contents(buff, ring(l, j), cnt - j) == ring_contents(buff, l, cnt).skip(j),
        0 <= ring(l, j) < BUFFER_SIZE || j == BUFFER_SIZE,
{
    let a = ring_contents(buff, ring(l, j), cnt - j);
    let e = ring_contents(buff, l, cnt).skip(j);
    assert forall|i: int| 0 <= i < a.len() implies a[i] == e[i] by {
        assert(ring(ring(l, j), i) == ring(l, i + j));
    }
    assert(a =~= e);
}

/// `(i + 1) % BUFFER_SIZE`.
fn next_index(i: usize) -> (r: usize)
    requires
        i < BUFFER_SIZE,
    ensures
        r == next(i as int),
{
    (i + 1) % BUFFER_SIZE
}

/// An optional vector, seen as an optional byte sequence.
pub open spec fn opt_bytes(r: Option<Vec<u8>>) -> Option<Seq<u8>> {
    match r {
        Some(v) => Some(v@),
        None => None,
    }
}

/// When the bytes fit in the ring without overwriting, adding them appends
/// them to the FIFO.
pub proof fn lemma_push_bytes_appends(c: Seq<u8>, rem: nat, bs: Seq<u8>)
    requires
        rem >= bs.len(),
        c.len() + bs.len() < BUFFER_SIZE,
    ensures
        push_bytes(c, rem, bs) == (c + bs, (rem - bs.len()) as nat),
    decreases bs.len(),
{
    if bs.len() == 0 {
        assert(c + bs =~= c);
    } else {
        lemma_push_bytes_appends(c, rem, bs.drop_last());
        assert((c + bs.drop_last()).push(bs.last()) =~= c + bs);
    }
}

/// The number of bytes held by a ring from `l` (inclusive) to `r` (exclusive).
fn ring_count(l: usize, r: usize) -> (c: usize)
    requires
        l < BUFFER_SIZE,
        r < BUFFER_SIZE,
    ensures
        c == (if r >= l {
            r - l
        } else {
            r + BUFFER_SIZE - l
        }),
{
    (BUFFER_SIZE + r - l) % BUFFER_SIZE
}

/// Where the held bytes are in the ring, and how many more may be added.
struct RingCursor {
    left: usize,
    right: usize,
    remaining: usize,
}

/// Frames bytes for sending and collects received bytes until a whole frame
/// can be decoded.
pub struct HdlcTransceiver {
    buff: Vec<u8>,
    cursor: RingCursor,
}

impl HdlcTransceiver {
    closed spec fn count(&self) -> int {
        if self.cursor.right >= self.cursor.left {
            self.cursor.right - self.cursor.left
        } else {
            self.cursor.right + BUFFER_SIZE - self.cursor.left
        }
    }

    /// The ring's pointers are in range and the free room plus the held
    /// bytes make up the buffer (one less after the oldest byte was
    /// overwritten).
    closed spec fn wf(&self) -> bool {
        &&& self.buff@.len() == BUFFER_SIZE
        &&& self.cursor.left < BUFFER_SIZE
        &&& self.cursor.right < BUFFER_SIZE
        &&& self.cursor.remaining <= BUFFER_SIZE
        &&& (self.cursor.remaining + self.count() == BUFFER_SIZE || self.cursor.remaining
            + self.count() == BUFFER_SIZE - 1)
    }

    /// Every transceiver keeps its ring well formed.
    #[verifier::type_invariant]
    closed spec fn ring_invariant(&self) -> bool {
        self.wf()
    }

    /// The ring's cells.
    pub closed spec fn cells(&self) -> Seq<u8> {
        self.buff@
    }

    /// Where the oldest held byte is in the ring.
    pub closed spec fn left(&self) -> nat {
        self.cursor.left as nat
    }

    /// Where the next received byte goes in the ring.
    pub closed spec fn right(&self) -> nat {
        self.cursor.right as nat
    }

    /// The received bytes not yet consumed, oldest first.
    pub closed spec fn contents(&self) -> Seq<u8> {
        ring_contents(self.buff@, self.cursor.left as int, self.count())
    }

    /// How many more bytes may be added.
    pub closed spec fn remaining(&self) -> nat {
        self.cursor.remaining as nat
    }

    /// An empty transceiver.
    pub fn new() -> (r: Self)
        ensures
            r.contents() == Seq::<u8>::empty(),
            r.remaining() == BUFFER_SIZE,
            r.left() == 0,
            r.right() == 0,
            r.cells() == Seq::new(BUFFER_SIZE as nat, |i: int| 0u8),
    {
        let mut buff: Vec<u8> = Vec::new();
        while buff.len() < BUFFER_SIZE
            invariant
                buff@.len() <= BUFFER_SIZE,
                buff@ == Seq::new(buff@.len(), |i: int| 0u8),
            decreases BUFFER_SIZE - buff@.len(),
        {
            buff.push(0u8);
            assert(buff@ =~= Seq::new(buff@.len(), |i: int| 0u8));
        }
        let r = HdlcTransceiver {
            buff,
            cursor: RingCursor { left: 0, right: 0, remaining: BUFFER_SIZE },
        };
        assert(r.contents() =~= Seq::<u8>::empty());
        r
    }

    /// Adds one received byte. Refused when no room is left (nothing
    /// changes); otherwise the byte is written at the right position, which
    /// moves on by one, and when it meets the left position the oldest byte
    /// is dropped by moving the left position on too.
    pub fn add_byte(&mut self, byte_to_add: u8) -> (r: bool)
        ensures
            r == (old(self).remaining() > 0),
            !r ==> *final(self) == *old(self),
            r ==> {
                &&& final(self).cells() == old(self).cells().update(old(self).right() as int, byte_to_add)
                &&& final(self).right() == next(old(self).right() as int)
                &&& final(self).left() == (if final(self).right() == old(self).left() {
                    next(old(self).left() as int)
                } else {
                    old(self).left() as int
                })
                &&& final(self).remaining() == old(self).remaining() - 1
            },
            (final(self).contents(), final(self).remaining()) == push_byte(
                old(self).contents(),
                old(self).remaining(),
                byte_to_add,
            ),
    {
        proof {
            use_type_invariant(&*self);
        }
        if self.cursor.remaining == 0 {
            return false;
        }
        let ghost c = self.contents();
        let ghost b0 = self.buff@;
        let ghost l = self.cursor.left as int;
        let ghost cnt = self.count();
        proof {
            assert(ring(l, cnt) == self.cursor.right);
            lemma_ring_write(b0, l, cnt, byte_to_add);
        }
        let at = self.cursor.right;
        self.buff[at] = byte_to_add;
        assert(self.buff@ == b0.update(at as int, byte_to_add));
        let right = next_index(self.cursor.right);
        let mut left = self.cursor.left;
        if right == left {
            proof {
                lemma_ring_advance(self.buff@, l, cnt + 1);
            }
            left = next_index(left);
        }
        self.cursor = RingCursor { left, right, remaining: self.cursor.remaining - 1 };
        true
    }

    /// Adds received bytes, all of them or, when they do not all fit, none.
    pub fn add_bytes(&mut self, bytes_to_add: &[u8]) -> (r: bool)
        ensures
            r == (old(self).remaining() >= bytes_to_add@.len()),
            r ==> (final(self).contents(), final(self).remaining()) == push_bytes(
                old(self).contents(),
                old(self).remaining(),
                bytes_to_add@,
            ),
            r && old(self).contents().len() + bytes_to_add@.len() < BUFFER_SIZE
                ==> final(self).contents() == old(self).contents() + bytes_to_add@,
            !r ==> *final(self) == *old(self),
    {
        proof {
            use_type_invariant(&*self);
        }
        if self.cursor.remaining < bytes_to_add.len() {
            return false;
        }
        let ghost c0 = self.contents();
        let ghost r0 = self.remaining();
        let mut i: usize = 0;
        while i < bytes_to_add.len()
            invariant
                i <= bytes_to_add@.len(),
                r0 >= bytes_to_add@.len(),
                self.remaining() == r0 - i,
                (self.contents(), self.remaining()) == push_bytes(
                    c0,
                    r0,
                    bytes_to_add@.take(i as int),
                ),
            decreases bytes_to_add@.len() - i,
        {
            let ghost before = (self.contents(), self.remaining());
            self.add_byte(bytes_to_add[i]);
            i += 1;
            proof {
                let t = bytes_to_add@.take(i as int);
                assert(t.drop_last() =~= bytes_to_add@.take(i - 1));
            }
        }
        proof {
            assert(bytes_to_add@.take(i as int) =~= bytes_to_add@);
            if c0.len() + bytes_to_add@.len() < BUFFER_SIZE {
                lemma_push_bytes_appends(c0, r0, bytes_to_add@);
            }
        }
        true
    }

    /// Whether no byte has been received since the FIFO was last emptied.
    pub fn fifo_is_empty(&mut self) -> (r: bool)
        ensures
            *final(self) == *old(self),
            r == (old(self).remaining() == BUFFER_SIZE),
            r ==> old(self).contents().len() == 0,
    {
        proof {
            use_type_invariant(&*self);
        }
        self.cursor.remaining == BUFFER_SIZE
    }

    /// How many bytes to take from the line in one tick.
    pub fn bytes_to_read(&mut self) -> (r: usize)
        ensures
            *final(self) == *old(self),
            r == (if old(self).remaining() < MAX_BYTES_PER_TICK {
                old(self).remaining()
            } else {
                MAX_BYTES_PER_TICK as nat
            }),
    {
        if self.cursor.remaining < MAX_BYTES_PER_TICK {
            self.cursor.remaining
        } else {
            MAX_BYTES_PER_TICK
        }
    }

    /// Where the oldest held byte is in the ring.
    pub fn left_pointer(&self) -> (r: usize)
        ensures
            r == self.left(),
            r < BUFFER_SIZE,
    {
        proof {
            use_type_invariant(self);
        }
        self.cursor.left
    }

    /// Where the next received byte goes in the ring.
    pub fn right_pointer(&self) -> (r: usize)
        ensures
            r == self.right(),
            r < BUFFER_SIZE,
    {
        proof {
            use_type_invariant(self);
        }
        self.cursor.right
    }

    /// How many more bytes may be added. Fewer bytes are held than the
    /// ring has room for, and the free room
    /// plus the held bytes make up the buffer (one less after the oldest
    /// byte was overwritten).
    pub fn remaining_bytes(&self) -> (r: usize)
        ensures
            r == self.remaining(),
            self.contents().len() < BUFFER_SIZE,
            r <= BUFFER_SIZE,
            r + self.contents().len() == BUFFER_SIZE || r + self.contents().len() == BUFFER_SIZE - 1,
    {
        proof {
            use_type_invariant(self);
        }
        self.cursor.remaining
    }

    /// Frames a serialized structure for sending: the frame bytes,
    /// zero-padded to `STUFFED_MESSAGE_SIZE`, and how many of them to send
    /// (none when the payload is too long). The checksum is the payload's
    /// CRC-8, one byte.
    pub fn write_structure(&mut self, payload: &[u8]) -> (r: (Vec<u8>, usize))
        ensures
            *final(self) == *old(self),
            r.1 == encoded(payload@).len(),
            r.0@ == zero_padded(encoded(payload@), STUFFED_MESSAGE_SIZE as nat),
    {
        let checksum = crc8_checksum(payload);
        frame_payload(payload, checksum)
    }

    /// Discards the bytes in front of the next frame: nothing when the FIFO
    /// starts with a boundary, otherwise everything up to and including the
    /// first boundary.
    fn drop_junk(&mut self)
        requires
            old(self).wf(),
        ensures
            final(self).wf(),
            final(self).contents() == old(self).contents().skip(junk_len(old(self).contents())),
            final(self).remaining() == old(self).remaining() + junk_len(old(self).contents()),
    {
        let ghost c = self.contents();
        let ghost r0 = self.remaining();
        let ghost b0 = self.buff@;
        let ghost mut d: int = 0;
        let mut removed_bytes = false;
        while self.cursor.left != self.cursor.right && self.buff[self.cursor.left]
            != FRAME_BOUNDARY
            invariant
                self.wf(),
                self.buff@ == b0,
                0 <= d <= c.len(),
                self.contents() == c.skip(d),
                self.remaining() == r0 + d,
                removed_bytes == (d > 0),
                forall|i: int| 0 <= i < d ==> c[i] != FRAME_BOUNDARY,
            decreases c.len() - d,
        {
            proof {
                lemma_ring_advance(b0, self.cursor.left as int, self.count());
                assert(c.skip(d).drop_first() =~= c.skip(d + 1));
                assert(c[d] == c.skip(d)[0]);
                d = d + 1;
            }
            removed_bytes = true;
            self.cursor = RingCursor {
                left: next_index(self.cursor.left),
                right: self.cursor.right,
                remaining: self.cursor.remaining + 1,
            };
        }
        proof {
            if self.cursor.left == self.cursor.right {
                assert(d == c.len());
                lemma_first_boundary_at(c, 0, d);
            } else {
                lemma_ring_advance(b0, self.cursor.left as int, self.count());
                assert(c[d] == c.skip(d)[0]);
                lemma_first_boundary_at(c, 0, d);
            }
        }
        if self.cursor.left != self.cursor.right && removed_bytes {
            // the boundary that closed a damaged frame
            proof {
                assert(c.skip(d).drop_first() =~= c.skip(d + 1));
                d = d + 1;
            }
            self.cursor = RingCursor {
                left: next_index(self.cursor.left),
                right: self.cursor.right,
                remaining: self.cursor.remaining + 1,
            };
        }
        assert(d == junk_len(c));
    }

    /// Takes the next frame, boundaries included, out of the FIFO, which
    /// must start where a frame starts. Nothing changes when no closing
    /// boundary has arrived yet.
    fn scan_frame(&mut self) -> (r: Option<Vec<u8>>)
        requires
            old(self).wf(),
        ensures
            final(self).wf(),
            ({
                let s = old(self).contents();
                let m = first_boundary(s, 1);
                if m >= s.len() {
                    r is None && *final(self) == *old(self)
                } else {
                    &&& r is Some
                    &&& r->0@ == s.take(m + 1)
                    &&& final(self).contents() == s.skip(m + 1)
                    &&& final(self).remaining() == BUFFER_SIZE - (s.len() - m - 1)
                }
            }),
    {
        let ghost s = self.contents();
        let ghost l = self.cursor.left as int;
        let ghost b0 = self.buff@;
        let mut start = self.cursor.left;
        let mut frame: Vec<u8> = Vec::new();
        while start != self.cursor.right && !(frame.len() >= 2 && frame[frame.len() - 1]
            == FRAME_BOUNDARY)
            invariant
                self.wf(),
                *self == *old(self),
                s == self.contents(),
                l == self.cursor.left,
                b0 == self.buff@,
                frame@.len() <= s.len(),
                frame@ == s.take(frame@.len() as int),
                start as int == ring(l, frame@.len() as int),
                forall|i: int| 1 <= i < frame@.len() - 1 ==> s[i] != FRAME_BOUNDARY,
            decreases s.len() - frame@.len(),
        {
            proof {
                if frame@.len() == s.len() {
                    assert(ring(l, s.len() as int) == self.cursor.right);
                }
                assert(s[frame@.len() as int] == b0[start as int]);
            }
            frame.push(self.buff[start]);
            start = next_index(start);
            assert(frame@ =~= s.take(frame@.len() as int));
        }
        let k = frame.len();
        if !(k >= 2 && frame[k - 1] == FRAME_BOUNDARY) {
            proof {
                if (k as int) < s.len() {
                    assert(ring(l, k as int) != ring(l, s.len() as int));
                    assert(ring(l, s.len() as int) == self.cursor.right);
                }
                assert(k == s.len());
                if s.len() >= 1 {
                    lemma_first_boundary_at(s, 1, s.len() as int);
                }
            }
            return None;
        }
        proof {
            assert(s[k - 1] == frame@[k - 1]);
            lemma_first_boundary_at(s, 1, k - 1);
            lemma_ring_skip(b0, l, s.len() as int, k as int);
        }
        let held = ring_count(start, self.cursor.right);
        self.cursor = RingCursor { left: start, right: self.cursor.right, remaining: BUFFER_SIZE - held };
        Some(frame)
    }

    /// Takes the next frame out of the received bytes and returns its
    /// payload when its checksum matches. Bytes in front of the frame are
    /// discarded first: when the FIFO does not start with a boundary, they
    /// are taken to be the rest of a damaged frame, up to and including its
    /// closing boundary. `None` when no whole frame has arrived, when the
    /// decoded message is too long or too short, or when its checksum does
    /// not match.
    pub fn read_structure(&mut self) -> (r: Option<Vec<u8>>)
        ensures
            (opt_bytes(r), final(self).contents(), final(self).remaining()) == read_model(
                old(self).contents(),
                old(self).remaining(),
            ),
    {
        proof {
            use_type_invariant(&*self);
        }
        self.drop_junk();
        let ghost s = self.contents();
        let frame = match self.scan_frame() {
            Some(f) => f,
            None => return None,
        };
        proof {
            let m = first_boundary(s, 1);
            if s.len() >= 1 {
                lemma_first_boundary(s, 1);
            }
            assert(frame@.len() == m + 1);
            assert(frame@.subrange(1, frame@.len() - 1) =~= s.subrange(1, m));
        }
        decode_frame(frame.as_slice())
    }
}

} // verus!
