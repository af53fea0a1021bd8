//! The fixed 63-byte wire format: layout constants, the two-region
//! self-referential XOR checksum, and header resynchronization.

use vstd::prelude::*;

verus! {

/// Length of one frame on the wire, in bytes.
pub const LEN: usize = 63;

/// XOR of all bytes of a sequence.
pub open spec fn xor_all(s: Seq<u8>) -> u8
    decreases s.len(),
{
    if s.len() == 0 {
        0u8
    } else {
        xor_all(s.drop_last()) ^ s.last()
    }
}

/// The generalized fold that both checksum regions use: a region of one
/// byte or fewer is trivially valid, two bytes must be equal, and a longer
/// region must open with the XOR of all its remaining bytes (the checksum
/// byte itself included in the fold).
pub open spec fn region_valid(s: Seq<u8>) -> bool {
    if s.len() <= 1 {
        true
    } else if s.len() == 2 {
        s[0] == s[1]
    } else {
        s[0] == xor_all(s.skip(1))
    }
}

/// XOR of the bytes of `s` with indices in `[from, s.len())`, appending one
/// byte at a time keeps this fold stable.
proof fn lemma_xor_all_push(s: Seq<u8>, x: u8)
    ensures
        xor_all(s.push(x)) == xor_all(s) ^ x,
{
    assert(s.push(x).drop_last() =~= s);
}

/// A complete frame is one whose two disjoint checksum regions — header
/// through first checksum byte, and the trailing GPS word plus second
/// checksum byte — both pass the fold.
pub open spec fn frame_ok(s: Seq<u8>) -> bool {
    region_valid(s.take(LEN - 5)) && region_valid(s.skip(LEN - 5))
}

/// Byte `i` of the magic header `0xBD 0xDB 0x0B`.
pub open spec fn head_byte(i: int) -> u8 {
    if i == 0 {
        0xbdu8
    } else if i == 1 {
        0xdbu8
    } else {
        0x0bu8
    }
}

/// The full magic header begins at position `i` of `s`.
pub open spec fn head_at(s: Seq<u8>, i: int) -> bool {
    &&& 0 <= i
    &&& i + 3 <= s.len()
    &&& s[i] == 0xbdu8
    &&& s[i + 1] == 0xdbu8
    &&& s[i + 2] == 0x0bu8
}

/// Fewer than three bytes remain from position `i` of `s` and all of them
/// match the opening of the magic header: a header that may span a read
/// boundary.
pub open spec fn partial_head_at(s: Seq<u8>, i: int) -> bool {
    &&& 0 <= i < s.len()
    &&& s.len() < i + 3
    &&& forall|k: int| i <= k < s.len() ==> s[k] == head_byte(k - i)
}

/// Position `i` of `s` is where resynchronization may restart a frame.
pub open spec fn sync_at(s: Seq<u8>, i: int) -> bool {
    head_at(s, i) || partial_head_at(s, i)
}

/// The earliest restart candidate of `s` at or after `from`; `s.len()` when
/// there is none.
pub open spec fn sync_pos(s: Seq<u8>, from: int) -> int
    decreases s.len() - from,
{
    if from < 0 || from >= s.len() {
        s.len() as int
    } else if sync_at(s, from) {
        from
    } else {
        sync_pos(s, from + 1)
    }
}

/// `sync_pos` stays within `[from, s.len()]`, and what it returns short of
/// the end really is a candidate.
pub proof fn lemma_sync_pos_bounds(s: Seq<u8>, from: int)
    requires
        0 <= from <= s.len(),
    ensures
        from <= sync_pos(s, from) <= s.len(),
        sync_pos(s, from) < s.len() ==> sync_at(s, sync_pos(s, from)),
    decreases s.len() - from,
{
    if from < s.len() && !sync_at(s, from) {
        lemma_sync_pos_bounds(s, from + 1);
    }
}

/// `sync_pos` finds exactly the first candidate at or after `from`.
pub proof fn lemma_sync_pos_first(s: Seq<u8>, from: int, p: int)
    requires
        0 <= from <= p <= s.len(),
        forall|j: int| from <= j < p ==> !sync_at(s, j),
        p < s.len() ==> sync_at(s, p),
    ensures
        sync_pos(s, from) == p,
    decreases p - from,
{
    if from < p {
        lemma_sync_pos_first(s, from + 1, p);
    }
}

/// `sync_pos` never lands past a candidate: whatever it returns is at or
/// before any candidate at or after `from`.
pub proof fn lemma_sync_pos_le(s: Seq<u8>, from: int, j: int)
    requires
        0 <= from <= j < s.len(),
        sync_at(s, j),
    ensures
        from <= sync_pos(s, from) <= j,
    decreases j - from,
{
    if from < j && !sync_at(s, from) {
        lemma_sync_pos_le(s, from + 1, j);
    }
}

/// Checks one checksum region.
fn xor_check(buf: &[u8]) -> (r: bool)
    ensures
        r == region_valid(buf@),
{
    let n = buf.len();
    if n <= 1 {
        true
    } else if n == 2 {
        buf[0] == buf[1]
    } else {
        let mut acc: u8 = buf[1];
        let mut i: usize = 2;
        proof {
            let b1 = buf@[1];
            assert(buf@.skip(1).take(1) =~= Seq::<u8>::empty().push(b1));
            lemma_xor_all_push(Seq::<u8>::empty(), b1);
            assert(0u8 ^ b1 == b1) by (bit_vector);
        }
        while i < n
            invariant
                2 <= i <= n,
                n == buf@.len(),
                acc == xor_all(buf@.skip(1).take(i - 1)),
            decreases n - i,
        {
            proof {
                lemma_xor_all_push(buf@.skip(1).take(i - 1), buf@[i as int]);
                assert(buf@.skip(1).take(i - 1).push(buf@[i as int]) =~= buf@.skip(1).take(
                    i as int,
                ));
            }
            acc = acc ^ buf[i];
            i = i + 1;
        }
        proof {
            assert(buf@.skip(1).take(n - 1) =~= buf@.skip(1));
        }
        buf[0] == acc
    }
}

/// The storage of one in-progress frame: a fixed 63-byte buffer.
pub struct Frame {
    pub bytes: [u8; 63],
}

impl Frame {
    /// Verifies the two checksum regions of a structurally complete frame.
    pub fn verify(&self) -> (r: bool)
        ensures
            r == frame_ok(self.bytes@),
    {
        let whole: &[u8] = self.bytes.as_slice();
        let (lead, trail) = whole.split_at(LEN - 5);
        let r = xor_check(lead) && xor_check(trail);
        proof {
            assert(self.bytes@.take(LEN - 5) =~= whole@.subrange(0, LEN - 5));
            assert(self.bytes@.skip(LEN - 5) =~= whole@.subrange(LEN - 5, LEN as int));
        }
        r
    }

    /// Whether scanned position `j` (absolute, within `[start, end)`) can
    /// restart a frame: the full header follows, or only a byte or two
    /// remain before `end` and they are a prefix of the header.
    fn sync_here(&self, start: usize, end: usize, j: usize) -> (r: bool)
        requires
            start <= j < end,
            end <= 63,
        ensures
            r == sync_at(self.bytes@.subrange(start as int, end as int), j - start),
    {
        let ghost s = self.bytes@.subrange(start as int, end as int);
        if j + 3 <= end {
            let r = self.bytes[j] == 0xbd && self.bytes[j + 1] == 0xdb && self.bytes[j + 2]
                == 0x0b;
            proof {
                assert(r == head_at(s, j - start));
                assert(!partial_head_at(s, j - start));
            }
            r
        } else if j + 2 == end {
            let r = self.bytes[j] == 0xbd && self.bytes[j + 1] == 0xdb;
            proof {
                let i = j - start;
                assert(s[i] == self.bytes@[j as int]);
                assert(s[i + 1] == self.bytes@[j + 1]);
                assert(!head_at(s, i));
                if partial_head_at(s, i) {
                    assert(s[i] == head_byte(0));
                    assert(s[i + 1] == head_byte(1));
                }
                assert(r ==> partial_head_at(s, i));
            }
            r
        } else {
            let r = self.bytes[j] == 0xbd;
            proof {
                let i = j - start;
                assert(s[i] == self.bytes@[j as int]);
                assert(!head_at(s, i));
                if partial_head_at(s, i) {
                    assert(s[i] == head_byte(0));
                }
                assert(r ==> partial_head_at(s, i));
            }
            r
        }
    }

    /// Scans `[start, end)` of the buffer for the earliest restart
    /// candidate, shifts the candidate and everything after it down to
    /// position 0, and returns the number of bytes that survive — 0 when no
    /// candidate remains.
    pub fn resync(&mut self, start: usize, end: usize) -> (r: u8)
        requires
            start <= end <= 63,
        ensures
            ({
                let s = old(self).bytes@.subrange(start as int, end as int);
                let p = sync_pos(s, 0);
                &&& r == s.len() - p
                &&& final(self).bytes@.subrange(0, r as int) == s.subrange(p, s.len() as int)
            }),
    {
        let ghost s = self.bytes@.subrange(start as int, end as int);
        let mut i: usize = start;
        while i < end && !self.sync_here(start, end, i)
            invariant
                start <= i <= end <= 63,
                s == self.bytes@.subrange(start as int, end as int),
                forall|j: int| 0 <= j < i - start ==> !sync_at(s, j),
            decreases end - i,
        {
            i = i + 1;
        }
        proof {
            lemma_sync_pos_first(s, 0, i - start);
        }
        let cnt = end - i;
        if i == 0 {
            return cnt as u8;
        }
        let mut k: usize = 0;
        while k < cnt
            invariant
                0 < i,
                i + cnt == end <= 63,
                k <= cnt,
                forall|j: int| k <= j < 63 ==> self.bytes@[j] == old(self).bytes@[j],
                self.bytes@.subrange(0, k as int) == old(self).bytes@.subrange(
                    i as int,
                    i + k as int,
                ),
            decreases cnt - k,
        {
            let b = self.bytes[i + k];
            self.bytes[k] = b;
            proof {
                assert(self.bytes@.subrange(0, k + 1) =~= old(self).bytes@.subrange(
                    i as int,
                    i + k + 1,
                ));
            }
            k = k + 1;
        }
        proof {
            assert(self.bytes@.subrange(0, cnt as int) =~= s.subrange(
                i - start,
                s.len() as int,
            ));
        }
        cnt as u8
    }
}

/// One frame of storage plus the fill cursor: bytes `[0, tail)` have been
/// received, bytes `[tail, 63)` are offered to the reader.
pub struct FrameBuffer {
    pub frame: Frame,
    pub tail: u8,
}

/// First phase of acceptance: while the header was not yet confirmed
/// (fewer than three bytes were held), resynchronize over everything
/// received; once confirmed, keep the received bytes as they are.
pub open spec fn step1(data: Seq<u8>, pre_tail: int) -> Seq<u8> {
    if pre_tail < 3 {
        data.skip(sync_pos(data, 0))
    } else {
        data
    }
}

/// Second phase: a structurally complete frame that fails its checksums is
/// resynchronized again, from offset 3 on — never from 0, so a rejected
/// false header cannot be found again and progress is guaranteed.
pub open spec fn step2(d1: Seq<u8>) -> Seq<u8> {
    if d1.len() == LEN && !frame_ok(d1) {
        let s2 = d1.subrange(3, LEN as int);
        s2.skip(sync_pos(s2, 0))
    } else {
        d1
    }
}

/// The bytes a buffer holds after `FrameBuffer::verify` ran on `data`
/// (everything received so far), given how many bytes were already held
/// before this round.
pub open spec fn buffer_step(data: Seq<u8>, pre_tail: int) -> Seq<u8> {
    step2(step1(data, pre_tail))
}

impl Default for FrameBuffer {
    /// An empty buffer: zeroed storage, nothing received.
    fn default() -> (r: FrameBuffer)
        ensures
            r.wf(),
            r.tail == 0,
            r.frame.bytes@ == Seq::new(63, |i: int| 0u8),
    {
        let r = FrameBuffer { frame: Frame { bytes: [0; 63] }, tail: 0 };
        proof {
            assert(r.frame.bytes@ =~= Seq::new(63, |i: int| 0u8));
        }
        r
    }
}

impl FrameBuffer {
    /// The received bytes: what the buffer currently holds.
    pub open spec fn content(self) -> Seq<u8> {
        self.frame.bytes@.take(self.tail as int)
    }

    /// Well-formed: the cursor stays within the frame, and whatever has
    /// been confirmed of the start (up to the three header bytes) really is
    /// the magic header.
    pub open spec fn wf(self) -> bool {
        &&& self.tail as int <= LEN
        &&& forall|i: int|
            0 <= i < self.tail && i < 3 ==> self.frame.bytes@[i] == head_byte(i)
    }

    /// The writable region `[tail, 63)` of the frame, for an external
    /// reader to fill; the cursor and the received bytes stay as they are.
    pub fn get_buf(&mut self) -> (r: &mut [u8])
        requires
            old(self).wf(),
        ensures
            r@ == old(self).frame.bytes@.skip(old(self).tail as int),
            r@.len() == LEN - old(self).tail,
            final(self).tail == old(self).tail,
            final(self).frame.bytes@ == old(self).content() + final(r)@,
            final(self).wf(),
    {
        let tail = self.tail as usize;
        let whole: &mut [u8] = &mut self.frame.bytes;
        let (_kept, out) = whole.split_at_mut(tail);
        out
    }

    /// Acceptance after `n` more bytes were written at the cursor: confirm
    /// or relocate the header, then demand the checksums of a complete
    /// frame; reports whether a complete, checksum-valid frame is now held.
    pub fn verify(&mut self, n: usize) -> (r: bool)
        requires
            old(self).wf(),
            old(self).tail + n <= LEN,
        ensures
            final(self).wf(),
            final(self).content() == buffer_step(
                old(self).frame.bytes@.take(old(self).tail + n),
                old(self).tail as int,
            ),
            r == (final(self).tail == LEN),
    {
        let ghost data = self.frame.bytes@.take(self.tail + n);
        let len: u8 = self.tail + (n as u8);
        if self.tail < 3 {
            proof {
                assert(self.frame.bytes@.subrange(0, len as int) =~= data);
            }
            self.tail = self.frame.resync(0, len as usize);
            proof {
                let p = sync_pos(data, 0);
                lemma_sync_pos_bounds(data, 0);
                assert(self.content() =~= data.skip(p));
                if p < data.len() {
                    lemma_sync_here_head(data, p, self.content());
                }
            }
        } else {
            self.tail = len;
        }
        let ghost d1 = step1(data, old(self).tail as int);
        proof {
            assert(self.content() =~= d1);
            if self.tail as int == LEN {
                assert(self.frame.bytes@ =~= d1);
            }
        }
        if self.tail as usize == LEN && !self.frame.verify() {
            let ghost s2 = d1.subrange(3, LEN as int);
            self.tail = self.frame.resync(3, LEN);
            proof {
                let p = sync_pos(s2, 0);
                lemma_sync_pos_bounds(s2, 0);
                assert(self.content() =~= s2.skip(p));
                if p < s2.len() {
                    lemma_sync_here_head(s2, p, self.content());
                }
            }
        }
        proof {
            assert(self.content() =~= buffer_step(data, old(self).tail as int));
        }
        self.tail as usize == LEN
    }
}

/// A buffer whose content restarts at a candidate position opens with as
/// much of the magic header as it holds.
proof fn lemma_sync_here_head(s: Seq<u8>, p: int, c: Seq<u8>)
    requires
        0 <= p < s.len(),
        sync_at(s, p),
        c =~= s.skip(p),
    ensures
        forall|i: int| 0 <= i < c.len() && i < 3 ==> c[i] == head_byte(i),
{
    if head_at(s, p) {
        assert(c[0] == head_byte(0));
        assert(c[1] == head_byte(1));
        assert(c[2] == head_byte(2));
        assert(forall|i: int| 0 <= i < c.len() && i < 3 ==> c[i] == head_byte(i));
    }
}

} // verus!
