//! The decoder: two frame buffers used as a double buffer, latched
//! sub-state, and debounced solution emission, plus the typed view of a
//! frame's fixed-point fields.

use vstd::prelude::*;

use crate::frame::{buffer_step, Frame, FrameBuffer, LEN};

verus! {

/// Little-endian unsigned value of the two bytes of `s` at `off`.
pub open spec fn le16(s: Seq<u8>, off: int) -> int {
    s[off] + 256 * s[off + 1]
}

/// Little-endian unsigned value of the four bytes of `s` at `off`.
pub open spec fn le32(s: Seq<u8>, off: int) -> int {
    s[off] + 256 * s[off + 1] + 65536 * s[off + 2] + 16777216 * s[off + 3]
}

/// Two's-complement reading of a 16-bit unsigned value.
pub open spec fn as_i16(v: int) -> int {
    if v < 0x8000 {
        v
    } else {
        v - 0x10000
    }
}

/// Two's-complement reading of a 32-bit unsigned value.
pub open spec fn as_i32(v: int) -> int {
    if v < 0x80000000 {
        v
    } else {
        v - 0x100000000
    }
}

/// How many of the eight bits of `b` are set.
pub open spec fn count_ones(b: u8) -> int {
    ((b as u32) & 1) + (((b as u32) >> 1) & 1) + (((b as u32) >> 2) & 1) + (((b as u32) >> 3) & 1)
        + (((b as u32) >> 4) & 1) + (((b as u32) >> 5) & 1) + (((b as u32) >> 6) & 1) + ((
    (b as u32) >> 7) & 1)
}

/// An absolute WGS84 coordinate as the sensor reports it: fixed-point
/// 1e-7-scaled degrees for latitude and longitude, 1e-7-scaled meters for
/// altitude.
#[derive(Clone, Copy, Debug, PartialEq, Eq, Structural)]
pub struct WGS84 {
    pub latitude: i32,
    pub longitude: i32,
    pub altitude: i32,
}

/// A local east-north-up offset from a reference coordinate.
#[derive(Clone, Copy, Debug)]
pub struct Enu<T> {
    pub e: T,
    pub n: T,
    pub u: T,
}

/// The persisted solution sub-state: position fix state, satellite count
/// and direction fix state. Carried only by tagged frames and latched
/// across all others.
#[derive(Clone, Copy, Debug, PartialEq, Eq, Structural)]
pub struct SolutionState {
    pub state_pos: i16,
    pub satellites: i16,
    pub state_dir: i16,
}

/// The tag byte of a complete frame: which interpretation the extra region
/// carries.
pub open spec fn frame_extra_type(s: Seq<u8>) -> u8 {
    s[56]
}

/// The status byte of a complete frame.
pub open spec fn frame_status(s: Seq<u8>) -> u8 {
    s[39]
}

/// The raw signed yaw field of a complete frame.
pub open spec fn frame_yaw(s: Seq<u8>) -> int {
    as_i16(le16(s, 7))
}

/// The absolute position fields of a complete frame.
pub open spec fn frame_wgs84(s: Seq<u8>) -> WGS84 {
    WGS84 {
        latitude: as_i32(le32(s, 21)) as i32,
        longitude: as_i32(le32(s, 25)) as i32,
        altitude: as_i32(le32(s, 29)) as i32,
    }
}

/// The solution sub-state held in the extra region of a tagged frame.
pub open spec fn frame_state(s: Seq<u8>) -> SolutionState {
    SolutionState {
        state_pos: as_i16(le16(s, 46)) as i16,
        satellites: as_i16(le16(s, 48)) as i16,
        state_dir: as_i16(le16(s, 50)) as i16,
    }
}

/// A right-handed sensor-axis vector field.
#[derive(Clone, Copy, Debug, PartialEq, Eq, Structural)]
pub struct XYZ<T> {
    pub x: T,
    pub y: T,
    pub z: T,
}

/// A north-east-ground velocity field.
#[derive(Clone, Copy, Debug, PartialEq, Eq, Structural)]
pub struct NEG<T> {
    pub n: T,
    pub e: T,
    pub g: T,
}

/// The attitude fields: roll, pitch and yaw, 16-bit signed and scaled.
#[derive(Clone, Copy, Debug, PartialEq, Eq, Structural)]
pub struct Attitude {
    pub roll: i16,
    pub pitch: i16,
    pub yaw: i16,
}

/// The typed view of one complete frame: every field at its fixed byte
/// offset of the packed 63-byte layout, little-endian.
#[derive(Clone, Copy, Debug)]
pub struct FrameValue {
    pub head: [u8; 3],
    pub attitude: Attitude,
    pub w: XYZ<i16>,
    pub a: XYZ<i16>,
    pub wgs84: WGS84,
    pub v: NEG<i16>,
    pub status: u8,
    pub zero: [u8; 6],
    pub extra: SolutionState,
    pub time_stamp: u32,
    pub extra_type: u8,
    pub xor_check0: u8,
    pub gps: u32,
    pub xor_check1: u8,
}

/// Reads the signed 16-bit little-endian field at `off` of a frame.
fn read_i16(f: &Frame, off: usize) -> (r: i16)
    requires
        off + 2 <= LEN,
    ensures
        r as int == as_i16(le16(f.bytes@, off as int)),
{
    let v: u16 = f.bytes[off] as u16 + (f.bytes[off + 1] as u16) * 256;
    if v < 0x8000 {
        v as i16
    } else {
        (-32768i16) + ((v - 0x8000) as i16)
    }
}

/// Reads the signed 32-bit little-endian field at `off` of a frame.
fn read_i32(f: &Frame, off: usize) -> (r: i32)
    requires
        off + 4 <= LEN,
    ensures
        r as int == as_i32(le32(f.bytes@, off as int)),
{
    let v: u32 = f.bytes[off] as u32 + (f.bytes[off + 1] as u32) * 256 + (f.bytes[off + 2] as u32)
        * 65536 + (f.bytes[off + 3] as u32) * 16777216;
    if v < 0x80000000 {
        v as i32
    } else {
        (-2147483648i32) + ((v - 0x80000000) as i32)
    }
}

/// Reads the unsigned 32-bit little-endian field at `off` of a frame.
fn read_u32(f: &Frame, off: usize) -> (r: u32)
    requires
        off + 4 <= LEN,
    ensures
        r == le32(f.bytes@, off as int),
{
    f.bytes[off] as u32 + (f.bytes[off + 1] as u32) * 256 + (f.bytes[off + 2] as u32) * 65536 + (
    f.bytes[off + 3] as u32) * 16777216
}

impl FrameValue {
    /// Decodes the typed view of a frame: the same storage the byte view
    /// and the checksums run over, read field by field.
    pub fn read(f: &Frame) -> (v: FrameValue)
        ensures
            v.head@ == f.bytes@.take(3),
            v.attitude.roll as int == as_i16(le16(f.bytes@, 3)),
            v.attitude.pitch as int == as_i16(le16(f.bytes@, 5)),
            v.attitude.yaw as int == frame_yaw(f.bytes@),
            v.w.x as int == as_i16(le16(f.bytes@, 9)),
            v.w.y as int == as_i16(le16(f.bytes@, 11)),
            v.w.z as int == as_i16(le16(f.bytes@, 13)),
            v.a.x as int == as_i16(le16(f.bytes@, 15)),
            v.a.y as int == as_i16(le16(f.bytes@, 17)),
            v.a.z as int == as_i16(le16(f.bytes@, 19)),
            v.wgs84 == frame_wgs84(f.bytes@),
            v.v.n as int == as_i16(le16(f.bytes@, 33)),
            v.v.e as int == as_i16(le16(f.bytes@, 35)),
            v.v.g as int == as_i16(le16(f.bytes@, 37)),
            v.status == frame_status(f.bytes@),
            v.zero@ == f.bytes@.subrange(40, 46),
            v.extra == frame_state(f.bytes@),
            v.time_stamp == le32(f.bytes@, 52),
            v.extra_type == frame_extra_type(f.bytes@),
            v.xor_check0 == f.bytes@[57],
            v.gps == le32(f.bytes@, 58),
            v.xor_check1 == f.bytes@[62],
    {
        let v = FrameValue {
            head: [f.bytes[0], f.bytes[1], f.bytes[2]],
            attitude: Attitude {
                roll: read_i16(f, 3),
                pitch: read_i16(f, 5),
                yaw: read_i16(f, 7),
            },
            w: XYZ { x: read_i16(f, 9), y: read_i16(f, 11), z: read_i16(f, 13) },
            a: XYZ { x: read_i16(f, 15), y: read_i16(f, 17), z: read_i16(f, 19) },
            wgs84: WGS84 {
                latitude: read_i32(f, 21),
                longitude: read_i32(f, 25),
                altitude: read_i32(f, 29),
            },
            v: NEG { n: read_i16(f, 33), e: read_i16(f, 35), g: read_i16(f, 37) },
            status: f.bytes[39],
            zero: [
                f.bytes[40],
                f.bytes[41],
                f.bytes[42],
                f.bytes[43],
                f.bytes[44],
                f.bytes[45],
            ],
            extra: SolutionState {
                state_pos: read_i16(f, 46),
                satellites: read_i16(f, 48),
                state_dir: read_i16(f, 50),
            },
            time_stamp: read_u32(f, 52),
            extra_type: f.bytes[56],
            xor_check0: f.bytes[57],
            gps: read_u32(f, 58),
            xor_check1: f.bytes[62],
        };
        proof {
            assert(v.head@ =~= f.bytes@.take(3));
            assert(v.zero@ =~= f.bytes@.subrange(40, 46));
        }
        v
    }
}

/// Counts the set bits of the status byte.
fn status_ones(b: u8) -> (c: u32)
    ensures
        c == count_ones(b),
{
    let x = b as u32;
    proof {
        assert((x & 1) <= 1 && ((x >> 1) & 1) <= 1 && ((x >> 2) & 1) <= 1 && ((x >> 3) & 1) <= 1
            && ((x >> 4) & 1) <= 1 && ((x >> 5) & 1) <= 1 && ((x >> 6) & 1) <= 1 && ((x >> 7) & 1)
            <= 1) by (bit_vector);
    }
    (x & 1) + ((x >> 1) & 1) + ((x >> 2) & 1) + ((x >> 3) & 1) + ((x >> 4) & 1) + ((x >> 5) & 1) + (
    (x >> 6) & 1) + ((x >> 7) & 1)
}

/// What one round of reception yields: nothing new, a frame from a sensor
/// whose position fix is not yet acquired, or a full navigation record —
/// the latched sub-state together with the frame's fixed-point absolute
/// position and raw yaw, from which a consumer derives the local
/// tangent-plane solution and heading.
#[derive(Clone, Copy, Debug, PartialEq, Eq, Structural)]
pub enum Solution {
    Nothing,
    Uninitialized(SolutionState),
    Data { state: SolutionState, wgs84: WGS84, yaw: i16 },
}

/// The decoder: a filling and a current frame buffer, the index of the
/// current one, the latched solution sub-state, the reference offset
/// coordinate, and the time of the last emission.
pub struct Ins570 {
    pub frames: (FrameBuffer, FrameBuffer),
    pub which: usize,
    pub state: SolutionState,
    pub offset: WGS84,
    pub output_ms: u64,
}

/// The least interval, in milliseconds, between two emitted solutions.
pub const MIN_OUTPUT_INTERVAL_MS: u64 = 40;

impl Ins570 {
    /// The buffer being filled: the one not marked current.
    pub open spec fn filling(self) -> FrameBuffer {
        if self.which == 0 {
            self.frames.1
        } else {
            self.frames.0
        }
    }

    /// The current buffer: the last promoted, readable one.
    pub open spec fn current(self) -> FrameBuffer {
        if self.which == 0 {
            self.frames.0
        } else {
            self.frames.1
        }
    }

    /// Well-formed: the index names one of the two buffers and both stay
    /// within the frame bounds.
    pub open spec fn wf(self) -> bool {
        &&& self.which <= 1
        &&& self.frames.0.wf()
        &&& self.frames.1.wf()
    }
}

/// The bytes the filling buffer holds after accepting `n` freshly written
/// bytes: the decoder promotes them exactly when they are a complete frame.
pub open spec fn step_frame(pre: Ins570, n: int) -> Seq<u8> {
    buffer_step(
        pre.filling().frame.bytes@.take(pre.filling().tail + n),
        pre.filling().tail as int,
    )
}

/// How one call of `Ins570::notify_received_at` steps the decoder: `post`
/// and `sol` are what becomes of `pre` once `n` freshly written bytes are
/// accepted at time `now`. The filling buffer resynchronizes; only a
/// complete, checksum-valid frame swaps the buffers, latches tagged
/// sub-state and — when the minimum output interval has passed — emits a
/// solution.
pub open spec fn step_ok(pre: Ins570, n: int, now: u64, post: Ins570, sol: Solution) -> bool {
    let c = step_frame(pre, n);
    if c.len() != LEN {
        &&& sol == Solution::Nothing
        &&& post.which == pre.which
        &&& post.current() == pre.current()
        &&& post.filling().content() == c
        &&& post.state == pre.state
        &&& post.offset == pre.offset
        &&& post.output_ms == pre.output_ms
    } else {
        let st = if frame_extra_type(c) == 32 {
            frame_state(c)
        } else {
            pre.state
        };
        &&& post.which == (if pre.which == 0 {
            1usize
        } else {
            0usize
        })
        &&& post.current().content() == c
        &&& post.filling().tail == 0
        &&& post.state == st
        &&& post.offset == pre.offset
        &&& if now < pre.output_ms + MIN_OUTPUT_INTERVAL_MS {
            &&& sol == Solution::Nothing
            &&& post.output_ms == pre.output_ms
        } else {
            &&& post.output_ms == now
            &&& sol == (if count_ones(frame_status(c)) < 4 {
                Solution::Uninitialized(st)
            } else {
                Solution::Data {
                    state: st,
                    wgs84: frame_wgs84(c),
                    yaw: frame_yaw(c) as i16,
                }
            })
        }
    }
}

impl Ins570 {
    /// A fresh decoder: empty buffers, zeroed sub-state, the built-in
    /// reference offset, and no emission yet.
    pub fn new() -> (r: Ins570)
        ensures
            r.wf(),
            r.which == 0,
            r.frames.0.tail == 0,
            r.frames.1.tail == 0,
            r.state == (SolutionState { state_pos: 0, satellites: 0, state_dir: 0 }),
            r.offset == (WGS84 { latitude: 399931403, longitude: 1163281766, altitude: 0 }),
            r.output_ms == 0,
    {
        Ins570 {
            frames: (
                FrameBuffer { frame: Frame { bytes: [0; 63] }, tail: 0 },
                FrameBuffer { frame: Frame { bytes: [0; 63] }, tail: 0 },
            ),
            which: 0,
            state: SolutionState { state_pos: 0, satellites: 0, state_dir: 0 },
            offset: WGS84 { latitude: 399931403, longitude: 1163281766, altitude: 0 },
            output_ms: 0,
        }
    }

    /// The writable region of the filling buffer, for an external reader.
    pub fn get_buf(&mut self) -> (r: &mut [u8])
        requires
            old(self).wf(),
        ensures
            r@ == old(self).filling().frame.bytes@.skip(old(self).filling().tail as int),
            r@.len() == LEN - old(self).filling().tail,
            final(self).which == old(self).which,
            final(self).state == old(self).state,
            final(self).offset == old(self).offset,
            final(self).output_ms == old(self).output_ms,
            final(self).current() == old(self).current(),
            final(self).filling().tail == old(self).filling().tail,
            final(self).filling().frame.bytes@ == old(self).filling().content() + final(r)@,
            final(self).wf(),
    {
        if self.which == 0 {
            self.frames.1.get_buf()
        } else {
            self.frames.0.get_buf()
        }
    }

    /// Acceptance of `n` freshly written bytes at time `now_ms`, stepping
    /// the decoder as `step_ok` says.
    pub fn notify_received_at(&mut self, n: usize, now_ms: u64) -> (sol: Solution)
        requires
            old(self).wf(),
            old(self).filling().tail + n <= LEN,
        ensures
            final(self).wf(),
            step_ok(*old(self), n as int, now_ms, *final(self), sol),
    {
        let ghost pre = *old(self);
        let verified = if self.which == 0 {
            self.frames.1.verify(n)
        } else {
            self.frames.0.verify(n)
        };
        if !verified {
            return Solution::Nothing;
        }
        // Swap: recycle the stale current buffer and promote the one just
        // completed.
        if self.which == 0 {
            self.frames.0.tail = 0;
            self.which = 1;
        } else {
            self.frames.1.tail = 0;
            self.which = 0;
        }
        let ghost c = self.current().content();
        proof {
            assert(self.current().frame.bytes@ =~= c);
        }
        let tag: u8;
        let status: u8;
        let yaw: i16;
        let wgs84: WGS84;
        let fresh: SolutionState;
        {
            let fr: &Frame = if self.which == 0 {
                &self.frames.0.frame
            } else {
                &self.frames.1.frame
            };
            tag = fr.bytes[56];
            status = fr.bytes[39];
            yaw = read_i16(fr, 7);
            wgs84 = WGS84 {
                latitude: read_i32(fr, 21),
                longitude: read_i32(fr, 25),
                altitude: read_i32(fr, 29),
            };
            fresh = SolutionState {
                state_pos: read_i16(fr, 46),
                satellites: read_i16(fr, 48),
                state_dir: read_i16(fr, 50),
            };
        }
        if tag == 32 {
            self.state = fresh;
        }
        if !(now_ms >= self.output_ms && now_ms - self.output_ms >= MIN_OUTPUT_INTERVAL_MS) {
            return Solution::Nothing;
        }
        self.output_ms = now_ms;
        if status_ones(status) < 4 {
            Solution::Uninitialized(self.state)
        } else {
            Solution::Data { state: self.state, wgs84, yaw }
        }
    }

    /// Acceptance of `n` freshly written bytes, timed by the system clock:
    /// the decoder steps as `step_ok` says for whatever instant the clock
    /// returned.
    pub fn notify_received(&mut self, n: usize) -> (sol: Solution)
        requires
            old(self).wf(),
            old(self).filling().tail + n <= LEN,
        ensures
            final(self).wf(),
            exists|t: u64| step_ok(*old(self), n as int, t, *final(self), sol),
    {
        let t = now_millis();
        let sol = self.notify_received_at(n, t);
        proof {
            assert(step_ok(*old(self), n as int, t, *self, sol));
        }
        sol
    }
}

/// Relies on std::time::SystemTime::now: the clock reading as milliseconds
/// since the Unix epoch (0 for a clock set before it). Nothing is promised
/// of the value.
#[verifier::external_body]
fn now_millis() -> u64 {
    match std::time::SystemTime::now().duration_since(std::time::UNIX_EPOCH) {
        Ok(d) => d.as_millis() as u64,
        Err(_) => 0,
    }
}

impl Default for Ins570 {
    /// The same fresh decoder that `Ins570::new` builds.
    fn default() -> (r: Ins570)
        ensures
            r.wf(),
            r.which == 0,
            r.frames.0.tail == 0,
            r.frames.1.tail == 0,
            r.state == (SolutionState { state_pos: 0, satellites: 0, state_dir: 0 }),
            r.offset == (WGS84 { latitude: 399931403, longitude: 1163281766, altitude: 0 }),
            r.output_ms == 0,
    {
        Ins570::new()
    }
}

} // verus!
