use rtk_ins570::{Ins570, Solution, SolutionState, LEN, WGS84};

/// Writes the magic header and chooses the two checksum bytes so that both
/// regions pass the self-referential fold: the first byte of a region must
/// equal the XOR of all its remaining bytes, the checksum byte included.
fn checksummed(mut b: [u8; 63]) -> [u8; 63] {
    b[0] = 0xbd;
    b[1] = 0xdb;
    b[2] = 0x0b;
    let mut x = 0u8;
    for i in 1..57 {
        x ^= b[i];
    }
    b[57] = b[0] ^ x;
    if b[57] == 0xbd {
        // Keep stray header bytes out of the checksum position so that
        // resynchronization tests stay deterministic.
        b[45] ^= 0xff;
        let mut y = 0u8;
        for i in 1..57 {
            y ^= b[i];
        }
        b[57] = b[0] ^ y;
    }
    let mut z = 0u8;
    for i in 59..62 {
        z ^= b[i];
    }
    b[62] = b[58] ^ z;
    b
}

fn make_frame(
    status: u8,
    tag: u8,
    state: (i16, i16, i16),
    wgs: (i32, i32, i32),
    yaw: i16,
) -> [u8; 63] {
    let mut b = [0u8; 63];
    b[7..9].copy_from_slice(&yaw.to_le_bytes());
    b[21..25].copy_from_slice(&wgs.0.to_le_bytes());
    b[25..29].copy_from_slice(&wgs.1.to_le_bytes());
    b[29..33].copy_from_slice(&wgs.2.to_le_bytes());
    b[39] = status;
    b[46..48].copy_from_slice(&state.0.to_le_bytes());
    b[48..50].copy_from_slice(&state.1.to_le_bytes());
    b[50..52].copy_from_slice(&state.2.to_le_bytes());
    b[56] = tag;
    checksummed(b)
}

fn feed(d: &mut Ins570, data: &[u8], t: u64) -> Solution {
    let buf = d.get_buf();
    assert!(data.len() <= buf.len());
    buf[..data.len()].copy_from_slice(data);
    d.notify_received_at(data.len(), t)
}

/// Feeds `bytes` in chunks of at most `chunk` bytes, one round every 100 ms,
/// and returns every non-`Nothing` solution.
fn feed_stream(d: &mut Ins570, bytes: &[u8], chunk: usize, t0: u64) -> Vec<Solution> {
    let mut out = Vec::new();
    let mut pos = 0;
    let mut t = t0;
    while pos < bytes.len() {
        let free = d.get_buf().len();
        assert!(free >= 1 && free <= 63);
        let k = chunk.min(free).min(bytes.len() - pos);
        match feed(d, &bytes[pos..pos + k], t) {
            Solution::Nothing => {}
            sol => out.push(sol),
        }
        pos += k;
        t += 100;
    }
    out
}

const STATE172: SolutionState = SolutionState {
    state_pos: 1,
    satellites: 7,
    state_dir: 2,
};

fn data172() -> Solution {
    Solution::Data {
        state: STATE172,
        wgs84: WGS84 {
            latitude: 390000000,
            longitude: 1160000000,
            altitude: 5,
        },
        yaw: -7477,
    }
}

fn frame172(status: u8) -> [u8; 63] {
    make_frame(
        status,
        32,
        (1, 7, 2),
        (390000000, 1160000000, 5),
        -7477,
    )
}

#[test]
fn verify_size() {
    assert_eq!(LEN, 63);
}

#[test]
fn whole_valid_frame_is_accepted() {
    // A correctly checksummed frame with four status bits set and the
    // tagged sub-state {1, 7, 2}, fed in one call of length 63.
    let mut d = Ins570::new();
    assert_eq!(d.get_buf().len(), 63);
    let sol = feed(&mut d, &frame172(0x0f), 1000);
    assert_eq!(sol, data172());
}

#[test]
fn one_set_status_bit_reports_uninitialized() {
    let mut d = Ins570::new();
    let sol = feed(&mut d, &frame172(0x01), 1000);
    assert_eq!(sol, Solution::Uninitialized(STATE172));
}

#[test]
fn flipped_bit_yields_nothing_then_recovers() {
    let mut d = Ins570::new();
    let mut bad = frame172(0x0f);
    bad[20] ^= 0x01;
    assert_eq!(feed(&mut d, &bad, 1000), Solution::Nothing);
    // The next valid frame, fed afterwards in single bytes, still decodes.
    let sols = feed_stream(&mut d, &frame172(0x0f), 1, 2000);
    assert_eq!(sols, vec![data172()]);
}

#[test]
fn debounce_suppresses_a_prompt_second_frame() {
    let mut d = Ins570::new();
    let f = frame172(0x0f);
    assert_eq!(feed(&mut d, &f, 1000), data172());
    // Less than the minimum output interval later: verified, yet silent.
    assert_eq!(feed(&mut d, &f, 1030), Solution::Nothing);
    // Once the interval has passed, emission resumes.
    assert_eq!(feed(&mut d, &f, 1080), data172());
}

#[test]
fn tagged_state_latches_across_ten_untagged_frames() {
    let mut d = Ins570::new();
    let tagged = frame172(0x0f);
    assert_eq!(feed(&mut d, &tagged, 1000), data172());
    // Ten untagged frames, each carrying different bytes in the extra
    // region: every output still reports the latched {1, 7, 2}.
    for k in 0..10u64 {
        let untagged = make_frame(
            0x0f,
            0,
            (9, 9, 9),
            (390000000 + k as i32, 1160000000, 5),
            -7477,
        );
        let sol = feed(&mut d, &untagged, 2000 + 100 * k);
        match sol {
            Solution::Data { state, wgs84, yaw } => {
                assert_eq!(state, STATE172);
                assert_eq!(wgs84.latitude, 390000000 + k as i32);
                assert_eq!(yaw, -7477);
            }
            other => panic!("expected a full record, got {:?}", other),
        }
    }
}

#[test]
fn resync_finds_frame_after_garbage() {
    let frame = frame172(0x0f);
    // The same result as feeding the frame alone, whatever garbage
    // precedes it and however the stream is chunked.
    for garbage in [
        &[][..],
        &[0x11, 0x22, 0x33][..],
        &[0x00, 0xbd][..],
        &[0xbd, 0xdb, 0x0b][..],
        &[0xbd, 0xdb, 0x0b, 0x07, 0xbd, 0x99][..],
    ] {
        for chunk in [1usize, 7, 63] {
            let mut stream = garbage.to_vec();
            stream.extend_from_slice(&frame);
            let mut d = Ins570::new();
            let sols = feed_stream(&mut d, &stream, chunk, 1000);
            assert_eq!(sols, vec![data172()], "garbage {:?} chunk {}", garbage, chunk);
        }
    }
}

#[test]
fn clock_driven_call_reports_nothing_for_garbage() {
    let mut d = Ins570::new();
    let buf = d.get_buf();
    buf[0] = 0x42;
    buf[1] = 0x42;
    assert_eq!(d.notify_received(2), Solution::Nothing);
    assert_eq!(d.get_buf().len(), 63);
}

#[test]
fn partial_header_is_kept_across_reads() {
    let mut d = Ins570::new();
    // Garbage ending in the first two header bytes: both survive resync.
    assert_eq!(feed(&mut d, &[0x55, 0xbd, 0xdb], 1000), Solution::Nothing);
    assert_eq!(d.get_buf().len(), 61);
    let frame = frame172(0x0f);
    let sol = feed(&mut d, &frame[2..], 2000);
    assert_eq!(sol, data172());
}

#[test]
fn buffer_accepts_valid_frame_and_rejects_zeros() {
    let mut fb = rtk_ins570::FrameBuffer::default();
    let frame = frame172(0x0f);
    fb.get_buf().copy_from_slice(&frame);
    assert!(fb.verify(63));

    let mut fb = rtk_ins570::FrameBuffer::default();
    assert_eq!(fb.get_buf().len(), 63);
    assert!(!fb.verify(63));
    assert_eq!(fb.get_buf().len(), 63);
}

#[test]
fn default_decoder_behaves_like_a_fresh_one() {
    let mut d: Ins570 = Default::default();
    assert_eq!(d.get_buf().len(), 63);
    assert_eq!(feed(&mut d, &frame172(0x0f), 1000), data172());
}
