use rtk_ins570::{keys, list, list_ports, Frame, FrameValue, Ins570, Poll, Solution, LEN, RTK};

fn checksummed(mut b: [u8; 63]) -> [u8; 63] {
    b[0] = 0xbd;
    b[1] = 0xdb;
    b[2] = 0x0b;
    let mut x = 0u8;
    for i in 1..57 {
        x ^= b[i];
    }
    b[57] = b[0] ^ x;
    let mut z = 0u8;
    for i in 59..62 {
        z ^= b[i];
    }
    b[62] = b[58] ^ z;
    b
}

#[test]
fn ins570_verify_size() {
    assert_eq!(LEN, 63);
}

#[test]
fn typed_view_reads_every_field() {
    let mut b = [0u8; 63];
    b[3..5].copy_from_slice(&(-300i16).to_le_bytes()); // roll
    b[5..7].copy_from_slice(&(1234i16).to_le_bytes()); // pitch
    b[7..9].copy_from_slice(&(-7477i16).to_le_bytes()); // yaw
    b[9..11].copy_from_slice(&(10i16).to_le_bytes()); // w.x
    b[11..13].copy_from_slice(&(-11i16).to_le_bytes()); // w.y
    b[13..15].copy_from_slice(&(12i16).to_le_bytes()); // w.z
    b[15..17].copy_from_slice(&(-1000i16).to_le_bytes()); // a.x
    b[17..19].copy_from_slice(&(2000i16).to_le_bytes()); // a.y
    b[19..21].copy_from_slice(&(-32768i16).to_le_bytes()); // a.z
    b[21..25].copy_from_slice(&(399931403i32).to_le_bytes()); // latitude
    b[25..29].copy_from_slice(&(-1163281766i32).to_le_bytes()); // longitude
    b[29..33].copy_from_slice(&(-5i32).to_le_bytes()); // altitude
    b[33..35].copy_from_slice(&(3i16).to_le_bytes()); // v.n
    b[35..37].copy_from_slice(&(-4i16).to_le_bytes()); // v.e
    b[37..39].copy_from_slice(&(5i16).to_le_bytes()); // v.g
    b[39] = 0xa5; // status
    b[40..46].copy_from_slice(&[1, 2, 3, 4, 5, 6]); // reserved
    b[46..48].copy_from_slice(&(1i16).to_le_bytes()); // extra: state_pos
    b[48..50].copy_from_slice(&(7i16).to_le_bytes()); // extra: satellites
    b[50..52].copy_from_slice(&(2i16).to_le_bytes()); // extra: state_dir
    b[52..56].copy_from_slice(&(3600123u32).to_le_bytes()); // time stamp
    b[56] = 32; // extra type
    b[58..62].copy_from_slice(&(987654321u32).to_le_bytes()); // gps
    let b = checksummed(b);
    let v = FrameValue::read(&Frame { bytes: b });
    assert_eq!(v.head, [0xbd, 0xdb, 0x0b]);
    assert_eq!(v.attitude.roll, -300);
    assert_eq!(v.attitude.pitch, 1234);
    assert_eq!(v.attitude.yaw, -7477);
    assert_eq!((v.w.x, v.w.y, v.w.z), (10, -11, 12));
    assert_eq!((v.a.x, v.a.y, v.a.z), (-1000, 2000, -32768));
    assert_eq!(v.wgs84.latitude, 399931403);
    assert_eq!(v.wgs84.longitude, -1163281766);
    assert_eq!(v.wgs84.altitude, -5);
    assert_eq!((v.v.n, v.v.e, v.v.g), (3, -4, 5));
    assert_eq!(v.status, 0xa5);
    assert_eq!(v.zero, [1, 2, 3, 4, 5, 6]);
    assert_eq!(
        (v.extra.state_pos, v.extra.satellites, v.extra.state_dir),
        (1, 7, 2)
    );
    assert_eq!(v.time_stamp, 3600123);
    assert_eq!(v.extra_type, 32);
    assert_eq!(v.xor_check0, b[57]);
    assert_eq!(v.gps, 987654321);
    assert_eq!(v.xor_check1, b[62]);
}

#[test]
fn listed_names_stop_at_the_terminator() {
    let raw = vec![
        b"COM3\0junk".to_vec(),
        b"ttyUSB0\0".to_vec(),
        b"noterminator".to_vec(),
        b"\0empty".to_vec(),
    ];
    let names = list(&raw);
    assert_eq!(names[0], b"COM3".to_vec());
    assert_eq!(names[1], b"ttyUSB0".to_vec());
    assert_eq!(names[2], b"noterminator".to_vec());
    assert_eq!(names[3], Vec::<u8>::new());
    assert_eq!(list_ports(&raw), names);
}

#[test]
fn keys_pick_matching_comments_in_order() {
    let bridge = b"Silicon Labs CP210x USB to UART Bridge".to_vec();
    let comments = vec![
        bridge.clone(),
        b"Some Other Device".to_vec(),
        bridge.clone(),
        b"Silicon Labs CP210x USB to UART Bridg".to_vec(),
    ];
    assert_eq!(keys(&comments, &bridge), vec![0usize, 2]);
    assert_eq!(keys(&comments, &b"absent".to_vec()), Vec::<usize>::new());
}

#[test]
fn reading_loop_decisions() {
    let mut rtk = RTK::new();

    // Garbage within the quiet limit: keep reading.
    let buf = rtk.ins570.get_buf();
    buf[0] = 0x42;
    assert_eq!(rtk.next_step(1, 1300, 1000), Poll::Pending);

    // Garbage past the quiet limit: the source counts as silent.
    let buf = rtk.ins570.get_buf();
    buf[0] = 0x42;
    assert_eq!(rtk.next_step(1, 1501, 1000), Poll::TimedOut);

    // A frame without a fix yet: the quiet timer restarts.
    let mut f = [0u8; 63];
    f[39] = 0x01;
    let f = checksummed(f);
    let buf = rtk.ins570.get_buf();
    buf[..63].copy_from_slice(&f);
    assert_eq!(rtk.next_step(63, 2000, 1000), Poll::Refreshed);

    // A full record is handed out.
    let mut g = [0u8; 63];
    g[39] = 0x0f;
    let g = checksummed(g);
    let buf = rtk.ins570.get_buf();
    buf[..63].copy_from_slice(&g);
    match rtk.next_step(63, 3000, 2000) {
        Poll::Ready(Solution::Data { .. }) => {}
        other => panic!("expected a record, got {:?}", other),
    }
}
