use lms_player::messages::{
    AutoStart, ClientMessage, Format, PcmChannels, PcmEndian, PcmSampleRate, PcmSampleSize,
    ServerMessage, SpdifEnable, StreamFlags, TransType, INF_LOOP, INVERT_POLARITY_LEFT,
};

fn frame(op: &[u8], body: &[u8]) -> Vec<u8> {
    [op, body].concat()
}

fn strm(cmd: u8, rest: &[u8]) -> Vec<u8> {
    let mut b = vec![cmd];
    b.extend_from_slice(rest);
    frame(b"strm", &b)
}

#[test]
fn name_frame() {
    let bytes = ClientMessage::Name(String::from("abc")).to_bytes();
    assert_eq!(bytes, vec![83, 69, 84, 68, 0, 0, 0, 4, 0, 97, 98, 99]);
}

#[test]
fn bye_frame() {
    assert_eq!(ClientMessage::Bye(0).to_bytes(), vec![b'B', b'Y', b'E', b'!', 0, 0, 0, 1, 0]);
    assert_eq!(ClientMessage::Bye(1).to_bytes(), vec![b'B', b'Y', b'E', b'!', 0, 0, 0, 1, 1]);
}

#[test]
fn helo_frame() {
    let msg = ClientMessage::Helo {
        device_id: 12,
        revision: 3,
        mac: [1, 2, 3, 4, 5, 6],
        uuid: [7; 16],
        wlan_channel_list: 0x0401,
        bytes_received: 0x0102030405060708,
        language: ['e', 'n'],
        capabilities: String::from("pcm,mp3"),
    };
    let b = msg.to_bytes();
    let payload: Vec<u8> = [
        &[12u8, 3][..],
        &[1, 2, 3, 4, 5, 6],
        &[7; 16],
        &[4, 1],
        &[1, 2, 3, 4, 5, 6, 7, 8],
        b"en",
        b"pcm,mp3",
    ]
    .concat();
    assert_eq!(&b[0..4], b"HELO");
    assert_eq!(&b[4..8], &(payload.len() as u32).to_be_bytes());
    assert_eq!(&b[8..], &payload[..]);
}

#[test]
fn serv_frames() {
    let m = ServerMessage::parse(&frame(b"serv", &[192, 168, 1, 2]));
    assert!(matches!(m, ServerMessage::Serv { ip_address: 0xC0A80102, sync_group_id: None }));
    let m = ServerMessage::parse(&frame(b"serv", &[10, 0, 0, 1, b'g', 0xE9]));
    match m {
        ServerMessage::Serv { ip_address, sync_group_id } => {
            assert_eq!(ip_address, 0x0A000001);
            assert_eq!(sync_group_id, Some(String::from("g\u{e9}")));
        }
        _ => panic!("expected serv"),
    }
    assert!(matches!(ServerMessage::parse(&frame(b"serv", &[1, 2, 3])), ServerMessage::Error));
}

#[test]
fn strm_control_commands() {
    let mut body = [0u8; 23];
    body[13..17].copy_from_slice(&1500u32.to_be_bytes());
    body[14..18].copy_from_slice(&0x0000_2710u32.to_be_bytes());
    // 't' reads bytes 14..18 of the rest, the others 13..17.
    assert!(matches!(ServerMessage::parse(&strm(b't', &body)), ServerMessage::Status(10000)));
    let mut body = [0u8; 23];
    body[13..17].copy_from_slice(&1500u32.to_be_bytes());
    assert!(matches!(ServerMessage::parse(&strm(b'p', &body)), ServerMessage::Pause(1500)));
    assert!(matches!(ServerMessage::parse(&strm(b'u', &body)), ServerMessage::Unpause(1500)));
    assert!(matches!(ServerMessage::parse(&strm(b'a', &body)), ServerMessage::Skip(1500)));
    assert!(matches!(ServerMessage::parse(&strm(b'q', &body)), ServerMessage::Stop));
    assert!(matches!(ServerMessage::parse(&strm(b'f', &body)), ServerMessage::Flush));
    match ServerMessage::parse(&strm(b'z', &body)) {
        ServerMessage::Unrecognised(s) => assert_eq!(s, "strm_z"),
        _ => panic!("expected unrecognised"),
    }
    assert!(matches!(ServerMessage::parse(&strm(b'q', &[0u8; 22])), ServerMessage::Error));
}

fn stream_start_body() -> Vec<u8> {
    let mut r = vec![
        b'1', b'f', b'1', b'3', b'2', b'1', 2, 0, 3, b'1', INF_LOOP | INVERT_POLARITY_LEFT, 25, 0,
    ];
    r.extend_from_slice(&0x0001_8000u32.to_be_bytes());
    r.extend_from_slice(&9000u16.to_be_bytes());
    r.extend_from_slice(&[192, 168, 0, 9]);
    r
}

#[test]
fn stream_start_command() {
    let mut r = stream_start_body();
    r.extend_from_slice(b"GET /stream.mp3 HTTP/1.0\r\n\r\n");
    match ServerMessage::parse(&strm(b's', &r)) {
        ServerMessage::Stream {
            autostart,
            format,
            pcmsamplesize,
            pcmsamplerate,
            pcmchannels,
            pcmendian,
            threshold,
            spdif_enable,
            trans_period,
            trans_type,
            flags,
            output_threshold,
            replay_gain,
            server_port,
            server_ip,
            http_headers,
        } => {
            assert_eq!(autostart, AutoStart::Auto);
            assert_eq!(format, Format::Flac);
            assert_eq!(pcmsamplesize, PcmSampleSize::Sixteen);
            assert_eq!(pcmsamplerate, PcmSampleRate::Rate(44_100));
            assert_eq!(pcmchannels, PcmChannels::Stereo);
            assert_eq!(pcmendian, PcmEndian::Little);
            assert_eq!(threshold, 2048);
            assert_eq!(spdif_enable, SpdifEnable::Auto);
            assert_eq!(trans_period, 3000);
            assert_eq!(trans_type, TransType::Crossfade);
            assert_eq!(flags.bits(), INF_LOOP | INVERT_POLARITY_LEFT);
            assert_eq!(output_threshold, 250);
            assert_eq!(replay_gain as f64 / 65536.0, 1.5);
            assert_eq!(server_port, 9000);
            assert_eq!(server_ip, 0xC0A80009);
            assert_eq!(http_headers, Some(String::from("GET /stream.mp3 HTTP/1.0\r\n\r\n")));
        }
        other => panic!("expected stream, got {:?}", other),
    }
}

#[test]
fn stream_start_without_headers_and_with_unknown_flags() {
    let mut r = stream_start_body();
    r[10] = 0b0000_0100;
    match ServerMessage::parse(&strm(b's', &r)) {
        ServerMessage::Stream { flags, http_headers, .. } => {
            assert_eq!(flags.bits(), 0);
            assert_eq!(http_headers, None);
        }
        other => panic!("expected stream, got {:?}", other),
    }
}

#[test]
fn stream_start_with_bad_fields_is_an_error() {
    for (at, bad) in [(0, b'9'), (1, b'x'), (2, b'4'), (3, b'a'), (4, b'3'), (5, b'2'), (7, 3), (9, b'5')] {
        let mut r = stream_start_body();
        r[at] = bad;
        assert!(matches!(ServerMessage::parse(&strm(b's', &r)), ServerMessage::Error), "field {}", at);
    }
    let mut r = stream_start_body();
    r[0] = b'0';
    r[9] = b'0';
    assert!(matches!(
        ServerMessage::parse(&strm(b's', &r)),
        ServerMessage::Stream { autostart: AutoStart::Off, trans_type: TransType::Off, .. }
    ));
}

#[test]
fn aude_and_audg() {
    assert!(matches!(ServerMessage::parse(&frame(b"aude", &[0, 1])), ServerMessage::Enable(false, true)));
    assert!(matches!(ServerMessage::parse(&frame(b"aude", &[7, 0])), ServerMessage::Enable(true, false)));
    assert!(matches!(ServerMessage::parse(&frame(b"aude", &[1])), ServerMessage::Error));
    let mut g = vec![0u8; 10];
    g.extend_from_slice(&0x0001_0000u32.to_be_bytes());
    g.extend_from_slice(&0x0000_8000u32.to_be_bytes());
    match ServerMessage::parse(&frame(b"audg", &g)) {
        ServerMessage::Gain(l, r) => {
            assert_eq!(l as f64 / 65536.0, 1.0);
            assert_eq!(r as f64 / 65536.0, 0.5);
        }
        other => panic!("expected gain, got {:?}", other),
    }
    assert!(matches!(ServerMessage::parse(&frame(b"audg", &[0u8; 17])), ServerMessage::Error));
}

#[test]
fn setd_frames() {
    assert!(matches!(ServerMessage::parse(&frame(b"setd", &[0])), ServerMessage::Queryname));
    match ServerMessage::parse(&frame(b"setd", b"\0Kitchen\0")) {
        ServerMessage::Setname(n) => assert_eq!(n, "Kitchen"),
        other => panic!("expected setname, got {:?}", other),
    }
    match ServerMessage::parse(&frame(b"setd", &[0, 0xFF, 0])) {
        ServerMessage::Setname(n) => assert_eq!(n, ""),
        other => panic!("expected setname, got {:?}", other),
    }
    assert!(matches!(ServerMessage::parse(&frame(b"setd", &[4])), ServerMessage::DisableDac));
    match ServerMessage::parse(&frame(b"setd", &[7, 1])) {
        ServerMessage::Unrecognised(s) => assert_eq!(s, "This SETD is unused: 7"),
        other => panic!("expected unrecognised, got {:?}", other),
    }
    assert!(matches!(ServerMessage::parse(b"setd"), ServerMessage::Error));
}

#[test]
fn unknown_operations() {
    match ServerMessage::parse(b"vers7.9") {
        ServerMessage::Unrecognised(s) => assert_eq!(s, "vers"),
        other => panic!("expected unrecognised, got {:?}", other),
    }
    match ServerMessage::parse(&[0xFF, b'a', b'b', b'c']) {
        ServerMessage::Unrecognised(s) => assert_eq!(s, ""),
        other => panic!("expected unrecognised, got {:?}", other),
    }
}

#[test]
fn stream_flags() {
    assert!(StreamFlags::from_bits(0b1100_0011).is_some());
    assert!(StreamFlags::from_bits(0b0010_0000).is_none());
    assert_eq!(StreamFlags::empty().bits(), 0);
}
