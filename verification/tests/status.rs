use lms_player::messages::ClientMessage;
use lms_player::status::{StatusCode, StatusData};

fn stat_payload(msg: &ClientMessage) -> Vec<u8> {
    let bytes = msg.to_bytes();
    assert_eq!(&bytes[0..4], b"STAT");
    let len = u32::from_be_bytes([bytes[4], bytes[5], bytes[6], bytes[7]]) as usize;
    assert_eq!(len, bytes.len() - 8);
    bytes[8..].to_vec()
}

#[test]
fn default_status_is_zero() {
    let mut s = StatusData::default();
    assert_eq!(s.bytes_received(), 0);
    assert_eq!(s.jiffies(), 0);
    let m = s.make_status_message_at(StatusCode::Connect, 0);
    let p = stat_payload(&m);
    assert_eq!(p.len(), 53);
    assert_eq!(&p[0..4], b"STMc");
    assert!(p[4..].iter().all(|b| *b == 0));
}

#[test]
fn every_status_code_text() {
    let cases = [
        (StatusCode::Connect, "STMc"),
        (StatusCode::DecoderReady, "STMd"),
        (StatusCode::StreamEstablished, "STMe"),
        (StatusCode::Flushed, "STMf"),
        (StatusCode::HeadersReceived, "STMh"),
        (StatusCode::BufferThreshold, "STMl"),
        (StatusCode::NotSupported, "STMn"),
        (StatusCode::OutputUnderrun, "STMo"),
        (StatusCode::Pause, "STMp"),
        (StatusCode::Resume, "STMr"),
        (StatusCode::TrackStarted, "STMs"),
        (StatusCode::Timer, "STMt"),
        (StatusCode::Underrun, "STMu"),
    ];
    for (code, text) in cases {
        assert_eq!(code.to_string(), text);
    }
}

#[test]
fn counters_wrap() {
    let mut s = StatusData::default();
    s.add_crlf(255);
    s.add_crlf(2);
    s.add_bytes_received(u64::MAX);
    s.add_bytes_received(3);
    assert_eq!(s.bytes_received(), 2);
    let p = stat_payload(&s.make_status_message_at(StatusCode::Timer, 0));
    assert_eq!(p[4], 1);
}

#[test]
fn fields_are_laid_out_big_endian() {
    let mut s = StatusData::default();
    s.add_crlf(3);
    s.set_buffer_size(0x01020304);
    s.set_fullness(0x05060708);
    s.add_bytes_received(0x1112131415161718);
    s.set_output_buffer_size(0x21222324);
    s.set_output_buffer_fullness(0x31323334);
    s.set_elapsed_seconds(0x41424344);
    s.set_elapsed_milli_seconds(0x51525354);
    s.set_timestamp(0x61626364);
    let m = s.make_status_message_at(StatusCode::Timer, 0x71727374);
    assert_eq!(s.jiffies(), 0x71727374);
    let p = stat_payload(&m);
    let expected: Vec<u8> = [
        &b"STMt"[..],
        &[3],
        &[0, 0],
        &[1, 2, 3, 4],
        &[5, 6, 7, 8],
        &[0x11, 0x12, 0x13, 0x14, 0x15, 0x16, 0x17, 0x18],
        &[0, 0],
        &[0x71, 0x72, 0x73, 0x74],
        &[0x21, 0x22, 0x23, 0x24],
        &[0x31, 0x32, 0x33, 0x34],
        &[0x41, 0x42, 0x43, 0x44],
        &[0, 0],
        &[0x51, 0x52, 0x53, 0x54],
        &[0x61, 0x62, 0x63, 0x64],
        &[0, 0],
    ]
    .concat();
    assert_eq!(p, expected);
}

#[test]
fn millisecond_fields_beyond_32_bits_are_sent_as_zero() {
    let mut s = StatusData::default();
    s.set_timestamp(u32::MAX as u64 + 1);
    let p = stat_payload(&s.make_status_message_at(StatusCode::Timer, u32::MAX as u64));
    assert_eq!(&p[25..29], &[0xFF, 0xFF, 0xFF, 0xFF]);
    assert_eq!(&p[47..51], &[0, 0, 0, 0]);
}

#[test]
fn play_time_and_clearing() {
    let mut s = StatusData::default();
    s.set_output_buffer_size(9);
    s.set_output_buffer_fullness(8);
    s.set_play_time(61_234);
    let p = stat_payload(&s.make_status_message_at(StatusCode::Timer, 0));
    assert_eq!(&p[37..41], &61u32.to_be_bytes());
    assert_eq!(&p[43..47], &61_234u32.to_be_bytes());
    s.set_play_time(u32::MAX as u64 + 5);
    let p = stat_payload(&s.make_status_message_at(StatusCode::Timer, 0));
    assert_eq!(&p[43..47], &4u32.to_be_bytes());
    s.clear_playback();
    let p = stat_payload(&s.make_status_message_at(StatusCode::Flushed, 0));
    assert!(p[29..47].iter().all(|b| *b == 0));
}

#[test]
fn status_message_from_the_clock() {
    let mut s = StatusData::default();
    let m = s.make_status_message(StatusCode::Resume);
    match m {
        ClientMessage::Stat { event_code, .. } => assert_eq!(event_code, "STMr"),
        _ => panic!("not a status message"),
    }
    assert!(s.jiffies() < 60_000);
}

#[test]
fn clone_keeps_fields() {
    let mut s = StatusData::default();
    s.add_bytes_received(77);
    let mut c = s.clone();
    assert_eq!(c.bytes_received(), 77);
    let a = stat_payload(&s.make_status_message_at(StatusCode::Timer, 5));
    let b = stat_payload(&c.make_status_message_at(StatusCode::Timer, 5));
    assert_eq!(a, b);
}
