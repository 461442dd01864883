use lms_player::frames::{LMSRecv, LMSSend, RecvError};
use lms_player::messages::{ClientMessage, ServerMessage};

fn decode_all(input: &[u8]) -> Vec<ServerMessage> {
    let mut receiver = LMSRecv::new(());
    receiver.extend(input);
    assert!(!receiver.reaches_short_frame());
    receiver.decode().unwrap().unwrap()
}

#[test]
fn test_send() {
    let out_msg = ClientMessage::Name(String::from("abc"));
    let mut sender = LMSSend::new(Vec::new());
    let bytes = out_msg.to_bytes();
    sender.writer_mut().extend_from_slice(&bytes);
    assert_eq!(*sender.writer_mut(), [83, 69, 84, 68, 0, 0, 0, 4, 0, 97, 98, 99]);
}

#[test]
fn test_receive_single() {
    let in_msg = [0u8, 6, b'a', b'u', b'd', b'e', 0, 1];
    let rx = decode_all(&in_msg[..]);

    assert_eq!(rx.len(), 1);
    assert!(matches!(rx[0], ServerMessage::Enable(false, true)));
}

#[test]
fn test_receive_multi() {
    let in_msg = [
        0u8, 6, b'a', b'u', b'd', b'e', 0, 1, 0, 22, b'a', b'u', b'd', b'g', 0, 0, 0, 0, 0, 0,
        0, 0, 0, 0, 0, 1, 0, 0, 0, 0, 128, 0,
    ];
    let rx = decode_all(&in_msg[..]);

    assert_eq!(rx.len(), 2);
    assert!(matches!(rx[0], ServerMessage::Enable(false, true)));
    match rx[1] {
        ServerMessage::Gain(l, r) => {
            assert_eq!(l as f64 / 65536.0, 1.0);
            assert_eq!(r as f64 / 65536.0, 0.5);
        }
        _ => panic!("expected gain"),
    }
}

#[test]
fn incomplete_frame_waits_for_more() {
    let mut rx = LMSRecv::new(());
    rx.extend(&[0, 6, b'a', b'u']);
    assert!(matches!(rx.decode(), Ok(None)));
    assert_eq!(rx.pending_len(), 4);
    rx.extend(&[b'd', b'e', 1, 1, 0]);
    let msgs = rx.decode().unwrap().unwrap();
    assert_eq!(msgs.len(), 1);
    assert!(matches!(msgs[0], ServerMessage::Enable(true, true)));
    assert_eq!(rx.pending_len(), 1);
}

#[test]
fn two_bytes_or_less_decode_nothing() {
    let mut rx = LMSRecv::new(());
    assert!(matches!(rx.decode(), Ok(None)));
    rx.extend(&[0, 4]);
    assert!(matches!(rx.decode(), Ok(None)));
}

#[test]
fn corrupted_frame_drops_everything() {
    let mut rx = LMSRecv::new(());
    rx.extend(&[0, 6, b'a', b'u', b'd', b'e', 0, 1, 0, 5, b'a', b'u', b'd', b'e', 0, 0, 9]);
    assert!(matches!(rx.decode(), Err(RecvError::Corrupted)));
    assert_eq!(rx.pending_len(), 0);
}

#[test]
fn complete_frames_before_an_incomplete_one() {
    let mut rx = LMSRecv::new(());
    rx.extend(&[0, 6, b'a', b'u', b'd', b'e', 0, 1, 0, 6, b'a', b'u']);
    let msgs = rx.decode().unwrap().unwrap();
    assert_eq!(msgs.len(), 1);
    assert_eq!(rx.pending_len(), 4);
}

#[test]
fn decoding_in_pieces_gives_the_same_messages() {
    let all = [
        0u8, 6, b'a', b'u', b'd', b'e', 0, 1, 0, 5, b's', b'e', b't', b'd', 0, 0, 7, b'a', b'u',
        b'd', b'e', 1, 0, 0,
    ];
    let whole = decode_all(&all);
    for cut in 0..all.len() {
        let mut rx = LMSRecv::new(());
        let mut got = Vec::new();
        rx.extend(&all[..cut]);
        if let Ok(Some(m)) = rx.decode() {
            got.extend(m);
        }
        rx.extend(&all[cut..]);
        if let Ok(Some(m)) = rx.decode() {
            got.extend(m);
        }
        assert_eq!(format!("{:?}", got), format!("{:?}", whole), "cut at {}", cut);
    }
}

#[test]
fn short_frames_are_detected() {
    let mut rx = LMSRecv::new(());
    rx.extend(&[0, 2, b'a', b'b']);
    assert!(rx.reaches_short_frame());
    let mut rx = LMSRecv::new(());
    rx.extend(&[0, 6, b'a', b'u', b'd', b'e', 0, 1, 0, 1, b'x']);
    assert!(rx.reaches_short_frame());
    let mut rx = LMSRecv::new(());
    rx.extend(&[0, 5, b'a', b'u', b'd', b'e', 0, 0, 1, b'x']);
    assert!(!rx.reaches_short_frame());
}

#[test]
fn one_byte_reads_give_the_same_messages() {
    let all = [
        0u8, 6, b'a', b'u', b'd', b'e', 0, 1, 0, 5, b's', b'e', b't', b'd', 0, 0, 7, b'a', b'u',
        b'd', b'e', 1, 0, 0, 3,
    ];
    let whole = decode_all(&all);
    let mut rx = LMSRecv::new(());
    let mut got = Vec::new();
    for b in all.iter() {
        rx.extend(&[*b]);
        if let Ok(Some(m)) = rx.decode() {
            got.extend(m);
        }
    }
    assert_eq!(format!("{:?}", got), format!("{:?}", whole));
    assert_eq!(got.len(), 3);
    assert_eq!(rx.pending_len(), 1);
}
