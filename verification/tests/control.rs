use lms_player::cli::parse_server_literal;
use lms_player::messages::{AutoStart, ClientMessage, Format, ServerMessage, INF_LOOP};
use lms_player::notify::track_notification;
use lms_player::player::{
    connect_target, outgoing_message, player_report, report_after, route_message, serv_target,
    server_action, stream_request, PlayerMsg, Route, ServerAction,
};
use lms_player::status::{stream_buffer_size, StatusCode, StatusData};
use lms_player::SLIM_PORT;

fn stat_payload(msg: &ClientMessage) -> Vec<u8> {
    let bytes = msg.to_bytes();
    assert_eq!(&bytes[0..4], b"STAT");
    bytes[8..].to_vec()
}

fn payload_of(s: &mut StatusData) -> Vec<u8> {
    stat_payload(&s.make_status_message_at(StatusCode::Timer, 0))
}

fn stream_frame(headers: &[u8]) -> Vec<u8> {
    let mut b = b"strms".to_vec();
    b.extend_from_slice(&[b'1', b'm', b'?', b'?', b'?', b'?', 2, 0, 3, b'0', INF_LOOP, 25, 0]);
    b.extend_from_slice(&0u32.to_be_bytes());
    b.extend_from_slice(&9000u16.to_be_bytes());
    b.extend_from_slice(&[192, 168, 0, 9]);
    b.extend_from_slice(headers);
    b
}

#[test]
fn pending_target_comes_before_configured_one() {
    let a = (0xC0A8_0001, 3483);
    let b = (0x0A00_0002, 9000);
    assert_eq!(connect_target(Some(a), Some(b)), Some(a));
    assert_eq!(connect_target(None, Some(b)), Some(b));
    assert_eq!(connect_target(Some(a), None), Some(a));
    assert_eq!(connect_target(None, None), None);
}

#[test]
fn serv_switches_only_to_usable_servers() {
    let t = serv_target(0xC0A8_0005, Some(String::from("group")));
    assert_eq!(t, Some(((0xC0A8_0005, SLIM_PORT), Some(String::from("group")))));
    assert_eq!(serv_target(0x0A00_0001, None), Some(((0x0A00_0001, 3483), None)));
    assert_eq!(serv_target(0, Some(String::from("g"))), None);
    assert_eq!(serv_target(0xFFFF_FFFF, None), None);
    assert_eq!(serv_target(0xE000_0001, None), None);
    assert_eq!(serv_target(0xEFFF_FFFF, None), None);
    assert!(serv_target(0xF000_0001, None).is_some());
}

#[test]
fn actions_of_server_messages() {
    assert!(matches!(
        server_action(ServerMessage::Serv { ip_address: 7, sync_group_id: None }),
        ServerAction::SetDefaultServer(7)
    ));
    assert!(matches!(server_action(ServerMessage::Queryname), ServerAction::SendName));
    assert!(matches!(
        server_action(ServerMessage::Setname(String::from("den"))),
        ServerAction::SetName(n) if n == "den"
    ));
    assert!(matches!(server_action(ServerMessage::Gain(1, 2)), ServerAction::SetVolume(1, 2)));
    assert!(matches!(server_action(ServerMessage::Status(9)), ServerAction::ReportTime(9)));
    assert!(matches!(server_action(ServerMessage::Stop), ServerAction::Stop));
    assert!(matches!(server_action(ServerMessage::Flush), ServerAction::Flush));
    assert!(matches!(server_action(ServerMessage::Pause(0)), ServerAction::Pause(0)));
    assert!(matches!(server_action(ServerMessage::Unpause(5)), ServerAction::Unpause(5)));
    assert!(matches!(server_action(ServerMessage::Skip(3)), ServerAction::Skip(3)));
    assert!(matches!(server_action(ServerMessage::Enable(true, true)), ServerAction::ConnectOutput));
    assert!(matches!(
        server_action(ServerMessage::Enable(true, false)),
        ServerAction::DisconnectOutput
    ));
    assert!(matches!(
        server_action(ServerMessage::Enable(false, true)),
        ServerAction::DisconnectOutput
    ));
    assert!(matches!(server_action(ServerMessage::DisableDac), ServerAction::DisconnectOutput));
    assert!(matches!(
        server_action(ServerMessage::Unrecognised(String::from("vers"))),
        ServerAction::Unhandled(ServerMessage::Unrecognised(t)) if t == "vers"
    ));
    assert!(matches!(server_action(ServerMessage::Error), ServerAction::Unhandled(ServerMessage::Error)));
}

#[test]
fn stream_commands_need_header_line_ends() {
    let msg = ServerMessage::parse(&stream_frame(b"GET /a HTTP/1.0\r\nHost: x\r\n\r\n"));
    match server_action(msg) {
        ServerAction::StartStream(c) => {
            assert_eq!(c.line_ends, 3);
            assert_eq!(c.http_headers, "GET /a HTTP/1.0\r\nHost: x\r\n\r\n");
            assert_eq!(c.server_ip, 0xC0A8_0009);
            assert_eq!(c.server_port, 9000);
            assert_eq!(c.threshold, 2048);
            assert_eq!(c.format, Format::Mp3);
            assert_eq!(c.autostart, AutoStart::Auto);
            assert_eq!(c.output_threshold, 250);
        }
        other => panic!("unexpected action {:?}", other),
    }
    let msg = ServerMessage::parse(&stream_frame(b"GET /a HTTP/1.0"));
    assert!(matches!(server_action(msg), ServerAction::IgnoreStream));
    let msg = ServerMessage::parse(&stream_frame(b""));
    assert!(matches!(server_action(msg), ServerAction::IgnoreStream));
}

#[test]
fn reports_after_server_actions() {
    let mut s = StatusData::default();
    s.set_output_buffer_size(9);
    s.set_output_buffer_fullness(8);

    assert_eq!(report_after(&mut s, &ServerAction::ReportTime(77), false, 61_234), Some(StatusCode::Timer));
    let p = payload_of(&mut s);
    assert_eq!(&p[37..41], &61u32.to_be_bytes());
    assert_eq!(&p[43..47], &61_234u32.to_be_bytes());
    assert_eq!(&p[47..51], &77u32.to_be_bytes());

    assert_eq!(report_after(&mut s, &ServerAction::Pause(0), false, 5_000), None);
    assert_eq!(&payload_of(&mut s)[43..47], &61_234u32.to_be_bytes());
    assert_eq!(report_after(&mut s, &ServerAction::Pause(300), true, 5_000), None);
    assert_eq!(&payload_of(&mut s)[43..47], &61_234u32.to_be_bytes());
    assert_eq!(report_after(&mut s, &ServerAction::Pause(0), true, 5_000), Some(StatusCode::Pause));
    assert_eq!(&payload_of(&mut s)[43..47], &5_000u32.to_be_bytes());
    assert_eq!(report_after(&mut s, &ServerAction::Unpause(0), false, 6_000), None);
    assert_eq!(report_after(&mut s, &ServerAction::Unpause(0), true, 6_000), Some(StatusCode::Resume));
    assert_eq!(&payload_of(&mut s)[37..41], &6u32.to_be_bytes());
    assert_eq!(report_after(&mut s, &ServerAction::Unpause(10), true, 7_000), None);
    assert_eq!(&payload_of(&mut s)[37..41], &6u32.to_be_bytes());

    assert_eq!(report_after(&mut s, &ServerAction::Stop, false, 1), Some(StatusCode::Flushed));
    let p = payload_of(&mut s);
    assert!(p[29..47].iter().all(|b| *b == 0));
    assert_eq!(&p[47..51], &77u32.to_be_bytes());
    s.set_play_time(1_000);
    assert_eq!(report_after(&mut s, &ServerAction::Flush, true, 1), Some(StatusCode::Flushed));
    assert!(payload_of(&mut s)[29..47].iter().all(|b| *b == 0));

    assert_eq!(report_after(&mut s, &ServerAction::SendName, true, 1), None);
    assert_eq!(report_after(&mut s, &ServerAction::ConnectOutput, true, 1), None);
}

#[test]
fn stream_commands_count_line_ends() {
    let mut s = StatusData::default();
    let msg = ServerMessage::parse(&stream_frame(b"GET / HTTP/1.0\r\n\r\n"));
    let a = server_action(msg);
    assert_eq!(report_after(&mut s, &a, false, 0), None);
    assert_eq!(payload_of(&mut s)[4], 2);
    for _ in 0..127 {
        report_after(&mut s, &a, false, 0);
    }
    assert_eq!(payload_of(&mut s)[4], 0);
}

#[test]
fn reports_after_player_messages() {
    let mut s = StatusData::default();
    s.set_play_time(4_000);
    let cases: Vec<(PlayerMsg<()>, bool, Option<StatusCode>)> = vec![
        (PlayerMsg::EndOfDecode, false, Some(StatusCode::DecoderReady)),
        (PlayerMsg::Connected, false, Some(StatusCode::Connect)),
        (PlayerMsg::BufferThreshold, false, Some(StatusCode::BufferThreshold)),
        (PlayerMsg::NotSupported, false, Some(StatusCode::NotSupported)),
        (PlayerMsg::StreamEstablished, false, Some(StatusCode::StreamEstablished)),
        (PlayerMsg::Pause, true, None),
        (PlayerMsg::Unpause, false, None),
        (PlayerMsg::Unpause, true, Some(StatusCode::TrackStarted)),
        (PlayerMsg::Decoder(()), true, None),
        (PlayerMsg::Drained, false, None),
    ];
    for (m, accepted, code) in cases {
        assert_eq!(player_report(&mut s, &m, accepted), code);
        assert_eq!(&payload_of(&mut s)[43..47], &4_000u32.to_be_bytes());
    }
    assert_eq!(player_report(&mut s, &PlayerMsg::<()>::Drained, true), None);
    assert_eq!(&payload_of(&mut s)[43..47], &0u32.to_be_bytes());
    s.set_play_time(4_000);
    assert_eq!(
        player_report(&mut s, &PlayerMsg::<()>::TrackStarted, false),
        Some(StatusCode::TrackStarted)
    );
    let p = payload_of(&mut s);
    assert_eq!(&p[37..41], &0u32.to_be_bytes());
    assert_eq!(&p[43..47], &0u32.to_be_bytes());
}

#[test]
fn reader_routes_messages() {
    let msgs = vec![
        ServerMessage::Stop,
        ServerMessage::Serv { ip_address: 0, sync_group_id: None },
        ServerMessage::Queryname,
        ServerMessage::Serv { ip_address: 0xC0A8_0002, sync_group_id: Some(String::from("g")) },
        ServerMessage::Flush,
    ];
    let mut handed = Vec::new();
    let mut target = None;
    for m in msgs {
        match route_message(m) {
            Route::Forward(m) => handed.push(Some(m)),
            Route::Drop => continue,
            Route::Switch(t, g) => {
                handed.push(None);
                target = Some((t, g));
                break;
            }
        }
    }
    assert_eq!(format!("{:?}", handed), "[Some(Stop), Some(Queryname), None]");
    assert_eq!(target, Some(((0xC0A8_0002, 3483), Some(String::from("g")))));
}

#[test]
fn writer_stops_after_bye_one() {
    let msgs = vec![
        ClientMessage::Name(String::from("a")),
        ClientMessage::Bye(0),
        ClientMessage::Bye(1),
        ClientMessage::Name(String::from("b")),
    ];
    let mut sent = Vec::new();
    for m in msgs {
        let (out, stop) = outgoing_message(m);
        sent.push(out.to_bytes());
        if stop {
            break;
        }
    }
    assert_eq!(sent.len(), 3);
    assert_eq!(sent[2], ClientMessage::Bye(0).to_bytes());
    assert_eq!(sent[1], ClientMessage::Bye(0).to_bytes());
    assert_eq!(sent[0], ClientMessage::Name(String::from("a")).to_bytes());
}

#[test]
fn literal_server_addresses() {
    assert_eq!(parse_server_literal("192.168.1.20:9000"), Some((0xC0A8_0114, 9000)));
    assert_eq!(parse_server_literal("192.168.1.20"), Some((0xC0A8_0114, 3483)));
    assert_eq!(parse_server_literal("10.0.0.1:03483"), Some((0x0A00_0001, 3483)));
    assert_eq!(parse_server_literal("10.0.0.1:"), None);
    assert_eq!(parse_server_literal("10.0.0.1:+80"), None);
    assert_eq!(parse_server_literal("10.0.0.1:70000"), None);
    assert_eq!(parse_server_literal("10.0.0.01"), None);
    assert_eq!(parse_server_literal("256.0.0.1"), None);
    assert_eq!(parse_server_literal("lms.local:9000"), None);
    assert_eq!(parse_server_literal("lms.local"), None);
    assert_eq!(parse_server_literal("1.2.3.4:5:6"), None);
    assert_eq!(parse_server_literal(""), None);
}

#[test]
fn notification_text_of_metadata() {
    let s = |t: &str| Some(String::from(t));
    assert_eq!(
        track_notification(s("Song"), s("Band"), s("Singer"), s("Record"), s("2003-07-15")),
        s("<b>Song</b> by <b>Band</b> from <b>Record</b> (2003)")
    );
    assert_eq!(
        track_notification(s("Song"), None, s("Singer"), None, s("07-2003")),
        s("<b>Song</b> by <b>Singer</b> (2003)")
    );
    assert_eq!(track_notification(s("Song"), None, None, None, s("n/a")), s("<b>Song</b>"));
    assert_eq!(track_notification(None, s("Band"), None, None, None), None);
}

#[test]
fn stream_request_text() {
    assert_eq!(stream_request("GET / HTTP/1.0\r\n\r\n"), "GET / HTTP/1.0\r\n\r\n\r\n");
    assert_eq!(stream_request("  GET /a HTTP/1.0 \t"), "GET /a HTTP/1.0\r\n\r\n\r\n");
    assert_eq!(stream_request(""), "\r\n\r\n\r\n");
}

#[test]
fn reads_are_counted() {
    assert_eq!(stream_buffer_size(2), 2048);
    assert_eq!(stream_buffer_size(u32::MAX), u32::MAX);
    assert_eq!(stream_buffer_size(4_194_303), 4_294_966_272);
    assert_eq!(stream_buffer_size(4_194_304), u32::MAX);
    let mut s = StatusData::default();
    s.count_read(300, 2048);
    s.count_read(200, 2048);
    assert_eq!(s.bytes_received(), 500);
    let p = payload_of(&mut s);
    assert_eq!(&p[7..11], &2048u32.to_be_bytes());
    assert_eq!(&p[11..15], &200u32.to_be_bytes());
}
