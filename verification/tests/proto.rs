use lms_player::capability::Capability;
use lms_player::messages::ClientMessage;
use lms_player::proto::Hello;

#[test]
fn helo_message_of_builder() {
    let hello = Hello::new()
        .device_id(1)
        .revision(0)
        .language(['e', 'n'])
        .mac([1, 2, 3, 4, 5, 6])
        .uuid([9; 16])
        .bytes_received(1234)
        .wlan_channel_list(0x0fff)
        .capabilities(vec![Capability::Pcm, Capability::Maxsamplerate(48000)]);
    match hello.helo_message() {
        ClientMessage::Helo {
            device_id,
            revision,
            mac,
            uuid,
            wlan_channel_list,
            bytes_received,
            language,
            capabilities,
        } => {
            assert_eq!(device_id, 1);
            assert_eq!(revision, 0);
            assert_eq!(mac, [1, 2, 3, 4, 5, 6]);
            assert_eq!(uuid, [9; 16]);
            assert_eq!(wlan_channel_list, 0x0fff);
            assert_eq!(bytes_received, 1234);
            assert_eq!(language, ['e', 'n']);
            assert_eq!(capabilities, "pcm,MaxSampleRate=48000");
        }
        _ => panic!("expected HELO"),
    }
}

#[test]
fn reconnect_keeps_only_the_reconnect_bit() {
    let hello = Hello::new().wlan_channel_list(0x0fff).reconnect(true);
    match hello.helo_message() {
        ClientMessage::Helo { wlan_channel_list, .. } => assert_eq!(wlan_channel_list, 0x0400),
        _ => panic!("expected HELO"),
    }
    let hello = Hello::new().wlan_channel_list(0x0bff).reconnect(true);
    match hello.helo_message() {
        ClientMessage::Helo { wlan_channel_list, .. } => assert_eq!(wlan_channel_list, 0),
        _ => panic!("expected HELO"),
    }
}

#[test]
fn new_builder_is_empty() {
    match Hello::new().helo_message() {
        ClientMessage::Helo {
            device_id,
            mac,
            uuid,
            language,
            capabilities,
            ..
        } => {
            assert_eq!(device_id, 0);
            assert_eq!(mac, [0; 6]);
            assert_eq!(uuid, [0; 16]);
            assert_eq!(language, ['\0', '\0']);
            assert_eq!(capabilities, "");
        }
        _ => panic!("expected HELO"),
    }
}
