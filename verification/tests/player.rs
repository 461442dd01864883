use lms_player::audio::{dur_to_samples, fill_limit, output_buffer_size, samples_to_millis, AudioSpec};
use lms_player::capability::{CapList, Capability};
use lms_player::cli::{default_system, split_server_arg, system_list};
use lms_player::messages::{ClientMessage, PcmChannels, PcmSampleRate};
use lms_player::startup::unit_file_text;
use lms_player::player::{
    header_line_ends, helo_capabilities, is_usable_server_ip, outgoing_message, stream_server_ip,
};

#[test]
fn announced_capabilities() {
    let caps = helo_capabilities(String::from("0.9.0"), None);
    assert_eq!(
        CapList::new(caps).to_string(),
        "Model=squeezelite,Modelname=SqueezeLite,AccuratePlayPoints=1,HasDigitalOut=1,\
HasPreAmp=1,HasDisableDac=1,Firmware=0.9.0,MaxSampleRate=192000,pcm,mp3,aac,alc,ogg,flc"
    );
    let caps = helo_capabilities(String::from("0.9.0"), Some(String::from("abc")));
    assert_eq!(caps.len(), 15);
    assert!(matches!(&caps[14], Capability::Syncgroupid(g) if g == "abc"));
}

#[test]
fn server_addresses() {
    assert!(is_usable_server_ip(0xC0A80101));
    assert!(!is_usable_server_ip(0));
    assert!(!is_usable_server_ip(0xFFFF_FFFF));
    assert!(!is_usable_server_ip(0xE000_0001));
    assert!(!is_usable_server_ip(0xEFFF_FFFF));
    assert!(is_usable_server_ip(0xF000_0000));
    assert!(is_usable_server_ip(0xDFFF_FFFF));
    assert_eq!(stream_server_ip(0, 7), 7);
    assert_eq!(stream_server_ip(5, 7), 5);
}

#[test]
fn bye_one_stops_the_writer() {
    let (m, stop) = outgoing_message(ClientMessage::Bye(1));
    assert!(stop);
    assert!(matches!(m, ClientMessage::Bye(0)));
    let (m, stop) = outgoing_message(ClientMessage::Bye(0));
    assert!(!stop);
    assert!(matches!(m, ClientMessage::Bye(0)));
    let (m, stop) = outgoing_message(ClientMessage::Name(String::from("x")));
    assert!(!stop);
    assert!(matches!(m, ClientMessage::Name(n) if n == "x"));
}

#[test]
fn header_line_end_count() {
    assert_eq!(header_line_ends("GET / HTTP/1.0\r\nHost: x\r\n\r\n"), 3);
    assert_eq!(header_line_ends(""), 0);
    assert_eq!(header_line_ends("\r\r\n\n"), 1);
    assert_eq!(header_line_ends("\n\r"), 0);
}

#[test]
fn audio_spec_resolution() {
    let s = AudioSpec::resolve(PcmSampleRate::Rate(44_100), PcmChannels::Stereo, 48_000, 6);
    assert_eq!(s, AudioSpec { channels: 2, sample_rate: 44_100 });
    let s = AudioSpec::resolve(PcmSampleRate::SelfDescribing, PcmChannels::SelfDescribing, 48_000, 6);
    assert_eq!(s, AudioSpec { channels: 6, sample_rate: 48_000 });
    let s = AudioSpec::resolve(PcmSampleRate::Rate(8_000), PcmChannels::Mono, 0, 0);
    assert_eq!(s.channels(0), 1);
    assert_eq!(s.channels(2), 2);
    assert_eq!(s.sample_rate(0), 8_000);
    assert_eq!(s.sample_rate(44_100), 44_100);
}

#[test]
fn sample_arithmetic() {
    assert_eq!(dur_to_samples(44_100, 2, 1_000_000), 88_200);
    assert_eq!(dur_to_samples(44_100, 2, 500), 44);
    assert_eq!(samples_to_millis(88_200, 44_100, 2), 1000);
    assert_eq!(samples_to_millis(1, 44_100, 2), 0);
    assert_eq!(fill_limit(Some(7), 100), 7);
    assert_eq!(fill_limit(None, 100), 1024);
    assert_eq!(fill_limit(None, 10_000), 5000);
    assert_eq!(output_buffer_size(100), 8 * 1024);
    assert_eq!(output_buffer_size(100_000), 100_000);
}

#[test]
fn audio_systems() {
    assert_eq!(default_system(true, true), "pulse");
    assert_eq!(default_system(false, true), "pipewire");
    assert_eq!(default_system(false, false), "rodio");
    assert_eq!(system_list(true, true, true), vec!["pulse", "pipewire", "rodio"]);
    assert_eq!(system_list(true, false, true), vec!["pulse", "rodio"]);
    assert_eq!(system_list(false, true, true), vec!["pipewire", "rodio"]);
    assert_eq!(system_list(true, true, false), vec!["pulse", "pipewire"]);
    assert_eq!(system_list(true, false, false), vec![""]);
}

#[test]
fn server_argument_split() {
    assert_eq!(split_server_arg("lms.local:9000"), (String::from("lms.local"), 9000));
    assert_eq!(split_server_arg("lms.local"), (String::from("lms.local"), 3483));
    assert_eq!(split_server_arg("lms.local:"), (String::from("lms.local"), 3483));
    assert_eq!(split_server_arg("lms.local:99999"), (String::from("lms.local"), 3483));
    assert_eq!(split_server_arg("lms.local:00080"), (String::from("lms.local"), 80));
    assert_eq!(split_server_arg("lms.local:80a"), (String::from("lms.local:80a"), 3483));
    assert_eq!(split_server_arg("a:b:12"), (String::from("a:b"), 12));
    assert_eq!(split_server_arg("h\u{e9}:7"), (String::from("h\u{e9}"), 7));
    assert_eq!(split_server_arg(""), (String::from(""), 3483));
}

#[test]
fn systemd_unit_text() {
    let t = unit_file_text("/usr/bin/vibe", Some("lms.local"), None, Some("hw:0"));
    assert_eq!(
        t,
        "[Unit]\nDescription=A music player for the Lyrion Music Server\n\
After=network-online.target sound.target\n\n[Service]\nType=simple\n\
ExecStart=/usr/bin/vibe --server \"lms.local\" --device \"hw:0\"\nRestart=on-failure\n\n\
[Install]\nWantedBy=default.target\n"
    );
    let t = unit_file_text("/v", None, Some("pulse"), None);
    assert!(t.contains("ExecStart=/v --system \"pulse\"\n"));
    let t = unit_file_text("/v", Some("{path}"), None, None);
    assert!(t.contains("ExecStart=/v --server \"/v\"\n"));
}

#[test]
fn samples_and_back_never_overshoot() {
    for (rate, channels) in [(44_100u32, 2usize), (48_000, 1), (8_000, 6), (192_000, 2)] {
        for micros in [0u64, 1, 999, 1_000, 22_675, 500_000, 1_000_001, 3_600_000_000] {
            let samples = dur_to_samples(rate, channels, micros);
            let millis = samples_to_millis(samples, rate, channels);
            assert!(millis * 1000 <= micros, "{} {} {}", rate, channels, micros);
        }
    }
    assert_eq!(samples_to_millis(dur_to_samples(44_100, 2, 22_675), 44_100, 2), 22);
}
