use lms_player::capability::{CapList, Capability};

#[test]
fn single() {
    let v = vec![Capability::Mp3];
    let c = CapList::new(v);
    assert_eq!(c.to_string(), "mp3");
}

#[test]
fn list_with_values() {
    let v = vec![
        Capability::Mp3,
        Capability::Maxsamplerate(9600),
        Capability::Ogg,
    ];
    let c = CapList::new(v);
    assert_eq!(c.to_string(), "mp3,MaxSampleRate=9600,ogg");
}

#[test]
fn empty_list_is_empty_string() {
    assert_eq!(CapList::new(vec![]).to_string(), "");
    assert_eq!(CapList::empty().to_string(), "");
}

#[test]
fn tokens_of_every_capability() {
    let cases = vec![
        (Capability::Wma, "wma"),
        (Capability::Wmap, "wmap"),
        (Capability::Wmal, "wmal"),
        (Capability::Ogg, "ogg"),
        (Capability::Flc, "flc"),
        (Capability::Pcm, "pcm"),
        (Capability::Aif, "aif"),
        (Capability::Mp3, "mp3"),
        (Capability::Alc, "alc"),
        (Capability::Aac, "aac"),
        (Capability::Maxsamplerate(192000), "MaxSampleRate=192000"),
        (Capability::Maxsamplerate(0), "MaxSampleRate=0"),
        (Capability::Maxsamplerate(u32::MAX), "MaxSampleRate=4294967295"),
        (Capability::Model(String::from("squeezelite")), "Model=squeezelite"),
        (Capability::Modelname(String::from("SqueezeLite")), "Modelname=SqueezeLite"),
        (Capability::Rhap, "Rhap"),
        (Capability::Accurateplaypoints, "AccuratePlayPoints=1"),
        (Capability::Syncgroupid(String::from("g1")), "SyncgroupID=g1"),
        (Capability::Hasdigitalout, "HasDigitalOut=1"),
        (Capability::Haspreamp, "HasPreAmp=1"),
        (Capability::Hasdisabledac, "HasDisableDac=1"),
        (Capability::Firmware(String::from("1.2.3")), "Firmware=1.2.3"),
        (Capability::Balance, "Balance=1"),
        (Capability::CanHTTPS, "canHTTPS=1"),
    ];
    for (cap, text) in cases {
        assert_eq!(cap.to_string(), text);
    }
}

#[test]
fn list_keeps_order_and_separates_by_commas() {
    let c = CapList::new(vec![
        Capability::Model(String::from("a,b")),
        Capability::Pcm,
        Capability::Balance,
    ]);
    assert_eq!(c.to_string(), "Model=a,b,pcm,Balance=1");
}
