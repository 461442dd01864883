use lms_player::discovery::{decode_tlv, parse_ipv4, parse_port, reply_records};

fn rec(token: &[u8], value: &[u8]) -> Vec<u8> {
    let mut r = token.to_vec();
    r.push(value.len() as u8);
    r.extend_from_slice(value);
    r
}

#[test]
fn all_records() {
    let buf = [
        rec(b"NAME", b"lms"),
        rec(b"VERS", b"9.0.1"),
        rec(b"IPAD", b"192.168.1.20"),
        rec(b"JSON", b"9000"),
    ]
    .concat();
    let m = decode_tlv(&buf);
    assert_eq!(m.name.as_deref(), Some("lms"));
    assert_eq!(m.version.as_deref(), Some("9.0.1"));
    assert_eq!(m.address, Some(0xC0A80114));
    assert_eq!(m.port, Some(9000));
}

#[test]
fn decoding_stops_at_bad_records() {
    let buf = [rec(b"NAME", b"a"), rec(b"IPAD", b"1.2.3"), rec(b"VERS", b"x")].concat();
    let m = decode_tlv(&buf);
    assert_eq!(m.name.as_deref(), Some("a"));
    assert_eq!(m.address, None);
    assert_eq!(m.version, None);
    let buf = [rec(b"UUID", b"z"), rec(b"NAME", b"a")].concat();
    assert_eq!(decode_tlv(&buf).name, None);
    let mut buf = rec(b"NAME", b"abc");
    buf.pop();
    assert_eq!(decode_tlv(&buf).name, None);
    let buf = [vec![0x80], rec(b"AME", b"a")].concat();
    assert_eq!(decode_tlv(&buf).name, None);
}

#[test]
fn later_records_replace_earlier() {
    let buf = [rec(b"NAME", b"a"), rec(b"NAME", b"b")].concat();
    assert_eq!(decode_tlv(&buf).name.as_deref(), Some("b"));
}

#[test]
fn reply_needs_e() {
    let mut r = vec![b'E'];
    r.extend(rec(b"JSON", b"+80"));
    assert_eq!(reply_records(&r).unwrap().port, Some(80));
    assert!(reply_records(b"eNAME").is_none());
    assert!(reply_records(b"").is_none());
}

#[test]
fn dotted_decimal() {
    assert_eq!(parse_ipv4(b"0.0.0.0"), Some(0));
    assert_eq!(parse_ipv4(b"255.255.255.255"), Some(0xFFFF_FFFF));
    assert_eq!(parse_ipv4(b"10.0.0.1"), Some(0x0A00_0001));
    assert_eq!(parse_ipv4(b"256.0.0.1"), None);
    assert_eq!(parse_ipv4(b"01.0.0.1"), None);
    assert_eq!(parse_ipv4(b"1.2.3"), None);
    assert_eq!(parse_ipv4(b"1.2.3.4.5"), None);
    assert_eq!(parse_ipv4(b"1..3.4"), None);
    assert_eq!(parse_ipv4(b"1.2.3.4 "), None);
    assert_eq!(parse_ipv4(b"0001.2.3.4"), None);
    assert_eq!(parse_ipv4(b"1.2.3.4"), Some(0x0102_0304));
    assert_eq!(parse_ipv4(b"127.0.0.1"), Some(0x7F00_0001));
    assert_eq!(parse_ipv4(b"08.1.1.1"), None);
    assert_eq!(parse_ipv4(b"1.2.3.04"), None);
    assert_eq!(parse_ipv4(b"300.1.1.1"), None);
    assert_eq!(parse_ipv4(b"1.2.3.a"), None);
    assert_eq!(parse_ipv4(b""), None);
}

#[test]
fn ports() {
    for s in ["80", "+80", "65535", "65536", "", "+", "-1", "8a", "00080"] {
        assert_eq!(parse_port(s.as_bytes()), s.parse::<u16>().ok(), "{:?}", s);
    }
}
