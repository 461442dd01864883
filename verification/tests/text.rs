use lms_player::text::{decimal_string, latin1_string};

#[test]
fn decimal_rendering() {
    assert_eq!(decimal_string(0), "0");
    assert_eq!(decimal_string(7), "7");
    assert_eq!(decimal_string(10), "10");
    assert_eq!(decimal_string(3483), "3483");
    assert_eq!(decimal_string(u32::MAX), "4294967295");
}

#[test]
fn latin1_maps_every_byte_to_its_code_point() {
    assert_eq!(latin1_string(b"abc"), "abc");
    assert_eq!(latin1_string(&[0xE9, 0x41]), "\u{e9}A");
    assert_eq!(latin1_string(&[]), "");
}
