use afbv4::hexa::{bytes_to_hexa, hexa_to_bytes, parse_hex_byte};

#[test]
fn bytes_to_hexa_writes_two_digits_per_byte() {
    assert_eq!(bytes_to_hexa(&[0x01, 0xff, 0x0a]), "[01,ff,0a]");
    assert_eq!(bytes_to_hexa(&[]), "[]");
    assert_eq!(bytes_to_hexa(&[0]), "[00]");
}

#[test]
fn hexa_to_bytes_decodes_into_the_buffer() {
    let mut buffer = [0u8; 8];
    let out = hexa_to_bytes("[01,ff,0A,+7]", &mut buffer).unwrap();
    assert_eq!(out, &[0x01, 0xff, 0x0a, 0x07]);
}

#[test]
fn hexa_roundtrip_restores_the_bytes() {
    let bytes = [0xde, 0xad, 0xbe, 0xef, 0x00, 0x10];
    let text = bytes_to_hexa(&bytes);
    let mut buffer = [0u8; 6];
    let back = hexa_to_bytes(&text, &mut buffer).unwrap();
    assert_eq!(back, &bytes);
}

#[test]
fn hexa_to_bytes_refuses_a_small_buffer() {
    let mut buffer = [0u8; 2];
    let e = hexa_to_bytes("[01,02,03]", &mut buffer).err().unwrap();
    assert_eq!(e.get_uid(), "string-decode-hexa");
    assert_eq!(e.get_info(), "destination buffer too small size:2");
    assert_eq!(buffer, [1, 2]);
}

#[test]
fn hexa_to_bytes_refuses_bad_digits() {
    let mut buffer = [9u8; 4];
    let e = hexa_to_bytes("[01,zz,03]", &mut buffer).err().unwrap();
    assert_eq!(e.get_uid(), "string-ecode-hexa");
    assert_eq!(e.get_info(), "invalid hexa encoding syntax: '[01,ff,...]' got:[01,zz,03]");
    assert_eq!(buffer, [1, 9, 9, 9]);
}

#[test]
fn hexa_to_bytes_of_an_empty_list_fails() {
    let mut buffer = [0u8; 4];
    assert!(hexa_to_bytes("[]", &mut buffer).is_err());
}

#[test]
fn parse_hex_byte_follows_radix_16() {
    assert_eq!(parse_hex_byte("ff"), Some(255));
    assert_eq!(parse_hex_byte("+1"), Some(1));
    assert_eq!(parse_hex_byte("100"), None);
    assert_eq!(parse_hex_byte(""), None);
    assert_eq!(parse_hex_byte("+"), None);
    assert_eq!(parse_hex_byte("0g"), None);
}
