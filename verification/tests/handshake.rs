use kite::handshake::{parse_handshake, read_string, ParseError};
use kite::packet::RawPacket;
use kite::varint::{encode_var_i32, write_var_i32, VarIntError};

fn push_varint(out: &mut Vec<u8>, v: i32) {
    let sv = encode_var_i32(v);
    write_var_i32(out, &sv);
}

fn handshake_body(id: i32, version: i32, field: &[u8]) -> Vec<u8> {
    let mut body: Vec<u8> = Vec::new();
    push_varint(&mut body, id);
    push_varint(&mut body, version);
    push_varint(&mut body, field.len() as i32);
    body.extend_from_slice(field);
    body
}

#[test]
fn reads_a_plain_string_field() {
    let mut bytes: Vec<u8> = Vec::new();
    push_varint(&mut bytes, 2);
    bytes.extend_from_slice(b"hi");
    let (s, consumed) = read_string(&bytes).expect("a sound text field");
    assert_eq!(s, "hi");
    assert_eq!(consumed, 3);
}

#[test]
fn hostname_is_cut_at_the_first_zero_byte() {
    let field = b"play.example.com\0FML\0extra";
    let mut bytes: Vec<u8> = Vec::new();
    push_varint(&mut bytes, field.len() as i32);
    bytes.extend_from_slice(field);
    let (s, consumed) = read_string(&bytes).expect("a sound text field");
    assert_eq!(s, "play.example.com");
    assert_eq!(consumed, 1 + field.len());
}

#[test]
fn empty_field_reads_as_empty_string() {
    let bytes = [0x00u8];
    let (s, consumed) = read_string(&bytes).unwrap();
    assert_eq!(s, "");
    assert_eq!(consumed, 1);
}

#[test]
fn field_longer_than_the_remaining_bytes_fails() {
    let bytes = [0x05u8, b'a', b'b'];
    assert_eq!(read_string(&bytes).unwrap_err(), ParseError::LengthOutOfRange);
}

#[test]
fn negative_field_length_fails() {
    let mut bytes = vec![0xFFu8, 0xFF, 0xFF, 0xFF, 0x0F];
    bytes.extend_from_slice(b"abc");
    assert_eq!(read_string(&bytes).unwrap_err(), ParseError::LengthOutOfRange);
}

#[test]
fn undecodable_text_fails() {
    let bytes = [0x02u8, 0xFF, 0xFE];
    assert_eq!(read_string(&bytes).unwrap_err(), ParseError::InvalidUtf8);
}

#[test]
fn invalid_bytes_after_the_zero_cut_do_not_matter() {
    let field = b"ok\0\xFF\xFE";
    let mut bytes: Vec<u8> = Vec::new();
    push_varint(&mut bytes, field.len() as i32);
    bytes.extend_from_slice(field);
    let (s, _) = read_string(&bytes).expect("the cut text is valid");
    assert_eq!(s, "ok");
}

#[test]
fn truncated_length_prefix_fails() {
    let bytes = [0x80u8];
    assert_eq!(
        read_string(&bytes).unwrap_err(),
        ParseError::BadVarInt(VarIntError::NotEnoughData)
    );
}

#[test]
fn parses_a_whole_handshake() {
    let body = handshake_body(0, 754, b"mc.example.org");
    let p = frame_and_read(&body);
    let h = parse_handshake(&p).expect("a sound handshake");
    assert_eq!(h.packet_id, 0);
    assert_eq!(h.protocol_version, 754);
    assert_eq!(h.hostname, "mc.example.org");
}

#[test]
fn parses_a_handshake_with_forge_suffix() {
    let body = handshake_body(0, 340, b"play.example.com\0FML\0");
    let p = frame_and_read(&body);
    let h = parse_handshake(&p).expect("a sound handshake");
    assert_eq!(h.hostname, "play.example.com");
}

#[test]
fn handshake_with_truncated_hostname_field_fails() {
    // declares a 40-byte hostname field but provides 4 bytes
    let mut body: Vec<u8> = Vec::new();
    push_varint(&mut body, 0);
    push_varint(&mut body, 754);
    push_varint(&mut body, 40);
    body.extend_from_slice(b"mc.e");
    let p = frame_and_read(&body);
    assert_eq!(
        parse_handshake(&p).unwrap_err(),
        ParseError::LengthOutOfRange
    );
}

#[test]
fn handshake_of_one_byte_fails_on_the_version_field() {
    let body = vec![0x00u8];
    let p = frame_and_read(&body);
    assert_eq!(
        parse_handshake(&p).unwrap_err(),
        ParseError::BadVarInt(VarIntError::NotEnoughData)
    );
}

fn frame_and_read(body: &[u8]) -> RawPacket {
    let mut framed: Vec<u8> = Vec::new();
    push_varint(&mut framed, body.len() as i32);
    framed.extend_from_slice(body);
    let (p, consumed) = RawPacket::read_from(&framed).expect("a complete frame");
    assert_eq!(consumed, framed.len());
    p
}
