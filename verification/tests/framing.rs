use kite::convert::{AsInner, IntoInner, TryFromInner};
use kite::packet::{FrameError, McPacketRaw, RawPacket, MAX_PACKET_LEN};
use kite::ranging::{I32Range, RangeCmp, Ranging};

#[test]
fn reads_one_framed_packet() {
    let bytes = [0x03u8, b'a', b'b', b'c', 0xFF, 0xFF];
    let (p, consumed) = RawPacket::read_from(&bytes).expect("a complete frame");
    assert_eq!(p.len(), 3);
    assert_eq!(p.inner().as_slice(), b"abc");
    assert_eq!(consumed, 4);
}

#[test]
fn declared_length_zero_fails() {
    let bytes = [0x00u8];
    assert_eq!(
        RawPacket::read_from(&bytes).unwrap_err(),
        FrameError::LengthOutOfRange
    );
}

#[test]
fn negative_declared_length_fails() {
    // -1 as a variable-length integer
    let bytes = [0xFFu8, 0xFF, 0xFF, 0xFF, 0x0F];
    assert_eq!(
        RawPacket::read_from(&bytes).unwrap_err(),
        FrameError::LengthOutOfRange
    );
}

#[test]
fn declared_length_above_max_fails() {
    // MAX_PACKET_LEN + 1 == 0x20_0000
    let bytes = [0x80u8, 0x80, 0x80, 0x01];
    assert_eq!(
        RawPacket::read_from(&bytes).unwrap_err(),
        FrameError::LengthOutOfRange
    );
}

#[test]
fn declared_length_exactly_max_succeeds() {
    let mut bytes = vec![0xFFu8, 0xFF, 0x7F];
    bytes.extend(std::iter::repeat(0x42u8).take(MAX_PACKET_LEN));
    let (p, consumed) = RawPacket::read_from(&bytes).expect("a maximum-length frame");
    assert_eq!(p.len(), MAX_PACKET_LEN);
    assert_eq!(consumed, 3 + MAX_PACKET_LEN);
}

#[test]
fn short_body_fails_with_not_enough_data() {
    let bytes = [0x05u8, 1, 2];
    assert_eq!(
        RawPacket::read_from(&bytes).unwrap_err(),
        FrameError::NotEnoughData
    );
}

#[test]
fn empty_input_fails_with_not_enough_data() {
    assert_eq!(
        RawPacket::read_from(&[]).unwrap_err(),
        FrameError::NotEnoughData
    );
}

#[test]
fn unterminated_length_prefix_fails() {
    let bytes = [0x80u8, 0x80, 0x80, 0x80, 0x80, 0x01];
    assert_eq!(
        RawPacket::read_from(&bytes).unwrap_err(),
        FrameError::BadLengthPrefix
    );
}

#[test]
fn write_to_reproduces_the_frame() {
    let bytes = [0x03u8, 1, 2, 3];
    let (p, _) = RawPacket::read_from(&bytes).unwrap();
    let mut out: Vec<u8> = Vec::new();
    p.write_to(&mut out);
    assert_eq!(out, bytes.to_vec());

    let (again, consumed) = RawPacket::read_from(&out).unwrap();
    assert_eq!(again.inner(), p.inner());
    assert_eq!(consumed, out.len());
}

#[test]
fn loosely_prefixed_frame_rewrites_canonically() {
    // a redundant two-byte length prefix for a one-byte body
    let bytes = [0x81u8, 0x00, 0x99];
    let (p, consumed) = RawPacket::read_from(&bytes).unwrap();
    assert_eq!(p.inner().as_slice(), &[0x99]);
    assert_eq!(consumed, 3);
    let mut out: Vec<u8> = Vec::new();
    p.write_to(&mut out);
    assert_eq!(out, vec![0x01, 0x99]);
}

#[test]
fn splits_packet_id_from_payload() {
    let bytes = [0x03u8, 0x00, 0x10, 0x20];
    let (p, _) = RawPacket::read_from(&bytes).unwrap();
    let m = McPacketRaw::parse(&p).expect("a packet with an id");
    assert_eq!(m.id, 0);
    assert_eq!(m.data, vec![0x10, 0x20]);
}

#[test]
fn packet_body_moves_in_and_out() {
    let p = RawPacket::try_from_inner(vec![1u8, 2, 3]).expect("an allowed body length");
    assert_eq!(p.as_inner().as_slice(), &[1, 2, 3]);
    assert_eq!(p.into_inner(), vec![1, 2, 3]);

    assert!(RawPacket::try_from_inner(Vec::new()).is_err());
    assert!(RawPacket::try_from_inner(vec![0u8; MAX_PACKET_LEN + 1]).is_err());
    assert!(RawPacket::try_from_inner(vec![0u8; MAX_PACKET_LEN]).is_ok());
}

#[test]
fn ranging_places_values_on_three_sides() {
    let range = I32Range { start: 1, end: 10 };
    assert_eq!(range.ranging(&0), Ranging::LessThanStart);
    assert_eq!(range.ranging(&1), Ranging::Contained);
    assert_eq!(range.ranging(&10), Ranging::Contained);
    assert_eq!(range.ranging(&11), Ranging::GreaterThanEnd);
    assert_eq!(range.ranging(&-5), Ranging::LessThanStart);
}
