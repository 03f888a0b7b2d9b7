//! Handshake field extraction.
//!
//! The first packet a client sends carries, in order: a packet id, a
//! protocol version (both variable-length integers), and the target
//! hostname as a length-prefixed text field. Only the hostname matters for
//! routing; the leading fields are decoded to locate it. Some client mods
//! smuggle extra signalling into the hostname field after a zero byte, so
//! the extracted hostname is cut at the first zero byte of the field.

use vstd::prelude::*;

use crate::packet::RawPacket;
use crate::varint;
use crate::varint::VarIntError;

verus! {

use vstd::utf8::{decode_utf8, valid_utf8};
use crate::varint::{as_signed, bad_continue, decode_len, decode_ok, decoded_u32};

/// How interpreting a packet body as handshake fields can fail. Every
/// failure is a data-validity fault of the peer: the body is complete, so
/// nothing here depends on timing or on the transport.
#[derive(Debug, Clone, Copy, PartialEq, Eq, Structural)]
pub enum ParseError {
    /// A variable-length integer field is malformed or truncated.
    BadVarInt(VarIntError),
    /// The declared text length is negative or exceeds the bytes remaining.
    LengthOutOfRange,
    /// The hostname field is not valid UTF-8.
    InvalidUtf8,
}

/// The index of the first zero byte at or after `i`, or `s.len()` when
/// no byte from `i` on is zero.
pub open spec fn nul_index_from(s: Seq<u8>, i: int) -> int
    decreases s.len() - i,
{
    if i < 0 || i >= s.len() {
        s.len() as int
    } else if s[i] == 0 {
        i
    } else {
        nul_index_from(s, i + 1)
    }
}

/// The index of the first zero byte of `s`, or `s.len()` without one.
pub open spec fn nul_index(s: Seq<u8>) -> int {
    nul_index_from(s, 0)
}

/// The length a text field declares, as a signed 32-bit value.
pub open spec fn str_len(s: Seq<u8>) -> int {
    as_signed(decoded_u32(s))
}

/// The declared text length is usable: non-negative and within the bytes
/// that remain after its prefix.
pub open spec fn str_frame_ok(s: Seq<u8>) -> bool {
    decode_ok(s) && 0 <= str_len(s) && decode_len(s) + str_len(s) <= s.len()
}

/// The raw bytes of the text field, before the zero-byte cut.
pub open spec fn str_field(s: Seq<u8>) -> Seq<u8> {
    s.subrange(decode_len(s), decode_len(s) + str_len(s))
}

/// The bytes of the extracted hostname: the field up to its first zero
/// byte, or the whole field when it has none.
pub open spec fn hostname_bytes(s: Seq<u8>) -> Seq<u8> {
    str_field(s).take(nul_index(str_field(s)))
}

/// A text field parses: its frame is sound and the extracted bytes decode
/// as UTF-8.
pub open spec fn str_ok(s: Seq<u8>) -> bool {
    str_frame_ok(s) && valid_utf8(hostname_bytes(s))
}

/// The error a failed text field read reports, by precedence: a malformed
/// prefix first, then an unusable length, then undecodable text.
pub open spec fn spec_str_err(s: Seq<u8>) -> ParseError {
    if !decode_ok(s) {
        if bad_continue(s) {
            ParseError::BadVarInt(VarIntError::BadContinueBit)
        } else {
            ParseError::BadVarInt(VarIntError::NotEnoughData)
        }
    } else if !(0 <= str_len(s) && decode_len(s) + str_len(s) <= s.len()) {
        ParseError::LengthOutOfRange
    } else {
        ParseError::InvalidUtf8
    }
}

/// Relies on `String::from_utf8`: it accepts exactly the byte sequences
/// that are valid UTF-8, and decodes them without alteration.
#[verifier::external_body]
fn string_from_utf8(bytes: Vec<u8>) -> (r: Option<String>)
    ensures
        r is Some <==> valid_utf8(bytes@),
        r is Some ==> r.unwrap()@ == decode_utf8(bytes@),
{
    String::from_utf8(bytes).ok()
}

/// Reads one length-prefixed text field from the front of `bytes`: a
/// loosely decoded length, that many field bytes, cut at the first zero
/// byte, decoded as UTF-8. Returns the text and how many bytes of `bytes`
/// the whole field (prefix and declared length) occupied.
pub fn read_string(bytes: &[u8]) -> (r: Result<(String, usize), ParseError>)
    ensures
        r is Ok <==> str_ok(bytes@),
        r matches Ok((h, consumed)) ==> h@ == decode_utf8(hostname_bytes(bytes@)) && consumed
            == decode_len(bytes@) + str_len(bytes@),
        r matches Err(e) ==> e == spec_str_err(bytes@),
{
    let v = match varint::read_var_i32(bytes) {
        Ok(v) => v,
        Err(e) => {
            return Err(ParseError::BadVarInt(e));
        },
    };
    let declared = v.value();
    if declared < 0 {
        return Err(ParseError::LengthOutOfRange);
    }
    let header = v.len();
    let field_len = declared as usize;
    if bytes.len() - header < field_len {
        return Err(ParseError::LengthOutOfRange);
    }
    let field = &bytes[header..header + field_len];
    proof {
        assert(field@ =~= str_field(bytes@));
    }
    let mut end: usize = 0;
    loop
        invariant
            end <= field@.len(),
            forall|i: int| 0 <= i < end ==> field@[i] != 0,
            nul_index(field@) == nul_index_from(field@, end as int),
        ensures
            end == nul_index(field@),
        decreases field@.len() - end,
    {
        if end >= field.len() {
            break;
        }
        if field[end] == 0 {
            break;
        }
        end = end + 1;
    }
    let cut = &field[0..end];
    proof {
        assert(cut@ =~= hostname_bytes(bytes@));
    }
    match string_from_utf8(vstd::slice::slice_to_vec(cut)) {
        Some(text) => Ok((text, header + field_len)),
        None => Err(ParseError::InvalidUtf8),
    }
}

/// The handshake fields extracted from one packet body. The view over a
/// connection's first packet: ephemeral, owned by the handling of that one
/// connection.
#[derive(Debug)]
pub struct HandshakeInfo {
    /// The packet id field.
    pub packet_id: i32,
    /// The protocol version the client claims.
    pub protocol_version: i32,
    /// The routing hostname, cut at the first zero byte of its field.
    pub hostname: String,
}

/// The body bytes that follow the packet id field.
pub open spec fn after_id(s: Seq<u8>) -> Seq<u8> {
    s.skip(decode_len(s))
}

/// The body bytes that follow the protocol version field.
pub open spec fn after_version(s: Seq<u8>) -> Seq<u8> {
    after_id(s).skip(decode_len(after_id(s)))
}

/// A packet body parses as a handshake: id, version, then a sound text
/// field.
pub open spec fn handshake_ok(s: Seq<u8>) -> bool {
    decode_ok(s) && decode_ok(after_id(s)) && str_ok(after_version(s))
}

/// The packet id a handshake body carries.
pub open spec fn spec_packet_id(s: Seq<u8>) -> int {
    as_signed(decoded_u32(s))
}

/// The protocol version a handshake body carries.
pub open spec fn spec_protocol_version(s: Seq<u8>) -> int {
    as_signed(decoded_u32(after_id(s)))
}

/// The hostname a handshake body carries, after the zero-byte cut.
pub open spec fn spec_hostname(s: Seq<u8>) -> Seq<char> {
    decode_utf8(hostname_bytes(after_version(s)))
}

/// The error a failed handshake parse reports: the first field that fails,
/// in field order.
pub open spec fn spec_handshake_err(s: Seq<u8>) -> ParseError {
    if !decode_ok(s) {
        spec_str_err(s)
    } else if !decode_ok(after_id(s)) {
        spec_str_err(after_id(s))
    } else {
        spec_str_err(after_version(s))
    }
}

/// Extracts the handshake fields from a complete packet body: packet id,
/// protocol version, and the hostname cut at the first zero byte of its
/// field.
pub fn parse_handshake(p: &RawPacket) -> (r: Result<HandshakeInfo, ParseError>)
    ensures
        r is Ok <==> handshake_ok(p@),
        r matches Ok(h) ==> h.packet_id as int == spec_packet_id(p@) && h.protocol_version as int
            == spec_protocol_version(p@) && h.hostname@ == spec_hostname(p@),
        r matches Err(e) ==> e == spec_handshake_err(p@),
{
    let s = p.inner().as_slice();
    let v1 = match varint::read_var_i32(s) {
        Ok(v) => v,
        Err(e) => {
            return Err(ParseError::BadVarInt(e));
        },
    };
    let rest1 = &s[v1.len()..s.len()];
    proof {
        assert(rest1@ =~= after_id(p@));
    }
    let v2 = match varint::read_var_i32(rest1) {
        Ok(v) => v,
        Err(e) => {
            return Err(ParseError::BadVarInt(e));
        },
    };
    let rest2 = &rest1[v2.len()..rest1.len()];
    proof {
        assert(rest2@ =~= after_version(p@));
    }
    match read_string(rest2) {
        Ok((hostname, _consumed)) => Ok(
            HandshakeInfo { packet_id: v1.value(), protocol_version: v2.value(), hostname },
        ),
        Err(e) => Err(e),
    }
}

} // verus!
