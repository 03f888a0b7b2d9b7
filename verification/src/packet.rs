//! Length-prefixed packet framing.
//!
//! One protocol packet on the wire is a loosely decoded variable-length
//! integer declaring the body length, followed by that many body bytes. The
//! declared length is validated against `1..=MAX_PACKET_LEN` before any body
//! byte is read, so a hostile peer cannot make the framer allocate beyond
//! that bound.

use vstd::prelude::*;

use crate::convert::{AsInner, IntoInner, TryFromInner};
use crate::ranging::{I32Range, RangeCmp, Ranging};
use crate::varint;
use crate::varint::VarIntError;

verus! {

use crate::varint::{
    as_signed, decode_len, decode_ok, decoded_u32, bad_continue, not_enough_data, spec_encode,
};

/// The protocol's handshake-era upper bound on a packet body's length.
pub const MAX_PACKET_LEN: usize = 0x1F_FFFF;

/// How reading one framed packet from a byte source can fail.
#[derive(Debug, Clone, Copy, PartialEq, Eq, Structural)]
pub enum FrameError {
    /// The source ended before the length prefix or the body was complete.
    NotEnoughData,
    /// The length prefix is not a well-formed variable-length integer.
    BadLengthPrefix,
    /// The declared body length is outside `1..=MAX_PACKET_LEN`.
    LengthOutOfRange,
}

/// The body length a framed sequence declares, as a signed 32-bit value.
pub open spec fn declared_len(s: Seq<u8>) -> int {
    as_signed(decoded_u32(s))
}

/// The declared length is one the framer accepts.
pub open spec fn len_in_range(s: Seq<u8>) -> bool {
    1 <= declared_len(s) <= MAX_PACKET_LEN
}

/// A whole packet is present: a decodable length prefix, an acceptable
/// declared length, and that many body bytes available after the prefix.
pub open spec fn frame_ok(s: Seq<u8>) -> bool {
    decode_ok(s) && len_in_range(s) && s.len() >= decode_len(s) + declared_len(s)
}

/// The body bytes of a framed sequence.
pub open spec fn frame_body(s: Seq<u8>) -> Seq<u8> {
    s.subrange(decode_len(s), decode_len(s) + declared_len(s))
}

/// One complete packet body, without its length prefix. Its length is
/// between 1 and `MAX_PACKET_LEN`, enforced at construction.
#[derive(Debug)]
pub struct RawPacket {
    inner: Vec<u8>,
}

impl View for RawPacket {
    type V = Seq<u8>;

    closed spec fn view(&self) -> Seq<u8> {
        self.inner@
    }
}

impl RawPacket {
    /// A packet body is never empty and never longer than the protocol
    /// allows.
    pub open spec fn wf(&self) -> bool {
        1 <= self@.len() <= MAX_PACKET_LEN
    }

    /// The body bytes.
    pub fn inner(&self) -> (r: &Vec<u8>)
        ensures
            r@ == self@,
    {
        &self.inner
    }

    /// The body length in bytes.
    pub fn len(&self) -> (r: usize)
        ensures
            r == self@.len(),
    {
        self.inner.len()
    }

    /// Reads one framed packet from the front of `bytes`: a loosely decoded
    /// length prefix, validated against `1..=MAX_PACKET_LEN`, then exactly
    /// that many body bytes. Returns the packet and how many bytes of
    /// `bytes` it occupied.
    pub fn read_from(bytes: &[u8]) -> (r: Result<(RawPacket, usize), FrameError>)
        ensures
            match r {
                Ok((p, consumed)) => frame_ok(bytes@) && p.wf() && p@ == frame_body(bytes@)
                    && consumed == decode_len(bytes@) + declared_len(bytes@),
                Err(FrameError::BadLengthPrefix) => bad_continue(bytes@),
                Err(FrameError::LengthOutOfRange) => decode_ok(bytes@) && !len_in_range(bytes@),
                Err(FrameError::NotEnoughData) => not_enough_data(bytes@) || (decode_ok(bytes@)
                    && len_in_range(bytes@) && bytes@.len() < decode_len(bytes@) + declared_len(
                    bytes@,
                )),
            },
    {
        let v = match varint::read_var_i32(bytes) {
            Ok(v) => v,
            Err(VarIntError::BadContinueBit) => {
                return Err(FrameError::BadLengthPrefix);
            },
            Err(_) => {
                return Err(FrameError::NotEnoughData);
            },
        };
        let declared = v.value();
        let accepted = I32Range { start: 1, end: MAX_PACKET_LEN as i32 };
        match accepted.ranging(&declared) {
            Ranging::Contained => {},
            _ => {
                return Err(FrameError::LengthOutOfRange);
            },
        }
        let header = v.len();
        let body_len = declared as usize;
        if bytes.len() - header < body_len {
            return Err(FrameError::NotEnoughData);
        }
        let body = vstd::slice::slice_to_vec(&bytes[header..header + body_len]);
        Ok((RawPacket { inner: body }, header + body_len))
    }

    /// Appends this packet's wire form to `out`: the canonical encoding of
    /// the body length, then the body verbatim. Relaying a packet this way
    /// reproduces every body byte exactly as it was read.
    pub fn write_to(&self, out: &mut Vec<u8>)
        requires
            self.wf(),
        ensures
            final(out)@ == old(out)@ + spec_encode(self@.len() as int) + self@,
    {
        varint::write_u32_varint(out, self.inner.len() as u32);
        out.extend_from_slice(self.inner.as_slice());
        proof {
            assert(out@ =~= old(out)@ + spec_encode(self@.len() as int) + self@);
        }
    }
}

/// A packet body with its leading id field split off: the id, and the
/// payload bytes that follow it.
#[derive(Debug)]
pub struct McPacketRaw {
    /// The packet id.
    pub id: i32,
    /// The body bytes after the id field.
    pub data: Vec<u8>,
}

impl McPacketRaw {
    /// Splits a complete packet body into its id field and the payload
    /// after it.
    pub fn parse(p: &RawPacket) -> (r: Result<McPacketRaw, VarIntError>)
        ensures
            r is Ok <==> decode_ok(p@),
            r matches Ok(m) ==> m.id as int == as_signed(decoded_u32(p@)) && m.data@ == p@.skip(
                decode_len(p@),
            ),
            r matches Err(e) ==> ((e == VarIntError::NotEnoughData && not_enough_data(p@)) || (e
                == VarIntError::BadContinueBit && bad_continue(p@))),
    {
        let s = p.inner().as_slice();
        let v = match varint::read_var_i32(s) {
            Ok(v) => v,
            Err(e) => {
                return Err(e);
            },
        };
        let data = vstd::slice::slice_to_vec(&s[v.len()..s.len()]);
        proof {
            assert(data@ =~= p@.skip(decode_len(p@)));
        }
        Ok(McPacketRaw { id: v.value(), data })
    }
}

impl AsInner<Vec<u8>> for RawPacket {
    fn as_inner(&self) -> &Vec<u8> {
        &self.inner
    }
}

impl IntoInner<Vec<u8>> for RawPacket {
    fn into_inner(self) -> Vec<u8> {
        self.inner
    }
}

impl TryFromInner<Vec<u8>> for RawPacket {
    type Error = FrameError;

    /// Accepts a body whose length the protocol allows.
    fn try_from_inner(inner: Vec<u8>) -> Result<Self, Self::Error> {
        if inner.len() >= 1 && inner.len() <= MAX_PACKET_LEN {
            Ok(RawPacket { inner })
        } else {
            Err(FrameError::LengthOutOfRange)
        }
    }
}

/// Framing round trip: writing a well-formed packet and reading the result
/// back — with any trailing bytes after it — yields the same body and
/// consumes exactly the written bytes.
pub proof fn lemma_frame_round_trip(p: RawPacket, t: Seq<u8>)
    requires
        p.wf(),
    ensures
        ({
            let s = spec_encode(p@.len() as int) + p@ + t;
            frame_ok(s) && frame_body(s) == p@ && decode_len(s) + declared_len(s) == spec_encode(
                p@.len() as int,
            ).len() + p@.len()
        }),
{
    let a = spec_encode(p@.len() as int);
    let s = a + p@ + t;
    varint::lemma_encode_strict_round_trip(p@.len() as int);
    assert(forall|i: int| 0 <= i < a.len() ==> s[i] == a[i]);
    varint::lemma_decode_depends_on_prefix(a, s);
    assert(declared_len(s) == p@.len());
    assert(frame_body(s) =~= p@);
}

} // verus!
