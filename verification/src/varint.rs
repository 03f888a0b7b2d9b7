//! The protocol's variable-length integer codec.
//!
//! A value in the signed 32-bit range is carried by 1 to 5 bytes. Each byte
//! contributes its low 7 bits, least-significant group first; the high bit of
//! a byte is the continuation flag. The fifth byte, when present, contributes
//! only its low 4 bits. Decoding stops at the first byte whose continuation
//! flag is clear; if 5 bytes pass without one, the input is rejected.
//!
//! Two decode modes exist: loose decoding accepts any terminated encoding and
//! silently masks redundant bits of the final byte, while strict decoding
//! additionally rejects encodings whose final byte carries no information
//! (a longer form than the value needs) or, in the 5-byte case, carries bits
//! beyond the 4 that a 32-bit value can still use.

use vstd::prelude::*;

verus! {

use vstd::arithmetic::div_mod::{lemma_div_denominator, lemma_fundamental_div_mod};
use crate::convert::{AsInner, IntoInner};

/// Longest encoded form of a 32-bit value.
pub const MAX_VARINT_LEN: usize = 5;

/// The continuation flag of an encoded byte: its high bit.
pub open spec fn cont(b: u8) -> bool {
    b >= 128
}

/// The 7 data bits of an encoded byte.
pub open spec fn data(b: u8) -> int {
    (b % 128) as int
}

/// 128 raised to the `i`th power: the weight of the `i`th data group.
pub open spec fn pow128(i: int) -> int
    decreases i,
{
    if i <= 0 {
        1
    } else {
        128 * pow128(i - 1)
    }
}

/// The data group byte `i` contributes to the value. The fifth byte keeps
/// only its low 4 bits: higher ones do not fit in 32 bits and loose decoding
/// masks them off.
pub open spec fn group(s: Seq<u8>, i: int) -> int {
    if i == 4 {
        data(s[i]) % 16
    } else {
        data(s[i])
    }
}

/// The value reassembled from the first `n` bytes of `s`, least-significant
/// group first.
pub open spec fn raw_value(s: Seq<u8>, n: int) -> int
    decreases n,
{
    if n <= 0 {
        0
    } else {
        raw_value(s, n - 1) + group(s, n - 1) * pow128(n - 1)
    }
}

/// The index of the first byte at or after `i` whose continuation flag is
/// clear, or `s.len()` when every byte from `i` on has it set.
pub open spec fn term_index_from(s: Seq<u8>, i: int) -> int
    decreases s.len() - i,
{
    if i < 0 || i >= s.len() {
        s.len() as int
    } else if !cont(s[i]) {
        i
    } else {
        term_index_from(s, i + 1)
    }
}

/// The index of the terminating byte of an encoding starting at `s[0]`.
pub open spec fn term_index(s: Seq<u8>) -> int {
    term_index_from(s, 0)
}

/// Loose decoding succeeds: a terminating byte occurs within the first
/// 5 bytes of the source.
pub open spec fn decode_ok(s: Seq<u8>) -> bool {
    term_index(s) < 5 && term_index(s) < s.len()
}

/// How many bytes a successful decode consumes.
pub open spec fn decode_len(s: Seq<u8>) -> int {
    term_index(s) + 1
}

/// 5 bytes were available and none of the first 5 terminates.
pub open spec fn bad_continue(s: Seq<u8>) -> bool {
    s.len() >= 5 && term_index(s) >= 5
}

/// The source ended before a terminating byte was seen, with fewer than
/// 5 bytes available.
pub open spec fn not_enough_data(s: Seq<u8>) -> bool {
    s.len() < 5 && term_index(s) == s.len()
}

/// The unsigned 32-bit value a successful loose decode yields.
pub open spec fn decoded_u32(s: Seq<u8>) -> int {
    raw_value(s, decode_len(s))
}

/// A 5-byte encoding whose final byte sets data bits beyond the 4 that a
/// 32-bit value can use; strict decoding rejects it.
pub open spec fn strict_redundant(s: Seq<u8>) -> bool {
    decode_ok(s) && term_index(s) == 4 && data(s[4]) >= 16
}

/// A multi-byte encoding whose final byte contributes nothing, so a shorter
/// encoding would have carried the same value; strict decoding rejects it.
pub open spec fn strict_loose(s: Seq<u8>) -> bool {
    decode_ok(s) && !strict_redundant(s) && term_index(s) >= 1 && group(s, term_index(s)) == 0
}

/// Strict decoding succeeds.
pub open spec fn strict_ok(s: Seq<u8>) -> bool {
    decode_ok(s) && !strict_redundant(s) && !strict_loose(s)
}

/// The unsigned 32-bit number with the same bit pattern as `v`.
pub open spec fn as_unsigned(v: i32) -> int {
    if v >= 0 {
        v as int
    } else {
        v as int + 0x1_0000_0000
    }
}

/// The signed 32-bit number with the same bit pattern as the unsigned `u`.
pub open spec fn as_signed(u: int) -> int {
    if u < 0x8000_0000 {
        u
    } else {
        u - 0x1_0000_0000
    }
}

/// The canonical (shortest) encoding of an unsigned 32-bit value.
pub open spec fn spec_encode(u: int) -> Seq<u8> {
    if u < 0x80 {
        seq![u as u8]
    } else if u < 0x4000 {
        seq![(u % 128 + 128) as u8, (u / 128) as u8]
    } else if u < 0x20_0000 {
        seq![(u % 128 + 128) as u8, (u / 128 % 128 + 128) as u8, (u / 0x4000) as u8]
    } else if u < 0x1000_0000 {
        seq![
            (u % 128 + 128) as u8,
            (u / 128 % 128 + 128) as u8,
            (u / 0x4000 % 128 + 128) as u8,
            (u / 0x20_0000) as u8,
        ]
    } else {
        seq![
            (u % 128 + 128) as u8,
            (u / 128 % 128 + 128) as u8,
            (u / 0x4000 % 128 + 128) as u8,
            (u / 0x20_0000 % 128 + 128) as u8,
            (u / 0x1000_0000) as u8,
        ]
    }
}

/// How an attempt to parse bytes as a variable-length integer can fail.
#[derive(Debug, Clone, Copy, PartialEq, Eq, Structural)]
pub enum VarIntError {
    /// The source ended before a byte with a clear continuation flag.
    NotEnoughData,
    /// The continuation flag of the fifth byte is still set.
    BadContinueBit,
    /// The final byte carries data bits a 32-bit value cannot hold.
    RedundantData,
    /// The final few bytes contain only zeros: a shorter encoding would do.
    Loose,
}

/// A decoded variable-length integer: its value together with the number of
/// bytes its encoded form occupied. A loosely decoded value may occupy more
/// bytes than the canonical form needs.
#[derive(Debug, Clone, Copy)]
pub struct VarInt {
    value: u32,
    len: usize,
}

impl VarInt {
    /// The decoded 32-bit pattern, as an unsigned number.
    pub closed spec fn spec_value(&self) -> int {
        self.value as int
    }

    /// The number of bytes the encoded form occupied.
    pub closed spec fn spec_len(&self) -> int {
        self.len as int
    }

    /// A decoded value is carried by 1 to 5 bytes.
    pub open spec fn wf(&self) -> bool {
        1 <= self.spec_len() <= 5
    }

    /// The number of bytes the encoded form occupied.
    pub fn len(&self) -> (r: usize)
        ensures
            r == self.spec_len(),
    {
        self.len
    }

    /// The decoded value, reinterpreted as a signed 32-bit integer.
    pub fn value(&self) -> (r: i32)
        ensures
            r as int == as_signed(self.spec_value()),
    {
        if self.value < 0x8000_0000 {
            self.value as i32
        } else {
            (self.value as i64 - 0x1_0000_0000) as i32
        }
    }
}

impl Default for VarInt {
    /// The one-byte encoding of zero.
    fn default() -> (r: Self)
        ensures
            r.spec_value() == 0,
            r.spec_len() == 1,
            r.wf(),
    {
        VarInt { value: 0, len: 1 }
    }
}

/// A variable-length integer known to be in canonical form: the shortest
/// encoding of its value, as strict decoding demands.
#[derive(Debug, Clone, Copy)]
pub struct StrictVarInt(VarInt);

impl StrictVarInt {
    /// The decoded 32-bit pattern, as an unsigned number.
    pub closed spec fn spec_value(&self) -> int {
        self.0.spec_value()
    }

    /// The number of bytes the encoded form occupies.
    pub closed spec fn spec_len(&self) -> int {
        self.0.spec_len()
    }

    /// Canonical form: the length is exactly that of the canonical encoding.
    pub open spec fn wf(&self) -> bool {
        1 <= self.spec_len() <= 5 && self.spec_len() == spec_encode(self.spec_value()).len()
    }

    /// The number of bytes the encoded form occupies.
    pub fn len(&self) -> (r: usize)
        ensures
            r == self.spec_len(),
    {
        self.0.len()
    }

    /// The decoded value, reinterpreted as a signed 32-bit integer.
    pub fn value(&self) -> (r: i32)
        ensures
            r as int == as_signed(self.spec_value()),
    {
        self.0.value()
    }
}

impl PartialEq for StrictVarInt {
    fn eq(&self, other: &Self) -> (r: bool) {
        self.0.value == other.0.value && self.0.len == other.0.len
    }
}

impl Eq for StrictVarInt {}

impl vstd::std_specs::cmp::PartialEqSpecImpl for StrictVarInt {
    open spec fn obeys_eq_spec() -> bool {
        true
    }

    open spec fn eq_spec(&self, other: &Self) -> bool {
        self.spec_value() == other.spec_value() && self.spec_len() == other.spec_len()
    }
}

impl AsInner<VarInt> for StrictVarInt {
    fn as_inner(&self) -> &VarInt {
        &self.0
    }
}

impl IntoInner<VarInt> for StrictVarInt {
    fn into_inner(self) -> VarInt {
        self.0
    }
}

/// Reads one variable-length integer loosely from the front of `bytes`:
/// any encoding that terminates within 5 bytes is accepted, and redundant
/// data bits of the final byte are masked off silently.
pub fn read_var_i32(bytes: &[u8]) -> (r: Result<VarInt, VarIntError>)
    ensures
        match r {
            Ok(v) => decode_ok(bytes@) && v.wf() && v.spec_len() == decode_len(bytes@)
                && v.spec_value() == decoded_u32(bytes@),
            Err(VarIntError::BadContinueBit) => bad_continue(bytes@),
            Err(VarIntError::NotEnoughData) => not_enough_data(bytes@),
            Err(_) => false,
        },
{
    let mut value: u32 = 0;
    let mut mult: u32 = 1;
    let mut i: usize = 0;
    loop
        invariant
            i <= 4,
            i <= bytes@.len(),
            mult == pow128(i as int),
            value == raw_value(bytes@, i as int),
            value < pow128(i as int),
            term_index(bytes@) == term_index_from(bytes@, i as int),
        decreases 5 - i,
    {
        proof {
            lemma_pow128_bounds();
        }
        if i >= bytes.len() {
            // every available byte had its continuation flag set
            return Err(VarIntError::NotEnoughData);
        }
        let b = bytes[i];
        let g: u32 = if i == 4 {
            (b % 128 % 16) as u32
        } else {
            (b % 128) as u32
        };
        proof {
            assert(g == group(bytes@, i as int));
            if i == 4 {
                assert(value + g * mult < 0x1_0000_0000) by (nonlinear_arith)
                    requires
                        value < 0x1000_0000,
                        g <= 15,
                        mult == 0x1000_0000,
                ;
            } else {
                assert(value + g * mult < 128 * mult) by (nonlinear_arith)
                    requires
                        value < mult,
                        g <= 127,
                        0 < mult,
                ;
                assert(128 * pow128(i as int) == pow128(i as int + 1));
            }
        }
        if b < 128 {
            // terminating byte: the continuation flag is clear
            return Ok(VarInt { value: value + g * mult, len: i + 1 });
        }
        if i == 4 {
            proof {
                lemma_term_index_from_ge(bytes@, 5);
            }
            return Err(VarIntError::BadContinueBit);
        }
        value = value + g * mult;
        mult = mult * 128;
        i = i + 1;
    }
}

/// A sequence whose first clear continuation flag sits at index `k`
/// has `k` as its terminator index.
pub proof fn lemma_term_index_characterization(s: Seq<u8>, k: int)
    requires
        0 <= k < s.len(),
        !cont(s[k]),
        forall|i: int| 0 <= i < k ==> cont(s[i]),
    ensures
        term_index(s) == k,
{
    lemma_term_index_characterization_from(s, 0, k);
}

proof fn lemma_term_index_characterization_from(s: Seq<u8>, j: int, k: int)
    requires
        0 <= j <= k < s.len(),
        !cont(s[k]),
        forall|i: int| j <= i < k ==> cont(s[i]),
    ensures
        term_index_from(s, j) == k,
    decreases k - j,
{
    if j < k {
        lemma_term_index_characterization_from(s, j + 1, k);
    }
}

/// Every byte before the terminator index has its continuation flag set,
/// and the byte at it (when one was found) has it clear.
pub proof fn lemma_term_index_properties(s: Seq<u8>)
    requires
        term_index(s) < s.len(),
    ensures
        0 <= term_index(s),
        !cont(s[term_index(s)]),
        forall|i: int| 0 <= i < term_index(s) ==> cont(s[i]),
{
    lemma_term_index_properties_from(s, 0);
}

proof fn lemma_term_index_properties_from(s: Seq<u8>, j: int)
    requires
        0 <= j <= s.len(),
        term_index_from(s, j) < s.len(),
    ensures
        j <= term_index_from(s, j),
        !cont(s[term_index_from(s, j)]),
        forall|i: int| j <= i < term_index_from(s, j) ==> cont(s[i]),
    decreases s.len() - j,
{
    if j < s.len() && cont(s[j]) {
        lemma_term_index_properties_from(s, j + 1);
    }
}

/// The value assembled from the first `n` bytes reads nothing past them:
/// two sequences that agree on those bytes assemble the same value.
pub proof fn lemma_raw_value_agree(s1: Seq<u8>, s2: Seq<u8>, n: int)
    requires
        forall|i: int| 0 <= i < n ==> s1[i] == s2[i],
        n <= s1.len(),
        n <= s2.len(),
    ensures
        raw_value(s1, n) == raw_value(s2, n),
    decreases n,
{
    if n > 0 {
        lemma_raw_value_agree(s1, s2, n - 1);
    }
}

/// Decoding reads only the bytes it consumes: any sequence that agrees with
/// a decodable one on the consumed bytes decodes identically, in both modes.
pub proof fn lemma_decode_depends_on_prefix(s1: Seq<u8>, s2: Seq<u8>)
    requires
        decode_ok(s1),
        s2.len() >= decode_len(s1),
        forall|i: int| 0 <= i < decode_len(s1) ==> s1[i] == s2[i],
    ensures
        decode_ok(s2),
        decode_len(s2) == decode_len(s1),
        decoded_u32(s2) == decoded_u32(s1),
        strict_redundant(s2) == strict_redundant(s1),
        strict_loose(s2) == strict_loose(s1),
        strict_ok(s2) == strict_ok(s1),
{
    let k = term_index(s1);
    lemma_term_index_properties(s1);
    lemma_term_index_characterization(s2, k);
    lemma_raw_value_agree(s1, s2, k + 1);
}

/// The first clear continuation flag at or after `i` is no earlier than `i`
/// and no later than the end of the sequence.
proof fn lemma_term_index_from_ge(s: Seq<u8>, i: int)
    requires
        0 <= i <= s.len(),
    ensures
        i <= term_index_from(s, i) <= s.len(),
    decreases s.len() - i,
{
    if i < s.len() && cont(s[i]) {
        lemma_term_index_from_ge(s, i + 1);
    }
}

/// Reads one variable-length integer strictly from the front of `bytes`:
/// beyond loose decoding, the final byte must carry information the value
/// actually needs.
pub fn read_var_i32_strict(bytes: &[u8]) -> (r: Result<StrictVarInt, VarIntError>)
    ensures
        match r {
            Ok(v) => strict_ok(bytes@) && v.wf() && v.spec_len() == decode_len(bytes@)
                && v.spec_value() == decoded_u32(bytes@),
            Err(VarIntError::BadContinueBit) => bad_continue(bytes@),
            Err(VarIntError::NotEnoughData) => not_enough_data(bytes@),
            Err(VarIntError::RedundantData) => strict_redundant(bytes@),
            Err(VarIntError::Loose) => strict_loose(bytes@),
        },
{
    let v = match read_var_i32(bytes) {
        Ok(v) => v,
        Err(e) => {
            return Err(e);
        },
    };
    let last = bytes[v.len() - 1];
    if v.len() == 5 && last % 128 >= 16 {
        return Err(VarIntError::RedundantData);
    }
    let g = if v.len() == 5 {
        last % 128 % 16
    } else {
        last % 128
    };
    if v.len() > 1 && g == 0 {
        return Err(VarIntError::Loose);
    }
    proof {
        lemma_strict_canonical(bytes@);
    }
    Ok(StrictVarInt(v))
}

/// Appends the canonical encoding of `v`'s value to `out`.
pub fn write_var_i32(out: &mut Vec<u8>, v: &StrictVarInt)
    requires
        v.wf(),
    ensures
        final(out)@ == old(out)@ + spec_encode(v.spec_value()),
        final(out)@.len() == old(out)@.len() + v.spec_len(),
{
    let u = v.0.value;
    write_u32_varint(out, u);
    proof {
        assert(v.spec_len() == spec_encode(v.spec_value()).len());
    }
}

/// Appends the canonical variable-length encoding of `u` to `out`.
pub fn write_u32_varint(out: &mut Vec<u8>, u: u32)
    ensures
        final(out)@ == old(out)@ + spec_encode(u as int),
{
    if u < 0x80 {
        out.push(u as u8);
    } else if u < 0x4000 {
        out.push((u % 128 + 128) as u8);
        out.push((u / 128) as u8);
    } else if u < 0x20_0000 {
        out.push((u % 128 + 128) as u8);
        out.push((u / 128 % 128 + 128) as u8);
        out.push((u / 0x4000) as u8);
    } else if u < 0x1000_0000 {
        out.push((u % 128 + 128) as u8);
        out.push((u / 128 % 128 + 128) as u8);
        out.push((u / 0x4000 % 128 + 128) as u8);
        out.push((u / 0x20_0000) as u8);
    } else {
        out.push((u % 128 + 128) as u8);
        out.push((u / 128 % 128 + 128) as u8);
        out.push((u / 0x4000 % 128 + 128) as u8);
        out.push((u / 0x20_0000 % 128 + 128) as u8);
        out.push((u / 0x1000_0000) as u8);
    }
    proof {
        assert(out@ =~= old(out)@ + spec_encode(u as int));
    }
}

/// Encodes a signed 32-bit value in canonical form.
pub fn encode_var_i32(v: i32) -> (r: StrictVarInt)
    ensures
        r.wf(),
        r.spec_value() == as_unsigned(v),
        r.spec_len() == spec_encode(as_unsigned(v)).len(),
{
    let u: u32 = if v >= 0 {
        v as u32
    } else {
        (v as i64 + 0x1_0000_0000) as u32
    };
    let len: usize = if u < 0x80 {
        1
    } else if u < 0x4000 {
        2
    } else if u < 0x20_0000 {
        3
    } else if u < 0x1000_0000 {
        4
    } else {
        5
    };
    StrictVarInt(VarInt { value: u, len })
}

/// The weights of the five data groups, for direct use in proofs.
pub proof fn lemma_pow128_bounds()
    ensures
        pow128(0) == 1,
        pow128(1) == 128,
        pow128(2) == 0x4000,
        pow128(3) == 0x20_0000,
        pow128(4) == 0x1000_0000,
        pow128(5) == 0x8_0000_0000,
{
    reveal_with_fuel(pow128, 6);
}

/// Round trip: the canonical encoding of an unsigned 32-bit value is
/// accepted by strict decoding (and so by loose decoding), consumes exactly
/// its own bytes, and yields the value back.
pub proof fn lemma_encode_strict_round_trip(u: int)
    requires
        0 <= u < 0x1_0000_0000,
    ensures
        1 <= spec_encode(u).len() <= 5,
        strict_ok(spec_encode(u)),
        decode_len(spec_encode(u)) == spec_encode(u).len(),
        decoded_u32(spec_encode(u)) == u,
{
    lemma_pow128_bounds();
    let s = spec_encode(u);
    reveal_with_fuel(term_index_from, 6);
    reveal_with_fuel(raw_value, 6);
    lemma_fundamental_div_mod(u, 128);
    if u < 0x80 {
        assert(term_index(s) == 0);
    } else if u < 0x4000 {
        assert(term_index(s) == 1);
        assert(decoded_u32(s) == u);
    } else if u < 0x20_0000 {
        lemma_div_denominator(u, 128, 128);
        lemma_fundamental_div_mod(u / 128, 128);
        assert(term_index(s) == 2);
        assert(decoded_u32(s) == u);
    } else if u < 0x1000_0000 {
        lemma_div_denominator(u, 128, 128);
        lemma_fundamental_div_mod(u / 128, 128);
        lemma_div_denominator(u, 0x4000, 128);
        lemma_fundamental_div_mod(u / 0x4000, 128);
        assert(term_index(s) == 3);
        assert(decoded_u32(s) == u);
    } else {
        lemma_div_denominator(u, 128, 128);
        lemma_fundamental_div_mod(u / 128, 128);
        lemma_div_denominator(u, 0x4000, 128);
        lemma_fundamental_div_mod(u / 0x4000, 128);
        lemma_div_denominator(u, 0x20_0000, 128);
        lemma_fundamental_div_mod(u / 0x20_0000, 128);
        assert(term_index(s) == 4);
        assert(decoded_u32(s) == u);
    }
}

/// Round trip for signed 32-bit values: encoding and then decoding, in
/// either mode, gives the value back, and the encoding is at most 5 bytes.
pub proof fn lemma_varint_round_trip(v: i32)
    ensures
        1 <= spec_encode(as_unsigned(v)).len() <= 5,
        strict_ok(spec_encode(as_unsigned(v))),
        decode_ok(spec_encode(as_unsigned(v))),
        decoded_u32(spec_encode(as_unsigned(v))) == as_unsigned(v),
        as_signed(as_unsigned(v)) == v as int,
{
    lemma_encode_strict_round_trip(as_unsigned(v));
}

/// A value that loose decoding accepts and the strict final-byte checks pass
/// is in canonical form: it occupies exactly as many bytes as the canonical
/// encoding of its value.
proof fn lemma_strict_canonical(s: Seq<u8>)
    requires
        strict_ok(s),
    ensures
        decode_len(s) == spec_encode(decoded_u32(s)).len(),
        decoded_u32(s) < 0x1_0000_0000,
{
    lemma_pow128_bounds();
    lemma_term_index_from_ge(s, 0);
    let k = term_index(s);
    reveal_with_fuel(raw_value, 6);
    if k == 0 {
        assert(decoded_u32(s) == group(s, 0));
    } else if k == 1 {
        assert(decoded_u32(s) == group(s, 0) + group(s, 1) * 128);
        assert(group(s, 1) >= 1);
        assert(group(s, 1) * 128 >= 128) by (nonlinear_arith)
            requires group(s, 1) >= 1;
        assert(group(s, 1) * 128 <= 127 * 128) by (nonlinear_arith)
            requires group(s, 1) <= 127;
    } else if k == 2 {
        assert(group(s, 2) >= 1);
        assert(group(s, 2) * 0x4000 >= 0x4000) by (nonlinear_arith)
            requires group(s, 2) >= 1;
        assert(group(s, 2) * 0x4000 <= 127 * 0x4000) by (nonlinear_arith)
            requires group(s, 2) <= 127;
        assert(group(s, 1) * 128 <= 127 * 128) by (nonlinear_arith)
            requires group(s, 1) <= 127;
    } else if k == 3 {
        assert(group(s, 3) >= 1);
        assert(group(s, 3) * 0x20_0000 >= 0x20_0000) by (nonlinear_arith)
            requires group(s, 3) >= 1;
        assert(group(s, 3) * 0x20_0000 <= 127 * 0x20_0000) by (nonlinear_arith)
            requires group(s, 3) <= 127;
        assert(group(s, 2) * 0x4000 <= 127 * 0x4000) by (nonlinear_arith)
            requires group(s, 2) <= 127;
        assert(group(s, 1) * 128 <= 127 * 128) by (nonlinear_arith)
            requires group(s, 1) <= 127;
    } else {
        assert(group(s, 4) >= 1);
        assert(group(s, 4) * 0x1000_0000 >= 0x1000_0000) by (nonlinear_arith)
            requires group(s, 4) >= 1;
        assert(group(s, 4) * 0x1000_0000 <= 15 * 0x1000_0000) by (nonlinear_arith)
            requires group(s, 4) <= 15;
        assert(group(s, 3) * 0x20_0000 <= 127 * 0x20_0000) by (nonlinear_arith)
            requires group(s, 3) <= 127;
        assert(group(s, 2) * 0x4000 <= 127 * 0x4000) by (nonlinear_arith)
            requires group(s, 2) <= 127;
        assert(group(s, 1) * 128 <= 127 * 128) by (nonlinear_arith)
            requires group(s, 1) <= 127;
    }
}

} // verus!
