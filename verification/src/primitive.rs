use vstd::prelude::*;

pub mod array;
pub mod leb128;

use crate::DecodeError;
use crate::Decodable;
use crate::Encodable;
use crate::Lossless;
use crate::ReceivedPacket;

verus! {

/// Big-endian bytes of an unsigned 16-bit value.
pub open spec fn be_bytes_u16(v: u16) -> Seq<u8> {
    seq![(v / 0x100) as u8, (v % 0x100) as u8]
}

/// Big-endian bytes of an unsigned 32-bit value.
pub open spec fn be_bytes_u32(v: u32) -> Seq<u8> {
    seq![
        (v / 0x100_0000 % 0x100) as u8,
        (v / 0x1_0000 % 0x100) as u8,
        (v / 0x100 % 0x100) as u8,
        (v % 0x100) as u8,
    ]
}

/// Big-endian bytes of an unsigned 64-bit value.
pub open spec fn be_bytes_u64(v: u64) -> Seq<u8> {
    seq![
        (v / 0x100_0000_0000_0000 % 0x100) as u8,
        (v / 0x1_0000_0000_0000 % 0x100) as u8,
        (v / 0x100_0000_0000 % 0x100) as u8,
        (v / 0x1_0000_0000 % 0x100) as u8,
        (v / 0x100_0000 % 0x100) as u8,
        (v / 0x1_0000 % 0x100) as u8,
        (v / 0x100 % 0x100) as u8,
        (v % 0x100) as u8,
    ]
}

/// Big-endian bytes of an unsigned 128-bit value.
pub open spec fn be_bytes_u128(v: u128) -> Seq<u8> {
    be_bytes_u64((v / 0x1_0000_0000_0000_0000) as u64) + be_bytes_u64((v % 0x1_0000_0000_0000_0000)
        as u64)
}

impl Encodable for u8 {
    open spec fn encodable(&self) -> bool {
        true
    }

    open spec fn encoding(&self) -> Seq<u8> {
        seq![*self]
    }

    fn encode(&self, out: &mut Vec<u8>) -> (n: usize) {
        out.push(*self);
        proof {
            assert(out@ =~= old(out)@ + self.encoding());
            crate::lemma_append_prefix(old(out)@, self.encoding());
        }
        1
    }
}

impl Decodable for u8 {
    open spec fn spec_decode(s: Seq<u8>) -> Result<(int, u8), DecodeError> {
        if s.len() < 1 {
            Err(DecodeError::UnexpectedEnd)
        } else {
            Ok((1int, s[0]))
        }
    }

    fn decode(f: &mut ReceivedPacket) -> (r: Result<Self, DecodeError>) {
        f.read_byte()
    }
}

impl Lossless for u8 {
    proof fn lemma_round_trip(&self, tail: Seq<u8>) {
        assert((self.encoding() + tail)[0] == *self);
    }
}

impl Encodable for u16 {
    open spec fn encodable(&self) -> bool {
        true
    }

    open spec fn encoding(&self) -> Seq<u8> {
        be_bytes_u16(*self)
    }

    fn encode(&self, out: &mut Vec<u8>) -> (n: usize) {
        let v = *self;
        out.push((v / 0x100) as u8);
        out.push((v % 0x100) as u8);
        proof {
            assert(out@ =~= old(out)@ + self.encoding());
            crate::lemma_append_prefix(old(out)@, self.encoding());
        }
        2
    }
}

impl Decodable for u16 {
    open spec fn spec_decode(s: Seq<u8>) -> Result<(int, u16), DecodeError> {
        if s.len() < 2 {
            Err(DecodeError::UnexpectedEnd)
        } else {
            Ok((2int, (s[0] * 0x100 + s[1]) as u16))
        }
    }

    fn decode(f: &mut ReceivedPacket) -> (r: Result<Self, DecodeError>) {
        let bs = match f.read_bytes(2) {
            Ok(v) => v,
            Err(e) => {
                return Err(e);
            },
        };
        Ok((bs[0] as u16) * 0x100 + (bs[1] as u16))
    }
}

impl Lossless for u16 {
    proof fn lemma_round_trip(&self, tail: Seq<u8>) {
        let s = self.encoding() + tail;
        assert(s[0] == self.encoding()[0] && s[1] == self.encoding()[1]);
    }
}

impl Encodable for u32 {
    open spec fn encodable(&self) -> bool {
        true
    }

    open spec fn encoding(&self) -> Seq<u8> {
        be_bytes_u32(*self)
    }

    fn encode(&self, out: &mut Vec<u8>) -> (n: usize) {
        let v = *self;
        out.push((v / 0x100_0000 % 0x100) as u8);
        out.push((v / 0x1_0000 % 0x100) as u8);
        out.push((v / 0x100 % 0x100) as u8);
        out.push((v % 0x100) as u8);
        proof {
            assert(out@ =~= old(out)@ + self.encoding());
            crate::lemma_append_prefix(old(out)@, self.encoding());
        }
        4
    }
}

impl Decodable for u32 {
    open spec fn spec_decode(s: Seq<u8>) -> Result<(int, u32), DecodeError> {
        if s.len() < 4 {
            Err(DecodeError::UnexpectedEnd)
        } else {
            Ok((4int, (s[0] * 0x100_0000 + s[1] * 0x1_0000 + s[2] * 0x100 + s[3]) as u32))
        }
    }

    fn decode(f: &mut ReceivedPacket) -> (r: Result<Self, DecodeError>) {
        let bs = match f.read_bytes(4) {
            Ok(v) => v,
            Err(e) => {
                return Err(e);
            },
        };
        Ok((bs[0] as u32) * 0x100_0000 + (bs[1] as u32) * 0x1_0000 + (bs[2] as u32) * 0x100 + (
        bs[3] as u32))
    }
}

impl Lossless for u32 {
    proof fn lemma_round_trip(&self, tail: Seq<u8>) {
        let s = self.encoding() + tail;
        assert(s[0] == self.encoding()[0] && s[1] == self.encoding()[1] && s[2]
            == self.encoding()[2] && s[3] == self.encoding()[3]);
    }
}

impl Encodable for u64 {
    open spec fn encodable(&self) -> bool {
        true
    }

    open spec fn encoding(&self) -> Seq<u8> {
        be_bytes_u64(*self)
    }

    fn encode(&self, out: &mut Vec<u8>) -> (n: usize) {
        let v = *self;
        out.push((v / 0x100_0000_0000_0000 % 0x100) as u8);
        out.push((v / 0x1_0000_0000_0000 % 0x100) as u8);
        out.push((v / 0x100_0000_0000 % 0x100) as u8);
        out.push((v / 0x1_0000_0000 % 0x100) as u8);
        out.push((v / 0x100_0000 % 0x100) as u8);
        out.push((v / 0x1_0000 % 0x100) as u8);
        out.push((v / 0x100 % 0x100) as u8);
        out.push((v % 0x100) as u8);
        proof {
            assert(out@ =~= old(out)@ + self.encoding());
            crate::lemma_append_prefix(old(out)@, self.encoding());
        }
        8
    }
}

impl Decodable for u64 {
    open spec fn spec_decode(s: Seq<u8>) -> Result<(int, u64), DecodeError> {
        if s.len() < 8 {
            Err(DecodeError::UnexpectedEnd)
        } else {
            Ok(
                (
                    8int,
                    (s[0] * 0x100_0000_0000_0000 + s[1] * 0x1_0000_0000_0000 + s[2]
                        * 0x100_0000_0000 + s[3] * 0x1_0000_0000 + s[4] * 0x100_0000 + s[5]
                        * 0x1_0000 + s[6] * 0x100 + s[7]) as u64,
                ),
            )
        }
    }

    fn decode(f: &mut ReceivedPacket) -> (r: Result<Self, DecodeError>) {
        let bs = match f.read_bytes(8) {
            Ok(v) => v,
            Err(e) => {
                return Err(e);
            },
        };
        Ok(
            (bs[0] as u64) * 0x100_0000_0000_0000 + (bs[1] as u64) * 0x1_0000_0000_0000 + (
            bs[2] as u64) * 0x100_0000_0000 + (bs[3] as u64) * 0x1_0000_0000 + (bs[4] as u64)
                * 0x100_0000 + (bs[5] as u64) * 0x1_0000 + (bs[6] as u64) * 0x100 + (bs[7] as u64),
        )
    }
}

impl Lossless for u64 {
    #[verifier::rlimit(60)]
    proof fn lemma_round_trip(&self, tail: Seq<u8>) {
        let e = self.encoding();
        let s = e + tail;
        assert(s[0] == e[0] && s[1] == e[1] && s[2] == e[2] && s[3] == e[3] && s[4] == e[4] && s[5]
            == e[5] && s[6] == e[6] && s[7] == e[7]);
        let v = *self;
        assert((v / 0x100_0000_0000_0000 % 0x100) * 0x100_0000_0000_0000 + (v / 0x1_0000_0000_0000
            % 0x100) * 0x1_0000_0000_0000 + (v / 0x100_0000_0000 % 0x100) * 0x100_0000_0000 + (v
            / 0x1_0000_0000 % 0x100) * 0x1_0000_0000 + (v / 0x100_0000 % 0x100) * 0x100_0000 + (v
            / 0x1_0000 % 0x100) * 0x1_0000 + (v / 0x100 % 0x100) * 0x100 + v % 0x100 == v)
            by (bit_vector);
    }
}

impl Encodable for u128 {
    open spec fn encodable(&self) -> bool {
        true
    }

    open spec fn encoding(&self) -> Seq<u8> {
        be_bytes_u128(*self)
    }

    fn encode(&self, out: &mut Vec<u8>) -> (n: usize) {
        let v = *self;
        let hi = (v / 0x1_0000_0000_0000_0000) as u64;
        let lo = (v % 0x1_0000_0000_0000_0000) as u64;
        let n1 = hi.encode(out);
        let n2 = lo.encode(out);
        proof {
            assert(out@ =~= old(out)@ + self.encoding());
            crate::lemma_append_prefix(old(out)@, self.encoding());
        }
        16
    }
}

impl Decodable for u128 {
    open spec fn spec_decode(s: Seq<u8>) -> Result<(int, u128), DecodeError> {
        if s.len() < 16 {
            Err(DecodeError::UnexpectedEnd)
        } else {
            match (u64::spec_decode(s), u64::spec_decode(s.skip(8))) {
                (Ok(hp), Ok(lp)) => Ok((16int, (hp.1 * 0x1_0000_0000_0000_0000 + lp.1) as u128)),
                _ => Err(DecodeError::UnexpectedEnd),
            }
        }
    }

    fn decode(f: &mut ReceivedPacket) -> (r: Result<Self, DecodeError>) {
        let ghost s = old(f).rest();
        let hi = match u64::decode(f) {
            Ok(v) => v,
            Err(e) => {
                return Err(e);
            },
        };
        let lo = match u64::decode(f) {
            Ok(v) => v,
            Err(e) => {
                return Err(e);
            },
        };
        proof {
            if s.len() >= 16 {
                assert(f.rest() =~= s.skip(8).skip(8));
            }
        }
        Ok((hi as u128) * 0x1_0000_0000_0000_0000 + (lo as u128))
    }
}

impl Lossless for u128 {
    proof fn lemma_round_trip(&self, tail: Seq<u8>) {
        let hi = (*self / 0x1_0000_0000_0000_0000) as u64;
        let lo = (*self % 0x1_0000_0000_0000_0000) as u64;
        let s = self.encoding() + tail;
        assert(s.skip(0) =~= hi.encoding() + (lo.encoding() + tail));
        hi.lemma_round_trip(lo.encoding() + tail);
        assert(s =~= s.skip(0));
        assert(s.skip(8) =~= lo.encoding() + tail);
        lo.lemma_round_trip(tail);
    }
}

impl Encodable for i8 {
    open spec fn encodable(&self) -> bool {
        true
    }

    open spec fn encoding(&self) -> Seq<u8> {
        seq![*self as u8]
    }

    fn encode(&self, out: &mut Vec<u8>) -> (n: usize) {
        let u = *self as u8;
        let n = u.encode(out);
        proof {
            assert(self.encoding() =~= u.encoding());
        }
        n
    }
}

impl Decodable for i8 {
    open spec fn spec_decode(s: Seq<u8>) -> Result<(int, i8), DecodeError> {
        match u8::spec_decode(s) {
            Ok(p) => Ok((p.0, p.1 as i8)),
            Err(e) => Err(e),
        }
    }

    fn decode(f: &mut ReceivedPacket) -> (r: Result<Self, DecodeError>) {
        match u8::decode(f) {
            Ok(v) => Ok(v as i8),
            Err(e) => Err(e),
        }
    }
}

impl Lossless for i8 {
    proof fn lemma_round_trip(&self, tail: Seq<u8>) {
        let u = *self as u8;
        u.lemma_round_trip(tail);
        let x = *self;
        assert(x as u8 as i8 == x) by (bit_vector);
    }
}

impl Encodable for i16 {
    open spec fn encodable(&self) -> bool {
        true
    }

    open spec fn encoding(&self) -> Seq<u8> {
        be_bytes_u16(*self as u16)
    }

    fn encode(&self, out: &mut Vec<u8>) -> (n: usize) {
        (*self as u16).encode(out)
    }
}

impl Decodable for i16 {
    open spec fn spec_decode(s: Seq<u8>) -> Result<(int, i16), DecodeError> {
        match u16::spec_decode(s) {
            Ok(p) => Ok((p.0, p.1 as i16)),
            Err(e) => Err(e),
        }
    }

    fn decode(f: &mut ReceivedPacket) -> (r: Result<Self, DecodeError>) {
        match u16::decode(f) {
            Ok(v) => Ok(v as i16),
            Err(e) => Err(e),
        }
    }
}

impl Lossless for i16 {
    proof fn lemma_round_trip(&self, tail: Seq<u8>) {
        let u = *self as u16;
        u.lemma_round_trip(tail);
        let x = *self;
        assert(x as u16 as i16 == x) by (bit_vector);
    }
}

impl Encodable for i32 {
    open spec fn encodable(&self) -> bool {
        true
    }

    open spec fn encoding(&self) -> Seq<u8> {
        be_bytes_u32(*self as u32)
    }

    fn encode(&self, out: &mut Vec<u8>) -> (n: usize) {
        (*self as u32).encode(out)
    }
}

impl Decodable for i32 {
    open spec fn spec_decode(s: Seq<u8>) -> Result<(int, i32), DecodeError> {
        match u32::spec_decode(s) {
            Ok(p) => Ok((p.0, p.1 as i32)),
            Err(e) => Err(e),
        }
    }

    fn decode(f: &mut ReceivedPacket) -> (r: Result<Self, DecodeError>) {
        match u32::decode(f) {
            Ok(v) => Ok(v as i32),
            Err(e) => Err(e),
        }
    }
}

impl Lossless for i32 {
    proof fn lemma_round_trip(&self, tail: Seq<u8>) {
        let u = *self as u32;
        u.lemma_round_trip(tail);
        let x = *self;
        assert(x as u32 as i32 == x) by (bit_vector);
    }
}

impl Encodable for i64 {
    open spec fn encodable(&self) -> bool {
        true
    }

    open spec fn encoding(&self) -> Seq<u8> {
        be_bytes_u64(*self as u64)
    }

    fn encode(&self, out: &mut Vec<u8>) -> (n: usize) {
        (*self as u64).encode(out)
    }
}

impl Decodable for i64 {
    open spec fn spec_decode(s: Seq<u8>) -> Result<(int, i64), DecodeError> {
        match u64::spec_decode(s) {
            Ok(p) => Ok((p.0, p.1 as i64)),
            Err(e) => Err(e),
        }
    }

    fn decode(f: &mut ReceivedPacket) -> (r: Result<Self, DecodeError>) {
        match u64::decode(f) {
            Ok(v) => Ok(v as i64),
            Err(e) => Err(e),
        }
    }
}

impl Lossless for i64 {
    proof fn lemma_round_trip(&self, tail: Seq<u8>) {
        let u = *self as u64;
        u.lemma_round_trip(tail);
        let x = *self;
        assert(x as u64 as i64 == x) by (bit_vector);
    }
}

impl Encodable for i128 {
    open spec fn encodable(&self) -> bool {
        true
    }

    open spec fn encoding(&self) -> Seq<u8> {
        be_bytes_u128(*self as u128)
    }

    fn encode(&self, out: &mut Vec<u8>) -> (n: usize) {
        (*self as u128).encode(out)
    }
}

impl Decodable for i128 {
    open spec fn spec_decode(s: Seq<u8>) -> Result<(int, i128), DecodeError> {
        match u128::spec_decode(s) {
            Ok(p) => Ok((p.0, p.1 as i128)),
            Err(e) => Err(e),
        }
    }

    fn decode(f: &mut ReceivedPacket) -> (r: Result<Self, DecodeError>) {
        match u128::decode(f) {
            Ok(v) => Ok(v as i128),
            Err(e) => Err(e),
        }
    }
}

impl Lossless for i128 {
    proof fn lemma_round_trip(&self, tail: Seq<u8>) {
        let u = *self as u128;
        u.lemma_round_trip(tail);
        let x = *self;
        assert(x as u128 as i128 == x) by (bit_vector);
    }
}

impl Encodable for bool {
    open spec fn encodable(&self) -> bool {
        true
    }

    open spec fn encoding(&self) -> Seq<u8> {
        if *self {
            seq![1u8]
        } else {
            seq![0u8]
        }
    }

    fn encode(&self, out: &mut Vec<u8>) -> (n: usize) {
        out.push(if *self {
            1
        } else {
            0
        });
        proof {
            assert(out@ =~= old(out)@ + self.encoding());
            crate::lemma_append_prefix(old(out)@, self.encoding());
        }
        1
    }
}

impl Decodable for bool {
    open spec fn spec_decode(s: Seq<u8>) -> Result<(int, bool), DecodeError> {
        if s.len() < 1 {
            Err(DecodeError::UnexpectedEnd)
        } else if s[0] == 0 {
            Ok((1int, false))
        } else if s[0] == 1 {
            Ok((1int, true))
        } else {
            Err(DecodeError::InvalidBool(s[0]))
        }
    }

    fn decode(f: &mut ReceivedPacket) -> (r: Result<Self, DecodeError>) {
        let ghost s = old(f).rest();
        let b = match f.read_byte() {
            Ok(b) => b,
            Err(e) => {
                proof {
                    assert(s.len() == 0);
                    assert(e == DecodeError::UnexpectedEnd);
                    assert(Self::spec_decode(s) == Err::<(int, bool), DecodeError>(
                        DecodeError::UnexpectedEnd,
                    ));
                }
                return Err(e);
            },
        };
        proof {
            assert(b == s[0]);
        }
        if b == 0 {
            proof {
                assert(Self::spec_decode(s) == Ok::<(int, bool), DecodeError>((1int, false)));
            }
            Ok(false)
        } else if b == 1 {
            Ok(true)
        } else {
            Err(DecodeError::InvalidBool(b))
        }
    }
}

impl Lossless for bool {
    proof fn lemma_round_trip(&self, tail: Seq<u8>) {
        assert((self.encoding() + tail)[0] == self.encoding()[0]);
    }
}

/// One byte standing for a rotation: 1/256 of a full turn per step.
#[derive(Debug, PartialEq, Eq, Hash, Clone, Copy, Structural)]
pub struct Angle {
    pub value: u8,
}

impl View for Angle {
    type V = Angle;

    open spec fn view(&self) -> Angle {
        *self
    }
}

impl Encodable for Angle {
    open spec fn encodable(&self) -> bool {
        true
    }

    open spec fn encoding(&self) -> Seq<u8> {
        seq![self.value]
    }

    fn encode(&self, out: &mut Vec<u8>) -> (n: usize) {
        self.value.encode(out)
    }
}

impl Decodable for Angle {
    open spec fn spec_decode(s: Seq<u8>) -> Result<(int, Angle), DecodeError> {
        match u8::spec_decode(s) {
            Ok(p) => Ok((p.0, Angle { value: p.1 })),
            Err(e) => Err(e),
        }
    }

    fn decode(f: &mut ReceivedPacket) -> (r: Result<Self, DecodeError>) {
        match u8::decode(f) {
            Ok(v) => Ok(Angle { value: v }),
            Err(e) => Err(e),
        }
    }
}

impl Lossless for Angle {
    proof fn lemma_round_trip(&self, tail: Seq<u8>) {
        self.value.lemma_round_trip(tail);
    }
}

/// A 32-bit signed integer that travels as a LEB128 variable-length
/// integer: one to five bytes.
#[derive(Debug, PartialEq, Eq, Hash, Clone, Copy, Structural)]
pub struct VarInt(pub i32);

impl View for VarInt {
    type V = VarInt;

    open spec fn view(&self) -> VarInt {
        *self
    }
}

impl Encodable for VarInt {
    open spec fn encodable(&self) -> bool {
        true
    }

    open spec fn encoding(&self) -> Seq<u8> {
        leb128::spec_build_var_int(self.0)
    }

    fn encode(&self, out: &mut Vec<u8>) -> (n: usize) {
        let mut bytes = leb128::build_var_int(self.0);
        let n = bytes.len();
        out.append(&mut bytes);
        proof {
            crate::lemma_append_prefix(old(out)@, self.encoding());
        }
        n
    }
}

impl Decodable for VarInt {
    open spec fn spec_decode(s: Seq<u8>) -> Result<(int, VarInt), DecodeError> {
        match leb128::spec_read_var_int(s) {
            Ok(p) => Ok((p.0, VarInt(p.1))),
            Err(e) => Err(e),
        }
    }

    fn decode(f: &mut ReceivedPacket) -> (r: Result<Self, DecodeError>) {
        match leb128::read_var_int(f) {
            Ok(p) => Ok(VarInt(p.1)),
            Err(e) => Err(e),
        }
    }
}

impl Lossless for VarInt {
    proof fn lemma_round_trip(&self, tail: Seq<u8>) {
        leb128::lemma_var_int_round_trip(self.0, tail);
    }
}

/// The raw bits of an IEEE-754 binary32 value. The wire carries the four
/// big-endian bytes of the bit pattern; interpreting it as a number is the
/// caller's concern, so the codec never computes with it.
#[derive(Debug, PartialEq, Eq, Hash, Clone, Copy, Structural)]
pub struct F32Bits {
    pub bits: u32,
}

impl View for F32Bits {
    type V = F32Bits;

    open spec fn view(&self) -> F32Bits {
        *self
    }
}

impl Encodable for F32Bits {
    open spec fn encodable(&self) -> bool {
        true
    }

    open spec fn encoding(&self) -> Seq<u8> {
        be_bytes_u32(self.bits)
    }

    fn encode(&self, out: &mut Vec<u8>) -> (n: usize) {
        self.bits.encode(out)
    }
}

impl Decodable for F32Bits {
    open spec fn spec_decode(s: Seq<u8>) -> Result<(int, F32Bits), DecodeError> {
        match u32::spec_decode(s) {
            Ok(p) => Ok((p.0, F32Bits { bits: p.1 })),
            Err(e) => Err(e),
        }
    }

    fn decode(f: &mut ReceivedPacket) -> (r: Result<Self, DecodeError>) {
        match u32::decode(f) {
            Ok(v) => Ok(F32Bits { bits: v }),
            Err(e) => Err(e),
        }
    }
}

impl Lossless for F32Bits {
    proof fn lemma_round_trip(&self, tail: Seq<u8>) {
        self.bits.lemma_round_trip(tail);
    }
}

/// The raw bits of an IEEE-754 binary64 value, eight big-endian bytes on
/// the wire.
#[derive(Debug, PartialEq, Eq, Hash, Clone, Copy, Structural)]
pub struct F64Bits {
    pub bits: u64,
}

impl View for F64Bits {
    type V = F64Bits;

    open spec fn view(&self) -> F64Bits {
        *self
    }
}

impl Encodable for F64Bits {
    open spec fn encodable(&self) -> bool {
        true
    }

    open spec fn encoding(&self) -> Seq<u8> {
        be_bytes_u64(self.bits)
    }

    fn encode(&self, out: &mut Vec<u8>) -> (n: usize) {
        self.bits.encode(out)
    }
}

impl Decodable for F64Bits {
    open spec fn spec_decode(s: Seq<u8>) -> Result<(int, F64Bits), DecodeError> {
        match u64::spec_decode(s) {
            Ok(p) => Ok((p.0, F64Bits { bits: p.1 })),
            Err(e) => Err(e),
        }
    }

    fn decode(f: &mut ReceivedPacket) -> (r: Result<Self, DecodeError>) {
        match u64::decode(f) {
            Ok(v) => Ok(F64Bits { bits: v }),
            Err(e) => Err(e),
        }
    }
}

impl Lossless for F64Bits {
    proof fn lemma_round_trip(&self, tail: Seq<u8>) {
        self.bits.lemma_round_trip(tail);
    }
}

/// A 128-bit UUID carried as its raw value. On the wire it is the value's
/// sixteen bytes, big-endian, most significant first; passing a UUID from a
/// request through to a response preserves it exactly.
#[derive(Debug, PartialEq, Eq, Hash, Clone, Copy, Structural)]
pub struct Uuid {
    pub value: u128,
}

impl View for Uuid {
    type V = Uuid;

    open spec fn view(&self) -> Uuid {
        *self
    }
}

impl Encodable for Uuid {
    open spec fn encodable(&self) -> bool {
        true
    }

    open spec fn encoding(&self) -> Seq<u8> {
        be_bytes_u128(self.value)
    }

    fn encode(&self, out: &mut Vec<u8>) -> (n: usize) {
        self.value.encode(out)
    }
}

impl Decodable for Uuid {
    open spec fn spec_decode(s: Seq<u8>) -> Result<(int, Uuid), DecodeError> {
        match u128::spec_decode(s) {
            Ok(p) => Ok((p.0, Uuid { value: p.1 })),
            Err(e) => Err(e),
        }
    }

    fn decode(f: &mut ReceivedPacket) -> (r: Result<Self, DecodeError>) {
        match u128::decode(f) {
            Ok(v) => Ok(Uuid { value: v }),
            Err(e) => Err(e),
        }
    }
}

impl Lossless for Uuid {
    proof fn lemma_round_trip(&self, tail: Seq<u8>) {
        self.value.lemma_round_trip(tail);
    }
}

/// The serialized bytes of an NBT document holding one named list of long
/// values. The NBT library computes them from the name and the values
/// alone, so they can be named but not stated here.
pub uninterp spec fn nbt_long_list_bytes(name: Seq<char>, values: Seq<i64>) -> Seq<u8>;

/// Relies on `nbt::Blob::new`, `nbt::Blob::insert` and
/// `nbt::Blob::to_writer`: building a document with one named list of long
/// values always succeeds, since a homogeneous list is never rejected and
/// writing into a byte vector cannot fail, and the serialized bytes depend
/// on the name and the values alone.
#[verifier::external_body]
pub(crate) fn nbt_long_list_doc(name: &str, values: &Vec<i64>) -> (r: Result<Vec<u8>, DecodeError>)
    ensures
        r is Ok,
        r matches Ok(v) ==> v@ == nbt_long_list_bytes(name@, values@),
{
    let mut blob = nbt::Blob::new();
    let list: Vec<nbt::Value> = values.iter().map(|v| nbt::Value::Long(*v)).collect();
    if blob.insert(name, nbt::Value::List(list)).is_err() {
        return Err(DecodeError::Unsupported);
    }
    let mut bytes: Vec<u8> = Vec::new();
    if blob.to_writer(&mut bytes).is_err() {
        return Err(DecodeError::Unsupported);
    }
    Ok(bytes)
}

/// Relies on `String::from_utf8`: it accepts exactly the byte sequences
/// that are valid UTF-8 and returns the string those bytes spell.
#[verifier::external_body]
fn string_from_utf8(v: Vec<u8>) -> (r: Option<String>)
    ensures
        match r {
            Some(s) => vstd::utf8::valid_utf8(v@) && s@ == vstd::utf8::decode_utf8(v@),
            None => !vstd::utf8::valid_utf8(v@),
        },
{
    String::from_utf8(v).ok()
}

impl Encodable for String {
    open spec fn encodable(&self) -> bool {
        vstd::utf8::encode_utf8(self@).len() < 0x8000_0000
    }

    open spec fn encoding(&self) -> Seq<u8> {
        leb128::spec_build_var_int(vstd::utf8::encode_utf8(self@).len() as i32)
            + vstd::utf8::encode_utf8(self@)
    }

    fn encode(&self, out: &mut Vec<u8>) -> (n: usize) {
        let start = out.len();
        let mut bytes = self.as_str().as_bytes_vec();
        let prefix = VarInt(#[verifier::truncate] (bytes.len() as i32));
        let n1 = prefix.encode(out);
        out.append(&mut bytes);
        proof {
            if self.encodable() {
                assert(out@ =~= old(out)@ + self.encoding());
            }
            assert(old(out)@.is_prefix_of(out@)) by {
                assert(old(out)@ =~= out@.take(old(out)@.len() as int));
            }
        }
        out.len() - start
    }
}

impl Decodable for String {
    open spec fn spec_decode(s: Seq<u8>) -> Result<(int, Seq<char>), DecodeError> {
        match leb128::spec_read_var_int(s) {
            Ok(p) => {
                let n = p.0;
                let c = p.1;
                if c < 0 {
                    Err(DecodeError::InvalidLength(c))
                } else if s.len() < n + c {
                    Err(DecodeError::UnexpectedEnd)
                } else {
                    let bytes = s.subrange(n, n + c);
                    if vstd::utf8::valid_utf8(bytes) {
                        Ok((n + c, vstd::utf8::decode_utf8(bytes)))
                    } else {
                        Err(DecodeError::InvalidUtf8)
                    }
                }
            },
            Err(e) => Err(e),
        }
    }

    fn decode(f: &mut ReceivedPacket) -> (r: Result<Self, DecodeError>) {
        let ghost s = old(f).rest();
        let (n, c) = match leb128::read_var_int(f) {
            Ok(p) => p,
            Err(e) => {
                return Err(e);
            },
        };
        if c < 0 {
            return Err(DecodeError::InvalidLength(c));
        }
        let bytes = match f.read_bytes(c as usize) {
            Ok(v) => v,
            Err(e) => {
                return Err(e);
            },
        };
        proof {
            if s.len() >= n + c {
                assert(bytes@ =~= s.subrange(n as int, n as int + c as int));
            }
        }
        match string_from_utf8(bytes) {
            Some(st) => Ok(st),
            None => Err(DecodeError::InvalidUtf8),
        }
    }
}

impl Lossless for String {
    proof fn lemma_round_trip(&self, tail: Seq<u8>) {
        let bytes = vstd::utf8::encode_utf8(self@);
        let c = bytes.len() as i32;
        leb128::lemma_var_int_round_trip(c, bytes + tail);
        let prefix = leb128::spec_build_var_int(c);
        let s = self.encoding() + tail;
        assert(s =~= prefix + (bytes + tail));
        assert(s.subrange(prefix.len() as int, prefix.len() + c) =~= bytes);
        vstd::utf8::encode_utf8_valid_utf8(self@);
        vstd::utf8::encode_utf8_decode_utf8(self@);
    }
}

/// A string carrying a JSON chat document, treated as opaque text.
#[derive(Debug, PartialEq, Eq, Clone, Hash)]
pub struct Chat {
    buf: String,
}

impl Chat {
    /// Wrap a JSON document.
    pub fn new(buf: String) -> (r: Self)
        ensures
            r@ == buf@,
    {
        Chat { buf }
    }

    /// The carried document.
    pub fn into_string(self) -> (r: String)
        ensures
            r@ == self@,
    {
        self.buf
    }
}

impl View for Chat {
    type V = Seq<char>;

    closed spec fn view(&self) -> Seq<char> {
        self.buf@
    }
}

impl Encodable for Chat {
    open spec fn encodable(&self) -> bool {
        vstd::utf8::encode_utf8(self@).len() < 0x8000_0000
    }

    open spec fn encoding(&self) -> Seq<u8> {
        leb128::spec_build_var_int(vstd::utf8::encode_utf8(self@).len() as i32)
            + vstd::utf8::encode_utf8(self@)
    }

    fn encode(&self, out: &mut Vec<u8>) -> (n: usize) {
        self.buf.encode(out)
    }
}

impl Decodable for Chat {
    open spec fn spec_decode(s: Seq<u8>) -> Result<(int, Seq<char>), DecodeError> {
        String::spec_decode(s)
    }

    fn decode(f: &mut ReceivedPacket) -> (r: Result<Self, DecodeError>) {
        match String::decode(f) {
            Ok(buf) => Ok(Chat { buf }),
            Err(e) => Err(e),
        }
    }
}

impl Lossless for Chat {
    proof fn lemma_round_trip(&self, tail: Seq<u8>) {
        self.buf.lemma_round_trip(tail);
    }
}

/// A string carrying a "namespace:path" token, treated as opaque text.
#[derive(Debug, PartialEq, Eq, Clone, Hash)]
pub struct Identifier {
    buf: String,
}

impl Identifier {
    /// Wrap a namespaced token.
    pub fn new(buf: String) -> (r: Self)
        ensures
            r@ == buf@,
    {
        Identifier { buf }
    }

    /// The carried token.
    pub fn into_string(self) -> (r: String)
        ensures
            r@ == self@,
    {
        self.buf
    }
}

impl View for Identifier {
    type V = Seq<char>;

    closed spec fn view(&self) -> Seq<char> {
        self.buf@
    }
}

impl Encodable for Identifier {
    open spec fn encodable(&self) -> bool {
        vstd::utf8::encode_utf8(self@).len() < 0x8000_0000
    }

    open spec fn encoding(&self) -> Seq<u8> {
        leb128::spec_build_var_int(vstd::utf8::encode_utf8(self@).len() as i32)
            + vstd::utf8::encode_utf8(self@)
    }

    fn encode(&self, out: &mut Vec<u8>) -> (n: usize) {
        self.buf.encode(out)
    }
}

impl Decodable for Identifier {
    open spec fn spec_decode(s: Seq<u8>) -> Result<(int, Seq<char>), DecodeError> {
        String::spec_decode(s)
    }

    fn decode(f: &mut ReceivedPacket) -> (r: Result<Self, DecodeError>) {
        match String::decode(f) {
            Ok(buf) => Ok(Identifier { buf }),
            Err(e) => Err(e),
        }
    }
}

impl Lossless for Identifier {
    proof fn lemma_round_trip(&self, tail: Seq<u8>) {
        self.buf.lemma_round_trip(tail);
    }
}

/// An NBT document carried opaquely as its serialized bytes. The codec
/// writes the bytes through unchanged; producing or reading the document
/// tree is the NBT library's concern, outside this crate.
#[derive(Debug, PartialEq, Eq, Clone, Hash)]
pub struct NbtBlob {
    bytes: Vec<u8>,
}

impl NbtBlob {
    /// Wrap an already-serialized NBT document.
    pub fn new(bytes: Vec<u8>) -> (r: Self)
        ensures
            r@ == bytes@,
    {
        NbtBlob { bytes }
    }
}

impl View for NbtBlob {
    type V = Seq<u8>;

    closed spec fn view(&self) -> Seq<u8> {
        self.bytes@
    }
}

impl Encodable for NbtBlob {
    open spec fn encodable(&self) -> bool {
        true
    }

    open spec fn encoding(&self) -> Seq<u8> {
        self@
    }

    fn encode(&self, out: &mut Vec<u8>) -> (n: usize) {
        let n = self.bytes.len();
        let mut i: usize = 0;
        while i < n
            invariant
                i <= n,
                n == self.bytes@.len(),
                out@ == old(out)@ + self.bytes@.take(i as int),
            decreases n - i,
        {
            out.push(self.bytes[i]);
            i = i + 1;
            proof {
                assert(out@ =~= old(out)@ + self.bytes@.take(i as int));
            }
        }
        proof {
            assert(out@ =~= old(out)@ + self.encoding());
            crate::lemma_append_prefix(old(out)@, self.encoding());
        }
        n
    }
}

/// The x coordinate packed in a position's top 26 bits, sign extended.
pub open spec fn spec_unpack_x(packed: i64) -> int {
    (packed >> 38u64) as int
}

/// The z coordinate packed in a position's middle 26 bits, sign extended.
pub open spec fn spec_unpack_z(packed: i64) -> int {
    ((packed << 26u64) >> 38u64) as int
}

/// The y coordinate packed in a position's low 12 bits, sign extended.
pub open spec fn spec_unpack_y(packed: i64) -> int {
    ((packed << 52u64) >> 52u64) as int
}

/// A block coordinate triple that travels as one 64-bit value in the bit
/// layout x:26 z:26 y:12. Valid coordinates are x and z in [-2^25, 2^25)
/// and y in [-2^11, 2^11).
#[derive(Debug, Clone, Copy, PartialEq, Eq, Hash, Structural)]
pub struct Position {
    x: i32,
    y: i32,
    z: i32,
}

impl View for Position {
    type V = Position;

    open spec fn view(&self) -> Position {
        *self
    }
}

impl Position {
    /// The x coordinate.
    pub closed spec fn x_spec(&self) -> int {
        self.x as int
    }

    /// The y coordinate.
    pub closed spec fn y_spec(&self) -> int {
        self.y as int
    }

    /// The z coordinate.
    pub closed spec fn z_spec(&self) -> int {
        self.z as int
    }

    /// Whether every coordinate fits its bit field.
    pub open spec fn valid_spec(&self) -> bool {
        &&& -0x200_0000 <= self.x_spec() < 0x200_0000
        &&& -0x800 <= self.y_spec() < 0x800
        &&& -0x200_0000 <= self.z_spec() < 0x200_0000
    }

    /// The packed 64-bit form.
    pub closed spec fn pack_spec(&self) -> i64 {
        ((self.x as i64 & 0x3ffffff) << 38u64) | ((self.z as i64 & 0x3ffffff) << 12u64) | (
        self.y as i64 & 0xfff)
    }

    fn is_valid(&self) -> (r: bool)
        ensures
            r == self.valid_spec(),
    {
        -0x200_0000 <= self.x && self.x < 0x200_0000 && -0x800 <= self.y && self.y < 0x800
            && -0x200_0000 <= self.z && self.z < 0x200_0000
    }

    /// Build a position, rejecting out-of-range coordinates.
    pub fn new(x: i32, y: i32, z: i32) -> (r: Result<Self, DecodeError>)
        ensures
            (r is Ok) <==> (-0x200_0000 <= x < 0x200_0000 && -0x800 <= y < 0x800 && -0x200_0000
                <= z < 0x200_0000),
            r matches Ok(p) ==> p.x_spec() == x && p.y_spec() == y && p.z_spec() == z
                && p.valid_spec(),
            r matches Err(e) ==> e == DecodeError::InvalidPosition,
    {
        let pos = Position { x, y, z };
        if pos.is_valid() {
            Ok(pos)
        } else {
            Err(DecodeError::InvalidPosition)
        }
    }

    /// Replace the x coordinate; no range check, as when built field-wise.
    pub fn set_x(&mut self, x: i32)
        ensures
            final(self).x_spec() == x,
            final(self).y_spec() == old(self).y_spec(),
            final(self).z_spec() == old(self).z_spec(),
    {
        self.x = x;
    }

    /// Replace the y coordinate; no range check.
    pub fn set_y(&mut self, y: i32)
        ensures
            final(self).y_spec() == y,
            final(self).x_spec() == old(self).x_spec(),
            final(self).z_spec() == old(self).z_spec(),
    {
        self.y = y;
    }

    /// Replace the z coordinate; no range check.
    pub fn set_z(&mut self, z: i32)
        ensures
            final(self).z_spec() == z,
            final(self).x_spec() == old(self).x_spec(),
            final(self).y_spec() == old(self).y_spec(),
    {
        self.z = z;
    }

    /// The x coordinate.
    pub fn x(&self) -> (r: i32)
        ensures
            r == self.x_spec(),
    {
        self.x
    }

    /// The y coordinate.
    pub fn y(&self) -> (r: i32)
        ensures
            r == self.y_spec(),
    {
        self.y
    }

    /// The z coordinate.
    pub fn z(&self) -> (r: i32)
        ensures
            r == self.z_spec(),
    {
        self.z
    }

    /// Pack the coordinates into the 64-bit wire layout.
    pub fn pack(&self) -> (r: i64)
        ensures
            r == self.pack_spec(),
    {
        ((self.x as i64 & 0x3ffffff) << 38u64) | ((self.z as i64 & 0x3ffffff) << 12u64) | (
        self.y as i64 & 0xfff)
    }

    /// Unpack a 64-bit value into its coordinate triple. Sign extension is
    /// arithmetic, so negative coordinates are preserved; every packed
    /// value unpacks to an in-range position.
    pub fn unpack(packed: i64) -> (r: Result<Self, DecodeError>)
        ensures
            r matches Ok(p) && p.x_spec() == spec_unpack_x(packed) && p.y_spec() == spec_unpack_y(
                packed,
            ) && p.z_spec() == spec_unpack_z(packed) && p.valid_spec(),
    {
        proof {
            assert(-0x200_0000 <= (packed >> 38u64) < 0x200_0000 && -0x200_0000 <= ((packed
                << 26u64) >> 38u64) < 0x200_0000 && -0x800 <= ((packed << 52u64) >> 52u64) < 0x800)
                by (bit_vector);
        }
        let x = (packed >> 38u64) as i32;
        let z = ((packed << 26u64) >> 38u64) as i32;
        let y = ((packed << 52u64) >> 52u64) as i32;
        Position::new(x, y, z)
    }
}

/// Packing a valid position and unpacking the result gives the same
/// coordinates back; negative x, y and z are preserved.
pub proof fn lemma_position_pack_round_trip(p: Position)
    requires
        p.valid_spec(),
    ensures
        spec_unpack_x(p.pack_spec()) == p.x_spec(),
        spec_unpack_y(p.pack_spec()) == p.y_spec(),
        spec_unpack_z(p.pack_spec()) == p.z_spec(),
{
    let x = p.x_spec() as i32;
    let y = p.y_spec() as i32;
    let z = p.z_spec() as i32;
    assert({
        let packed = ((x as i64 & 0x3ffffff) << 38u64) | ((z as i64 & 0x3ffffff) << 12u64) | (
        y as i64 & 0xfff);
        (packed >> 38u64) == x as i64 && ((packed << 26u64) >> 38u64) == z as i64 && ((packed
            << 52u64) >> 52u64) == y as i64
    }) by (bit_vector)
        requires
            -0x200_0000 <= x < 0x200_0000,
            -0x800 <= y < 0x800,
            -0x200_0000 <= z < 0x200_0000,
    ;
}

impl Encodable for Position {
    open spec fn encodable(&self) -> bool {
        self.valid_spec()
    }

    open spec fn encoding(&self) -> Seq<u8> {
        be_bytes_u64(self.pack_spec() as u64)
    }

    fn encode(&self, out: &mut Vec<u8>) -> (n: usize) {
        self.pack().encode(out)
    }
}

impl Decodable for Position {
    closed spec fn spec_decode(s: Seq<u8>) -> Result<(int, Position), DecodeError> {
        match i64::spec_decode(s) {
            Ok(p) => Ok(
                (
                    p.0,
                    Position {
                        x: spec_unpack_x(p.1) as i32,
                        y: spec_unpack_y(p.1) as i32,
                        z: spec_unpack_z(p.1) as i32,
                    },
                ),
            ),
            Err(e) => Err(e),
        }
    }

    fn decode(f: &mut ReceivedPacket) -> (r: Result<Self, DecodeError>) {
        let packed = match i64::decode(f) {
            Ok(v) => v,
            Err(e) => {
                return Err(e);
            },
        };
        match Position::unpack(packed) {
            Ok(p) => {
                proof {
                    assert(p.x as int == spec_unpack_x(packed) && p.y as int == spec_unpack_y(
                        packed,
                    ) && p.z as int == spec_unpack_z(packed));
                    assert(p.x == spec_unpack_x(packed) as i32 && p.y == spec_unpack_y(packed)
                        as i32 && p.z == spec_unpack_z(packed) as i32);
                }
                Ok(p)
            },
            Err(e) => Err(e),
        }
    }
}

impl Lossless for Position {
    proof fn lemma_round_trip(&self, tail: Seq<u8>) {
        let packed = self.pack_spec();
        packed.lemma_round_trip(tail);
        lemma_position_pack_round_trip(*self);
    }
}

/// A value preceded by a presence flag: one boolean byte, then the value's
/// bytes only when the flag is true.
#[derive(Debug, PartialEq, Eq, Clone, Hash)]
pub struct BoolConditional<T>(pub Option<T>);

impl<T: View> View for BoolConditional<T> {
    type V = Option<T::V>;

    open spec fn view(&self) -> Option<T::V> {
        match self.0 {
            Some(v) => Some(v@),
            None => None,
        }
    }
}

impl<T: Encodable> Encodable for BoolConditional<T> {
    open spec fn encodable(&self) -> bool {
        match self.0 {
            Some(v) => v.encodable(),
            None => true,
        }
    }

    open spec fn encoding(&self) -> Seq<u8> {
        match self.0 {
            Some(v) => seq![1u8] + v.encoding(),
            None => seq![0u8],
        }
    }

    fn encode(&self, out: &mut Vec<u8>) -> (n: usize) {
        let start = out.len();
        match &self.0 {
            Some(obj) => {
                let n1 = true.encode(out);
                let n2 = obj.encode(out);
                proof {
                    if self.encodable() {
                        assert(out@ =~= old(out)@ + self.encoding());
                    }
                    assert(old(out)@ =~= out@.take(old(out)@.len() as int));
                }
                out.len() - start
            },
            None => false.encode(out),
        }
    }
}

impl<T: Decodable> Decodable for BoolConditional<T> {
    open spec fn spec_decode(s: Seq<u8>) -> Result<(int, Option<T::V>), DecodeError> {
        if s.len() < 1 {
            Err(DecodeError::UnexpectedEnd)
        } else if s[0] == 0 {
            Ok((1int, None))
        } else if s[0] == 1 {
            match T::spec_decode(s.skip(1)) {
                Ok(p) => Ok((1 + p.0, Some(p.1))),
                Err(e) => Err(e),
            }
        } else {
            Err(DecodeError::InvalidBool(s[0]))
        }
    }

    fn decode(f: &mut ReceivedPacket) -> (r: Result<Self, DecodeError>) {
        let flag = match bool::decode(f) {
            Ok(b) => b,
            Err(e) => {
                return Err(e);
            },
        };
        if !flag {
            return Ok(BoolConditional(None));
        }
        proof {
            assert(f.rest() =~= old(f).rest().skip(1));
        }
        match T::decode(f) {
            Ok(v) => Ok(BoolConditional(Some(v))),
            Err(e) => Err(e),
        }
    }
}

impl<T: Lossless> Lossless for BoolConditional<T> {
    proof fn lemma_round_trip(&self, tail: Seq<u8>) {
        match self.0 {
            Some(v) => {
                let s = self.encoding() + tail;
                assert(s[0] == 1);
                assert(s.skip(1) =~= v.encoding() + tail);
                v.lemma_round_trip(tail);
            },
            None => {
                assert((self.encoding() + tail)[0] == 0);
            },
        }
    }
}

/// A field whose wire format is an open item of the protocol reference;
/// it occupies no bytes and cannot be decoded.
#[derive(Debug, PartialEq, Eq, Clone, Copy, Hash, Structural)]
pub struct Todo;

impl View for Todo {
    type V = Todo;

    open spec fn view(&self) -> Todo {
        *self
    }
}

impl Encodable for Todo {
    open spec fn encodable(&self) -> bool {
        false
    }

    open spec fn encoding(&self) -> Seq<u8> {
        Seq::empty()
    }

    fn encode(&self, out: &mut Vec<u8>) -> (n: usize) {
        proof {
            assert(old(out)@ =~= out@.take(old(out)@.len() as int));
        }
        0
    }
}

impl Decodable for Todo {
    open spec fn spec_decode(s: Seq<u8>) -> Result<(int, Todo), DecodeError> {
        Err(DecodeError::Unsupported)
    }

    fn decode(f: &mut ReceivedPacket) -> (r: Result<Self, DecodeError>) {
        Err(DecodeError::Unsupported)
    }
}

} // verus!
