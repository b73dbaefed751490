use vstd::prelude::*;

use crate::DecodeError;
use crate::ReceivedPacket;

verus! {

/// One step of the little-endian base-128 grouping that the wire's variable
/// integers use: the low seven bits of each byte carry payload, the high bit
/// says whether another byte follows.
pub open spec fn spec_build_var_int_u(v: u32) -> Seq<u8>
    decreases v,
{
    if v < 0x80 {
        seq![v as u8]
    } else {
        seq![(v % 0x80 + 0x80) as u8] + spec_build_var_int_u(v / 0x80)
    }
}

/// The VarInt encoding of a 32-bit signed value: its two's-complement bits,
/// seven at a time, least significant group first, one to five bytes.
pub open spec fn spec_build_var_int(x: i32) -> Seq<u8> {
    spec_build_var_int_u(x as u32)
}

/// The outcome of reading a VarInt whose first `k` bytes have already been
/// consumed into the accumulator `acc`: either the total byte count and the
/// value, or the exact error. A continuation bit in the fifth byte is the
/// error `VarIntTooBig`; running out of input is `UnexpectedEnd`.
pub open spec fn spec_read_var_int_at(s: Seq<u8>, k: nat, acc: u32) -> Result<
    (int, i32),
    DecodeError,
>
    decreases 5 - k,
{
    if s.len() <= k {
        Err(DecodeError::UnexpectedEnd)
    } else {
        let b = s[k as int];
        let acc2 = acc | (((b & 0x7f) as u32) << ((7 * k) as u32));
        if b & 0x80 == 0 {
            Ok(((k + 1) as int, acc2 as i32))
        } else if k >= 4 {
            Err(DecodeError::VarIntTooBig)
        } else {
            spec_read_var_int_at(s, (k + 1) as nat, acc2)
        }
    }
}

/// The outcome of reading a VarInt from the front of `s`.
pub open spec fn spec_read_var_int(s: Seq<u8>) -> Result<(int, i32), DecodeError> {
    spec_read_var_int_at(s, 0, 0)
}

/// Encode a 32-bit signed value as a VarInt.
pub fn build_var_int(value: i32) -> (r: Vec<u8>)
    ensures
        r@ == spec_build_var_int(value),
        1 <= r@.len() <= 5,
{
    let mut result: Vec<u8> = Vec::new();
    let mut remaining_value = value as u32;
    proof {
        lemma_build_var_int_len(value as u32);
    }
    while remaining_value >= 0x80
        invariant
            spec_build_var_int(value) == result@ + spec_build_var_int_u(remaining_value),
            result@.len() + spec_build_var_int_u(remaining_value).len() <= 5,
        decreases remaining_value,
    {
        proof {
            assert((remaining_value & 0x7f | 0x80) == remaining_value % 0x80 + 0x80)
                by (bit_vector)
                requires
                    remaining_value >= 0x80,
            ;
            assert(remaining_value >> 7 == remaining_value / 0x80) by (bit_vector);
        }
        result.push((remaining_value & 0x7F | 0x80) as u8);
        remaining_value >>= 7;
    }
    result.push(remaining_value as u8);
    result
}

/// A VarInt encoding is never longer than five bytes.
proof fn lemma_build_var_int_len(v: u32)
    ensures
        1 <= spec_build_var_int_u(v).len() <= 5,
{
    let v1 = v / 0x80;
    let v2 = v1 / 0x80;
    let v3 = v2 / 0x80;
    let v4 = v3 / 0x80;
    assert(v4 < 0x80);
    assert(spec_build_var_int_u(v4).len() == 1);
    assert(spec_build_var_int_u(v3).len() <= 2);
    assert(spec_build_var_int_u(v2).len() <= 3);
    assert(spec_build_var_int_u(v1).len() <= 4);
    assert(spec_build_var_int_u(v).len() <= 5);
    assert(spec_build_var_int_u(v).len() >= 1);
}

/// Reading a VarInt from an encoding gives back the encoded value and
/// consumes exactly the encoding, whatever bytes follow; the encoding is one
/// to five bytes long.
pub proof fn lemma_var_int_round_trip(x: i32, tail: Seq<u8>)
    ensures
        1 <= spec_build_var_int(x).len() <= 5,
        spec_read_var_int(spec_build_var_int(x) + tail) == Ok::<(int, i32), DecodeError>(
            (spec_build_var_int(x).len() as int, x),
        ),
{
    let v = x as u32;
    let v1 = v / 0x80;
    let v2 = v1 / 0x80;
    let v3 = v2 / 0x80;
    let v4 = v3 / 0x80;
    let d0 = (v % 0x80 + 0x80) as u8;
    let d1 = (v1 % 0x80 + 0x80) as u8;
    let d2 = (v2 % 0x80 + 0x80) as u8;
    let d3 = (v3 % 0x80 + 0x80) as u8;
    lemma_build_var_int_len(v);
    if v < 0x80 {
        let e = spec_build_var_int(x);
        assert(e =~= seq![v as u8]);
        let s = e + tail;
        assert(s[0] == v as u8);
        let b0 = v as u8;
        assert(b0 & 0x80 == 0 && (0u32 | (((b0 & 0x7f) as u32) << 0u32)) as i32 == x)
            by (bit_vector)
            requires
                b0 as u32 == x as u32,
                v == x as u32,
                v < 0x80,
        ;
        assert(spec_read_var_int_at(s, 0, 0) == Ok::<(int, i32), DecodeError>((1int, x)));
    } else if v < 0x4000 {
        let e = spec_build_var_int(x);
        assert(v1 < 0x80);
        assert(spec_build_var_int_u(v1) =~= seq![v1 as u8]);
        assert(e =~= seq![d0, v1 as u8]);
        let s = e + tail;
        assert(s[0] == d0 && s[1] == v1 as u8);
        let b1 = v1 as u8;
        let a0 = 0u32 | (((d0 & 0x7f) as u32) << 0u32);
        assert(d0 & 0x80 != 0 && b1 & 0x80 == 0 && (a0 | (((b1 & 0x7f) as u32) << 7u32)) as i32
            == x)
            by (bit_vector)
            requires
                d0 as u32 == (x as u32) % 0x80 + 0x80,
                b1 as u32 == (x as u32) / 0x80,
                a0 == 0u32 | (((d0 & 0x7f) as u32) << 0u32),
                v == x as u32,
                0x80 <= v < 0x4000,
        ;
        assert(spec_read_var_int_at(s, 1, a0) == Ok::<(int, i32), DecodeError>((2int, x)));
        assert(spec_read_var_int_at(s, 0, 0) == Ok::<(int, i32), DecodeError>((2int, x)));
    } else if v < 0x20_0000 {
        let e = spec_build_var_int(x);
        assert(v2 < 0x80);
        assert(spec_build_var_int_u(v2) =~= seq![v2 as u8]);
        assert(spec_build_var_int_u(v1) =~= seq![d1, v2 as u8]);
        assert(e =~= seq![d0, d1, v2 as u8]);
        let s = e + tail;
        assert(s[0] == d0 && s[1] == d1 && s[2] == v2 as u8);
        let b2 = v2 as u8;
        let a0 = 0u32 | (((d0 & 0x7f) as u32) << 0u32);
        let a1 = a0 | (((d1 & 0x7f) as u32) << 7u32);
        assert(d0 & 0x80 != 0 && d1 & 0x80 != 0 && b2 & 0x80 == 0 && (a1 | (((b2 & 0x7f) as u32)
            << 14u32)) as i32 == x)
            by (bit_vector)
            requires
                d0 as u32 == (x as u32) % 0x80 + 0x80,
                d1 as u32 == (x as u32) / 0x80 % 0x80 + 0x80,
                b2 as u32 == (x as u32) / 0x80 / 0x80,
                a0 == 0u32 | (((d0 & 0x7f) as u32) << 0u32),
                a1 == a0 | (((d1 & 0x7f) as u32) << 7u32),
                v == x as u32,
                0x4000 <= v < 0x20_0000,
        ;
        assert(spec_read_var_int_at(s, 2, a1) == Ok::<(int, i32), DecodeError>((3int, x)));
        assert(spec_read_var_int_at(s, 1, a0) == Ok::<(int, i32), DecodeError>((3int, x)));
        assert(spec_read_var_int_at(s, 0, 0) == Ok::<(int, i32), DecodeError>((3int, x)));
    } else if v < 0x1000_0000 {
        let e = spec_build_var_int(x);
        assert(v3 < 0x80);
        assert(spec_build_var_int_u(v3) =~= seq![v3 as u8]);
        assert(spec_build_var_int_u(v2) =~= seq![d2, v3 as u8]);
        assert(spec_build_var_int_u(v1) =~= seq![d1, d2, v3 as u8]);
        assert(e =~= seq![d0, d1, d2, v3 as u8]);
        let s = e + tail;
        assert(s[0] == d0 && s[1] == d1 && s[2] == d2 && s[3] == v3 as u8);
        let b3 = v3 as u8;
        let a0 = 0u32 | (((d0 & 0x7f) as u32) << 0u32);
        let a1 = a0 | (((d1 & 0x7f) as u32) << 7u32);
        let a2 = a1 | (((d2 & 0x7f) as u32) << 14u32);
        assert(d0 & 0x80 != 0 && d1 & 0x80 != 0 && d2 & 0x80 != 0 && b3 & 0x80 == 0 && (a2 | (((b3
            & 0x7f) as u32) << 21u32)) as i32 == x)
            by (bit_vector)
            requires
                d0 as u32 == (x as u32) % 0x80 + 0x80,
                d1 as u32 == (x as u32) / 0x80 % 0x80 + 0x80,
                d2 as u32 == (x as u32) / 0x80 / 0x80 % 0x80 + 0x80,
                b3 as u32 == (x as u32) / 0x80 / 0x80 / 0x80,
                a0 == 0u32 | (((d0 & 0x7f) as u32) << 0u32),
                a1 == a0 | (((d1 & 0x7f) as u32) << 7u32),
                a2 == a1 | (((d2 & 0x7f) as u32) << 14u32),
                v == x as u32,
                0x20_0000 <= v < 0x1000_0000,
        ;
        assert(spec_read_var_int_at(s, 3, a2) == Ok::<(int, i32), DecodeError>((4int, x)));
        assert(spec_read_var_int_at(s, 2, a1) == Ok::<(int, i32), DecodeError>((4int, x)));
        assert(spec_read_var_int_at(s, 1, a0) == Ok::<(int, i32), DecodeError>((4int, x)));
        assert(spec_read_var_int_at(s, 0, 0) == Ok::<(int, i32), DecodeError>((4int, x)));
    } else {
        let e = spec_build_var_int(x);
        assert(v4 < 0x80);
        assert(spec_build_var_int_u(v4) =~= seq![v4 as u8]);
        assert(spec_build_var_int_u(v3) =~= seq![d3, v4 as u8]);
        assert(spec_build_var_int_u(v2) =~= seq![d2, d3, v4 as u8]);
        assert(spec_build_var_int_u(v1) =~= seq![d1, d2, d3, v4 as u8]);
        assert(e =~= seq![d0, d1, d2, d3, v4 as u8]);
        let s = e + tail;
        assert(s[0] == d0 && s[1] == d1 && s[2] == d2 && s[3] == d3 && s[4] == v4 as u8);
        let b4 = v4 as u8;
        let a0 = 0u32 | (((d0 & 0x7f) as u32) << 0u32);
        let a1 = a0 | (((d1 & 0x7f) as u32) << 7u32);
        let a2 = a1 | (((d2 & 0x7f) as u32) << 14u32);
        let a3 = a2 | (((d3 & 0x7f) as u32) << 21u32);
        assert(d0 & 0x80 != 0 && d1 & 0x80 != 0 && d2 & 0x80 != 0 && d3 & 0x80 != 0 && b4 & 0x80
            == 0 && (a3 | (((b4 & 0x7f) as u32) << 28u32)) as i32 == x)
            by (bit_vector)
            requires
                d0 as u32 == (x as u32) % 0x80 + 0x80,
                d1 as u32 == (x as u32) / 0x80 % 0x80 + 0x80,
                d2 as u32 == (x as u32) / 0x80 / 0x80 % 0x80 + 0x80,
                d3 as u32 == (x as u32) / 0x80 / 0x80 / 0x80 % 0x80 + 0x80,
                b4 as u32 == (x as u32) / 0x80 / 0x80 / 0x80 / 0x80,
                a0 == 0u32 | (((d0 & 0x7f) as u32) << 0u32),
                a1 == a0 | (((d1 & 0x7f) as u32) << 7u32),
                a2 == a1 | (((d2 & 0x7f) as u32) << 14u32),
                a3 == a2 | (((d3 & 0x7f) as u32) << 21u32),
                v == x as u32,
                0x1000_0000 <= v,
        ;
        assert(spec_read_var_int_at(s, 4, a3) == Ok::<(int, i32), DecodeError>((5int, x)));
        assert(spec_read_var_int_at(s, 3, a2) == Ok::<(int, i32), DecodeError>((5int, x)));
        assert(spec_read_var_int_at(s, 2, a1) == Ok::<(int, i32), DecodeError>((5int, x)));
        assert(spec_read_var_int_at(s, 1, a0) == Ok::<(int, i32), DecodeError>((5int, x)));
        assert(spec_read_var_int_at(s, 0, 0) == Ok::<(int, i32), DecodeError>((5int, x)));
    }
}

/// What one more byte does to an in-progress VarInt read: either the value
/// is complete, or more bytes are needed.
#[derive(Debug, PartialEq, Eq, Clone, Copy, Structural)]
pub enum VarIntStep {
    /// The read finished: total byte count and the decoded value.
    Done(usize, i32),
    /// The byte had its continuation bit set; feed the next byte to this state.
    More(VarIntAccum),
}

/// The state of a VarInt read that receives its bytes one at a time, as a
/// reader pulling from a stream does: how many bytes have been consumed and
/// the payload bits accumulated from them. Feeding bytes to `step` decodes
/// exactly as `spec_read_var_int` describes, whatever byte source drives it.
#[derive(Debug, PartialEq, Eq, Clone, Copy, Structural)]
pub struct VarIntAccum {
    k: u8,
    acc: u32,
}

impl VarIntAccum {
    /// How many continuation bytes have been consumed.
    pub closed spec fn k_spec(&self) -> nat {
        self.k as nat
    }

    /// The payload bits accumulated so far.
    pub closed spec fn acc_spec(&self) -> u32 {
        self.acc
    }

    /// At most four continuation bytes are ever accepted.
    pub open spec fn wf(&self) -> bool {
        self.k_spec() <= 4
    }

    /// The state before any byte has been consumed.
    pub fn new() -> (r: Self)
        ensures
            r.wf(),
            r.k_spec() == 0,
            r.acc_spec() == 0,
    {
        VarIntAccum { k: 0, acc: 0 }
    }

    /// Consume the next byte of the stream. For every byte sequence whose
    /// next unread byte is `b`, the outcome agrees with the specification of
    /// a whole VarInt read from that sequence.
    pub fn step(self, b: u8) -> (r: Result<VarIntStep, DecodeError>)
        requires
            self.wf(),
        ensures
            match r {
                Ok(st) => match st {
                    VarIntStep::Done(n, x) => n == self.k_spec() + 1 && forall|s: Seq<u8>|
                        #![auto]
                        s.len() > self.k_spec() && s[self.k_spec() as int] == b
                            ==> spec_read_var_int_at(s, self.k_spec(), self.acc_spec()) == Ok::<
                            (int, i32),
                            DecodeError,
                        >((n as int, x)),
                    VarIntStep::More(st2) => st2.wf() && st2.k_spec() == self.k_spec() + 1
                        && forall|s: Seq<u8>|
                        #![auto]
                        s.len() > self.k_spec() && s[self.k_spec() as int] == b
                            ==> spec_read_var_int_at(s, self.k_spec(), self.acc_spec())
                            == spec_read_var_int_at(s, st2.k_spec(), st2.acc_spec()),
                },
                Err(e) => e == DecodeError::VarIntTooBig && forall|s: Seq<u8>|
                    #![auto]
                    s.len() > self.k_spec() && s[self.k_spec() as int] == b
                        ==> spec_read_var_int_at(s, self.k_spec(), self.acc_spec()) == Err::<
                        (int, i32),
                        DecodeError,
                    >(e),
            },
    {
        let shift: u32 = 7 * (self.k as u32);
        let acc2: u32 = self.acc | (((b & 0x7f) as u32) << shift);
        if b & 0x80 == 0 {
            Ok(VarIntStep::Done(self.k as usize + 1, acc2 as i32))
        } else if self.k >= 4 {
            Err(DecodeError::VarIntTooBig)
        } else {
            Ok(VarIntStep::More(VarIntAccum { k: self.k + 1, acc: acc2 }))
        }
    }
}

/// Read a VarInt from the frame, returning the byte count and the value.
/// At most five bytes are ever consumed; a continuation bit in the fifth
/// byte errors with the cursor exactly five bytes on.
pub fn read_var_int(f: &mut ReceivedPacket) -> (r: Result<(usize, i32), DecodeError>)
    requires
        old(f).wf(),
    ensures
        final(f).wf(),
        final(f).buf_spec() == old(f).buf_spec(),
        old(f).pos_spec() <= final(f).pos_spec() <= old(f).pos_spec() + 5,
        match spec_read_var_int(old(f).rest()) {
            Ok(p) => r matches Ok(q) && q.0 == p.0 && q.1 == p.1 && final(f).pos_spec() == old(
                f,
            ).pos_spec() + p.0,
            Err(e) => r matches Err(e2) && e2 == e && (e == DecodeError::VarIntTooBig
                ==> final(f).pos_spec() == old(f).pos_spec() + 5),
        },
{
    let ghost s = old(f).rest();
    let mut k: usize = 0;
    let mut acc: u32 = 0;
    loop
        invariant
            old(f).wf(),
            s == old(f).rest(),
            f.wf(),
            f.buf_spec() == old(f).buf_spec(),
            f.pos_spec() == old(f).pos_spec() + k,
            f.rest() == s.skip(k as int),
            k <= s.len(),
            k <= 4,
            spec_read_var_int(s) == spec_read_var_int_at(s, k as nat, acc),
        decreases 5 - k,
    {
        let b = match f.read_byte() {
            Ok(b) => b,
            Err(e) => {
                return Err(e);
            },
        };
        proof {
            assert(s.skip(k as int)[0] == s[k as int]);
        }
        let shift: u32 = 7 * (k as u32);
        acc = acc | (((b & 0x7f) as u32) << shift);
        if b & 0x80 == 0 {
            proof {
                assert(s.skip(k as int).skip(1) =~= s.skip(k as int + 1));
            }
            return Ok((k + 1, acc as i32));
        }
        if k >= 4 {
            return Err(DecodeError::VarIntTooBig);
        }
        proof {
            assert(s.skip(k as int).skip(1) =~= s.skip(k as int + 1));
        }
        k = k + 1;
    }
}

} // verus!
