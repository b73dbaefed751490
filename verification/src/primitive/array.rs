use vstd::prelude::*;

use core::marker::PhantomData;

use crate::DecodeError;
use crate::Decodable;
use crate::Encodable;
use crate::Lossless;
use crate::ReceivedPacket;
use crate::views_of;
use super::VarInt;
use super::leb128;

verus! {

/// The four length conventions a wire array can travel with.
#[derive(Debug, PartialEq, Eq, Clone, Copy, Hash, Structural)]
pub enum LengthMode {
    /// The element count, as a VarInt prefix.
    Count,
    /// The byte size of the element payload, as a VarInt prefix.
    SizeInBytes,
    /// No prefix; exactly this many elements.
    Fixed(usize),
    /// No prefix; elements until the end of the frame.
    InferredInBytes,
}

/// A length convention, chosen at the type level so that each array field
/// names its discipline in its type.
pub trait ArrayLength {
    /// Which convention this marker stands for.
    spec fn mode_spec() -> LengthMode;

    /// The convention, as a runtime value.
    fn mode() -> (r: LengthMode)
        ensures
            r == Self::mode_spec(),
    ;
}

/// Element count as a VarInt prefix.
#[derive(Debug, PartialEq, Eq, Clone, Copy, Hash, Structural)]
pub struct VarIntLength;

impl ArrayLength for VarIntLength {
    open spec fn mode_spec() -> LengthMode {
        LengthMode::Count
    }

    fn mode() -> (r: LengthMode) {
        LengthMode::Count
    }
}

/// Payload byte size as a VarInt prefix.
#[derive(Debug, PartialEq, Eq, Clone, Copy, Hash, Structural)]
pub struct VarIntLengthInBytes;

impl ArrayLength for VarIntLengthInBytes {
    open spec fn mode_spec() -> LengthMode {
        LengthMode::SizeInBytes
    }

    fn mode() -> (r: LengthMode) {
        LengthMode::SizeInBytes
    }
}

/// Exactly `L` elements, with no prefix on the wire.
#[derive(Debug, PartialEq, Eq, Clone, Copy)]
pub struct FixedLength<const L: usize>;

impl<const L: usize> ArrayLength for FixedLength<L> {
    open spec fn mode_spec() -> LengthMode {
        LengthMode::Fixed(L)
    }

    fn mode() -> (r: LengthMode) {
        LengthMode::Fixed(L)
    }
}

/// No prefix; the array runs to the end of its frame. Only valid as the
/// last field of its packet.
#[derive(Debug, PartialEq, Eq, Clone, Copy, Hash, Structural)]
pub struct PacketInferredInBytes;

impl ArrayLength for PacketInferredInBytes {
    open spec fn mode_spec() -> LengthMode {
        LengthMode::InferredInBytes
    }

    fn mode() -> (r: LengthMode) {
        LengthMode::InferredInBytes
    }
}

/// The concatenated encodings of a sequence of values, in order.
pub open spec fn seq_encoding<T: Encodable>(s: Seq<T>) -> Seq<u8>
    decreases s.len(),
{
    if s.len() == 0 {
        Seq::empty()
    } else {
        s[0].encoding() + seq_encoding(s.skip(1))
    }
}

/// Whether every element of a sequence is encodable.
pub open spec fn seq_encodable<T: Encodable>(s: Seq<T>) -> bool {
    forall|i: int| 0 <= i < s.len() ==> s[i].encodable()
}

/// Concatenation distributes over sequence encoding.
pub proof fn lemma_seq_encoding_append<T: Encodable>(s1: Seq<T>, s2: Seq<T>)
    ensures
        seq_encoding(s1 + s2) == seq_encoding(s1) + seq_encoding(s2),
    decreases s1.len(),
{
    if s1.len() == 0 {
        assert(s1 + s2 =~= s2);
        assert(seq_encoding(s1) + seq_encoding(s2) =~= seq_encoding(s2));
    } else {
        assert((s1 + s2)[0] == s1[0]);
        assert((s1 + s2).skip(1) =~= s1.skip(1) + s2);
        lemma_seq_encoding_append(s1.skip(1), s2);
        assert(s1[0].encoding() + (seq_encoding(s1.skip(1)) + seq_encoding(s2)) =~= (
        s1[0].encoding() + seq_encoding(s1.skip(1))) + seq_encoding(s2));
    }
}

/// Encoding one more element appends that element's encoding.
pub proof fn lemma_seq_encoding_snoc<T: Encodable>(s: Seq<T>, i: int)
    requires
        0 <= i < s.len(),
    ensures
        seq_encoding(s.take(i + 1)) == seq_encoding(s.take(i)) + s[i].encoding(),
{
    assert(s.take(i + 1) =~= s.take(i) + seq![s[i]]);
    lemma_seq_encoding_append(s.take(i), seq![s[i]]);
    assert(seq![s[i]].skip(1) =~= Seq::<T>::empty());
    assert(seq_encoding::<T>(Seq::empty()) == Seq::<u8>::empty());
    assert(seq_encoding(seq![s[i]]) == s[i].encoding() + Seq::<u8>::empty());
    assert(s[i].encoding() + Seq::<u8>::empty() =~= s[i].encoding());
}

/// The outcome of decoding exactly `k` elements from the front of `s`.
pub open spec fn spec_decode_count_elems<T: Decodable>(s: Seq<u8>, k: nat) -> Result<
    (int, Seq<T::V>),
    DecodeError,
>
    decreases k,
{
    if k == 0 {
        Ok((0int, Seq::empty()))
    } else {
        match T::spec_decode(s) {
            Ok(p) => match spec_decode_count_elems::<T>(s.skip(p.0), (k - 1) as nat) {
                Ok(q) => Ok((p.0 + q.0, seq![p.1] + q.1)),
                Err(e) => Err(e),
            },
            Err(e) => Err(e),
        }
    }
}

/// The outcome of decoding elements from the front of `s` until exactly
/// `budget` bytes are consumed. An element that makes no progress, or one
/// that crosses the byte boundary, makes the value malformed.
pub open spec fn spec_decode_byte_budget<T: Decodable>(s: Seq<u8>, budget: nat) -> Result<
    (int, Seq<T::V>),
    DecodeError,
>
    decreases budget,
{
    if budget == 0 {
        Ok((0int, Seq::empty()))
    } else {
        match T::spec_decode(s) {
            Ok(p) => if p.0 <= 0 || p.0 > budget {
                Err(DecodeError::LengthMismatch)
            } else {
                match spec_decode_byte_budget::<T>(s.skip(p.0), (budget - p.0) as nat) {
                    Ok(q) => Ok((p.0 + q.0, seq![p.1] + q.1)),
                    Err(e) => Err(e),
                }
            },
            Err(e) => Err(e),
        }
    }
}

/// The outcome of decoding elements from `s` until no byte is left.
pub open spec fn spec_decode_to_end<T: Decodable>(s: Seq<u8>) -> Result<
    (int, Seq<T::V>),
    DecodeError,
>
    decreases s.len(),
{
    if s.len() == 0 {
        Ok((0int, Seq::empty()))
    } else {
        match T::spec_decode(s) {
            Ok(p) => if p.0 <= 0 || p.0 > s.len() {
                Err(DecodeError::LengthMismatch)
            } else {
                match spec_decode_to_end::<T>(s.skip(p.0)) {
                    Ok(q) => Ok((p.0 + q.0, seq![p.1] + q.1)),
                    Err(e) => Err(e),
                }
            },
            Err(e) => Err(e),
        }
    }
}

/// Decode exactly `count` elements from the frame.
fn decode_count_elems<T: Decodable>(f: &mut ReceivedPacket, count: usize) -> (r: Result<
    Vec<T>,
    DecodeError,
>)
    requires
        old(f).wf(),
    ensures
        final(f).wf(),
        final(f).buf_spec() == old(f).buf_spec(),
        old(f).pos_spec() <= final(f).pos_spec(),
        match spec_decode_count_elems::<T>(old(f).rest(), count as nat) {
            Ok(p) => r matches Ok(v) && views_of(v@) == p.1 && final(f).pos_spec() == old(
                f,
            ).pos_spec() + p.0,
            Err(e) => r matches Err(e2) && e2 == e,
        },
{
    let mut elems: Vec<T> = Vec::new();
    let mut remaining = count;
    while remaining > 0
        invariant
            old(f).wf(),
            f.wf(),
            f.buf_spec() == old(f).buf_spec(),
            old(f).pos_spec() <= f.pos_spec(),
            remaining <= count,
            match spec_decode_count_elems::<T>(f.rest(), remaining as nat) {
                Ok(p) => spec_decode_count_elems::<T>(old(f).rest(), count as nat) == Ok::<
                    (int, Seq<T::V>),
                    DecodeError,
                >((f.pos_spec() - old(f).pos_spec() + p.0, views_of(elems@) + p.1)),
                Err(e) => spec_decode_count_elems::<T>(old(f).rest(), count as nat) == Err::<
                    (int, Seq<T::V>),
                    DecodeError,
                >(e),
            },
        decreases remaining,
    {
        let ghost fpre = *f;
        let ghost epre = elems@;
        let elem = match T::decode(f) {
            Ok(v) => v,
            Err(e) => {
                return Err(e);
            },
        };
        proof {
            let p = T::spec_decode(fpre.rest()).unwrap();
            assert(f.rest() =~= fpre.rest().skip(p.0));
        }
        elems.push(elem);
        remaining = remaining - 1;
        proof {
            let p = T::spec_decode(fpre.rest()).unwrap();
            assert(views_of(elems@) =~= views_of(epre) + seq![p.1]);
            match spec_decode_count_elems::<T>(f.rest(), remaining as nat) {
                Ok(q) => {
                    assert((views_of(epre) + seq![p.1]) + q.1 =~= views_of(epre) + (seq![p.1]
                        + q.1));
                },
                Err(_) => {},
            }
        }
    }
    proof {
        assert(views_of(elems@) + Seq::<T::V>::empty() =~= views_of(elems@));
    }
    Ok(elems)
}

/// Decode elements until exactly `budget` bytes have been consumed.
fn decode_byte_budget<T: Decodable>(f: &mut ReceivedPacket, budget: usize) -> (r: Result<
    Vec<T>,
    DecodeError,
>)
    requires
        old(f).wf(),
    ensures
        final(f).wf(),
        final(f).buf_spec() == old(f).buf_spec(),
        old(f).pos_spec() <= final(f).pos_spec(),
        match spec_decode_byte_budget::<T>(old(f).rest(), budget as nat) {
            Ok(p) => r matches Ok(v) && views_of(v@) == p.1 && final(f).pos_spec() == old(
                f,
            ).pos_spec() + p.0,
            Err(e) => r matches Err(e2) && e2 == e,
        },
{
    let mut elems: Vec<T> = Vec::new();
    let mut remaining = budget;
    while remaining > 0
        invariant
            old(f).wf(),
            f.wf(),
            f.buf_spec() == old(f).buf_spec(),
            old(f).pos_spec() <= f.pos_spec(),
            remaining <= budget,
            match spec_decode_byte_budget::<T>(f.rest(), remaining as nat) {
                Ok(p) => spec_decode_byte_budget::<T>(old(f).rest(), budget as nat) == Ok::<
                    (int, Seq<T::V>),
                    DecodeError,
                >((f.pos_spec() - old(f).pos_spec() + p.0, views_of(elems@) + p.1)),
                Err(e) => spec_decode_byte_budget::<T>(old(f).rest(), budget as nat) == Err::<
                    (int, Seq<T::V>),
                    DecodeError,
                >(e),
            },
        decreases remaining,
    {
        let ghost fpre = *f;
        let ghost epre = elems@;
        let before = f.remaining();
        let elem = match T::decode(f) {
            Ok(v) => v,
            Err(e) => {
                return Err(e);
            },
        };
        let after = f.remaining();
        let consumed = before - after;
        proof {
            let p = T::spec_decode(fpre.rest()).unwrap();
            assert(consumed == p.0);
        }
        if consumed == 0 || consumed > remaining {
            return Err(DecodeError::LengthMismatch);
        }
        proof {
            let p = T::spec_decode(fpre.rest()).unwrap();
            assert(f.rest() =~= fpre.rest().skip(p.0));
        }
        elems.push(elem);
        remaining = remaining - consumed;
        proof {
            let p = T::spec_decode(fpre.rest()).unwrap();
            assert(views_of(elems@) =~= views_of(epre) + seq![p.1]);
            match spec_decode_byte_budget::<T>(f.rest(), remaining as nat) {
                Ok(q) => {
                    assert((views_of(epre) + seq![p.1]) + q.1 =~= views_of(epre) + (seq![p.1]
                        + q.1));
                },
                Err(_) => {},
            }
        }
    }
    proof {
        assert(views_of(elems@) + Seq::<T::V>::empty() =~= views_of(elems@));
    }
    Ok(elems)
}

/// Decode elements until the frame has no byte left.
fn decode_to_end<T: Decodable>(f: &mut ReceivedPacket) -> (r: Result<Vec<T>, DecodeError>)
    requires
        old(f).wf(),
    ensures
        final(f).wf(),
        final(f).buf_spec() == old(f).buf_spec(),
        old(f).pos_spec() <= final(f).pos_spec(),
        match spec_decode_to_end::<T>(old(f).rest()) {
            Ok(p) => r matches Ok(v) && views_of(v@) == p.1 && final(f).pos_spec() == old(
                f,
            ).pos_spec() + p.0,
            Err(e) => r matches Err(e2) && e2 == e,
        },
{
    let mut elems: Vec<T> = Vec::new();
    let mut left = f.remaining();
    while left > 0
        invariant
            old(f).wf(),
            f.wf(),
            f.buf_spec() == old(f).buf_spec(),
            old(f).pos_spec() <= f.pos_spec(),
            left == f.rest().len(),
            match spec_decode_to_end::<T>(f.rest()) {
                Ok(p) => spec_decode_to_end::<T>(old(f).rest()) == Ok::<
                    (int, Seq<T::V>),
                    DecodeError,
                >((f.pos_spec() - old(f).pos_spec() + p.0, views_of(elems@) + p.1)),
                Err(e) => spec_decode_to_end::<T>(old(f).rest()) == Err::<
                    (int, Seq<T::V>),
                    DecodeError,
                >(e),
            },
        decreases left,
    {
        let ghost fpre = *f;
        let ghost epre = elems@;
        let before = f.remaining();
        let elem = match T::decode(f) {
            Ok(v) => v,
            Err(e) => {
                return Err(e);
            },
        };
        let after = f.remaining();
        let consumed = before - after;
        proof {
            let p = T::spec_decode(fpre.rest()).unwrap();
            assert(consumed == p.0);
        }
        if consumed == 0 {
            return Err(DecodeError::LengthMismatch);
        }
        proof {
            let p = T::spec_decode(fpre.rest()).unwrap();
            assert(f.rest() =~= fpre.rest().skip(p.0));
        }
        elems.push(elem);
        left = after;
        proof {
            let p = T::spec_decode(fpre.rest()).unwrap();
            assert(views_of(elems@) =~= views_of(epre) + seq![p.1]);
            match spec_decode_to_end::<T>(f.rest()) {
                Ok(q) => {
                    assert((views_of(epre) + seq![p.1]) + q.1 =~= views_of(epre) + (seq![p.1]
                        + q.1));
                },
                Err(_) => {},
            }
        }
    }
    proof {
        assert(views_of(elems@) + Seq::<T::V>::empty() =~= views_of(elems@));
    }
    Ok(elems)
}

/// A sequence of values with a length convention chosen by the marker type
/// `L`. On the wire: the convention's prefix, then each element's encoding
/// in order.
#[derive(Debug, PartialEq, Eq, Hash)]
pub struct Array<L, T> {
    pub inner: Vec<T>,
    pub _phantom: PhantomData<L>,
}

impl<L, T: View> View for Array<L, T> {
    type V = Seq<T::V>;

    open spec fn view(&self) -> Seq<T::V> {
        views_of(self.inner@)
    }
}

impl<L, T> Array<L, T> {
    /// Wrap a vector of elements.
    pub fn from_vec(inner: Vec<T>) -> (r: Self)
        ensures
            r.inner@ == inner@,
    {
        Array { inner, _phantom: PhantomData }
    }

    /// The elements, by shared reference.
    pub fn iter(&self) -> (r: &Vec<T>)
        ensures
            r == &self.inner,
    {
        &self.inner
    }

    /// The elements, by mutable reference.
    pub fn iter_mut(&mut self) -> (r: &mut Vec<T>)
        ensures
            *r == old(self).inner,
            final(self).inner == *final(r),
    {
        &mut self.inner
    }
}

impl<L, T: Clone> Array<L, T> {
    /// Build from a fixed-size array of elements.
    pub fn from_fixed<const N: usize>(fixed: [T; N]) -> (r: Self)
        ensures
            r.inner@.len() == N,
    {
        let mut inner: Vec<T> = Vec::new();
        let mut i: usize = 0;
        while i < N
            invariant
                i <= N,
                inner@.len() == i,
            decreases N - i,
        {
            inner.push(fixed[i].clone());
            i = i + 1;
        }
        Array { inner, _phantom: PhantomData }
    }
}

impl<L: ArrayLength, T: Encodable> Encodable for Array<L, T> {
    open spec fn encodable(&self) -> bool {
        &&& seq_encodable(self.inner@)
        &&& self.inner@.len() < 0x8000_0000
        &&& seq_encoding(self.inner@).len() < 0x8000_0000
        &&& (L::mode_spec() matches LengthMode::Fixed(k) ==> self.inner@.len() == k)
        &&& ((L::mode_spec() == LengthMode::SizeInBytes || L::mode_spec()
            == LengthMode::InferredInBytes) ==> forall|i: int|
            0 <= i < self.inner@.len() ==> #[trigger] self.inner@[i].encoding().len() >= 1)
    }

    open spec fn encoding(&self) -> Seq<u8> {
        match L::mode_spec() {
            LengthMode::Count => leb128::spec_build_var_int(self.inner@.len() as i32)
                + seq_encoding(self.inner@),
            LengthMode::SizeInBytes => leb128::spec_build_var_int(
                seq_encoding(self.inner@).len() as i32,
            ) + seq_encoding(self.inner@),
            LengthMode::Fixed(_) => seq_encoding(self.inner@),
            LengthMode::InferredInBytes => seq_encoding(self.inner@),
        }
    }

    fn encode(&self, out: &mut Vec<u8>) -> (n: usize) {
        let start = out.len();
        let mut tmp: Vec<u8> = Vec::new();
        let mut i: usize = 0;
        while i < self.inner.len()
            invariant
                i <= self.inner@.len(),
                seq_encodable(self.inner@) ==> tmp@ == seq_encoding(self.inner@.take(i as int)),
            decreases self.inner@.len() - i,
        {
            let ghost tpre = tmp@;
            let _ = self.inner[i].encode(&mut tmp);
            i = i + 1;
            proof {
                if seq_encodable(self.inner@) {
                    lemma_seq_encoding_snoc(self.inner@, i - 1);
                }
            }
        }
        proof {
            if seq_encodable(self.inner@) {
                assert(self.inner@.take(self.inner@.len() as int) =~= self.inner@);
            }
        }
        let _ = match L::mode() {
            LengthMode::Count => VarInt(
                #[verifier::truncate] (self.inner.len() as i32),
            ).encode(out),
            LengthMode::SizeInBytes => VarInt(#[verifier::truncate] (tmp.len() as i32)).encode(out),
            LengthMode::Fixed(_) => 0,
            LengthMode::InferredInBytes => 0,
        };
        out.append(&mut tmp);
        proof {
            if self.encodable() {
                assert(out@ =~= old(out)@ + self.encoding());
            }
            assert(old(out)@.is_prefix_of(out@)) by {
                assert(old(out)@ =~= out@.take(old(out)@.len() as int));
            }
        }
        out.len() - start
    }
}

impl<L: ArrayLength, T: Decodable> Decodable for Array<L, T> {
    open spec fn spec_decode(s: Seq<u8>) -> Result<(int, Seq<T::V>), DecodeError> {
        match L::mode_spec() {
            LengthMode::Count => match leb128::spec_read_var_int(s) {
                Ok(p) => if p.1 < 0 {
                    Err(DecodeError::InvalidLength(p.1))
                } else {
                    match spec_decode_count_elems::<T>(s.skip(p.0), p.1 as nat) {
                        Ok(q) => Ok((p.0 + q.0, q.1)),
                        Err(e) => Err(e),
                    }
                },
                Err(e) => Err(e),
            },
            LengthMode::SizeInBytes => match leb128::spec_read_var_int(s) {
                Ok(p) => if p.1 < 0 {
                    Err(DecodeError::InvalidLength(p.1))
                } else {
                    match spec_decode_byte_budget::<T>(s.skip(p.0), p.1 as nat) {
                        Ok(q) => Ok((p.0 + q.0, q.1)),
                        Err(e) => Err(e),
                    }
                },
                Err(e) => Err(e),
            },
            LengthMode::Fixed(k) => spec_decode_count_elems::<T>(s, k as nat),
            LengthMode::InferredInBytes => spec_decode_to_end::<T>(s),
        }
    }

    fn decode(f: &mut ReceivedPacket) -> (r: Result<Self, DecodeError>) {
        let ghost s = old(f).rest();
        match L::mode() {
            LengthMode::Count => {
                let (n, c) = match leb128::read_var_int(f) {
                    Ok(p) => p,
                    Err(e) => {
                        return Err(e);
                    },
                };
                if c < 0 {
                    return Err(DecodeError::InvalidLength(c));
                }
                proof {
                    assert(f.rest() =~= s.skip(n as int));
                }
                match decode_count_elems::<T>(f, c as usize) {
                    Ok(inner) => Ok(Array { inner, _phantom: PhantomData }),
                    Err(e) => Err(e),
                }
            },
            LengthMode::SizeInBytes => {
                let (n, c) = match leb128::read_var_int(f) {
                    Ok(p) => p,
                    Err(e) => {
                        return Err(e);
                    },
                };
                if c < 0 {
                    return Err(DecodeError::InvalidLength(c));
                }
                proof {
                    assert(f.rest() =~= s.skip(n as int));
                }
                match decode_byte_budget::<T>(f, c as usize) {
                    Ok(inner) => Ok(Array { inner, _phantom: PhantomData }),
                    Err(e) => Err(e),
                }
            },
            LengthMode::Fixed(k) => {
                match decode_count_elems::<T>(f, k) {
                    Ok(inner) => Ok(Array { inner, _phantom: PhantomData }),
                    Err(e) => Err(e),
                }
            },
            LengthMode::InferredInBytes => {
                match decode_to_end::<T>(f) {
                    Ok(inner) => Ok(Array { inner, _phantom: PhantomData }),
                    Err(e) => Err(e),
                }
            },
        }
    }
}

/// Decoding a count of elements inverts encoding them, element by element.
pub proof fn lemma_count_elems_round_trip<T: Lossless>(elems: Seq<T>, tail: Seq<u8>)
    requires
        seq_encodable(elems),
    ensures
        spec_decode_count_elems::<T>(seq_encoding(elems) + tail, elems.len() as nat) == Ok::<
            (int, Seq<T::V>),
            DecodeError,
        >((seq_encoding(elems).len() as int, views_of(elems))),
    decreases elems.len(),
{
    if elems.len() == 0 {
        assert(views_of(elems) =~= Seq::<T::V>::empty());
    } else {
        let head = elems[0];
        let rest = elems.skip(1);
        let s = seq_encoding(elems) + tail;
        assert(s =~= head.encoding() + (seq_encoding(rest) + tail));
        head.lemma_round_trip(seq_encoding(rest) + tail);
        assert(s.skip(head.encoding().len() as int) =~= seq_encoding(rest) + tail);
        lemma_count_elems_round_trip(rest, tail);
        assert(views_of(elems) =~= seq![head@] + views_of(rest));
    }
}

/// Decoding under a byte budget inverts encoding when each element takes at
/// least one byte and the budget is the payload's exact size.
pub proof fn lemma_byte_budget_round_trip<T: Lossless>(elems: Seq<T>, tail: Seq<u8>)
    requires
        seq_encodable(elems),
        forall|i: int| 0 <= i < elems.len() ==> #[trigger] elems[i].encoding().len() >= 1,
    ensures
        spec_decode_byte_budget::<T>(seq_encoding(elems) + tail, seq_encoding(elems).len() as nat)
            == Ok::<(int, Seq<T::V>), DecodeError>(
            (seq_encoding(elems).len() as int, views_of(elems)),
        ),
    decreases elems.len(),
{
    if elems.len() == 0 {
        assert(views_of(elems) =~= Seq::<T::V>::empty());
    } else {
        let head = elems[0];
        let rest = elems.skip(1);
        let s = seq_encoding(elems) + tail;
        assert(s =~= head.encoding() + (seq_encoding(rest) + tail));
        head.lemma_round_trip(seq_encoding(rest) + tail);
        assert(s.skip(head.encoding().len() as int) =~= seq_encoding(rest) + tail);
        lemma_byte_budget_round_trip(rest, tail);
        assert(views_of(elems) =~= seq![head@] + views_of(rest));
    }
}

/// Decoding to the end of the input inverts encoding when each element
/// takes at least one byte and nothing follows the payload.
pub proof fn lemma_to_end_round_trip<T: Lossless>(elems: Seq<T>)
    requires
        seq_encodable(elems),
        forall|i: int| 0 <= i < elems.len() ==> #[trigger] elems[i].encoding().len() >= 1,
    ensures
        spec_decode_to_end::<T>(seq_encoding(elems)) == Ok::<(int, Seq<T::V>), DecodeError>(
            (seq_encoding(elems).len() as int, views_of(elems)),
        ),
    decreases elems.len(),
{
    if elems.len() == 0 {
        assert(views_of(elems) =~= Seq::<T::V>::empty());
    } else {
        let head = elems[0];
        let rest = elems.skip(1);
        let s = seq_encoding(elems);
        assert(s =~= head.encoding() + seq_encoding(rest));
        head.lemma_round_trip(seq_encoding(rest));
        assert(s.skip(head.encoding().len() as int) =~= seq_encoding(rest));
        lemma_to_end_round_trip(rest);
        assert(views_of(elems) =~= seq![head@] + views_of(rest));
    }
}

impl<T: Lossless> Lossless for Array<VarIntLength, T> {
    proof fn lemma_round_trip(&self, tail: Seq<u8>) {
        let elems = self.inner@;
        let payload = seq_encoding(elems);
        let c = elems.len() as i32;
        leb128::lemma_var_int_round_trip(c, payload + tail);
        let prefix = leb128::spec_build_var_int(c);
        let s = self.encoding() + tail;
        assert(s =~= prefix + (payload + tail));
        assert(s.skip(prefix.len() as int) =~= payload + tail);
        lemma_count_elems_round_trip(elems, tail);
    }
}

impl<T: Lossless> Lossless for Array<VarIntLengthInBytes, T> {
    proof fn lemma_round_trip(&self, tail: Seq<u8>) {
        let elems = self.inner@;
        let payload = seq_encoding(elems);
        let c = payload.len() as i32;
        leb128::lemma_var_int_round_trip(c, payload + tail);
        let prefix = leb128::spec_build_var_int(c);
        let s = self.encoding() + tail;
        assert(s =~= prefix + (payload + tail));
        assert(s.skip(prefix.len() as int) =~= payload + tail);
        lemma_byte_budget_round_trip(elems, tail);
    }
}

impl<const N: usize, T: Lossless> Lossless for Array<FixedLength<N>, T> {
    proof fn lemma_round_trip(&self, tail: Seq<u8>) {
        let elems = self.inner@;
        let payload = seq_encoding(elems);
        let s = self.encoding() + tail;
        assert(s =~= payload + tail);
        lemma_count_elems_round_trip(elems, tail);
    }
}

} // verus!
