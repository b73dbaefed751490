//! Server-side core of the Minecraft Java Edition 1.20.1 (protocol 763)
//! network stack: wire primitives, variable-length framing, the packet
//! catalog, and the per-connection phase machine.
//!
//! Every value's wire form is pinned down by spec functions: `Encodable`
//! types state the exact byte sequence they produce, `Decodable` types state
//! the exact outcome (value, bytes consumed, or error) for every input, and
//! `Lossless` types carry the proof that decoding an encoding gives the
//! original value back.
use vstd::prelude::*;

pub mod client;
pub mod client_bound;
pub mod common;
pub mod packet;
pub mod primitive;
pub mod server_bound;

verus! {

/// How a decode can fail. Mirrors the protocol's error kinds: framing and
/// primitive errors carry the offending raw value where one exists, and an
/// unknown packet id names both the id and the phase it arrived in.
#[derive(Debug, Clone, Copy, PartialEq, Eq, Hash, Structural)]
pub enum DecodeError {
    /// The input ended before the value's last byte.
    UnexpectedEnd,
    /// A variable-length integer carried a continuation bit in its fifth byte.
    VarIntTooBig,
    /// A boolean byte other than 0 or 1.
    InvalidBool(u8),
    /// A length-prefixed value declared a negative length.
    InvalidLength(i32),
    /// A declared byte budget that element boundaries do not meet exactly.
    LengthMismatch,
    /// Bytes that are not valid UTF-8 where a string was expected.
    InvalidUtf8,
    /// A handshake next-state value other than 1 or 2.
    UnknownNextState(i32),
    /// A game-mode byte outside the defined range.
    InvalidGameMode(i8),
    /// A bit-flag byte with bits set outside the defined mask.
    InvalidFlags(u8),
    /// A packed position whose fields fall outside the valid coordinate ranges.
    InvalidPosition,
    /// A packet id with no packet in the current phase, naming id and phase.
    UnknownPacketId(i32, crate::common::State),
    /// Bytes left over in a frame after its packet was fully decoded.
    TrailingBytes,
    /// A packet of a different kind than the caller assumed.
    UnexpectedPacket,
    /// A value whose wire format is not implemented.
    Unsupported,
}

/// A sequence is a prefix of itself followed by anything.
pub proof fn lemma_append_prefix(a: Seq<u8>, b: Seq<u8>)
    ensures
        a.is_prefix_of(a + b),
{
    assert(a =~= (a + b).take(a.len() as int));
}

/// Skipping a concatenation's first part leaves its second part.
pub proof fn lemma_concat_skip(a: Seq<u8>, b: Seq<u8>)
    ensures
        (a + b).skip(a.len() as int) == b,
{
    assert((a + b).skip(a.len() as int) =~= b);
}

/// Two skips compose into one.
pub proof fn lemma_skip_skip(s: Seq<u8>, a: int, b: int)
    requires
        0 <= a,
        0 <= b,
        a + b <= s.len(),
    ensures
        s.skip(a).skip(b) == s.skip(a + b),
{
    assert(s.skip(a).skip(b) =~= s.skip(a + b));
}

/// Map each element of a sequence to its mathematical view.
pub open spec fn views_of<T: View>(s: Seq<T>) -> Seq<T::V> {
    s.map_values(|t: T| t@)
}

/// One received frame: the body of a packet (id and payload) after the
/// length prefix has been stripped, together with a read cursor. Decoders
/// consume bytes by advancing the cursor; a fully handled frame must end
/// with the cursor at the end of the buffer.
#[derive(Debug, Clone)]
pub struct ReceivedPacket {
    buf: Vec<u8>,
    pos: usize,
}

impl ReceivedPacket {
    /// The whole frame body.
    pub closed spec fn buf_spec(&self) -> Seq<u8> {
        self.buf@
    }

    /// The cursor: how many bytes have been consumed.
    pub closed spec fn pos_spec(&self) -> int {
        self.pos as int
    }

    /// The cursor never passes the end of the buffer.
    pub open spec fn wf(&self) -> bool {
        0 <= self.pos_spec() <= self.buf_spec().len()
    }

    /// The bytes not yet consumed.
    pub open spec fn rest(&self) -> Seq<u8> {
        self.buf_spec().skip(self.pos_spec())
    }

    /// Wrap a frame body in a cursor positioned at its start.
    pub fn new(buf: Vec<u8>) -> (r: Self)
        ensures
            r.wf(),
            r.buf_spec() == buf@,
            r.pos_spec() == 0,
            r.rest() == buf@,
    {
        let r = ReceivedPacket { buf, pos: 0 };
        proof {
            assert(r.rest() =~= r.buf_spec());
        }
        r
    }

    /// How many bytes are left to consume.
    pub fn remaining(&self) -> (n: usize)
        requires
            self.wf(),
        ensures
            n == self.rest().len(),
    {
        self.buf.len() - self.pos
    }

    /// Read one byte and advance.
    pub fn read_byte(&mut self) -> (r: Result<u8, DecodeError>)
        requires
            old(self).wf(),
        ensures
            final(self).wf(),
            final(self).buf_spec() == old(self).buf_spec(),
            old(self).rest().len() == 0 ==> r == Err::<u8, DecodeError>(
                DecodeError::UnexpectedEnd,
            ) && *final(self) == *old(self),
            old(self).rest().len() > 0 ==> r == Ok::<u8, DecodeError>(old(self).rest()[0])
                && final(self).pos_spec() == old(self).pos_spec() + 1,
    {
        if self.pos < self.buf.len() {
            let b = self.buf[self.pos];
            self.pos = self.pos + 1;
            Ok(b)
        } else {
            Err(DecodeError::UnexpectedEnd)
        }
    }

    /// Read exactly `n` bytes and advance; fail without moving if fewer remain.
    pub fn read_bytes(&mut self, n: usize) -> (r: Result<Vec<u8>, DecodeError>)
        requires
            old(self).wf(),
        ensures
            final(self).wf(),
            final(self).buf_spec() == old(self).buf_spec(),
            old(self).rest().len() < n ==> r == Err::<Vec<u8>, DecodeError>(
                DecodeError::UnexpectedEnd,
            ) && *final(self) == *old(self),
            old(self).rest().len() >= n ==> (r matches Ok(v) && v@ == old(self).rest().take(
                n as int,
            ) && final(self).pos_spec() == old(self).pos_spec() + n),
    {
        if n > self.buf.len() - self.pos {
            return Err(DecodeError::UnexpectedEnd);
        }
        let mut out: Vec<u8> = Vec::new();
        let mut i: usize = 0;
        while i < n
            invariant
                self.wf(),
                i <= n,
                n <= self.buf@.len() - self.pos,
                self.pos + n <= usize::MAX,
                out@ == self.rest().take(i as int),
            decreases n - i,
        {
            let b = self.buf[self.pos + i];
            out.push(b);
            i = i + 1;
            proof {
                assert(out@ =~= self.rest().take(i as int));
            }
        }
        self.pos = self.pos + n;
        Ok(out)
    }
}

/// A frame body already encoded (packet id and payload), waiting for the
/// framing layer to prefix its length and send it.
#[derive(Debug, Clone)]
pub struct BuiltPacket {
    buf: Vec<u8>,
}

impl View for BuiltPacket {
    type V = Seq<u8>;

    closed spec fn view(&self) -> Seq<u8> {
        self.buf@
    }
}

impl BuiltPacket {
    /// Wrap an encoded frame body.
    pub fn from_bytes(buf: Vec<u8>) -> (r: Self)
        ensures
            r@ == buf@,
    {
        BuiltPacket { buf }
    }

    /// The body bytes.
    pub fn bytes(&self) -> (r: &Vec<u8>)
        ensures
            r@ == self@,
    {
        &self.buf
    }
}

/// Why a typed send was refused: the connection's phase, then the packet's
/// single legal phase.
#[derive(Debug, PartialEq, Eq, Clone, Copy, Hash, Structural)]
pub enum SendError {
    PhaseMismatch(crate::common::State, crate::common::State),
}

/// Frame a packet body for the wire with neither compression nor
/// encryption: its byte length as a VarInt, then the body.
pub fn frame_plain_no_compression(packet: &BuiltPacket) -> (v: Vec<u8>)
    requires
        packet@.len() < 0x8000_0000,
    ensures
        v@ == crate::primitive::leb128::spec_build_var_int(packet@.len() as i32) + packet@,
{
    let body = packet.bytes();
    let mut data = crate::primitive::leb128::build_var_int(body.len() as i32);
    let ghost prefix = data@;
    let mut i: usize = 0;
    while i < body.len()
        invariant
            i <= body@.len(),
            data@ == prefix + body@.take(i as int),
        decreases body@.len() - i,
    {
        data.push(body[i]);
        i = i + 1;
        proof {
            assert(data@ =~= prefix + body@.take(i as int));
        }
    }
    proof {
        assert(data@ =~= prefix + packet@);
    }
    data
}

/// One peer's connection state: the protocol phase and the transform
/// seams. The driver owns no socket; the surrounding application moves the
/// bytes and consults the driver for what is legal and how to frame it.
#[derive(Debug)]
pub struct Client {
    state: crate::common::State,
    compression: crate::common::Compression,
    encryption: crate::common::Encryption,
    compression_threshold: i32,
}

impl Client {
    /// The current phase.
    pub closed spec fn state_spec(&self) -> crate::common::State {
        self.state
    }

    /// The current compression mode.
    pub closed spec fn compression_spec(&self) -> crate::common::Compression {
        self.compression
    }

    /// The current encryption mode.
    pub closed spec fn encryption_spec(&self) -> crate::common::Encryption {
        self.encryption
    }

    /// The negotiated compression threshold.
    pub closed spec fn compression_threshold_spec(&self) -> i32 {
        self.compression_threshold
    }

    /// A fresh connection: handshaking, with both transforms disabled.
    pub fn new() -> (r: Self)
        ensures
            r.state_spec() == crate::common::State::Handshaking,
            r.compression_spec() == crate::common::Compression::Disabled,
            r.encryption_spec() == crate::common::Encryption::Disabled,
    {
        Client {
            state: crate::common::State::Handshaking,
            compression: crate::common::Compression::Disabled,
            encryption: crate::common::Encryption::Disabled,
            compression_threshold: 0,
        }
    }

    /// The current phase.
    pub fn state(&self) -> (r: crate::common::State)
        ensures
            r == self.state_spec(),
    {
        self.state
    }

    /// The current compression mode.
    pub fn compression(&self) -> (r: crate::common::Compression)
        ensures
            r == self.compression_spec(),
    {
        self.compression
    }

    /// The current encryption mode.
    pub fn encryption(&self) -> (r: crate::common::Encryption)
        ensures
            r == self.encryption_spec(),
    {
        self.encryption
    }

    /// Move to a new phase. Sequencing is the caller's responsibility.
    pub fn set_state(&mut self, state: crate::common::State)
        ensures
            final(self).state_spec() == state,
            final(self).compression_spec() == old(self).compression_spec(),
            final(self).encryption_spec() == old(self).encryption_spec(),
    {
        self.state = state;
    }

    /// Enable compression with the given threshold; to be called only
    /// after a compression announcement has been sent.
    pub fn set_compression(&mut self, threshold: i32)
        ensures
            final(self).compression_spec() == crate::common::Compression::Enabled,
            final(self).compression_threshold_spec() == threshold,
            final(self).state_spec() == old(self).state_spec(),
            final(self).encryption_spec() == old(self).encryption_spec(),
    {
        self.compression = crate::common::Compression::Enabled;
        self.compression_threshold = threshold;
    }

    /// Build a typed packet's frame body, succeeding exactly when the
    /// connection's phase is the packet's single legal phase.
    pub fn send_packet<P: crate::client_bound::ClientBoundPacket>(&self, packet: &P) -> (r: Result<
        BuiltPacket,
        SendError,
    >)
        requires
            self.compression_spec() == crate::common::Compression::Disabled,
            self.encryption_spec() == crate::common::Encryption::Disabled,
        ensures
            (r is Ok) <==> self.state_spec() == P::valid_state_spec(),
            r matches Ok(b) ==> (packet.encodable() ==> b@
                == crate::primitive::leb128::spec_build_var_int(P::packet_id_spec())
                + packet.encoding()),
            r matches Err(e) ==> e == SendError::PhaseMismatch(
                self.state_spec(),
                P::valid_state_spec(),
            ),
    {
        let legal = P::valid_state();
        if self.state == legal {
            packet.verify(self.state);
            Ok(packet.to_packet())
        } else {
            Err(SendError::PhaseMismatch(self.state, legal))
        }
    }

    /// Frame an already-built packet body for the wire.
    pub fn send_built_packet(&self, packet: &BuiltPacket) -> (v: Vec<u8>)
        requires
            self.compression_spec() == crate::common::Compression::Disabled,
            self.encryption_spec() == crate::common::Encryption::Disabled,
            packet@.len() < 0x8000_0000,
        ensures
            v@ == crate::primitive::leb128::spec_build_var_int(packet@.len() as i32) + packet@,
    {
        frame_plain_no_compression(packet)
    }

    /// Accept the body of one frame, already stripped of its length
    /// prefix, as a cursor the phase parsers can consume.
    pub fn receive_packet(&self, body: Vec<u8>) -> (r: ReceivedPacket)
        requires
            self.compression_spec() == crate::common::Compression::Disabled,
            self.encryption_spec() == crate::common::Encryption::Disabled,
        ensures
            r.wf(),
            r.rest() == body@,
    {
        ReceivedPacket::new(body)
    }
}

impl ReceivedPacket {
    /// Interpret the whole frame as a handshaking-phase packet. Succeeds
    /// exactly when the frame parses and nothing is left over.
    pub fn as_handshaking(self) -> (r: Result<
        crate::server_bound::Handshaking,
        (DecodeError, ReceivedPacket),
    >)
        requires
            self.wf(),
        ensures
            match crate::server_bound::spec_parse_cluster::<crate::server_bound::Handshaking>(
                self.rest(),
            ) {
                Ok(p) => if p.0 == self.rest().len() {
                    r matches Ok(v) && v@ == p.1
                } else {
                    r matches Err(q) && q.0 == DecodeError::TrailingBytes
                },
                Err(e) => r matches Err(q) && q.0 == e,
            },
    {
        let mut f = self;
        match crate::server_bound::PacketCluster::parse(&mut f) {
            Ok(v) => {
                if f.remaining() == 0 {
                    Ok(v)
                } else {
                    Err((DecodeError::TrailingBytes, f))
                }
            },
            Err(e) => Err((e, f)),
        }
    }

    /// Interpret the whole frame as a status-phase packet. Succeeds
    /// exactly when the frame parses and nothing is left over.
    pub fn as_status(self) -> (r: Result<
        crate::server_bound::Status,
        (DecodeError, ReceivedPacket),
    >)
        requires
            self.wf(),
        ensures
            match crate::server_bound::spec_parse_cluster::<crate::server_bound::Status>(
                self.rest(),
            ) {
                Ok(p) => if p.0 == self.rest().len() {
                    r matches Ok(v) && v@ == p.1
                } else {
                    r matches Err(q) && q.0 == DecodeError::TrailingBytes
                },
                Err(e) => r matches Err(q) && q.0 == e,
            },
    {
        let mut f = self;
        match crate::server_bound::PacketCluster::parse(&mut f) {
            Ok(v) => {
                if f.remaining() == 0 {
                    Ok(v)
                } else {
                    Err((DecodeError::TrailingBytes, f))
                }
            },
            Err(e) => Err((e, f)),
        }
    }

    /// Interpret the whole frame as a login-phase packet. Succeeds exactly
    /// when the frame parses and nothing is left over.
    pub fn as_login(self) -> (r: Result<crate::server_bound::Login, (DecodeError, ReceivedPacket)>)
        requires
            self.wf(),
        ensures
            match crate::server_bound::spec_parse_cluster::<crate::server_bound::Login>(
                self.rest(),
            ) {
                Ok(p) => if p.0 == self.rest().len() {
                    r matches Ok(v) && v@ == p.1
                } else {
                    r matches Err(q) && q.0 == DecodeError::TrailingBytes
                },
                Err(e) => r matches Err(q) && q.0 == e,
            },
    {
        let mut f = self;
        match crate::server_bound::PacketCluster::parse(&mut f) {
            Ok(v) => {
                if f.remaining() == 0 {
                    Ok(v)
                } else {
                    Err((DecodeError::TrailingBytes, f))
                }
            },
            Err(e) => Err((e, f)),
        }
    }

    /// Interpret the whole frame as a play-phase packet. Succeeds exactly
    /// when the frame parses and nothing is left over.
    pub fn as_play(self) -> (r: Result<crate::server_bound::Play, (DecodeError, ReceivedPacket)>)
        requires
            self.wf(),
        ensures
            match crate::server_bound::spec_parse_cluster::<crate::server_bound::Play>(
                self.rest(),
            ) {
                Ok(p) => if p.0 == self.rest().len() {
                    r matches Ok(v) && v@ == p.1
                } else {
                    r matches Err(q) && q.0 == DecodeError::TrailingBytes
                },
                Err(e) => r matches Err(q) && q.0 == e,
            },
    {
        let mut f = self;
        match crate::server_bound::PacketCluster::parse(&mut f) {
            Ok(v) => {
                if f.remaining() == 0 {
                    Ok(v)
                } else {
                    Err((DecodeError::TrailingBytes, f))
                }
            },
            Err(e) => Err((e, f)),
        }
    }
}

/// A value with an exact wire form. `encoding` is the byte sequence the
/// value serializes to; `encode` appends exactly those bytes and reports
/// their count. `encodable` excludes only values whose serialized size
/// cannot be represented in the format's 32-bit length prefixes.
pub trait Encodable: View {
    /// Whether the value's serialized form is representable.
    spec fn encodable(&self) -> bool;

    /// The exact bytes the value serializes to.
    spec fn encoding(&self) -> Seq<u8>;

    /// Append the value's wire form to `out`, returning the byte count.
    fn encode(&self, out: &mut Vec<u8>) -> (n: usize)
        ensures
            old(out)@.is_prefix_of(final(out)@),
            self.encodable() ==> final(out)@ == old(out)@ + self.encoding() && n
                == self.encoding().len(),
    ;
}

/// A value that can be read back from the wire. `spec_decode` fixes, for
/// every byte sequence, either the number of bytes consumed and the
/// mathematical view of the value read, or the exact error; `decode` is
/// proved to agree with it.
pub trait Decodable: Sized + View {
    /// The exact outcome of decoding from the front of `s`.
    spec fn spec_decode(s: Seq<u8>) -> Result<(int, Self::V), DecodeError>;

    /// Read one value from the frame, advancing the cursor past it.
    fn decode(f: &mut ReceivedPacket) -> (r: Result<Self, DecodeError>)
        requires
            old(f).wf(),
        ensures
            final(f).wf(),
            final(f).buf_spec() == old(f).buf_spec(),
            old(f).pos_spec() <= final(f).pos_spec(),
            match Self::spec_decode(old(f).rest()) {
                Ok(p) => r matches Ok(v) && v@ == p.1 && final(f).pos_spec() == old(f).pos_spec()
                    + p.0,
                Err(e) => r matches Err(e2) && e2 == e,
            },
    ;
}

/// The round-trip law: decoding an encoded value consumes exactly the
/// encoding and yields the value back, whatever bytes follow.
pub trait Lossless: Encodable + Decodable {
    /// Decode inverts encode on every encodable value.
    proof fn lemma_round_trip(&self, tail: Seq<u8>)
        requires
            self.encodable(),
        ensures
            Self::spec_decode(self.encoding() + tail) == Ok::<(int, Self::V), DecodeError>(
                (self.encoding().len() as int, self@),
            ),
    ;
}

} // verus!
